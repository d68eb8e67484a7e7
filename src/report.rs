//! The failure report: one line per failed reference.
use crate::text::{
    decimal, has_no_newline, lemma_concat_no_newline, lemma_decimal_no_newline,
    lemma_spaces_no_newline, pad_right, push_decimal, push_padded, spaces,
};
use crate::validate::ValidationError;
use vstd::prelude::*;

verus! {

/// Width of the status column.
pub const STATUS_WIDTH: usize = 10;

/// The status column: the numeric status, `---` where the service sent
/// none, `ambiguous` for an ambiguous reference.
pub open spec fn status_label(e: ValidationError) -> Seq<char> {
    match e {
        ValidationError::Ambiguous { .. } => "ambiguous"@,
        _ => match e.status_view() {
            Some(c) => decimal(c as nat),
            None => "---"@,
        },
    }
}

pub open spec fn line_of(e: ValidationError) -> Seq<char> {
    "ERROR "@ + pad_right(status_label(e), STATUS_WIDTH as nat) + " "@ + e.url_view()
}

/// Each failure's line, ended by a newline, in order.
pub open spec fn report_text(errors: Seq<ValidationError>) -> Seq<char>
    decreases errors.len(),
{
    if errors.len() == 0 {
        Seq::empty()
    } else {
        report_text(errors.drop_last()) + line_of(errors.last()) + seq!['\n']
    }
}

pub open spec fn count_newlines(s: Seq<char>) -> nat
    decreases s.len(),
{
    if s.len() == 0 {
        0
    } else {
        count_newlines(s.drop_last()) + if s.last() == '\n' {
            1nat
        } else {
            0nat
        }
    }
}

/// The report line of one failure.
pub fn report_line(e: &ValidationError) -> (r: String)
    ensures
        r@ == line_of(*e),
{
    let mut label = String::new();
    match e {
        ValidationError::Ambiguous { .. } => label.append("ambiguous"),
        _ => match e.status_code() {
            Some(c) => push_decimal(&mut label, c as u64),
            None => label.append("---"),
        },
    }
    assert(label@ =~= status_label(*e));
    let mut s = String::from_str("ERROR ");
    push_padded(&mut s, label.as_str(), STATUS_WIDTH);
    s.append(" ");
    s.append(e.url());
    s
}

/// The whole report: one line per failure, in order.
pub fn render_report(errors: &Vec<ValidationError>) -> (r: String)
    ensures
        r@ == report_text(errors@),
{
    let mut out = String::new();
    let mut i: usize = 0;
    while i < errors.len()
        invariant
            i <= errors@.len(),
            out@ == report_text(errors@.subrange(0, i as int)),
        decreases errors@.len() - i,
    {
        let line = report_line(&errors[i]);
        out.append(line.as_str());
        out.append("\n");
        proof {
            reveal_strlit("\n");
            assert(errors@.subrange(0, i + 1).drop_last() =~= errors@.subrange(0, i as int));
        }
        i = i + 1;
    }
    assert(errors@.subrange(0, errors@.len() as int) =~= errors@);
    out
}

proof fn lemma_count_concat(a: Seq<char>, b: Seq<char>)
    ensures
        count_newlines(a + b) == count_newlines(a) + count_newlines(b),
    decreases b.len(),
{
    if b.len() > 0 {
        lemma_count_concat(a, b.drop_last());
        assert((a + b).drop_last() =~= a + b.drop_last());
    } else {
        assert(a + b =~= a);
    }
}

proof fn lemma_count_none(s: Seq<char>)
    requires
        has_no_newline(s),
    ensures
        count_newlines(s) == 0,
    decreases s.len(),
{
    if s.len() > 0 {
        assert(s.last() == s[s.len() - 1]);
        lemma_count_none(s.drop_last());
    }
}

proof fn lemma_line_no_newline(e: ValidationError)
    requires
        has_no_newline(e.url_view()),
    ensures
        has_no_newline(line_of(e)),
{
    reveal_strlit("ERROR ");
    reveal_strlit(" ");
    reveal_strlit("---");
    reveal_strlit("ambiguous");
    let label = status_label(e);
    if let Some(c) = e.status_view() {
        lemma_decimal_no_newline(c as nat);
    }
    assert(has_no_newline(label));
    if label.len() < STATUS_WIDTH {
        lemma_spaces_no_newline((STATUS_WIDTH - label.len()) as nat);
        lemma_concat_no_newline(label, spaces((STATUS_WIDTH - label.len()) as nat));
    }
    let padded = pad_right(label, STATUS_WIDTH as nat);
    lemma_concat_no_newline("ERROR "@, padded);
    lemma_concat_no_newline("ERROR "@ + padded, " "@);
    lemma_concat_no_newline("ERROR "@ + padded + " "@, e.url_view());
}

/// Where no reference line holds a newline, the report holds exactly one
/// line per failure: as many newlines as failures, none for no failure.
pub proof fn lemma_one_line_per_failure(errors: Seq<ValidationError>)
    requires
        forall|i: int| 0 <= i < errors.len() ==> has_no_newline(#[trigger] errors[i].url_view()),
    ensures
        count_newlines(report_text(errors)) == errors.len(),
        errors.len() == 0 ==> report_text(errors).len() == 0,
    decreases errors.len(),
{
    if errors.len() > 0 {
        let rest = errors.drop_last();
        assert forall|i: int| 0 <= i < rest.len() implies has_no_newline(
            #[trigger] rest[i].url_view(),
        ) by {
            assert(rest[i] == errors[i]);
        }
        lemma_one_line_per_failure(rest);
        assert(has_no_newline(errors[errors.len() - 1].url_view()));
        let line = line_of(errors.last());
        lemma_line_no_newline(errors.last());
        lemma_count_none(line);
        lemma_count_concat(report_text(rest), line);
        lemma_count_concat(report_text(rest) + line, seq!['\n']);
        let nl = seq!['\n'];
        assert(nl.drop_last() =~= Seq::<char>::empty());
        assert(nl.last() == '\n');
        assert(count_newlines(nl.drop_last()) == 0);
        assert(count_newlines(nl) == 1);
    }
}

} // verus!
