//! Reading references out of input lines.
use crate::reference::{matches_reference, Reference, ReferencePattern};
use vstd::prelude::*;

verus! {

pub open spec fn texts(lines: Seq<String>) -> Seq<Seq<char>> {
    lines.map_values(|s: String| s@)
}

/// Line `i` is kept when it matches and differs from the line just before it.
pub open spec fn kept(prefix: Seq<char>, lines: Seq<Seq<char>>, i: int) -> bool {
    matches_reference(prefix, lines[i]) && (i == 0 || lines[i] != lines[i - 1])
}

/// The kept lines, in input order.
pub open spec fn extracted(prefix: Seq<char>, lines: Seq<Seq<char>>) -> Seq<Seq<char>>
    decreases lines.len(),
{
    if lines.len() == 0 {
        Seq::empty()
    } else {
        let rest = extracted(prefix, lines.drop_last());
        if kept(prefix, lines, lines.len() - 1) {
            rest.push(lines.last())
        } else {
            rest
        }
    }
}

pub open spec fn urls(refs: Seq<Reference>) -> Seq<Seq<char>> {
    refs.map_values(|r: Reference| r.url_view())
}

/// The references of `lines`: each matching line that does not repeat the
/// line right before it, in input order.
pub fn extract_references(pattern: &ReferencePattern, lines: &Vec<String>) -> (r: Vec<Reference>)
    ensures
        urls(r@) == extracted(pattern.prefix(), texts(lines@)),
        forall|i: int| 0 <= i < r@.len() ==> #[trigger] r@[i].wf_for(pattern.prefix()),
{
    let ghost prefix = pattern.prefix();
    let ghost all = texts(lines@);
    let mut out: Vec<Reference> = Vec::new();
    let mut i: usize = 0;
    while i < lines.len()
        invariant
            i <= lines@.len(),
            all == texts(lines@),
            prefix == pattern.prefix(),
            urls(out@) == extracted(prefix, all.subrange(0, i as int)),
            forall|k: int| 0 <= k < out@.len() ==> #[trigger] out@[k].wf_for(prefix),
        decreases lines@.len() - i,
    {
        let ghost before = all.subrange(0, i as int);
        let ghost upto = all.subrange(0, i + 1);
        assert(upto.drop_last() =~= before);
        let repeated = i > 0 && lines[i] == lines[i - 1];
        match pattern.parse(lines[i].as_str()) {
            Some(reference) => {
                if !repeated {
                    out.push(reference);
                }
            },
            None => {},
        }
        assert(urls(out@) =~= extracted(prefix, upto));
        i = i + 1;
    }
    assert(all.subrange(0, lines@.len() as int) =~= all);
    out
}

/// Every extracted line matches the pattern.
pub proof fn lemma_extracted_match(prefix: Seq<char>, lines: Seq<Seq<char>>)
    ensures
        forall|i: int|
            0 <= i < extracted(prefix, lines).len() ==> matches_reference(
                prefix,
                #[trigger] extracted(prefix, lines)[i],
            ),
    decreases lines.len(),
{
    if lines.len() > 0 {
        let rest = extracted(prefix, lines.drop_last());
        lemma_extracted_match(prefix, lines.drop_last());
        assert forall|i: int| 0 <= i < extracted(prefix, lines).len() implies matches_reference(
            prefix,
            #[trigger] extracted(prefix, lines)[i],
        ) by {
            if i < rest.len() {
                assert(extracted(prefix, lines)[i] == rest[i]);
            }
        }
    }
}

/// A line that does not match adds nothing to what is extracted.
pub proof fn lemma_non_matching_excluded(prefix: Seq<char>, lines: Seq<Seq<char>>, line: Seq<char>)
    requires
        !matches_reference(prefix, line),
    ensures
        extracted(prefix, lines.push(line)) == extracted(prefix, lines),
{
    assert(lines.push(line).drop_last() =~= lines);
}

/// A line repeated right after itself is extracted once.
pub proof fn lemma_adjacent_repeat_collapses(
    prefix: Seq<char>,
    lines: Seq<Seq<char>>,
    line: Seq<char>,
)
    ensures
        extracted(prefix, lines.push(line).push(line)) == extracted(prefix, lines.push(line)),
{
    assert(lines.push(line).push(line).drop_last() =~= lines.push(line));
}

/// A matching line that differs from the line before it is extracted, even
/// where it occurred earlier.
pub proof fn lemma_non_adjacent_kept(prefix: Seq<char>, lines: Seq<Seq<char>>, line: Seq<char>)
    requires
        matches_reference(prefix, line),
        lines.len() == 0 || lines.last() != line,
    ensures
        extracted(prefix, lines.push(line)) == extracted(prefix, lines).push(line),
{
    assert(lines.push(line).drop_last() =~= lines);
}

} // verus!
