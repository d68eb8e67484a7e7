//! Decimal numerals and padding.
use vstd::prelude::*;

verus! {

pub open spec fn digit_char(d: nat) -> char {
    if d == 0 {
        '0'
    } else if d == 1 {
        '1'
    } else if d == 2 {
        '2'
    } else if d == 3 {
        '3'
    } else if d == 4 {
        '4'
    } else if d == 5 {
        '5'
    } else if d == 6 {
        '6'
    } else if d == 7 {
        '7'
    } else if d == 8 {
        '8'
    } else {
        '9'
    }
}

/// The decimal numeral of `n`, without leading zeros.
pub open spec fn decimal(n: nat) -> Seq<char>
    decreases n,
{
    if n < 10 {
        seq![digit_char(n)]
    } else {
        decimal(n / 10).push(digit_char(n % 10))
    }
}

pub open spec fn spaces(k: nat) -> Seq<char>
    decreases k,
{
    if k == 0 {
        Seq::empty()
    } else {
        spaces((k - 1) as nat).push(' ')
    }
}

/// `s` followed by spaces up to `width` characters.
pub open spec fn pad_right(s: Seq<char>, width: nat) -> Seq<char> {
    if s.len() >= width {
        s
    } else {
        s + spaces((width - s.len()) as nat)
    }
}

pub open spec fn has_no_newline(s: Seq<char>) -> bool {
    forall|i: int| 0 <= i < s.len() ==> #[trigger] s[i] != '\n'
}

fn digit_str(d: u64) -> (r: &'static str)
    requires
        d < 10,
    ensures
        r@ == seq![digit_char(d as nat)],
{
    proof {
        reveal_strlit("0");
        reveal_strlit("1");
        reveal_strlit("2");
        reveal_strlit("3");
        reveal_strlit("4");
        reveal_strlit("5");
        reveal_strlit("6");
        reveal_strlit("7");
        reveal_strlit("8");
        reveal_strlit("9");
    }
    let r = match d {
        0 => "0",
        1 => "1",
        2 => "2",
        3 => "3",
        4 => "4",
        5 => "5",
        6 => "6",
        7 => "7",
        8 => "8",
        _ => "9",
    };
    assert(r@ =~= seq![digit_char(d as nat)]);
    r
}

/// Appends the decimal numeral of `n`.
pub fn push_decimal(s: &mut String, n: u64)
    ensures
        final(s)@ == old(s)@ + decimal(n as nat),
    decreases n,
{
    if n >= 10 {
        push_decimal(s, n / 10);
    }
    s.append(digit_str(n % 10));
    assert(final(s)@ =~= old(s)@ + decimal(n as nat));
}

/// Appends `text`, then spaces up to `width` characters of it.
pub fn push_padded(s: &mut String, text: &str, width: usize)
    ensures
        final(s)@ == old(s)@ + pad_right(text@, width as nat),
{
    let len = text.unicode_len();
    s.append(text);
    if len >= width {
        return;
    }
    proof {
        reveal_strlit(" ");
    }
    let ghost base = s@;
    let mut k: usize = 0;
    while k < width - len
        invariant
            len == text@.len(),
            len < width,
            k <= width - len,
            s@ == base + spaces(k as nat),
            " "@ == seq![' '],
        decreases width - len - k,
    {
        s.append(" ");
        k = k + 1;
        assert(s@ =~= base + spaces(k as nat));
    }
    assert(s@ =~= old(s)@ + pad_right(text@, width as nat));
}

pub proof fn lemma_decimal_no_newline(n: nat)
    ensures
        has_no_newline(decimal(n)),
        decimal(n).len() >= 1,
    decreases n,
{
    if n >= 10 {
        lemma_decimal_no_newline(n / 10);
        let d = decimal(n);
        assert forall|i: int| 0 <= i < d.len() implies #[trigger] d[i] != '\n' by {
            if i < d.len() - 1 {
                assert(d[i] == decimal(n / 10)[i]);
            }
        }
    }
}

pub proof fn lemma_spaces_no_newline(k: nat)
    ensures
        has_no_newline(spaces(k)),
        spaces(k).len() == k,
    decreases k,
{
    if k > 0 {
        lemma_spaces_no_newline((k - 1) as nat);
        let s = spaces(k);
        assert forall|i: int| 0 <= i < s.len() implies #[trigger] s[i] != '\n' by {
            if i < s.len() - 1 {
                assert(s[i] == spaces((k - 1) as nat)[i]);
            }
        }
    }
}

pub proof fn lemma_concat_no_newline(a: Seq<char>, b: Seq<char>)
    requires
        has_no_newline(a),
        has_no_newline(b),
    ensures
        has_no_newline(a + b),
{
    assert forall|i: int| 0 <= i < (a + b).len() implies #[trigger] (a + b)[i] != '\n' by {
        if i >= a.len() {
            assert((a + b)[i] == b[i - a.len()]);
        }
    }
}

} // verus!
