//! The reference grammar: `<prefix><name_id>[#<entry_id>[/<file_id>]]`.
use vstd::prelude::*;

verus! {

pub open spec fn is_ascii_digit(c: char) -> bool {
    '0' <= c && c <= '9'
}

/// A non-empty run of ASCII digits.
pub open spec fn is_digits(s: Seq<char>) -> bool {
    s.len() > 0 && forall|i: int| 0 <= i < s.len() ==> #[trigger] is_ascii_digit(s[i])
}

/// A non-empty name identifier holding neither `/` nor `#`.
pub open spec fn is_name_id(s: Seq<char>) -> bool {
    s.len() > 0 && forall|i: int| 0 <= i < s.len() ==> #[trigger] s[i] != '/' && s[i] != '#'
}

/// `tail` is `name`, optionally followed by `#entry`, itself optionally
/// followed by `/file`.
pub open spec fn is_tail_of(
    tail: Seq<char>,
    name: Seq<char>,
    entry: Option<Seq<char>>,
    file: Option<Seq<char>>,
) -> bool {
    is_name_id(name) && match entry {
        None => file is None && tail == name,
        Some(e) => is_digits(e) && match file {
            None => tail == name + seq!['#'] + e,
            Some(f) => is_digits(f) && tail == name + seq!['#'] + e + seq!['/'] + f,
        },
    }
}

pub open spec fn matches_tail(tail: Seq<char>) -> bool {
    exists|n: Seq<char>, e: Option<Seq<char>>, f: Option<Seq<char>>| is_tail_of(tail, n, e, f)
}

pub open spec fn has_prefix(s: Seq<char>, prefix: Seq<char>) -> bool {
    prefix.len() <= s.len() && s.subrange(0, prefix.len() as int) == prefix
}

pub open spec fn tail_after(s: Seq<char>, prefix: Seq<char>) -> Seq<char> {
    s.subrange(prefix.len() as int, s.len() as int)
}

/// Whether `line` is a reference under the pattern with the given prefix.
pub open spec fn matches_reference(prefix: Seq<char>, line: Seq<char>) -> bool {
    has_prefix(line, prefix) && matches_tail(tail_after(line, prefix))
}

pub open spec fn opt_view(o: Option<String>) -> Option<Seq<char>> {
    match o {
        Some(s) => Some(s@),
        None => None,
    }
}

/// The components of a decomposition, read off by index.
proof fn lemma_tail_indices(
    t: Seq<char>,
    n: Seq<char>,
    e: Option<Seq<char>>,
    f: Option<Seq<char>>,
)
    requires
        is_tail_of(t, n, e, f),
    ensures
        1 <= n.len() <= t.len(),
        forall|j: int| 0 <= j < n.len() ==> #[trigger] t[j] != '/' && t[j] != '#',
        e is None ==> t.len() == n.len(),
        e matches Some(x) ==> {
            &&& n.len() + 1 + x.len() <= t.len()
            &&& t[n.len() as int] == '#'
            &&& x.len() >= 1
            &&& forall|j: int|
                n.len() + 1 <= j < n.len() + 1 + x.len() ==> #[trigger] is_ascii_digit(t[j])
            &&& (f is None ==> t.len() == n.len() + 1 + x.len())
            &&& (f matches Some(y) ==> {
                &&& t.len() == n.len() + 2 + x.len() + y.len()
                &&& t[n.len() + 1 + x.len() as int] == '/'
                &&& y.len() >= 1
                &&& forall|j: int|
                    n.len() + 2 + x.len() <= j < t.len() ==> #[trigger] is_ascii_digit(t[j])
            })
        },
{
    assert forall|j: int| 0 <= j < n.len() implies #[trigger] t[j] != '/' && t[j] != '#' by {
        assert(t[j] == n[j]);
    }
    if let Some(x) = e {
        assert forall|j: int| n.len() + 1 <= j < n.len() + 1 + x.len() implies #[trigger] is_ascii_digit(
            t[j],
        ) by {
            assert(t[j] == x[j - n.len() - 1]);
        }
        if let Some(y) = f {
            assert forall|j: int| n.len() + 2 + x.len() <= j < t.len() implies #[trigger] is_ascii_digit(
                t[j],
            ) by {
                assert(t[j] == y[j - n.len() - 2 - x.len()]);
            }
        }
    }
}

/// A reference taken from one input line: the line itself and its parts.
pub struct Reference {
    url: String,
    name_id: String,
    entry_id: Option<String>,
    file_id: Option<String>,
}

impl Reference {
    pub closed spec fn url_view(&self) -> Seq<char> {
        self.url@
    }

    pub closed spec fn name_view(&self) -> Seq<char> {
        self.name_id@
    }

    pub closed spec fn entry_view(&self) -> Option<Seq<char>> {
        opt_view(self.entry_id)
    }

    pub closed spec fn file_view(&self) -> Option<Seq<char>> {
        opt_view(self.file_id)
    }

    /// The line starts with `prefix` and the parts are the decomposition of the rest.
    pub open spec fn wf_for(&self, prefix: Seq<char>) -> bool {
        has_prefix(self.url_view(), prefix) && is_tail_of(
            tail_after(self.url_view(), prefix),
            self.name_view(),
            self.entry_view(),
            self.file_view(),
        )
    }

    /// The line the reference was read from.
    pub fn url(&self) -> (r: &str)
        ensures
            r@ == self.url_view(),
    {
        self.url.as_str()
    }

    pub fn name_id(&self) -> (r: &str)
        ensures
            r@ == self.name_view(),
    {
        self.name_id.as_str()
    }

    pub fn entry_id(&self) -> (r: Option<&str>)
        ensures
            r is Some <==> self.entry_view() is Some,
            r matches Some(s) ==> self.entry_view() == Some(s@),
    {
        match &self.entry_id {
            Some(s) => Some(s.as_str()),
            None => None,
        }
    }

    pub fn file_id(&self) -> (r: Option<&str>)
        ensures
            r is Some <==> self.file_view() is Some,
            r matches Some(s) ==> self.file_view() == Some(s@),
    {
        match &self.file_id {
            Some(s) => Some(s.as_str()),
            None => None,
        }
    }
}

/// The pattern that reference lines follow, fixed by its leading
/// `scheme://host/path/` part.
pub struct ReferencePattern {
    prefix: String,
}

impl ReferencePattern {
    pub closed spec fn prefix(&self) -> Seq<char> {
        self.prefix@
    }

    pub fn new(prefix: &str) -> (r: ReferencePattern)
        ensures
            r.prefix() == prefix@,
    {
        ReferencePattern { prefix: String::from_str(prefix) }
    }

    /// The pattern of mod pages of the catalog.
    pub fn mod_io() -> (r: ReferencePattern)
        ensures
            r.prefix() == "https://mod.io/g/drg/m/"@,
    {
        ReferencePattern::new("https://mod.io/g/drg/m/")
    }

    pub fn is_match(&self, line: &str) -> (r: bool)
        ensures
            r == matches_reference(self.prefix(), line@),
    {
        self.parse(line).is_some()
    }

    /// Splits a line into a reference, or `None` where it does not match.
    pub fn parse(&self, line: &str) -> (r: Option<Reference>)
        ensures
            r is Some <==> matches_reference(self.prefix(), line@),
            r matches Some(x) ==> x.url_view() == line@ && x.wf_for(self.prefix()),
    {
        let n = line.unicode_len();
        let p = self.prefix.as_str().unicode_len();
        if p > n {
            return None;
        }
        let head = String::from_str(line.substring_char(0, p));
        if !(head == self.prefix) {
            return None;
        }
        let t = line.substring_char(p, n);
        assert(t@ == tail_after(line@, self.prefix()));
        match parse_tail(t) {
            Some((name_id, entry_id, file_id)) => Some(
                Reference { url: String::from_str(line), name_id, entry_id, file_id },
            ),
            None => None,
        }
    }
}

/// Splits `t` into its name, entry and file parts.
fn parse_tail(t: &str) -> (r: Option<(String, Option<String>, Option<String>)>)
    ensures
        r is Some <==> matches_tail(t@),
        r matches Some(x) ==> is_tail_of(t@, x.0@, opt_view(x.1), opt_view(x.2)),
{
    let m = t.unicode_len();
    let mut h: usize = 0;
    while h < m
        invariant
            m == t@.len(),
            h <= m,
            forall|j: int| 0 <= j < h ==> #[trigger] t@[j] != '/' && t@[j] != '#',
        ensures
            h <= m,
            h == m || t@[h as int] == '#',
            forall|j: int| 0 <= j < h ==> #[trigger] t@[j] != '/' && t@[j] != '#',
        decreases m - h,
    {
        let c = t.get_char(h);
        if c == '#' {
            break;
        }
        if c == '/' {
            proof {
                assert forall|n: Seq<char>, e: Option<Seq<char>>, f: Option<Seq<char>>|
                    !is_tail_of(t@, n, e, f) by {
                    if is_tail_of(t@, n, e, f) {
                        lemma_tail_indices(t@, n, e, f);
                        if n.len() <= h {
                            assert(t@[n.len() as int] == '#' || t@.len() == n.len());
                        }
                    }
                }
            }
            return None;
        }
        h = h + 1;
    }
    proof {
        assert forall|n: Seq<char>, e: Option<Seq<char>>, f: Option<Seq<char>>|
            is_tail_of(t@, n, e, f) implies n.len() == h by {
            lemma_tail_indices(t@, n, e, f);
            if n.len() < h {
                assert(t@[n.len() as int] == '#' || t@.len() == n.len());
            }
            if n.len() > h {
                assert(t@[h as int] == '#');
            }
        }
    }
    if h == 0 {
        proof {
            assert forall|n: Seq<char>, e: Option<Seq<char>>, f: Option<Seq<char>>|
                !is_tail_of(t@, n, e, f) by {
                if is_tail_of(t@, n, e, f) {
                    lemma_tail_indices(t@, n, e, f);
                }
            }
        }
        return None;
    }
    let name_id = String::from_str(t.substring_char(0, h));
    proof {
        assert forall|i: int| 0 <= i < name_id@.len() implies #[trigger] name_id@[i] != '/'
            && name_id@[i] != '#' by {
            assert(name_id@[i] == t@[i]);
        }
    }
    if h == m {
        assert(t@ =~= name_id@);
        assert(is_tail_of(t@, name_id@, None, None));
        return Some((name_id, None, None));
    }
    // the entry id: digits after `#`
    let mut j: usize = h + 1;
    while j < m && is_digit_char(t.get_char(j))
        invariant
            m == t@.len(),
            h < m,
            h + 1 <= j <= m,
            forall|k: int| h + 1 <= k < j ==> #[trigger] is_ascii_digit(t@[k]),
        decreases m - j,
    {
        j = j + 1;
    }
    if j == h + 1 || (j < m && t.get_char(j) != '/') {
        proof {
            assert forall|n: Seq<char>, e: Option<Seq<char>>, f: Option<Seq<char>>|
                !is_tail_of(t@, n, e, f) by {
                if is_tail_of(t@, n, e, f) {
                    lemma_tail_indices(t@, n, e, f);
                    if let Some(x) = e {
                        if h + 1 + x.len() > j {
                            assert(is_ascii_digit(t@[j as int]));
                        }
                        if h + 1 + x.len() < j {
                            assert(is_ascii_digit(t@[h + 1 + x.len() as int]));
                        }
                    }
                }
            }
        }
        return None;
    }
    let entry_id = String::from_str(t.substring_char(h + 1, j));
    proof {
        assert forall|i: int| 0 <= i < entry_id@.len() implies #[trigger] is_ascii_digit(
            entry_id@[i],
        ) by {
            assert(entry_id@[i] == t@[h + 1 + i]);
        }
    }
    if j == m {
        assert(t@ =~= name_id@ + seq!['#'] + entry_id@);
        assert(is_tail_of(t@, name_id@, Some(entry_id@), None));
        return Some((name_id, Some(entry_id), None));
    }
    // the file id: digits after `/`, up to the end
    let mut k: usize = j + 1;
    while k < m && is_digit_char(t.get_char(k))
        invariant
            m == t@.len(),
            j < m,
            j + 1 <= k <= m,
            forall|i: int| j + 1 <= i < k ==> #[trigger] is_ascii_digit(t@[i]),
        decreases m - k,
    {
        k = k + 1;
    }
    let is_slash = t.get_char(j) == '/';
    if k == j + 1 || k < m || !is_slash {
        proof {
            assert forall|n: Seq<char>, e: Option<Seq<char>>, f: Option<Seq<char>>|
                !is_tail_of(t@, n, e, f) by {
                if is_tail_of(t@, n, e, f) {
                    lemma_tail_indices(t@, n, e, f);
                    if let Some(x) = e {
                        if h + 1 + x.len() > j {
                            assert(is_ascii_digit(t@[j as int]));
                        }
                        if h + 1 + x.len() < j {
                            assert(is_ascii_digit(t@[h + 1 + x.len() as int]));
                        }
                        if k < m {
                            assert(is_ascii_digit(t@[k as int]));
                        }
                    }
                }
            }
        }
        return None;
    }
    let file_id = String::from_str(t.substring_char(j + 1, m));
    proof {
        assert forall|i: int| 0 <= i < file_id@.len() implies #[trigger] is_ascii_digit(
            file_id@[i],
        ) by {
            assert(file_id@[i] == t@[j + 1 + i]);
        }
    }
    assert(t@ =~= name_id@ + seq!['#'] + entry_id@ + seq!['/'] + file_id@);
    assert(is_tail_of(t@, name_id@, Some(entry_id@), Some(file_id@)));
    Some((name_id, Some(entry_id), Some(file_id)))
}

fn is_digit_char(c: char) -> (r: bool)
    ensures
        r == is_ascii_digit(c),
{
    '0' <= c && c <= '9'
}

} // verus!
