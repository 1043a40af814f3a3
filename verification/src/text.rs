use vstd::prelude::*;

verus! {

/// ASCII lower case of one character: `A`..`Z` become `a`..`z`, every other
/// character stays as it is.
pub open spec fn lower_char(c: char) -> char {
    if 'A' <= c && c <= 'Z' {
        ((c as u32) + 32) as char
    } else {
        c
    }
}

/// ASCII lower case of a text, as `str::to_ascii_lowercase` computes it.
pub open spec fn ascii_lower(s: Seq<char>) -> Seq<char> {
    s.map_values(|c: char| lower_char(c))
}

/// Whether `lower_char(c) == d`.
fn lower_char_is(c: char, d: char) -> (r: bool)
    ensures
        r == (lower_char(c) == d),
{
    if 'A' <= c && c <= 'Z' {
        (c as u32) + 32 == (d as u32)
    } else {
        c == d
    }
}

/// Whether the ASCII lower case of `s` is `lit`.
pub fn lower_is(s: &String, lit: &str) -> (r: bool)
    ensures
        r == (ascii_lower(s@) == lit@),
{
    let a = s.as_str();
    let n = a.unicode_len();
    let m = lit.unicode_len();
    if n != m {
        assert(ascii_lower(s@).len() != lit@.len());
        return false;
    }
    let mut i: usize = 0;
    while i < n
        invariant
            n == a@.len(),
            a@ == s@,
            m == lit@.len(),
            n == m,
            i <= n,
            forall|j: int| 0 <= j < i ==> lower_char(#[trigger] a@[j]) == lit@[j],
        decreases n - i,
    {
        let c = a.get_char(i);
        let d = lit.get_char(i);
        if !lower_char_is(c, d) {
            assert(ascii_lower(s@)[i as int] != lit@[i as int]);
            return false;
        }
        i += 1;
    }
    assert(ascii_lower(s@) =~= lit@);
    true
}

/// Whether `s` is exactly `lit`.
pub fn text_is(s: &String, lit: &str) -> (r: bool)
    ensures
        r == (s@ == lit@),
{
    let a = s.as_str();
    let n = a.unicode_len();
    let m = lit.unicode_len();
    if n != m {
        return false;
    }
    let mut i: usize = 0;
    while i < n
        invariant
            n == a@.len(),
            a@ == s@,
            m == lit@.len(),
            n == m,
            i <= n,
            forall|j: int| 0 <= j < i ==> #[trigger] a@[j] == lit@[j],
        decreases n - i,
    {
        let c = a.get_char(i);
        let d = lit.get_char(i);
        if c != d {
            return false;
        }
        i += 1;
    }
    assert(s@ =~= lit@);
    true
}

} // verus!
