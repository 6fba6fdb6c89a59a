//! Character-level string utilities: whitespace trimming, substring search,
//! equality, and the two small trusted bridges to `std` (appending a single
//! character, case folding).

use vstd::prelude::*;
use vstd::string::*;

verus! {

/// The whitespace characters that trimming removes.
pub open spec fn is_ws_char(c: char) -> bool {
    c == ' ' || c == '\t' || c == '\n' || c == '\r'
}

/// Number of leading whitespace characters.
pub open spec fn ws_prefix_len(s: Seq<char>) -> int
    decreases s.len(),
{
    if s.len() > 0 && is_ws_char(s[0]) {
        1 + ws_prefix_len(s.drop_first())
    } else {
        0
    }
}

/// Number of trailing whitespace characters.
pub open spec fn ws_suffix_len(s: Seq<char>) -> int
    decreases s.len(),
{
    if s.len() > 0 && is_ws_char(s[s.len() - 1]) {
        1 + ws_suffix_len(s.drop_last())
    } else {
        0
    }
}

/// The string with leading and trailing whitespace removed.
pub open spec fn spec_trim(s: Seq<char>) -> Seq<char> {
    let a = ws_prefix_len(s);
    if a == s.len() {
        Seq::empty()
    } else {
        s.subrange(a, s.len() - ws_suffix_len(s))
    }
}

proof fn lemma_ws_prefix_at(s: Seq<char>, a: int)
    requires
        0 <= a <= s.len(),
        forall|k: int| 0 <= k < a ==> is_ws_char(s[k]),
        a == s.len() || !is_ws_char(s[a]),
    ensures
        ws_prefix_len(s) == a,
    decreases s.len(),
{
    if a == 0 {
    } else {
        lemma_ws_prefix_at(s.drop_first(), a - 1);
    }
}

proof fn lemma_ws_suffix_at(s: Seq<char>, b: int)
    requires
        0 <= b <= s.len(),
        forall|k: int| b <= k < s.len() ==> is_ws_char(s[k]),
        b == 0 || !is_ws_char(s[b - 1]),
    ensures
        ws_suffix_len(s) == s.len() - b,
    decreases s.len(),
{
    if b == s.len() {
    } else {
        lemma_ws_suffix_at(s.drop_last(), b);
    }
}

/// Executable test for a whitespace character.
pub fn is_ws(c: char) -> (r: bool)
    ensures
        r == is_ws_char(c),
{
    c == ' ' || c == '\t' || c == '\n' || c == '\r'
}

/// Remove leading and trailing whitespace.
pub fn trim_str<'a>(s: &'a str) -> (r: &'a str)
    ensures
        r@ == spec_trim(s@),
{
    let n = s.unicode_len();
    let mut a: usize = 0;
    while a < n && is_ws(s.get_char(a))
        invariant
            0 <= a <= n,
            n == s@.len(),
            forall|k: int| 0 <= k < a ==> is_ws_char(s@[k]),
        decreases n - a,
    {
        a = a + 1;
    }
    proof {
        lemma_ws_prefix_at(s@, a as int);
    }
    if a == n {
        let empty = "";
        proof {
            reveal_strlit("");
        }
        return empty;
    }
    let mut b: usize = n;
    while b > a && is_ws(s.get_char(b - 1))
        invariant
            a <= b <= n,
            n == s@.len(),
            a < n,
            !is_ws_char(s@[a as int]),
            forall|k: int| b <= k < n ==> is_ws_char(s@[k]),
        decreases b,
    {
        b = b - 1;
    }
    proof {
        assert(!is_ws_char(s@[b - 1]));
        lemma_ws_suffix_at(s@, b as int);
    }
    s.substring_char(a, b)
}

/// `needle` occurs in `hay` as a contiguous run of characters.
pub open spec fn spec_contains(hay: Seq<char>, needle: Seq<char>) -> bool {
    exists|i: int|
        0 <= i && i + needle.len() <= hay.len() && #[trigger] hay.subrange(i, i + needle.len())
            == needle
}

/// Substring search by characters.
pub fn str_contains(hay: &str, needle: &str) -> (r: bool)
    ensures
        r == spec_contains(hay@, needle@),
{
    let hl = hay.unicode_len();
    let nl = needle.unicode_len();
    if nl > hl {
        return false;
    }
    if nl == 0 {
        proof {
            assert(0 + needle@.len() <= hay@.len());
            assert(hay@.subrange(0, 0 + needle@.len() as int) =~= needle@);
        }
        return true;
    }
    let mut i: usize = 0;
    while i <= hl - nl
        invariant
            1 <= nl <= hl,
            hl == hay@.len(),
            nl == needle@.len(),
            0 <= i <= hl - nl + 1,
            forall|t: int| 0 <= t < i ==> #[trigger] hay@.subrange(t, t + needle@.len()) != needle@,
        decreases hl - i,
    {
        let mut j: usize = 0;
        let mut mismatch = false;
        while j < nl && !mismatch
            invariant
                0 <= j <= nl,
                nl <= hl,
                i <= hl - nl,
                hl == hay@.len(),
                nl == needle@.len(),
                !mismatch ==> forall|k: int| 0 <= k < j ==> hay@[i + k] == needle@[k],
                mismatch ==> hay@.subrange(i as int, i + needle@.len()) != needle@,
            decreases nl - j + (if mismatch { 0int } else { 1int }),
        {
            if hay.get_char(i + j) != needle.get_char(j) {
                proof {
                    assert(hay@.subrange(i as int, i + needle@.len())[j as int] == hay@[i + j]);
                }
                mismatch = true;
            } else {
                j = j + 1;
            }
        }
        if !mismatch {
            proof {
                assert(hay@.subrange(i as int, i + needle@.len()) =~= needle@);
            }
            return true;
        }
        i = i + 1;
    }
    proof {
        assert(forall|t: int|
            0 <= t && t + needle@.len() <= hay@.len() ==> #[trigger] hay@.subrange(
                t,
                t + needle@.len(),
            ) != needle@);
    }
    false
}

/// Character-for-character string equality.
pub fn str_eq(a: &str, b: &str) -> (r: bool)
    ensures
        r == (a@ == b@),
{
    let sa = a.to_owned();
    let sb = b.to_owned();
    sa == sb
}

/// One side a `String`, the other a `&str`.
pub fn string_eq_str(a: &String, b: &str) -> (r: bool)
    ensures
        r == (a@ == b@),
{
    str_eq(a.as_str(), b)
}

/// What `str::to_lowercase` returns; it depends on the characters alone.
pub uninterp spec fn lower_of(s: Seq<char>) -> Seq<char>;

/// Relies on `str::to_lowercase`: case folding is a pure function of the
/// input characters, and an empty string stays empty.
#[verifier::external_body]
pub fn lowercase(s: &str) -> (r: String)
    ensures
        r@ == lower_of(s@),
        s@.len() == 0 ==> r@.len() == 0,
{
    s.to_lowercase()
}

/// Relies on `String::push`: appends exactly the one character.
#[verifier::external_body]
pub fn push_char(s: &mut String, c: char)
    ensures
        final(s)@ == old(s)@.push(c),
{
    s.push(c)
}

} // verus!
