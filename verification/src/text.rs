//! Text as the library sees it: sequences of characters, searched and cut
//! into pieces, and the small-string type that keeps the pieces.
use smol_str::SmolStr;
use vstd::prelude::*;
use vstd::utf8::{encode_utf8, encode_utf8_decode_utf8};

verus! {

/// `smol_str::SmolStr`, an immutable string that is cheap to clone.
#[verifier::external_type_specification]
#[verifier::external_body]
pub struct ExSmolStr(SmolStr);

/// The characters that a `SmolStr` holds.
pub uninterp spec fn smol_text(s: SmolStr) -> Seq<char>;

/// `SmolStr::from_iter` over characters: the new string holds exactly
/// `chars`, in order.
#[verifier::external_body]
pub(crate) fn smol_from_chars(chars: &[char]) -> (s: SmolStr)
    ensures
        smol_text(s) == chars@,
{
    chars.iter().copied().collect()
}

/// `SmolStr::as_str`: the slice handed out holds the string's characters.
pub assume_specification[ SmolStr::as_str ](s: &SmolStr) -> (r: &str)
    ensures
        r@ == smol_text(*s),
;

/// `SmolStr::clone`: the clone holds the same characters.
pub assume_specification[ <SmolStr as Clone>::clone ](s: &SmolStr) -> (r: SmolStr)
    ensures
        smol_text(r) == smol_text(*s),
;

/// Whether `pat` stands in `s` at index `i`.
pub open spec fn occurs_at(s: Seq<char>, pat: Seq<char>, i: int) -> bool {
    0 <= i && i + pat.len() <= s.len() && s.subrange(i, i + pat.len()) == pat
}

/// Whether `i` is the first index at which `pat` stands in `s`.
pub open spec fn is_first_occurrence(s: Seq<char>, pat: Seq<char>, i: int) -> bool {
    occurs_at(s, pat, i) && forall|j: int| 0 <= j < i ==> !occurs_at(s, pat, j)
}

/// The first index at which `pat` stands in `s`, if it stands anywhere.
pub open spec fn first_occurrence(s: Seq<char>, pat: Seq<char>) -> Option<int> {
    if exists|i: int| is_first_occurrence(s, pat, i) {
        Some(choose|i: int| is_first_occurrence(s, pat, i))
    } else {
        None
    }
}

/// There is at most one first occurrence, and `first_occurrence` names it.
pub proof fn lemma_first_occurrence(s: Seq<char>, pat: Seq<char>, i: int)
    requires
        is_first_occurrence(s, pat, i),
    ensures
        first_occurrence(s, pat) == Some(i),
{
    let c = choose|c: int| is_first_occurrence(s, pat, c);
    if c < i {
        assert(!occurs_at(s, pat, c));
    } else if i < c {
        assert(!occurs_at(s, pat, i));
    }
}

/// Where nothing occurs, `first_occurrence` is `None`.
pub proof fn lemma_no_occurrence(s: Seq<char>, pat: Seq<char>)
    requires
        forall|j: int| 0 <= j ==> !occurs_at(s, pat, j),
    ensures
        first_occurrence(s, pat) is None,
{
    assert forall|i: int| !is_first_occurrence(s, pat, i) by {
        if 0 <= i {
            assert(!occurs_at(s, pat, i));
        }
    }
}

/// The characters of `text`, one element each.
pub fn chars_of(text: &str) -> (chars: Vec<char>)
    ensures
        chars@ == text@,
{
    let mut chars: Vec<char> = Vec::new();
    for c in it: text.chars()
        invariant
            chars@ == it.seq().take(it.index() as int),
    {
        chars.push(c);
    }
    chars
}

/// Whether two string slices hold the same characters.
pub fn str_eq(a: &str, b: &str) -> (same: bool)
    ensures
        same == (a@ == b@),
{
    let x = a.as_bytes();
    let y = b.as_bytes();
    proof {
        encode_utf8_decode_utf8(a@);
        encode_utf8_decode_utf8(b@);
    }
    if x.len() != y.len() {
        return false;
    }
    let mut i: usize = 0;
    while i < x.len()
        invariant
            i <= x@.len(),
            x@.len() == y@.len(),
            x@ == encode_utf8(a@),
            y@ == encode_utf8(b@),
            forall|j: int| 0 <= j < i ==> x@[j] == y@[j],
        decreases x@.len() - i,
    {
        if x[i] != y[i] {
            return false;
        }
        i = i + 1;
    }
    proof {
        assert(x@ =~= y@);
    }
    true
}

/// The first index in `lo..hi` at which `pat` stands in that part of
/// `chars`, counted from `lo`.
pub fn find(chars: &[char], lo: usize, hi: usize, pat: &[char]) -> (found: Option<usize>)
    requires
        lo <= hi <= chars@.len(),
    ensures
        match found {
            Some(i) => i + pat@.len() <= hi - lo && first_occurrence(
                chars@.subrange(lo as int, hi as int),
                pat@,
            ) == Some(i as int),
            None => first_occurrence(chars@.subrange(lo as int, hi as int), pat@) is None,
        },
{
    let ghost s = chars@.subrange(lo as int, hi as int);
    let n = hi - lo;
    let m = pat.len();
    if m > n {
        proof {
            lemma_no_occurrence(s, pat@);
        }
        return None;
    }
    let mut i: usize = 0;
    while i <= n - m
        invariant
            lo <= hi <= chars@.len(),
            n == hi - lo,
            m == pat@.len(),
            m <= n,
            s == chars@.subrange(lo as int, hi as int),
            i <= n - m + 1,
            forall|j: int| 0 <= j < i ==> !occurs_at(s, pat@, j),
        decreases n - m + 1 - i,
    {
        let mut k: usize = 0;
        while k < m && chars[lo + i + k] == pat[k]
            invariant
                lo <= hi <= chars@.len(),
                n == hi - lo,
                m == pat@.len(),
                i + m <= n,
                k <= m,
                s == chars@.subrange(lo as int, hi as int),
                forall|t: int| 0 <= t < k ==> s[i + t] == pat@[t],
            decreases m - k,
        {
            k = k + 1;
        }
        if k == m {
            proof {
                assert(s.subrange(i as int, i + m) =~= pat@);
                lemma_first_occurrence(s, pat@, i as int);
            }
            return Some(i);
        }
        proof {
            assert(s.subrange(i as int, i + m)[k as int] == s[i + k]);
        }
        i = i + 1;
    }
    proof {
        lemma_no_occurrence(s, pat@);
    }
    None
}

} // verus!
