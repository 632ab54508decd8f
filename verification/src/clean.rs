//! Text cleaning: ASCII filtering and diacritic removal via Unicode canonical
//! decomposition. Both transforms are pure and per-element; a null element
//! stays null.

use vstd::prelude::*;
use vstd::string::StrSliceExecFns;
use unicode_normalization::UnicodeNormalization;

verus! {

/// Whether a character's scalar value is in the ASCII range.
pub open spec fn is_ascii_char(c: char) -> bool {
    (c as u32) < 128
}

/// The subsequence of characters in the ASCII range, in order.
pub open spec fn ascii_only(s: Seq<char>) -> Seq<char> {
    s.filter(|c: char| is_ascii_char(c))
}

/// Appending one character filters to the old result, extended by the
/// character exactly when it is ASCII.
proof fn lemma_ascii_only_push(s: Seq<char>, x: char)
    ensures
        ascii_only(s.push(x)) == if is_ascii_char(x) {
            ascii_only(s).push(x)
        } else {
            ascii_only(s)
        },
{
    reveal(Seq::filter);
    assert(s.push(x).drop_last() =~= s);
}

/// Law: filtering to the ASCII range is idempotent.
pub proof fn lemma_ascii_only_idempotent(s: Seq<char>)
    ensures
        ascii_only(ascii_only(s)) == ascii_only(s),
    decreases s.len(),
{
    reveal(Seq::filter);
    if s.len() > 0 {
        lemma_ascii_only_idempotent(s.drop_last());
        assert(s.drop_last().push(s.last()) =~= s);
        lemma_ascii_only_push(s.drop_last(), s.last());
        if is_ascii_char(s.last()) {
            lemma_ascii_only_push(ascii_only(s.drop_last()), s.last());
        }
    }
}

/// Canonical decomposition (NFD) of a character sequence, a function of the
/// characters alone; its exact statement is left to the external normalizer.
pub uninterp spec fn nfd_of(s: Seq<char>) -> Seq<char>;

/// Relies on unicode_normalization's `nfd`: Unicode canonical decomposition,
/// a function of the characters alone; an empty string stays empty.
#[verifier::external_body]
fn nfd_string(s: &str) -> (r: String)
    ensures
        r@ == nfd_of(s@),
        s@.len() == 0 ==> r@.len() == 0,
{
    s.nfd().collect()
}

/// Relies on `String`'s `FromIterator` over characters: the collected string
/// holds exactly the given characters, in order.
#[verifier::external_body]
fn string_from_chars(v: Vec<char>) -> (r: String)
    ensures
        r@ == v@,
{
    v.into_iter().collect()
}

/// Removes every character whose scalar value is outside the ASCII range,
/// preserving the order of the remaining characters.
pub fn remove_non_ascii(s: &str) -> (r: String)
    ensures
        r@ == ascii_only(s@),
{
    let n = s.unicode_len();
    let mut kept: Vec<char> = Vec::new();
    let mut i: usize = 0;
    while i < n
        invariant
            n == s@.len(),
            i <= n,
            kept@ == ascii_only(s@.subrange(0, i as int)),
        decreases n - i,
    {
        let c = s.get_char(i);
        proof {
            assert(s@.subrange(0, i + 1) =~= s@.subrange(0, i as int).push(s@[i as int]));
            lemma_ascii_only_push(s@.subrange(0, i as int), s@[i as int]);
        }
        if (c as u32) < 128 {
            kept.push(c);
        }
        i += 1;
    }
    proof {
        assert(s@.subrange(0, n as int) =~= s@);
    }
    string_from_chars(kept)
}

/// Applies Unicode canonical decomposition, then keeps only ASCII-range
/// characters: base letters stay while combining diacritical marks, which
/// decompose outside the ASCII range, fall away.
pub fn remove_diacritics(s: &str) -> (r: String)
    ensures
        r@ == ascii_only(nfd_of(s@)),
{
    let d = nfd_string(s);
    remove_non_ascii(d.as_str())
}

/// The cleaned characters of one element, null if the element is null.
pub open spec fn clean_ascii_elem(x: Option<String>) -> Option<Seq<char>> {
    match x {
        None => None,
        Some(s) => Some(ascii_only(s@)),
    }
}

/// The decomposed and cleaned characters of one element, null if the element
/// is null.
pub open spec fn clean_diacritics_elem(x: Option<String>) -> Option<Seq<char>> {
    match x {
        None => None,
        Some(s) => Some(ascii_only(nfd_of(s@))),
    }
}

/// Whether an output element carries exactly the expected characters.
pub open spec fn str_opt_matches(o: Option<String>, e: Option<Seq<char>>) -> bool {
    match e {
        None => o is None,
        Some(q) => o matches Some(t) && t@ == q,
    }
}

/// Removes non-ASCII characters from every element of a sequence; a null
/// element yields a null output element.
pub fn clean_ascii(seq: &Vec<Option<String>>) -> (r: Vec<Option<String>>)
    ensures
        r@.len() == seq@.len(),
        forall|i: int|
            0 <= i < seq@.len() ==> str_opt_matches(#[trigger] r@[i], clean_ascii_elem(seq@[i])),
{
    let mut out: Vec<Option<String>> = Vec::new();
    let n = seq.len();
    let mut j: usize = 0;
    while j < n
        invariant
            n == seq@.len(),
            j <= n,
            out@.len() == j,
            forall|i: int|
                0 <= i < j ==> str_opt_matches(#[trigger] out@[i], clean_ascii_elem(seq@[i])),
        decreases n - j,
    {
        let v = match &seq[j] {
            None => None,
            Some(s) => Some(remove_non_ascii(s.as_str())),
        };
        out.push(v);
        j += 1;
    }
    out
}

/// Removes diacritical marks from every element of a sequence; a null element
/// yields a null output element.
pub fn clean_diacritics(seq: &Vec<Option<String>>) -> (r: Vec<Option<String>>)
    ensures
        r@.len() == seq@.len(),
        forall|i: int|
            0 <= i < seq@.len() ==> str_opt_matches(
                #[trigger] r@[i],
                clean_diacritics_elem(seq@[i]),
            ),
{
    let mut out: Vec<Option<String>> = Vec::new();
    let n = seq.len();
    let mut j: usize = 0;
    while j < n
        invariant
            n == seq@.len(),
            j <= n,
            out@.len() == j,
            forall|i: int|
                0 <= i < j ==> str_opt_matches(#[trigger] out@[i], clean_diacritics_elem(seq@[i])),
        decreases n - j,
    {
        let v = match &seq[j] {
            None => None,
            Some(s) => Some(remove_diacritics(s.as_str())),
        };
        out.push(v);
        j += 1;
    }
    out
}

} // verus!
