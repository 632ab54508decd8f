//! Edit distances for a single pair of strings.
//!
//! The Levenshtein distance is specified by the classic recursion over
//! character sequences; the executable functions call into rapidfuzz and are
//! proved against that specification. The Damerau-Levenshtein distance, whose
//! exact statement is far longer, is named by an uninterpreted spec function.

use vstd::prelude::*;
use vstd::string::StrSliceExecFns;

verus! {

/// The smaller of two naturals.
pub open spec fn min2(a: nat, b: nat) -> nat {
    if a <= b {
        a
    } else {
        b
    }
}

/// The smallest of three naturals.
pub open spec fn min3(a: nat, b: nat, c: nat) -> nat {
    min2(min2(a, b), c)
}

/// The larger of two naturals.
pub open spec fn longer(a: nat, b: nat) -> nat {
    if a >= b {
        a
    } else {
        b
    }
}

/// Levenshtein distance: the minimum number of single-character insertions,
/// deletions and substitutions that transform `a` into `b`.
pub open spec fn lev_dist(a: Seq<char>, b: Seq<char>) -> nat
    decreases a.len() + b.len(),
{
    if a.len() == 0 {
        b.len()
    } else if b.len() == 0 {
        a.len()
    } else {
        let head_cost: nat = if a[0] == b[0] {
            0
        } else {
            1
        };
        min3(
            lev_dist(a.drop_first(), b) + 1,
            lev_dist(a, b.drop_first()) + 1,
            lev_dist(a.drop_first(), b.drop_first()) + head_cost,
        )
    }
}

/// A string is at distance zero from itself.
pub proof fn lemma_lev_identity(a: Seq<char>)
    ensures
        lev_dist(a, a) == 0,
    decreases a.len(),
{
    if a.len() > 0 {
        lemma_lev_identity(a.drop_first());
    }
}

/// The Levenshtein distance is symmetric.
pub proof fn lemma_lev_symmetry(a: Seq<char>, b: Seq<char>)
    ensures
        lev_dist(a, b) == lev_dist(b, a),
    decreases a.len() + b.len(),
{
    if a.len() > 0 && b.len() > 0 {
        lemma_lev_symmetry(a.drop_first(), b);
        lemma_lev_symmetry(a, b.drop_first());
        lemma_lev_symmetry(a.drop_first(), b.drop_first());
    }
}

/// The Levenshtein distance never exceeds the longer input's length.
pub proof fn lemma_lev_upper_bound(a: Seq<char>, b: Seq<char>)
    ensures
        lev_dist(a, b) <= longer(a.len(), b.len()),
    decreases a.len() + b.len(),
{
    if a.len() > 0 && b.len() > 0 {
        lemma_lev_upper_bound(a.drop_first(), b.drop_first());
    }
}

/// Relies on rapidfuzz's `levenshtein::distance` with its default unit
/// weights: the minimum number of single-character insertions, deletions and
/// substitutions, over Unicode scalar values.
#[verifier::external_body]
fn lev_distance_raw(s1: &str, s2: &str) -> (r: usize)
    ensures
        r as nat == lev_dist(s1@, s2@),
{
    rapidfuzz::distance::levenshtein::distance(s1.chars(), s2.chars())
}

/// Relies on rapidfuzz's `levenshtein::distance_with_args` with a score
/// cutoff: the result is present exactly when the distance is within the
/// cutoff, and then carries the distance.
#[verifier::external_body]
fn lev_distance_bounded_raw(s1: &str, s2: &str, bound: usize) -> (r: Option<usize>)
    ensures
        r is Some <==> lev_dist(s1@, s2@) <= bound,
        r matches Some(d) ==> d as nat == lev_dist(s1@, s2@),
{
    rapidfuzz::distance::levenshtein::distance_with_args(
        s1.chars(),
        s2.chars(),
        &rapidfuzz::distance::levenshtein::Args::default().score_cutoff(bound),
    )
}

/// Damerau-Levenshtein distance: the minimum number of single-character
/// insertions, deletions, substitutions and adjacent transpositions that
/// transform the first sequence into the second. Its exact statement is left
/// to the external algorithm; only the facts below are assumed of it.
pub uninterp spec fn damerau_dist(a: Seq<char>, b: Seq<char>) -> nat;

/// Relies on rapidfuzz's `damerau_levenshtein::distance`: the minimum number
/// of insertions, deletions, substitutions and adjacent transpositions, over
/// Unicode scalar values. Its documentation states it is a metric, so it is
/// symmetric and zero on equal inputs, and its normalized form divides by the
/// longer length and stays within [0, 1], so the distance is at most that
/// length.
#[verifier::external_body]
fn damerau_distance_raw(s1: &str, s2: &str) -> (r: usize)
    ensures
        r as nat == damerau_dist(s1@, s2@),
        r as nat == damerau_dist(s2@, s1@),
        s1@ == s2@ ==> r == 0,
        r as nat <= longer(s1@.len(), s2@.len()),
{
    rapidfuzz::distance::damerau_levenshtein::distance(s1.chars(), s2.chars())
}

/// Levenshtein distance between two strings, counted over Unicode scalar
/// values.
pub fn levenshtein_distance(a: &str, b: &str) -> (r: u32)
    requires
        a@.len() <= u32::MAX,
        b@.len() <= u32::MAX,
    ensures
        r as nat == lev_dist(a@, b@),
{
    let d = lev_distance_raw(a, b);
    proof {
        lemma_lev_upper_bound(a@, b@);
    }
    d as u32
}

/// Levenshtein distance between two strings when it is within `bound`,
/// nothing when the true distance exceeds the bound.
pub fn levenshtein_distance_bounded(a: &str, b: &str, bound: u32) -> (r: Option<u32>)
    ensures
        r is Some <==> lev_dist(a@, b@) <= bound,
        r matches Some(d) ==> d as nat == lev_dist(a@, b@),
{
    match lev_distance_bounded_raw(a, b, bound as usize) {
        None => None,
        Some(d) => Some(d as u32),
    }
}

/// Whether the Levenshtein distance between two strings is at most `bound`.
pub fn levenshtein_within(a: &str, b: &str, bound: u32) -> (r: bool)
    ensures
        r == (lev_dist(a@, b@) <= bound),
{
    levenshtein_distance_bounded(a, b, bound).is_some()
}

/// Damerau-Levenshtein distance between two strings, counted over Unicode
/// scalar values. Equal strings are at distance zero, and swapping the
/// arguments leaves the result unchanged.
pub fn damerau_levenshtein_distance(a: &str, b: &str) -> (r: u32)
    requires
        a@.len() <= u32::MAX,
        b@.len() <= u32::MAX,
    ensures
        r as nat == damerau_dist(a@, b@),
        r as nat == damerau_dist(b@, a@),
        a@ == b@ ==> r == 0,
        r as nat <= longer(a@.len(), b@.len()),
{
    let d = damerau_distance_raw(a, b);
    d as u32
}

/// A normalized similarity score, kept as the exact pair of the edit distance
/// and the longer input length. The score it denotes is
/// `1 - dist / longest`, or `1` when both strings are empty; a score of `1`
/// means identical strings, `0` maximal dissimilarity.
#[derive(Clone, Copy, Debug, PartialEq, Eq, Structural)]
pub struct SimScore {
    /// The edit distance between the two strings.
    pub dist: u32,
    /// The length of the longer string, the largest possible distance.
    pub longest: u32,
}

impl SimScore {
    /// The distance never exceeds the longer length, so the denoted score
    /// lies in [0, 1].
    pub open spec fn valid(self) -> bool {
        self.dist <= self.longest
    }

    /// Whether the score denotes exactly 1, that is, identical strings.
    pub fn is_exact(&self) -> (r: bool)
        ensures
            r == (self.dist == 0),
    {
        self.dist == 0
    }
}

/// The length of an executable string's character sequence, bounded so the
/// result fits the score's integer type.
pub(crate) fn unicode_len_u32(s: &str) -> (r: u32)
    requires
        s@.len() <= u32::MAX,
    ensures
        r as nat == s@.len(),
{
    let l = s.unicode_len();
    l as u32
}

/// Normalized Levenshtein similarity between two strings: the exact pair of
/// distance and longer length denoting `1 - dist / longest`.
pub fn levenshtein_similarity(a: &str, b: &str) -> (r: SimScore)
    requires
        a@.len() <= u32::MAX,
        b@.len() <= u32::MAX,
    ensures
        r.dist as nat == lev_dist(a@, b@),
        r.longest as nat == longer(a@.len(), b@.len()),
        r.valid(),
        a@ == b@ ==> r.dist == 0,
{
    let d = levenshtein_distance(a, b);
    let la = unicode_len_u32(a);
    let lb = unicode_len_u32(b);
    let longest = if la >= lb {
        la
    } else {
        lb
    };
    proof {
        lemma_lev_upper_bound(a@, b@);
        if a@ == b@ {
            lemma_lev_identity(a@);
        }
    }
    SimScore { dist: d, longest }
}

/// Normalized Damerau-Levenshtein similarity between two strings: the exact
/// pair of distance and longer length denoting `1 - dist / longest`.
pub fn damerau_levenshtein_similarity(a: &str, b: &str) -> (r: SimScore)
    requires
        a@.len() <= u32::MAX,
        b@.len() <= u32::MAX,
    ensures
        r.dist as nat == damerau_dist(a@, b@),
        r.dist as nat == damerau_dist(b@, a@),
        r.longest as nat == longer(a@.len(), b@.len()),
        r.valid(),
        a@ == b@ ==> r.dist == 0,
{
    let d = damerau_levenshtein_distance(a, b);
    let la = unicode_len_u32(a);
    let lb = unicode_len_u32(b);
    let longest = if la >= lb {
        la
    } else {
        lb
    };
    SimScore { dist: d, longest }
}

} // verus!
