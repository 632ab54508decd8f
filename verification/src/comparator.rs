//! Scalar comparators: precomputed state for one fixed string, built once and
//! reused to compare against many other strings. A comparator is read-only
//! after construction, so it may be shared across parallel workers.

use vstd::prelude::*;
use crate::edit::{damerau_dist, lev_dist, longer};

verus! {

#[verifier::external_type_specification]
#[verifier::external_body]
#[verifier::reject_recursive_types(E)]
pub struct ExLevBatchComparator<E>(rapidfuzz::distance::levenshtein::BatchComparator<E>);

#[verifier::external_type_specification]
#[verifier::external_body]
#[verifier::reject_recursive_types(E)]
pub struct ExDamerauBatchComparator<E>(
    rapidfuzz::distance::damerau_levenshtein::BatchComparator<E>,
);

/// The characters a Levenshtein comparator was built from.
pub uninterp spec fn lev_comparator_chars(
    c: rapidfuzz::distance::levenshtein::BatchComparator<char>,
) -> Seq<char>;

/// The characters a Damerau-Levenshtein comparator was built from.
pub uninterp spec fn damerau_comparator_chars(
    c: rapidfuzz::distance::damerau_levenshtein::BatchComparator<char>,
) -> Seq<char>;

/// Relies on `levenshtein::BatchComparator::new`: it stores the given
/// characters for repeated comparisons.
#[verifier::external_body]
pub(crate) fn lev_comparator_new(s: &str) -> (c: rapidfuzz::distance::levenshtein::BatchComparator<
    char,
>)
    ensures
        lev_comparator_chars(c) == s@,
{
    rapidfuzz::distance::levenshtein::BatchComparator::new(s.chars())
}

/// Relies on `levenshtein::BatchComparator::distance`: the same value as
/// `levenshtein::distance` of the stored characters and the argument.
#[verifier::external_body]
pub(crate) fn lev_comparator_distance(
    c: &rapidfuzz::distance::levenshtein::BatchComparator<char>,
    s: &str,
) -> (r: usize)
    ensures
        r as nat == lev_dist(lev_comparator_chars(*c), s@),
{
    c.distance(s.chars())
}

/// Relies on `levenshtein::BatchComparator::distance_with_args` with a score
/// cutoff: the result is present exactly when the distance of the stored
/// characters and the argument is within the cutoff, and then carries that
/// distance.
#[verifier::external_body]
pub(crate) fn lev_comparator_distance_bounded(
    c: &rapidfuzz::distance::levenshtein::BatchComparator<char>,
    s: &str,
    bound: usize,
) -> (r: Option<usize>)
    ensures
        r is Some <==> lev_dist(lev_comparator_chars(*c), s@) <= bound,
        r matches Some(d) ==> d as nat == lev_dist(lev_comparator_chars(*c), s@),
{
    c.distance_with_args(
        s.chars(),
        &rapidfuzz::distance::levenshtein::Args::default().score_cutoff(bound),
    )
}

/// Relies on `damerau_levenshtein::BatchComparator::new`: it stores the given
/// characters for repeated comparisons.
#[verifier::external_body]
pub(crate) fn damerau_comparator_new(s: &str) -> (c:
    rapidfuzz::distance::damerau_levenshtein::BatchComparator<char>)
    ensures
        damerau_comparator_chars(c) == s@,
{
    rapidfuzz::distance::damerau_levenshtein::BatchComparator::new(s.chars())
}

/// Relies on `damerau_levenshtein::BatchComparator::distance`: the same value
/// as `damerau_levenshtein::distance` of the stored characters and the
/// argument; its documentation states it is a metric, so it is symmetric,
/// zero on equal inputs, and at most the longer length.
#[verifier::external_body]
pub(crate) fn damerau_comparator_distance(
    c: &rapidfuzz::distance::damerau_levenshtein::BatchComparator<char>,
    s: &str,
) -> (r: usize)
    ensures
        r as nat == damerau_dist(damerau_comparator_chars(*c), s@),
        r as nat == damerau_dist(s@, damerau_comparator_chars(*c)),
        damerau_comparator_chars(*c) == s@ ==> r == 0,
        r as nat <= longer(damerau_comparator_chars(*c).len(), s@.len()),
{
    c.distance(s.chars())
}

} // verus!
