//! Batch operations over sequences of optional strings.
//!
//! The second operand is either a single scalar broadcast against every
//! element of the first sequence, or a sequence of the same length compared
//! positionally; any other pair of lengths is a shape mismatch and produces no
//! output. A null element in either operand yields a null output element. A
//! caller-chosen flag picks sequential or data-parallel execution; both
//! strategies meet the same contract, so the flag never changes the output.

use vstd::prelude::*;
use rayon::iter::{IndexedParallelIterator, IntoParallelRefIterator, ParallelIterator};
use crate::edit::{damerau_dist, lev_dist, longer, SimScore};

verus! {

/// The error for input sequences whose lengths are neither equal nor
/// broadcastable; it is raised before any elementwise computation.
#[derive(Clone, Copy, Debug, PartialEq, Eq, Structural)]
pub struct ShapeMismatch;

impl ShapeMismatch {
    /// A short description of the error.
    pub fn message(&self) -> (r: &'static str)
        ensures
            r@ == "Inputs must have the same length."@,
    {
        "Inputs must have the same length."
    }
}

/// Whether a first operand of length `n` can be compared against a second
/// operand of length `m`: equal lengths compare positionally, a single scalar
/// broadcasts.
pub open spec fn shape_ok(n: nat, m: nat) -> bool {
    m == 1 || m == n
}

/// The second operand that position `i` is compared against: the single
/// scalar when the second sequence broadcasts, the element at `i` otherwise.
pub open spec fn aligned(s2: Seq<Option<String>>, i: int) -> Option<String> {
    if s2.len() == 1 {
        s2[0]
    } else {
        s2[i]
    }
}

/// Whether a string element is short enough for its distances to fit the
/// 32-bit output type.
pub open spec fn fits_u32(x: Option<String>) -> bool {
    x matches Some(s) ==> s@.len() <= u32::MAX
}

/// Whether every element of a sequence fits the 32-bit output type.
pub open spec fn all_fit(s: Seq<Option<String>>) -> bool {
    forall|i: int| 0 <= i < s.len() ==> fits_u32(#[trigger] s[i])
}

/// The Levenshtein distance of one aligned pair, null if either side is null.
pub open spec fn dist_elem(x: Option<String>, y: Option<String>) -> Option<nat> {
    match (x, y) {
        (Some(a), Some(b)) => Some(lev_dist(a@, b@)),
        _ => None,
    }
}

/// Whether the Levenshtein distance of one aligned pair is within `bound`,
/// null if either side is null.
pub open spec fn within_elem(x: Option<String>, y: Option<String>, bound: u32) -> Option<bool> {
    match (x, y) {
        (Some(a), Some(b)) => Some(lev_dist(a@, b@) <= bound),
        _ => None,
    }
}

/// The Levenshtein similarity of one aligned pair as its exact
/// distance / longer-length parts, null if either side is null.
pub open spec fn sim_elem(x: Option<String>, y: Option<String>) -> Option<(nat, nat)> {
    match (x, y) {
        (Some(a), Some(b)) => Some((lev_dist(a@, b@), longer(a@.len(), b@.len()))),
        _ => None,
    }
}

/// The Damerau-Levenshtein distance of one aligned pair, null if either side
/// is null.
pub open spec fn damerau_elem(x: Option<String>, y: Option<String>) -> Option<nat> {
    match (x, y) {
        (Some(a), Some(b)) => Some(damerau_dist(a@, b@)),
        _ => None,
    }
}

/// The Damerau-Levenshtein similarity of one aligned pair as its exact
/// distance / longer-length parts, null if either side is null.
pub open spec fn damerau_sim_elem(x: Option<String>, y: Option<String>) -> Option<(nat, nat)> {
    match (x, y) {
        (Some(a), Some(b)) => Some((damerau_dist(a@, b@), longer(a@.len(), b@.len()))),
        _ => None,
    }
}

/// Whether an output element carries exactly the expected distance.
pub open spec fn u32_opt_matches(o: Option<u32>, e: Option<nat>) -> bool {
    match e {
        None => o is None,
        Some(n) => o matches Some(v) && v as nat == n,
    }
}

/// Whether an output element carries exactly the expected similarity parts.
pub open spec fn sim_opt_matches(o: Option<SimScore>, e: Option<(nat, nat)>) -> bool {
    match e {
        None => o is None,
        Some(p) => o matches Some(s) && s.dist as nat == p.0 && s.longest as nat == p.1
            && s.valid(),
    }
}

/// Relies on rayon's parallel iterator over a slice, with `map` and `collect`
/// into a `Vec`: one output per input, reassembled in input order, each
/// output a value the function may return for the input at the same position.
#[verifier::external_body]
fn par_map<A: Sync, T: Send, F: Fn(&A) -> T + Sync>(items: &Vec<A>, f: &F) -> (r: Vec<T>)
    requires
        forall|i: int| 0 <= i < items@.len() ==> call_requires(*f, (&items@[i],)),
    ensures
        r@.len() == items@.len(),
        forall|i: int| 0 <= i < items@.len() ==> call_ensures(*f, (&items@[i],), #[trigger] r@[i]),
{
    items.par_iter().map(|x| f(x)).collect()
}

/// Relies on rayon's parallel iterators over two slices of equal length,
/// zipped, with `map` and `collect` into a `Vec`: one output per position,
/// reassembled in input order, each output a value the function may return
/// for the pair of inputs at the same position.
#[verifier::external_body]
fn par_map2<A: Sync, B: Sync, T: Send, F: Fn(&A, &B) -> T + Sync>(
    xs: &Vec<A>,
    ys: &Vec<B>,
    f: &F,
) -> (r: Vec<T>)
    requires
        xs@.len() == ys@.len(),
        forall|i: int| 0 <= i < xs@.len() ==> call_requires(*f, (&xs@[i], &ys@[i])),
    ensures
        r@.len() == xs@.len(),
        forall|i: int|
            0 <= i < xs@.len() ==> call_ensures(*f, (&xs@[i], &ys@[i]), #[trigger] r@[i]),
{
    xs.par_iter().zip(ys.par_iter()).map(|(a, b)| f(a, b)).collect()
}

/// Sequential single-pass mapping over one sequence, position by position,
/// meeting the same contract as the parallel strategy.
fn seq_map<A, T, F: Fn(&A) -> T>(items: &Vec<A>, f: &F) -> (r: Vec<T>)
    requires
        forall|i: int| 0 <= i < items@.len() ==> call_requires(*f, (&items@[i],)),
    ensures
        r@.len() == items@.len(),
        forall|i: int| 0 <= i < items@.len() ==> call_ensures(*f, (&items@[i],), #[trigger] r@[i]),
{
    let mut out: Vec<T> = Vec::new();
    let n = items.len();
    let mut j: usize = 0;
    while j < n
        invariant
            n == items@.len(),
            j <= n,
            out@.len() == j,
            forall|i: int| 0 <= i < items@.len() ==> call_requires(*f, (&items@[i],)),
            forall|i: int| 0 <= i < j ==> call_ensures(*f, (&items@[i],), #[trigger] out@[i]),
        decreases n - j,
    {
        let v = f(&items[j]);
        out.push(v);
        j += 1;
    }
    out
}

/// Sequential single-pass mapping over two sequences of equal length,
/// position by position, meeting the same contract as the parallel strategy.
fn seq_map2<A, B, T, F: Fn(&A, &B) -> T>(xs: &Vec<A>, ys: &Vec<B>, f: &F) -> (r: Vec<T>)
    requires
        xs@.len() == ys@.len(),
        forall|i: int| 0 <= i < xs@.len() ==> call_requires(*f, (&xs@[i], &ys@[i])),
    ensures
        r@.len() == xs@.len(),
        forall|i: int|
            0 <= i < xs@.len() ==> call_ensures(*f, (&xs@[i], &ys@[i]), #[trigger] r@[i]),
{
    let mut out: Vec<T> = Vec::new();
    let n = xs.len();
    let mut j: usize = 0;
    while j < n
        invariant
            n == xs@.len(),
            xs@.len() == ys@.len(),
            j <= n,
            out@.len() == j,
            forall|i: int| 0 <= i < xs@.len() ==> call_requires(*f, (&xs@[i], &ys@[i])),
            forall|i: int| 0 <= i < j ==> call_ensures(*f, (&xs@[i], &ys@[i]), #[trigger] out@[i]),
        decreases n - j,
    {
        let v = f(&xs[j], &ys[j]);
        out.push(v);
        j += 1;
    }
    out
}

/// An all-null output of the given length, for a null broadcast scalar.
fn null_vec<T>(n: usize) -> (r: Vec<Option<T>>)
    ensures
        r@.len() == n,
        forall|i: int| 0 <= i < n ==> r@[i] is None,
{
    let mut out: Vec<Option<T>> = Vec::new();
    let mut j: usize = 0;
    while j < n
        invariant
            j <= n,
            out@.len() == j,
            forall|i: int| 0 <= i < j ==> out@[i] is None,
        decreases n - j,
    {
        out.push(None);
        j += 1;
    }
    out
}

/// Law: a non-null element compared against itself is at distance zero, so
/// its similarity parts denote exactly one.
pub proof fn lemma_identity_elem(x: Option<String>)
    requires
        x is Some,
    ensures
        dist_elem(x, x) == Some(0nat),
        within_elem(x, x, 0) == Some(true),
        sim_elem(x, x) matches Some(p) && p.0 == 0,
{
    crate::edit::lemma_lev_identity(x->0@);
}

/// Law: the bounded membership test is defined exactly where the exact
/// distance is, and is true exactly when that distance is at most the bound.
pub proof fn lemma_within_iff_distance_le(x: Option<String>, y: Option<String>, k: u32)
    ensures
        within_elem(x, y, k) is Some <==> dist_elem(x, y) is Some,
        within_elem(x, y, k) matches Some(w) ==> dist_elem(x, y) matches Some(d) && w == (d <= k),
{
}

/// Law: comparing a sequence against a single broadcast scalar selects the
/// same operand at every position as pairwise comparison against that scalar
/// repeated, so every elementwise operation returns the same output either
/// way.
pub proof fn lemma_broadcast_equivalence(s1: Seq<Option<String>>, b: Option<String>, k: u32, i: int)
    requires
        0 <= i < s1.len(),
    ensures
        dist_elem(s1[i], aligned(seq![b], i)) == dist_elem(
            s1[i],
            aligned(Seq::new(s1.len(), |j: int| b), i),
        ),
        within_elem(s1[i], aligned(seq![b], i), k) == within_elem(
            s1[i],
            aligned(Seq::new(s1.len(), |j: int| b), i),
            k,
        ),
        sim_elem(s1[i], aligned(seq![b], i)) == sim_elem(
            s1[i],
            aligned(Seq::new(s1.len(), |j: int| b), i),
        ),
        damerau_elem(s1[i], aligned(seq![b], i)) == damerau_elem(
            s1[i],
            aligned(Seq::new(s1.len(), |j: int| b), i),
        ),
        damerau_sim_elem(s1[i], aligned(seq![b], i)) == damerau_sim_elem(
            s1[i],
            aligned(Seq::new(s1.len(), |j: int| b), i),
        ),
{
    assert(aligned(seq![b], i) == b);
    assert(aligned(Seq::new(s1.len(), |j: int| b), i) == b);
}

/// Law: a null element in either operand, after broadcast alignment, yields a
/// null output element, for every operation.
pub proof fn lemma_null_propagation(x: Option<String>, y: Option<String>, k: u32)
    requires
        x is None || y is None,
    ensures
        dist_elem(x, y) is None,
        within_elem(x, y, k) is None,
        sim_elem(x, y) is None,
        damerau_elem(x, y) is None,
        damerau_sim_elem(x, y) is None,
{
}

/// Levenshtein distances over two string sequences. The second operand is a
/// single scalar broadcast against every element of the first, or a sequence
/// of equal length compared positionally; other length pairs fail with
/// `ShapeMismatch` and produce no output. A null element in either operand,
/// after broadcast alignment, yields a null output element. The `parallel`
/// flag selects the execution strategy only: the contract pins every output
/// and does not mention the flag.
pub fn distance(seq1: &Vec<Option<String>>, seq2: &Vec<Option<String>>, parallel: bool) -> (r:
    Result<Vec<Option<u32>>, ShapeMismatch>)
    requires
        all_fit(seq1@),
        all_fit(seq2@),
    ensures
        r is Ok <==> shape_ok(seq1@.len(), seq2@.len()),
        r matches Ok(out) ==> out@.len() == seq1@.len() && forall|i: int|
            0 <= i < seq1@.len() ==> u32_opt_matches(
                #[trigger] out@[i],
                dist_elem(seq1@[i], aligned(seq2@, i)),
            ),
{
    if seq2.len() == 1 {
        match &seq2[0] {
            None => Ok(null_vec(seq1.len())),
            Some(fixed) => {
                let cmp = crate::comparator::lev_comparator_new(fixed.as_str());
                let f = |x: &Option<String>| -> (r: Option<u32>)
                    requires
                        fits_u32(*x),
                    ensures
                        u32_opt_matches(r, dist_elem(*x, Some(*fixed))),
                    {
                        match x {
                            None => None,
                            Some(s) => {
                                let d = crate::comparator::lev_comparator_distance(
                                    &cmp,
                                    s.as_str(),
                                );
                                proof {
                                    crate::edit::lemma_lev_symmetry(s@, fixed@);
                                    crate::edit::lemma_lev_upper_bound(s@, fixed@);
                                }
                                Some(d as u32)
                            },
                        }
                    };
                let out = if parallel {
                    par_map(seq1, &f)
                } else {
                    seq_map(seq1, &f)
                };
                Ok(out)
            },
        }
    } else if seq1.len() == seq2.len() {
        let f = |x: &Option<String>, y: &Option<String>| -> (r: Option<u32>)
            requires
                fits_u32(*x),
                fits_u32(*y),
            ensures
                u32_opt_matches(r, dist_elem(*x, *y)),
            {
                match (x, y) {
                    (Some(a), Some(b)) => Some(
                        crate::edit::levenshtein_distance(a.as_str(), b.as_str()),
                    ),
                    _ => None,
                }
            };
        let out = if parallel {
            par_map2(seq1, seq2, &f)
        } else {
            seq_map2(seq1, seq2, &f)
        };
        Ok(out)
    } else {
        Err(ShapeMismatch)
    }
}

/// Whether the Levenshtein distance is within `bound`, over two string
/// sequences aligned as in [`distance`]. A null element, after broadcast
/// alignment, yields a null output element; a distance beyond the bound
/// yields `false`, not null. The `parallel` flag selects the execution
/// strategy only.
pub fn distance_within(
    seq1: &Vec<Option<String>>,
    seq2: &Vec<Option<String>>,
    bound: u32,
    parallel: bool,
) -> (r: Result<Vec<Option<bool>>, ShapeMismatch>)
    ensures
        r is Ok <==> shape_ok(seq1@.len(), seq2@.len()),
        r matches Ok(out) ==> out@.len() == seq1@.len() && forall|i: int|
            0 <= i < seq1@.len() ==> #[trigger] out@[i] == within_elem(
                seq1@[i],
                aligned(seq2@, i),
                bound,
            ),
{
    if seq2.len() == 1 {
        match &seq2[0] {
            None => Ok(null_vec(seq1.len())),
            Some(fixed) => {
                let cmp = crate::comparator::lev_comparator_new(fixed.as_str());
                let f = |x: &Option<String>| -> (r: Option<bool>)
                    ensures
                        r == within_elem(*x, Some(*fixed), bound),
                    {
                        match x {
                            None => None,
                            Some(s) => {
                                let d = crate::comparator::lev_comparator_distance_bounded(
                                    &cmp,
                                    s.as_str(),
                                    bound as usize,
                                );
                                proof {
                                    crate::edit::lemma_lev_symmetry(s@, fixed@);
                                }
                                Some(d.is_some())
                            },
                        }
                    };
                let out = if parallel {
                    par_map(seq1, &f)
                } else {
                    seq_map(seq1, &f)
                };
                Ok(out)
            },
        }
    } else if seq1.len() == seq2.len() {
        let f = |x: &Option<String>, y: &Option<String>| -> (r: Option<bool>)
            ensures
                r == within_elem(*x, *y, bound),
            {
                match (x, y) {
                    (Some(a), Some(b)) => Some(
                        crate::edit::levenshtein_within(a.as_str(), b.as_str(), bound),
                    ),
                    _ => None,
                }
            };
        let out = if parallel {
            par_map2(seq1, seq2, &f)
        } else {
            seq_map2(seq1, seq2, &f)
        };
        Ok(out)
    } else {
        Err(ShapeMismatch)
    }
}

/// Normalized Levenshtein similarities over two string sequences aligned as
/// in [`distance`], each score the exact distance / longer-length pair. A
/// null element, after broadcast alignment, yields a null output element. The
/// `parallel` flag selects the execution strategy only.
pub fn similarity(seq1: &Vec<Option<String>>, seq2: &Vec<Option<String>>, parallel: bool) -> (r:
    Result<Vec<Option<SimScore>>, ShapeMismatch>)
    requires
        all_fit(seq1@),
        all_fit(seq2@),
    ensures
        r is Ok <==> shape_ok(seq1@.len(), seq2@.len()),
        r matches Ok(out) ==> out@.len() == seq1@.len() && forall|i: int|
            0 <= i < seq1@.len() ==> sim_opt_matches(
                #[trigger] out@[i],
                sim_elem(seq1@[i], aligned(seq2@, i)),
            ),
{
    if seq2.len() == 1 {
        match &seq2[0] {
            None => Ok(null_vec(seq1.len())),
            Some(fixed) => {
                let cmp = crate::comparator::lev_comparator_new(fixed.as_str());
                let fixed_len = crate::edit::unicode_len_u32(fixed.as_str());
                let f = |x: &Option<String>| -> (r: Option<SimScore>)
                    requires
                        fits_u32(*x),
                    ensures
                        sim_opt_matches(r, sim_elem(*x, Some(*fixed))),
                    {
                        match x {
                            None => None,
                            Some(s) => {
                                let d = crate::comparator::lev_comparator_distance(
                                    &cmp,
                                    s.as_str(),
                                );
                                let ls = crate::edit::unicode_len_u32(s.as_str());
                                let longest = if ls >= fixed_len {
                                    ls
                                } else {
                                    fixed_len
                                };
                                proof {
                                    crate::edit::lemma_lev_symmetry(s@, fixed@);
                                    crate::edit::lemma_lev_upper_bound(s@, fixed@);
                                }
                                Some(SimScore { dist: d as u32, longest })
                            },
                        }
                    };
                let out = if parallel {
                    par_map(seq1, &f)
                } else {
                    seq_map(seq1, &f)
                };
                Ok(out)
            },
        }
    } else if seq1.len() == seq2.len() {
        let f = |x: &Option<String>, y: &Option<String>| -> (r: Option<SimScore>)
            requires
                fits_u32(*x),
                fits_u32(*y),
            ensures
                sim_opt_matches(r, sim_elem(*x, *y)),
            {
                match (x, y) {
                    (Some(a), Some(b)) => Some(
                        crate::edit::levenshtein_similarity(a.as_str(), b.as_str()),
                    ),
                    _ => None,
                }
            };
        let out = if parallel {
            par_map2(seq1, seq2, &f)
        } else {
            seq_map2(seq1, seq2, &f)
        };
        Ok(out)
    } else {
        Err(ShapeMismatch)
    }
}

/// Damerau-Levenshtein distances over two string sequences aligned as in
/// [`distance`]. A null element, after broadcast alignment, yields a null
/// output element. The `parallel` flag selects the execution strategy only.
pub fn damerau_distance(seq1: &Vec<Option<String>>, seq2: &Vec<Option<String>>, parallel: bool) -> (
    r: Result<Vec<Option<u32>>, ShapeMismatch>)
    requires
        all_fit(seq1@),
        all_fit(seq2@),
    ensures
        r is Ok <==> shape_ok(seq1@.len(), seq2@.len()),
        r matches Ok(out) ==> out@.len() == seq1@.len() && forall|i: int|
            0 <= i < seq1@.len() ==> u32_opt_matches(
                #[trigger] out@[i],
                damerau_elem(seq1@[i], aligned(seq2@, i)),
            ),
{
    if seq2.len() == 1 {
        match &seq2[0] {
            None => Ok(null_vec(seq1.len())),
            Some(fixed) => {
                let cmp = crate::comparator::damerau_comparator_new(fixed.as_str());
                let f = |x: &Option<String>| -> (r: Option<u32>)
                    requires
                        fits_u32(*x),
                    ensures
                        u32_opt_matches(r, damerau_elem(*x, Some(*fixed))),
                    {
                        match x {
                            None => None,
                            Some(s) => {
                                let d = crate::comparator::damerau_comparator_distance(
                                    &cmp,
                                    s.as_str(),
                                );
                                Some(d as u32)
                            },
                        }
                    };
                let out = if parallel {
                    par_map(seq1, &f)
                } else {
                    seq_map(seq1, &f)
                };
                Ok(out)
            },
        }
    } else if seq1.len() == seq2.len() {
        let f = |x: &Option<String>, y: &Option<String>| -> (r: Option<u32>)
            requires
                fits_u32(*x),
                fits_u32(*y),
            ensures
                u32_opt_matches(r, damerau_elem(*x, *y)),
            {
                match (x, y) {
                    (Some(a), Some(b)) => Some(
                        crate::edit::damerau_levenshtein_distance(a.as_str(), b.as_str()),
                    ),
                    _ => None,
                }
            };
        let out = if parallel {
            par_map2(seq1, seq2, &f)
        } else {
            seq_map2(seq1, seq2, &f)
        };
        Ok(out)
    } else {
        Err(ShapeMismatch)
    }
}

/// Normalized Damerau-Levenshtein similarities over two string sequences
/// aligned as in [`distance`], each score the exact distance / longer-length
/// pair. A null element, after broadcast alignment, yields a null output
/// element. The `parallel` flag selects the execution strategy only.
pub fn damerau_similarity(
    seq1: &Vec<Option<String>>,
    seq2: &Vec<Option<String>>,
    parallel: bool,
) -> (r: Result<Vec<Option<SimScore>>, ShapeMismatch>)
    requires
        all_fit(seq1@),
        all_fit(seq2@),
    ensures
        r is Ok <==> shape_ok(seq1@.len(), seq2@.len()),
        r matches Ok(out) ==> out@.len() == seq1@.len() && forall|i: int|
            0 <= i < seq1@.len() ==> sim_opt_matches(
                #[trigger] out@[i],
                damerau_sim_elem(seq1@[i], aligned(seq2@, i)),
            ),
{
    if seq2.len() == 1 {
        match &seq2[0] {
            None => Ok(null_vec(seq1.len())),
            Some(fixed) => {
                let cmp = crate::comparator::damerau_comparator_new(fixed.as_str());
                let fixed_len = crate::edit::unicode_len_u32(fixed.as_str());
                let f = |x: &Option<String>| -> (r: Option<SimScore>)
                    requires
                        fits_u32(*x),
                    ensures
                        sim_opt_matches(r, damerau_sim_elem(*x, Some(*fixed))),
                    {
                        match x {
                            None => None,
                            Some(s) => {
                                let d = crate::comparator::damerau_comparator_distance(
                                    &cmp,
                                    s.as_str(),
                                );
                                let ls = crate::edit::unicode_len_u32(s.as_str());
                                let longest = if ls >= fixed_len {
                                    ls
                                } else {
                                    fixed_len
                                };
                                Some(SimScore { dist: d as u32, longest })
                            },
                        }
                    };
                let out = if parallel {
                    par_map(seq1, &f)
                } else {
                    seq_map(seq1, &f)
                };
                Ok(out)
            },
        }
    } else if seq1.len() == seq2.len() {
        let f = |x: &Option<String>, y: &Option<String>| -> (r: Option<SimScore>)
            requires
                fits_u32(*x),
                fits_u32(*y),
            ensures
                sim_opt_matches(r, damerau_sim_elem(*x, *y)),
            {
                match (x, y) {
                    (Some(a), Some(b)) => Some(
                        crate::edit::damerau_levenshtein_similarity(a.as_str(), b.as_str()),
                    ),
                    _ => None,
                }
            };
        let out = if parallel {
            par_map2(seq1, seq2, &f)
        } else {
            seq_map2(seq1, seq2, &f)
        };
        Ok(out)
    } else {
        Err(ShapeMismatch)
    }
}

/// Law: the Levenshtein-based elementwise results are symmetric in their two
/// operands.
pub proof fn lemma_elem_symmetry(x: Option<String>, y: Option<String>, k: u32)
    ensures
        dist_elem(x, y) == dist_elem(y, x),
        within_elem(x, y, k) == within_elem(y, x, k),
        sim_elem(x, y) == sim_elem(y, x),
{
    if x is Some && y is Some {
        crate::edit::lemma_lev_symmetry(x->0@, y->0@);
    }
}

} // verus!
