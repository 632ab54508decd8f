use str_dist::edit::{
    damerau_levenshtein_distance, damerau_levenshtein_similarity, levenshtein_distance,
    levenshtein_distance_bounded, levenshtein_similarity, levenshtein_within, SimScore,
};

fn score(s: SimScore) -> f64 {
    if s.longest == 0 {
        1.0
    } else {
        1.0 - (s.dist as f64) / (s.longest as f64)
    }
}

#[test]
fn identity_distance_zero() {
    assert_eq!(levenshtein_distance("kitten", "kitten"), 0);
    assert_eq!(levenshtein_distance("", ""), 0);
    assert_eq!(damerau_levenshtein_distance("kitten", "kitten"), 0);
    assert_eq!(damerau_levenshtein_distance("", ""), 0);
}

#[test]
fn identity_similarity_one() {
    assert_eq!(score(levenshtein_similarity("kitten", "kitten")), 1.0);
    assert_eq!(score(levenshtein_similarity("", "")), 1.0);
    assert_eq!(score(damerau_levenshtein_similarity("kitten", "kitten")), 1.0);
    assert_eq!(score(damerau_levenshtein_similarity("", "")), 1.0);
    assert!(levenshtein_similarity("caf\u{e9}", "caf\u{e9}").is_exact());
}

#[test]
fn symmetry_of_distances() {
    let pairs = [("kitten", "sitting"), ("ab", "ba"), ("", "abc"), ("flaw", "lawn")];
    for (a, b) in pairs {
        assert_eq!(levenshtein_distance(a, b), levenshtein_distance(b, a));
        assert_eq!(
            damerau_levenshtein_distance(a, b),
            damerau_levenshtein_distance(b, a)
        );
        assert_eq!(
            score(levenshtein_similarity(a, b)),
            score(levenshtein_similarity(b, a))
        );
        assert_eq!(
            score(damerau_levenshtein_similarity(a, b)),
            score(damerau_levenshtein_similarity(b, a))
        );
    }
}

#[test]
fn kitten_sitting_is_three() {
    assert_eq!(levenshtein_distance("kitten", "sitting"), 3);
}

#[test]
fn transposition_counts_once_for_damerau() {
    assert_eq!(damerau_levenshtein_distance("ab", "ba"), 1);
    assert_eq!(levenshtein_distance("ab", "ba"), 2);
}

#[test]
fn within_agrees_with_distance() {
    for k in 0..6 {
        assert_eq!(levenshtein_within("kitten", "sitting", k), 3 <= k);
    }
    assert!(levenshtein_within("same", "same", 0));
}

#[test]
fn bounded_distance_reports_absent_beyond_bound() {
    assert_eq!(levenshtein_distance_bounded("kitten", "sitting", 2), None);
    assert_eq!(levenshtein_distance_bounded("kitten", "sitting", 3), Some(3));
    assert_eq!(levenshtein_distance_bounded("kitten", "sitting", 10), Some(3));
    assert_eq!(levenshtein_distance_bounded("", "", 0), Some(0));
}

#[test]
fn similarity_exact_value() {
    let s = levenshtein_similarity("kitten", "sitting");
    assert_eq!(s.dist, 3);
    assert_eq!(s.longest, 7);
    assert_eq!(score(s), 1.0 - 3.0 / 7.0);
}

#[test]
fn empty_against_nonempty() {
    assert_eq!(levenshtein_distance("", "abc"), 3);
    assert_eq!(score(levenshtein_similarity("", "abc")), 0.0);
}

#[test]
fn codepoint_granularity() {
    // One multi-byte character counts as a single edit unit.
    assert_eq!(levenshtein_distance("caf\u{e9}", "cafe"), 1);
    assert_eq!(damerau_levenshtein_distance("caf\u{e9}", "caf"), 1);
}
