use str_dist::batch::{
    damerau_distance, damerau_similarity, distance, distance_within, similarity, ShapeMismatch,
};
use str_dist::edit::SimScore;

fn s(x: &str) -> Option<String> {
    Some(x.to_string())
}

fn scores(out: Vec<Option<SimScore>>) -> Vec<Option<f64>> {
    out.into_iter()
        .map(|o| {
            o.map(|v| {
                if v.longest == 0 {
                    1.0
                } else {
                    1.0 - (v.dist as f64) / (v.longest as f64)
                }
            })
        })
        .collect()
}

#[test]
fn pairwise_distances() {
    let seq1 = vec![s("kitten"), s("ab"), s("same")];
    let seq2 = vec![s("sitting"), s("ba"), s("same")];
    let out = distance(&seq1, &seq2, false).unwrap();
    assert_eq!(out, vec![Some(3), Some(2), Some(0)]);
}

#[test]
fn broadcast_equals_repeated_scalar() {
    let seq1 = vec![s("kitten"), s("ab"), None, s("ba")];
    let scalar = vec![s("ba")];
    let repeated = vec![s("ba"), s("ba"), s("ba"), s("ba")];
    for parallel in [false, true] {
        assert_eq!(
            distance(&seq1, &scalar, parallel).unwrap(),
            distance(&seq1, &repeated, parallel).unwrap()
        );
        assert_eq!(
            distance_within(&seq1, &scalar, 1, parallel).unwrap(),
            distance_within(&seq1, &repeated, 1, parallel).unwrap()
        );
        assert_eq!(
            similarity(&seq1, &scalar, parallel).unwrap(),
            similarity(&seq1, &repeated, parallel).unwrap()
        );
        assert_eq!(
            damerau_distance(&seq1, &scalar, parallel).unwrap(),
            damerau_distance(&seq1, &repeated, parallel).unwrap()
        );
        assert_eq!(
            damerau_similarity(&seq1, &scalar, parallel).unwrap(),
            damerau_similarity(&seq1, &repeated, parallel).unwrap()
        );
    }
}

#[test]
fn parallel_equals_sequential() {
    let seq1 = vec![s("kitten"), None, s("ab"), s(""), s("longervalue")];
    let seq2 = vec![s("sitting"), s("x"), None, s(""), s("lognervaule")];
    assert_eq!(
        distance(&seq1, &seq2, true).unwrap(),
        distance(&seq1, &seq2, false).unwrap()
    );
    assert_eq!(
        distance_within(&seq1, &seq2, 2, true).unwrap(),
        distance_within(&seq1, &seq2, 2, false).unwrap()
    );
    assert_eq!(
        similarity(&seq1, &seq2, true).unwrap(),
        similarity(&seq1, &seq2, false).unwrap()
    );
    assert_eq!(
        damerau_distance(&seq1, &seq2, true).unwrap(),
        damerau_distance(&seq1, &seq2, false).unwrap()
    );
    assert_eq!(
        damerau_similarity(&seq1, &seq2, true).unwrap(),
        damerau_similarity(&seq1, &seq2, false).unwrap()
    );
}

#[test]
fn null_inputs_yield_null_outputs() {
    let seq1 = vec![None, s("ab"), None];
    let seq2 = vec![s("x"), None, None];
    for parallel in [false, true] {
        assert_eq!(
            distance(&seq1, &seq2, parallel).unwrap(),
            vec![None, None, None]
        );
        assert_eq!(
            distance_within(&seq1, &seq2, 9, parallel).unwrap(),
            vec![None, None, None]
        );
        assert_eq!(
            similarity(&seq1, &seq2, parallel).unwrap(),
            vec![None, None, None]
        );
        assert_eq!(
            damerau_distance(&seq1, &seq2, parallel).unwrap(),
            vec![None, None, None]
        );
        assert_eq!(
            damerau_similarity(&seq1, &seq2, parallel).unwrap(),
            vec![None, None, None]
        );
    }
}

#[test]
fn null_scalar_broadcasts_null() {
    let seq1 = vec![s("ab"), s("cd")];
    let scalar: Vec<Option<String>> = vec![None];
    for parallel in [false, true] {
        assert_eq!(distance(&seq1, &scalar, parallel).unwrap(), vec![None, None]);
        assert_eq!(
            similarity(&seq1, &scalar, parallel).unwrap(),
            vec![None, None]
        );
    }
}

#[test]
fn shape_mismatch_fails_whole_call() {
    let seq1 = vec![s("a"), s("b"), s("c")];
    let seq2 = vec![s("x"), s("y")];
    for parallel in [false, true] {
        assert_eq!(distance(&seq1, &seq2, parallel), Err(ShapeMismatch));
        assert_eq!(distance_within(&seq1, &seq2, 1, parallel), Err(ShapeMismatch));
        assert_eq!(similarity(&seq1, &seq2, parallel), Err(ShapeMismatch));
        assert_eq!(damerau_distance(&seq1, &seq2, parallel), Err(ShapeMismatch));
        assert_eq!(damerau_similarity(&seq1, &seq2, parallel), Err(ShapeMismatch));
    }
    let err = distance(&seq1, &seq2, false).unwrap_err();
    assert_eq!(err.message(), "Inputs must have the same length.");
}

#[test]
fn bound_exceeded_is_false_not_null() {
    // A distance beyond the bound reports false; only a null input reports null.
    let seq1 = vec![s("kitten"), None];
    let seq2 = vec![s("sitting"), s("sitting")];
    let out = distance_within(&seq1, &seq2, 2, false).unwrap();
    assert_eq!(out, vec![Some(false), None]);
    let out = distance_within(&seq1, &seq2, 3, false).unwrap();
    assert_eq!(out, vec![Some(true), None]);
}

#[test]
fn empty_sequences() {
    let empty: Vec<Option<String>> = vec![];
    let scalar = vec![s("x")];
    assert_eq!(distance(&empty, &empty, false).unwrap(), vec![]);
    assert_eq!(distance(&empty, &scalar, false).unwrap(), vec![]);
    assert_eq!(distance(&empty, &scalar, true).unwrap(), vec![]);
}

#[test]
fn broadcast_distances_against_scalar() {
    let seq1 = vec![s("ba"), s("abc"), s(""), None];
    let scalar = vec![s("ab")];
    for parallel in [false, true] {
        let out = distance(&seq1, &scalar, parallel).unwrap();
        assert_eq!(out, vec![Some(2), Some(1), Some(2), None]);
        let dam = damerau_distance(&seq1, &scalar, parallel).unwrap();
        assert_eq!(dam, vec![Some(1), Some(1), Some(2), None]);
        let within = distance_within(&seq1, &scalar, 1, parallel).unwrap();
        assert_eq!(within, vec![Some(false), Some(true), Some(false), None]);
    }
}

#[test]
fn batch_similarity_values() {
    let seq1 = vec![s("kitten"), s("")];
    let seq2 = vec![s("sitting"), s("")];
    let out = scores(similarity(&seq1, &seq2, false).unwrap());
    assert_eq!(out, vec![Some(1.0 - 3.0 / 7.0), Some(1.0)]);
    let out = scores(damerau_similarity(&seq1, &seq2, true).unwrap());
    assert_eq!(out, vec![Some(1.0 - 3.0 / 7.0), Some(1.0)]);
}
