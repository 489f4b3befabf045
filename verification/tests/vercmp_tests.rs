//! Tests of the version comparator and the candidate selection.

use findupdate::vercmp::{select_latest, version_compare, ComparisonResult};

#[test]
fn test_compare_exact_values() {
    assert_eq!(version_compare("1.2.3", "1.2.3"), ComparisonResult::Equal);
    assert_eq!(version_compare("1.10", "1.9"), ComparisonResult::Greater);
    assert_eq!(version_compare("1.0", "1.0.1"), ComparisonResult::Less);
    // a pre-release ranks below the bare release
    assert_eq!(version_compare("1.0-rc1", "1.0"), ComparisonResult::Less);
    // leading zeroes do not matter
    assert_eq!(version_compare("1.02", "1.2"), ComparisonResult::Equal);
    // numeric pieces rank above non-numeric ones
    assert_eq!(version_compare("1.1", "1.beta"), ComparisonResult::Greater);
}

#[test]
fn test_compare_lexicographic_fallback() {
    // neither side starts with a number: plain character order decides
    assert_eq!(version_compare("beta", "alpha"), ComparisonResult::Greater);
    assert_eq!(version_compare("v2.0", "v1.0"), ComparisonResult::Greater);
    // one unparsable side forces the fallback for the pair
    assert_eq!(version_compare("2abc", "10"), ComparisonResult::Greater);
}

#[test]
fn test_compare_inverse_and_reflexive() {
    let samples = ["1.2.3", "1.10", "beta", "2abc", "", "1.0-rc1", "v2.0"];
    for a in samples.iter() {
        assert_eq!(version_compare(a, a), ComparisonResult::Equal);
        for b in samples.iter() {
            let ab = version_compare(a, b);
            let ba = version_compare(b, a);
            let flipped = match ab {
                ComparisonResult::Less => ComparisonResult::Greater,
                ComparisonResult::Equal => ComparisonResult::Equal,
                ComparisonResult::Greater => ComparisonResult::Less,
            };
            assert_eq!(ba, flipped);
        }
    }
}

#[test]
fn test_select_latest() {
    assert_eq!(select_latest(&vec![]), None);
    let one = vec!["0.5".to_string()];
    assert_eq!(select_latest(&one), Some("0.5".to_string()));
    let many = vec![
        "1.9".to_string(),
        "1.10".to_string(),
        "1.2".to_string(),
    ];
    assert_eq!(select_latest(&many), Some("1.10".to_string()));
}
