use hola::matcher::identify;

fn bits(x: f64) -> u64 {
    x.to_bits()
}

#[test]
fn identifies_when_any_distance_is_below_threshold() {
    let distances = vec![bits(0.6), bits(0.2)];
    assert!(identify(&distances, bits(0.4)));
}

#[test]
fn rejects_when_no_distance_is_below_threshold() {
    let distances = vec![bits(0.6), bits(0.5)];
    assert!(!identify(&distances, bits(0.4)));
}

#[test]
fn rejects_on_empty_store() {
    let distances: Vec<u64> = Vec::new();
    assert!(!identify(&distances, bits(0.4)));
}

#[test]
fn comparison_is_strict() {
    // A distance exactly at the threshold is not a match.
    let distances = vec![bits(0.4)];
    assert!(!identify(&distances, bits(0.4)));
}

#[test]
fn raising_the_threshold_keeps_matches() {
    // Threshold monotonicity on concrete values: a candidate identified at
    // a stricter threshold stays identified at a looser one.
    let distances = vec![bits(0.25)];
    assert!(identify(&distances, bits(0.3)));
    assert!(identify(&distances, bits(0.5)));
    // And one rejected at a looser threshold is rejected at a stricter one.
    let far = vec![bits(0.9)];
    assert!(!identify(&far, bits(0.5)));
    assert!(!identify(&far, bits(0.3)));
}
