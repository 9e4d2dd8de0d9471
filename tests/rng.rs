use xero_toolkit::rng::SimpleRng;

#[test]
fn generator_follows_its_recurrence() {
    let mut rng = SimpleRng::new(0);
    assert_eq!(rng.next(), 12345);
    assert_eq!(rng.next(), 12345u64.wrapping_mul(1103515245).wrapping_add(12345));
    let mut one = SimpleRng::new(1);
    assert_eq!(one.next(), 1103527590);
}

#[test]
fn generator_wraps_around() {
    let mut rng = SimpleRng::new(u64::MAX);
    assert_eq!(rng.next(), 18446744072606048716);
}
