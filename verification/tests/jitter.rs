use physics_rs::jitter::JitterSource;

#[test]
fn range_is_what_the_source_was_made_with() {
    assert_eq!(JitterSource::seeded(1, 0).range(), 0);
    assert_eq!(JitterSource::seeded(1, 1).range(), 1);
    assert_eq!(JitterSource::seeded(1, u32::MAX).range(), u32::MAX);
}

#[test]
fn draws_without_range_are_zero() {
    let mut jitter = JitterSource::seeded(99, 0);
    for _ in 0..100 {
        assert_eq!(jitter.draw(), 0);
    }
    assert_eq!(jitter.range(), 0);
}

#[test]
fn draws_of_range_one_take_each_of_three_values() {
    let mut jitter = JitterSource::seeded(7, 1);
    let mut seen = [0usize; 3];
    for _ in 0..600 {
        let shift = jitter.draw();
        assert!(-1 <= shift && shift <= 1);
        seen[(shift + 1) as usize] += 1;
    }
    assert!(seen[0] > 0);
    assert!(seen[1] > 0);
    assert!(seen[2] > 0);
    assert_eq!(jitter.range(), 1);
}

#[test]
fn draws_stay_within_a_wider_range() {
    let mut jitter = JitterSource::seeded(5, 10);
    let mut least: i64 = 0;
    let mut most: i64 = 0;
    for _ in 0..2000 {
        let shift = jitter.draw();
        assert!(-10 <= shift && shift <= 10);
        least = least.min(shift);
        most = most.max(shift);
    }
    assert_eq!(least, -10);
    assert_eq!(most, 10);
}

#[test]
fn draws_stay_within_the_widest_range() {
    let mut jitter = JitterSource::seeded(5, u32::MAX);
    let mut negative = false;
    let mut positive = false;
    for _ in 0..200 {
        let shift = jitter.draw();
        assert!(-(u32::MAX as i64) <= shift && shift <= u32::MAX as i64);
        negative = negative || shift < 0;
        positive = positive || shift > 0;
    }
    assert!(negative && positive);
}

#[test]
fn equal_seeds_draw_alike() {
    let mut a = JitterSource::seeded(2024, 3);
    let mut b = JitterSource::seeded(2024, 3);
    for _ in 0..200 {
        assert_eq!(a.draw(), b.draw());
    }
}

#[test]
fn different_seeds_draw_differently() {
    let mut a = JitterSource::seeded(1, 1000);
    let mut b = JitterSource::seeded(2, 1000);
    let mut differ = false;
    for _ in 0..50 {
        differ = differ || a.draw() != b.draw();
    }
    assert!(differ);
}
