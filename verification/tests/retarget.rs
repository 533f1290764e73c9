use purple_core::retarget::{ClampedRetarget, RetargetPolicy};

fn policy() -> ClampedRetarget {
    ClampedRetarget {
        target_interval: 60,
        max_adjustment: 4,
        min_edge_bits: 24,
        max_edge_bits: 31,
    }
}

#[test]
fn on_pace_keeps_the_difficulty() {
    assert_eq!(policy().retarget(1000, 24, 7, 60), (1000, 24));
}

#[test]
fn fast_blocks_raise_the_difficulty() {
    assert_eq!(policy().retarget(1000, 24, 7, 30), (2000, 24));
    assert_eq!(policy().retarget(1000, 24, 7, 40), (1500, 24));
}

#[test]
fn slow_blocks_lower_the_difficulty() {
    assert_eq!(policy().retarget(1000, 24, 7, 120), (500, 24));
    assert_eq!(policy().retarget(1000, 24, 7, 90), (666, 24));
}

#[test]
fn adjustment_is_clamped() {
    assert_eq!(policy().retarget(1000, 24, 7, 1), (4000, 24));
    assert_eq!(policy().retarget(1000, 24, 7, 0), (4000, 24));
    assert_eq!(policy().retarget(1000, 24, 7, 6000), (250, 24));
    assert_eq!(policy().retarget(1000, 24, 7, u64::MAX), (250, 24));
}

#[test]
fn difficulty_stays_between_one_and_the_largest_number() {
    assert_eq!(policy().retarget(0, 24, 1, 60), (1, 24));
    assert_eq!(policy().retarget(1, 24, 1, 6000), (1, 24));
    assert_eq!(policy().retarget(u64::MAX, 24, 1, 1), (u64::MAX, 24));
    assert_eq!(policy().retarget(u64::MAX / 2, 24, 1, 20), (u64::MAX, 24));
}

#[test]
fn zero_adjustment_counts_as_one() {
    let fixed = ClampedRetarget { max_adjustment: 0, ..policy() };
    assert_eq!(fixed.retarget(1000, 24, 7, 30), (1000, 24));
    assert_eq!(fixed.retarget(1000, 24, 7, 120), (1000, 24));
}

#[test]
fn edge_bits_are_held_in_bounds() {
    assert_eq!(policy().retarget(1000, 10, 7, 60), (1000, 24));
    assert_eq!(policy().retarget(1000, 40, 7, 60), (1000, 31));
    assert_eq!(policy().retarget(1000, 29, 7, 60), (1000, 29));
}
