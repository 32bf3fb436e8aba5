use battle::utils::clamp;
use battle::utils::clamp_max;
use battle::utils::clamp_min;
use battle::utils::try_remove_item;
use battle::utils::SimpleRng;

#[test]
fn test_clamp_min() {
    assert_eq!(clamp_min(1, 0), 1);
    assert_eq!(clamp_min(0, 0), 0);
    assert_eq!(clamp_min(-1, 0), 0);
}

#[test]
fn test_clamp_max() {
    assert_eq!(clamp_max(1, 2), 1);
    assert_eq!(clamp_max(2, 2), 2);
    assert_eq!(clamp_max(3, 2), 2);
}

#[test]
fn test_clamp() {
    let min = 0;
    let max = 2;
    assert_eq!(clamp(1, min, max), 1);
    assert_eq!(clamp(0, min, max), 0);
    assert_eq!(clamp(-1, min, max), 0);
    assert_eq!(clamp(1, min, max), 1);
    assert_eq!(clamp(2, min, max), 2);
    assert_eq!(clamp(3, min, max), 2);
}

#[test]
fn test_try_remove_item() {
    let mut a = vec![1, 2, 3];
    assert!(try_remove_item(&mut a, &1));
    assert_eq!(&a, &[2, 3]);
    assert!(!try_remove_item(&mut a, &666));
}

#[test]
fn remove_item_takes_only_the_first_match() {
    let mut a = vec![5, 7, 5, 9];
    assert!(try_remove_item(&mut a, &5));
    assert_eq!(a, vec![7, 5, 9]);
}

#[test]
fn rng_follows_the_congruence() {
    let mut rng = SimpleRng::seed_from_u32(0);
    // 22695477 * 0 + 1 = 1
    assert_eq!(rng.gen_range(0, 10), 1);
    // 22695477 * 1 + 1 = 22695478
    assert_eq!(rng.gen_range(0, 10), 8);
    // 22695477 * 22695478 + 1 modulo 2^32 = 2156045615
    assert_eq!(rng.gen_range(0, 1000), 615);
}

#[test]
fn rng_range_starts_at_min() {
    let mut rng = SimpleRng::seed_from_u32(2);
    // 22695477 * 2 + 1 = 45390955, and 45390955 % 7 = 1
    assert_eq!(rng.gen_range(-3, 4), -2);
}

#[test]
fn rng_same_seed_same_draws() {
    let mut a = SimpleRng::seed_from_u32(12345);
    let mut b = SimpleRng::seed_from_u32(12345);
    for _ in 0..100 {
        assert_eq!(a.gen_range(-50, 50), b.gen_range(-50, 50));
    }
    assert_eq!(a, b);
}
