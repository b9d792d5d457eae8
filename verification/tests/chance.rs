use submarine::chance::{fraction_of, sample};
use submarine::fixed::MICRO;

#[test]
fn a_draw_stands_for_its_share_of_the_range() {
    assert_eq!(fraction_of(0), 0);
    assert_eq!(fraction_of(1), 0);
    assert_eq!(fraction_of(4_294), 0);
    assert_eq!(fraction_of(4_295), 1);
    assert_eq!(fraction_of(1 << 31), 500_000);
    assert_eq!(fraction_of(1 << 30), 250_000);
    assert_eq!(fraction_of(u32::MAX), 999_999);
}

#[test]
fn samples_are_fractions_and_vary() {
    let mut seen = Vec::new();
    let mut total: u64 = 0;
    for _ in 0..10_000 {
        let s = sample();
        assert!((s as i64) < MICRO);
        total += s as u64;
        seen.push(s);
    }
    seen.sort();
    seen.dedup();
    assert!(seen.len() > 9_000);
    let mean = total / 10_000;
    assert!(mean > 450_000 && mean < 550_000, "{}", mean);
}
