use submarine::fixed::MICRO;
use submarine::steering::{unit_of, SteeringState, FLOOR, MAX_RADIUS};
use submarine::vector::Vec3;

const M: i64 = MICRO;
const SECOND: u32 = 1_000_000;

fn state(direction: Vec3, speed: i64, interval: i64) -> SteeringState {
    SteeringState::new(direction, speed, interval).unwrap()
}

fn parts(s: &SteeringState) -> (Vec3, i64, i64, i64) {
    (s.direction(), s.speed(), s.change_timer(), s.change_interval())
}

#[test]
fn an_entity_moves_along_its_heading_and_sways() {
    let mut s = state(Vec3::new(0, 0, -M), 2 * M, 3 * M);
    let mut p = Vec3::new(0, -5 * M, 0);
    s.steer(&mut p, SECOND);
    assert_eq!(p, Vec3::new(272_515, -5_000_000, -1_978_475));
    assert_eq!(parts(&s), (Vec3::new(0, 0, -M), 2 * M, 1_000_000, 3 * M));
    s.steer(&mut p, SECOND);
    assert_eq!(p, Vec3::new(40_619, -5_000_000, -4_261_165));
    assert_eq!(s.change_timer(), 2_000_000);
}

#[test]
fn a_frame_long_step() {
    let mut s = state(Vec3::new(600_000, 0, -800_000), 1_500_000, 2 * M);
    let mut p = Vec3::new(12 * M, -7 * M, 30 * M);
    s.steer(&mut p, 16_667);
    assert_eq!(p, Vec3::new(12_019_714, -7_000_000, 29_975_035));
    assert_eq!(parts(&s), (Vec3::new(600_000, 0, -800_000), 1_500_000, 16_667, 2 * M));
}

#[test]
fn the_heading_is_kept_while_the_timer_has_not_passed_the_interval() {
    let mut s = state(Vec3::new(0, 0, -M), 2 * M, 3 * M);
    let mut p = Vec3::new(0, -5 * M, 0);
    s.steer(&mut p, SECOND);
    s.steer(&mut p, SECOND);
    s.steer(&mut p, SECOND);
    assert_eq!(parts(&s), (Vec3::new(0, 0, -M), 2 * M, 3_000_000, 3 * M));
    assert_eq!(p, Vec3::new(-42_478, -5_000_000, -6_439_758));
}

#[test]
fn the_heading_changes_once_the_timer_passes_the_interval() {
    let mut s = state(Vec3::new(0, 0, -M), 2 * M, 3 * M);
    let mut p = Vec3::new(0, -5 * M, 0);
    s.steer(&mut p, SECOND);
    s.steer(&mut p, SECOND);
    s.steer(&mut p, SECOND + 1);
    assert_eq!(parts(&s), (Vec3::new(698_550, 173_653, 694_169), 2 * M, 0, 1_500_826));
    assert_eq!(p, Vec3::new(1_438_960, -4_652_694, -2_599_924));
}

#[test]
fn a_negative_interval_is_passed_at_once() {
    let mut s = state(Vec3::new(0, 0, -M), 2 * M, -1);
    let mut p = Vec3::new(0, -5 * M, 0);
    s.steer(&mut p, 0);
    assert_eq!(parts(&s), (Vec3::new(-707_036, 14_140, -707_036), 2 * M, 0, 1_500_000));
    assert_eq!(p, Vec3::new(0, -5 * M, 0));
}

#[test]
fn a_new_heading_has_length_one() {
    let mut s = state(Vec3::new(0, 0, -M), 2 * M, 0);
    let mut p = Vec3::new(17 * M, -9 * M, -33 * M);
    for _ in 0..200 {
        s.steer(&mut p, 700_000);
        let d = s.direction();
        let n = d.len_squared();
        assert!(n > 999_990_000_000 && n <= 1_000_000_000_000, "{:?}", d);
        assert!(s.change_interval() >= -500_000 && s.change_interval() <= 3_500_000);
        assert!(p.y <= 0 && p.y >= FLOOR);
    }
}

#[test]
fn an_entity_that_breaks_the_surface_is_put_on_it_and_heads_down() {
    let mut s = state(Vec3::new(0, M, 0), 3 * M, 10 * M);
    let mut p = Vec3::new(0, -M, 0);
    s.steer(&mut p, SECOND);
    assert_eq!(p, Vec3::new(272_515, 0, 21_525));
    assert_eq!(s.direction(), Vec3::new(0, -M, 0));
    let mut t = state(Vec3::new(0, -M, 0), 0, 10 * M);
    let mut q = Vec3::new(0, 5, 0);
    t.steer(&mut q, 0);
    assert_eq!(q, Vec3::zero());
    assert_eq!(t.direction(), Vec3::new(0, -M, 0));
}

#[test]
fn an_entity_that_goes_too_deep_is_put_on_the_floor_and_heads_up() {
    let mut s = state(Vec3::new(0, -M, 0), 3 * M, 10 * M);
    let mut p = Vec3::new(10 * M, -24 * M, 0);
    s.steer(&mut p, SECOND);
    assert_eq!(p, Vec3::new(10_042_790, FLOOR, 21_525));
    assert_eq!(s.direction(), Vec3::new(0, M, 0));
    let mut t = state(Vec3::new(0, M, 0), 0, 10 * M);
    let mut q = Vec3::new(0, -26 * M, 0);
    t.steer(&mut q, 0);
    assert_eq!(q, Vec3::new(0, FLOOR, 0));
    assert_eq!(t.direction(), Vec3::new(0, M, 0));
}

#[test]
fn an_entity_beyond_the_radius_is_drawn_toward_the_origin() {
    let mut s = state(Vec3::new(M, 0, 0), 0, 10 * M);
    let mut p = Vec3::new(500 * M, -10 * M, 0);
    s.steer(&mut p, SECOND);
    assert_eq!(p, Vec3::new(497_296_536, -9_940_048, 21_396));
    assert_eq!(s.direction(), Vec3::new(M, 0, 0));
}

#[test]
fn the_radius_itself_is_inside() {
    let mut s = state(Vec3::new(0, 0, -M), 0, 10 * M);
    let mut p = Vec3::new(MAX_RADIUS, 0, 0);
    s.steer(&mut p, 0);
    assert_eq!(p, Vec3::new(MAX_RADIUS, 0, 0));
    let mut q = Vec3::new(MAX_RADIUS, 0, 1);
    s.steer(&mut q, 0);
    assert_eq!(q, Vec3::new(MAX_RADIUS, 0, 1));
}

#[test]
fn a_far_away_entity_is_still_served() {
    let mut s = state(Vec3::new(0, 0, -M), 0, 10 * M);
    let mut p = Vec3::new(1 << 62, 0, -(1 << 62));
    s.steer(&mut p, 1_000);
    assert_eq!(p, Vec3::new(4_611_686_018_427_385_640, 0, -4_611_686_018_427_385_521));
}

#[test]
fn a_long_pull_can_carry_an_entity_past_the_origin() {
    let mut s = state(Vec3::new(0, 0, -M), 0, 1 << 62);
    let mut p = Vec3::new(0, -10 * M, 400 * M + 5);
    s.steer(&mut p, 4_000_000_000);
    assert_eq!(p, Vec3::new(-10_789_048_144, 90_095_863, -503_138_593));
}

#[test]
fn a_heading_longer_than_one_is_refused() {
    assert!(SteeringState::new(Vec3::new(M + 1, 0, 0), 1, 1).is_none());
    assert!(SteeringState::new(Vec3::new(0, -M - 1, 0), 1, 1).is_none());
    assert!(SteeringState::new(Vec3::new(M, -M, M), 1, 1).is_none());
    assert!(SteeringState::new(Vec3::new(i64::MIN, 0, 0), 1, 1).is_none());
}

#[test]
fn a_heading_must_have_length_one() {
    assert!(SteeringState::new(Vec3::zero(), 1, 1).is_none());
    assert!(SteeringState::new(Vec3::new(999_996, 0, 0), 1, 1).is_none());
    assert!(SteeringState::new(Vec3::new(999_997, 0, 0), 1, 1).is_some());
    assert!(SteeringState::new(Vec3::new(0, -M, 0), i64::MIN, i64::MIN).is_some());
    assert!(SteeringState::new(Vec3::new(0, -M, 1_414), 1, 1).is_some());
    assert!(SteeringState::new(Vec3::new(0, -M, 1_415), 1, 1).is_none());
    assert!(SteeringState::new(Vec3::new(600_000, 0, -800_000), 1, 1).is_some());
    assert!(SteeringState::new(Vec3::new(577_350, 577_350, 577_350), 1, 1).is_some());
}

#[test]
fn scaling_to_length_one() {
    assert_eq!(unit_of(Vec3::new(3, 4, 0)), Vec3::new(600_000, 800_000, 0));
    assert_eq!(unit_of(Vec3::new(1, 1, 1)), Vec3::new(577_350, 577_350, 577_350));
    assert_eq!(unit_of(Vec3::new(-3 * M, 250_000, 3 * M)), Vec3::new(-705_882, 58_823, 705_882));
    assert_eq!(unit_of(Vec3::new(0, 0, -7)), Vec3::new(0, 0, -M));
    let limit = 1_000_000_000_000;
    assert_eq!(unit_of(Vec3::new(limit, -limit, limit)), Vec3::new(577_350, -577_350, 577_350));
}

#[test]
fn a_new_entity_takes_its_state_from_the_samples() {
    let s = SteeringState::spawned(0, 0, 0, 0, 0);
    assert_eq!(parts(&s), (Vec3::new(-700_140, -140_028, -700_140), M, 0, 2 * M));
    let t = SteeringState::spawned(999_999, 999_999, 999_999, 999_999, 999_999);
    assert_eq!(parts(&t), (Vec3::new(700_140, 140_027, 700_140), 2_999_998, 0, 4_999_997));
    let u = SteeringState::spawned(750_000, 400_000, 500_000, 500_000, 500_000);
    assert_eq!(parts(&u), (Vec3::new(996_815, -79_745, 0), 2 * M, 0, 3_500_000));
    let v = SteeringState::spawned(u32::MAX, 0, u32::MAX, u32::MAX, u32::MAX);
    assert_eq!(parts(&v), (Vec3::new(707_106, -16, 707_106), 8_590_934_590, 0, 12_886_901_885));
}

#[test]
fn a_new_entity_drawn_at_the_centre_heads_straight_on() {
    let s = SteeringState::spawned(500_000, 500_000, 500_000, 250_000, 100_000);
    assert_eq!(parts(&s), (Vec3::new(0, 0, -M), 1_500_000, 0, 2_300_000));
    let t = SteeringState::spawned(500_000, 500_001, 500_000, 0, 0);
    assert_eq!(t.direction(), Vec3::new(0, 0, -M));
    let u = SteeringState::spawned(500_000, 500_003, 500_000, 0, 0);
    assert_eq!(u.direction(), Vec3::new(0, M, 0));
}

#[test]
fn an_entity_made_by_chance_is_within_its_bounds() {
    let mut headings = Vec::new();
    for _ in 0..300 {
        let s = SteeringState::spawned_by_chance();
        assert!(s.speed() >= M && s.speed() < 3 * M);
        assert!(s.change_interval() >= 2 * M && s.change_interval() < 5 * M);
        assert_eq!(s.change_timer(), 0);
        let n = s.direction().len_squared();
        assert!(n > 999_990_000_000 && n <= 1_000_000_000_000);
        assert!(s.direction().y.abs() <= 1_000_000);
        headings.push(s.direction().x);
    }
    headings.sort();
    headings.dedup();
    assert!(headings.len() > 100);
}
