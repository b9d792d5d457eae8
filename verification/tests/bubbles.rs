use submarine::ballast::{BallastState, CHARGE_FULL, LEVEL_FULL};
use submarine::bubbles::{bubble_from, rise, Bubble, BubbleEmitter, SPAWN_INTERVAL};
use submarine::fixed::MICRO;
use submarine::kinematics::VehiclePose;
use submarine::vector::{Frame, Vec3};

const M: i64 = MICRO;

fn tank(fill: u64, vents: bool) -> BallastState {
    BallastState::from_parts(fill, vents, false, LEVEL_FULL, false, CHARGE_FULL).unwrap()
}

fn at(y: i64) -> VehiclePose {
    VehiclePose { position: Vec3::new(0, y, 0), frame: Frame::aligned(), velocity: Vec3::zero() }
}

#[test]
fn a_flooding_vehicle_releases_a_bubble_each_interval() {
    let mut e = BubbleEmitter::new();
    let pose = at(-5 * M);
    assert_eq!(e.poll(&tank(0, true), Some(&pose), 50_000), 0);
    assert_eq!(e.timer(), 50_000);
    assert_eq!(e.poll(&tank(0, true), Some(&pose), 30_000), 0);
    assert_eq!(e.timer(), SPAWN_INTERVAL);
    assert_eq!(e.poll(&tank(0, true), Some(&pose), 1), 1);
    assert_eq!(e.timer(), 1);
    assert_eq!(e.poll(&tank(0, true), Some(&pose), 400_000), 5);
    assert_eq!(e.timer(), 1);
    assert_eq!(e.poll(&tank(0, true), Some(&pose), 159_999), 1);
    assert_eq!(e.timer(), 80_000);
    assert_eq!(e.poll(&tank(0, true), Some(&pose), 0), 0);
    assert_eq!(e.poll(&tank(0, true), Some(&pose), u32::MAX), 53_688);
    assert_eq!(e.timer(), 7_295);
}

#[test]
fn nothing_is_released_with_the_vents_shut_or_at_the_surface_or_with_a_full_tank() {
    let mut e = BubbleEmitter::new();
    let deep = at(-5 * M);
    assert_eq!(e.poll(&tank(0, true), Some(&deep), 70_000), 0);
    assert_eq!(e.poll(&tank(0, false), Some(&deep), 70_000), 0);
    assert_eq!(e.timer(), 0);
    assert_eq!(e.poll(&tank(0, true), Some(&deep), 70_000), 0);
    assert_eq!(e.poll(&tank(0, true), Some(&at(0)), 70_000), 0);
    assert_eq!(e.timer(), 0);
    assert_eq!(e.poll(&tank(0, true), Some(&deep), 70_000), 0);
    assert_eq!(e.poll(&tank(LEVEL_FULL, true), Some(&deep), 70_000), 0);
    assert_eq!(e.timer(), 0);
}

#[test]
fn without_a_vehicle_the_timer_is_left_alone() {
    let mut e = BubbleEmitter::new();
    assert_eq!(e.poll(&tank(0, true), Some(&at(-1)), 70_000), 0);
    assert_eq!(e.poll(&tank(0, true), None, 70_000), 0);
    assert_eq!(e.timer(), 70_000);
    assert_eq!(e.poll(&tank(0, false), None, 70_000), 0);
    assert_eq!(e.timer(), 0);
}

#[test]
fn a_bubble_takes_its_shape_from_the_samples() {
    let origin = Vec3::new(10 * M, -20 * M, 30 * M);
    assert_eq!(
        bubble_from(origin, 0, 0, 0),
        Bubble { position: Vec3::new(9_750_000, -20_700_000, 29_750_000), radius: 80_000, lifetime: 1_000_000 }
    );
    assert_eq!(
        bubble_from(origin, 500_000, 500_000, 999_999),
        Bubble { position: Vec3::new(10 * M, -20_700_000, 30_249_999), radius: 110_000, lifetime: 1_250_000 }
    );
    assert_eq!(
        bubble_from(origin, 999_999, 750_001, 250_000),
        Bubble { position: Vec3::new(10_125_000, -20_700_000, 29_875_000), radius: 139_999, lifetime: 1_499_999 }
    );
}

#[test]
fn a_bubble_rises_and_ages() {
    assert_eq!(rise(-10 * M, 0, 1_200_000, 1_000_000), (-8_300_000, 1_000_000, false));
    assert_eq!(rise(-8_300_000, 1_000_000, 1_200_000, 100_000), (-8_130_000, 1_100_000, false));
    assert_eq!(rise(-8_130_000, 1_100_000, 1_200_000, 100_000), (-7_960_000, 1_200_000, true));
    assert_eq!(rise(-7, 3, 10, 3), (-2, 6, false));
    assert_eq!(rise(-10 * M, 5, 10, u32::MAX), (7_291_444_401, 5, true));
}

#[test]
fn a_bubble_that_reaches_the_surface_is_gone() {
    assert_eq!(rise(-17, 0, 1_200_000, 10), (0, 0, true));
    assert_eq!(rise(-18, 0, 1_200_000, 10), (-1, 10, false));
    assert_eq!(rise(5, 0, 1_200_000, 0), (5, 0, true));
}

#[test]
fn a_bubble_released_by_chance_is_within_its_bounds() {
    let origin = Vec3::new(10 * M, -20 * M, 30 * M);
    let mut radii = Vec::new();
    for _ in 0..500 {
        let b = submarine::bubbles::release_bubble(origin);
        assert_eq!(b.position.y, -20_700_000);
        assert!(b.position.x >= 9_750_000 && b.position.x < 10_250_000);
        assert!(b.position.z >= 29_750_000 && b.position.z < 30_250_000);
        assert!(b.radius >= 80_000 && b.radius < 140_000);
        assert!(b.lifetime >= 1_000_000 && b.lifetime < 1_500_000);
        radii.push(b.radius);
    }
    radii.sort();
    radii.dedup();
    assert!(radii.len() > 100);
}
