use submarine::fixed::MICRO;
use submarine::kinematics::VehiclePose;
use submarine::observer::{ObserverState, Orbit, PITCH_LIMIT, START_DISTANCE};
use submarine::trig::{HALF_TURN, QUARTER_TURN};
use submarine::vector::{Axes, Frame, Vec3};

const M: i64 = MICRO;

fn still() -> Orbit {
    Orbit { left: false, right: false, up: false, down: false }
}

fn observer(yaw: i64, pitch: i64) -> ObserverState {
    ObserverState { distance: START_DISTANCE, yaw, pitch, target_yaw: 0 }
}

fn vehicle(position: Vec3, frame: Frame) -> VehiclePose {
    VehiclePose { position, frame, velocity: Vec3::zero() }
}

#[test]
fn starts_level_behind_the_vehicle() {
    let o = ObserverState::new();
    assert_eq!(o, ObserverState { distance: 25 * M, yaw: 0, pitch: 0, target_yaw: 0 });
    assert_eq!(o.target(Vec3::zero()), Vec3::new(0, 5 * M, 25 * M));
}

#[test]
fn the_yaw_closes_on_its_target_in_proportion_to_the_gap_and_the_time() {
    let mut o = observer(0, 0);
    o.turn_toward(1_000_000, 100_000);
    assert_eq!(o, ObserverState { distance: 25 * M, yaw: 200_000, pitch: 0, target_yaw: 1_000_000 });
    o.turn_toward(1_000_000, 0);
    assert_eq!(o.yaw, 200_000);
}

#[test]
fn the_yaw_takes_the_short_way_round() {
    let mut o = observer(3 * M, 500_000);
    o.turn_toward(-3 * M, 500_000);
    assert_eq!(o.yaw, 3_283_184);
    assert_eq!(o.target_yaw, -3 * M);
    let mut p = observer(6 * M, 0);
    p.turn_toward(100_000, 250_000);
    assert_eq!(p.yaw, 6_191_592);
}

#[test]
fn a_gap_of_half_a_turn_is_closed_forwards() {
    let mut a = observer(0, 0);
    a.turn_toward(HALF_TURN, 1_000_000);
    assert_eq!(a.yaw, 6_283_184);
    let mut b = observer(0, 0);
    b.turn_toward(-HALF_TURN, 1_000_000);
    assert_eq!(b.yaw, 6_283_184);
    let mut c = observer(0, 0);
    c.turn_toward(HALF_TURN + 1, 1_000_000);
    assert_eq!(c.yaw, -6_283_182);
}

#[test]
fn the_target_lies_on_the_sphere_about_the_vehicle() {
    let o = observer(3_283_184, 500_000);
    assert_eq!(o.target(Vec3::new(M, 2 * M, 3 * M)), Vec3::new(-2_565_875, 18_989_550, -18_689_825));
    assert_eq!(observer(QUARTER_TURN, 0).target(Vec3::zero()), Vec3::new(25 * M, 5 * M, 0));
    assert_eq!(observer(0, QUARTER_TURN).target(Vec3::zero()), Vec3::new(0, 30 * M, 0));
    assert_eq!(observer(HALF_TURN, 0).target(Vec3::new(1, 2, 3)), Vec3::new(1, 5 * M + 2, -25 * M + 3));
}

#[test]
fn following_eases_the_observer_a_tenth_of_the_way() {
    let mut o = observer(0, 0);
    let pose = vehicle(Vec3::zero(), Frame::aligned());
    let moved = o.follow(Some(&pose), Vec3::new(0, 8 * M, 25 * M), 16_667);
    assert_eq!(moved, Vec3::new(0, 7_700_000, 25 * M));
    assert_eq!(o, observer(0, 0));
    let again = o.follow(Some(&pose), Vec3::new(-5, -5 * M - 5, 25 * M + 19), 0);
    assert_eq!(again, Vec3::new(-5, -4_000_005, 25 * M + 18));
}

#[test]
fn following_reads_the_yaw_of_the_vehicle() {
    let quarter_left = Frame::new(Axes {
        right: Vec3::new(0, 0, -M),
        up: Vec3::new(0, M, 0),
        back: Vec3::new(M, 0, 0),
    })
    .unwrap();
    assert_eq!(quarter_left.yaw(), QUARTER_TURN);
    assert_eq!(Frame::aligned().yaw(), 0);
    let pose = vehicle(Vec3::new(0, -10 * M, 0), quarter_left);
    let mut o = observer(0, 0);
    let moved = o.follow(Some(&pose), Vec3::new(0, 8 * M, 25 * M), 100_000);
    assert_eq!(o.target_yaw, QUARTER_TURN);
    assert_eq!(o.yaw, 314_159);
    assert_eq!(moved, Vec3::new(775_860, 6_700_000, 24_876_238));
}

#[test]
fn without_a_vehicle_the_observer_stays() {
    let mut o = observer(123, 456);
    let moved = o.follow(None, Vec3::new(1, 2, 3), 1_000_000);
    assert_eq!(moved, Vec3::new(1, 2, 3));
    assert_eq!(o, observer(123, 456));
}

#[test]
fn swinging_left_and_right_moves_the_yaw() {
    let mut o = observer(0, 0);
    o.orbit(Orbit { left: true, ..still() }, 500_000);
    assert_eq!(o.yaw, -1_000_000);
    o.orbit(Orbit { right: true, ..still() }, 250_000);
    assert_eq!(o.yaw, -500_000);
    o.orbit(Orbit { left: true, right: true, ..still() }, 250_000);
    assert_eq!(o.yaw, -500_000);
    o.orbit(still(), 250_000);
    assert_eq!(o, ObserverState { distance: 25 * M, yaw: -500_000, pitch: 0, target_yaw: 0 });
}

#[test]
fn the_pitch_stops_at_its_limits() {
    let mut o = observer(0, 0);
    o.orbit(Orbit { up: true, ..still() }, 400_000);
    assert_eq!(o.pitch, 800_000);
    o.orbit(Orbit { up: true, ..still() }, 400_000);
    assert_eq!(o.pitch, PITCH_LIMIT);
    o.orbit(Orbit { down: true, ..still() }, u32::MAX);
    assert_eq!(o.pitch, -PITCH_LIMIT);
    o.orbit(Orbit { up: true, down: true, ..still() }, 100_000);
    assert_eq!(o.pitch, -PITCH_LIMIT);
    let mut p = observer(0, PITCH_LIMIT);
    p.orbit(Orbit { up: true, down: true, ..still() }, 100_000);
    assert_eq!(p.pitch, 800_000);
}

#[test]
fn a_pitch_outside_the_limits_is_brought_back_when_it_is_next_moved() {
    let mut o = observer(0, 5 * M);
    o.orbit(Orbit { left: true, ..still() }, 1);
    assert_eq!(o.pitch, 5 * M);
    o.orbit(Orbit { down: true, ..still() }, 1);
    assert_eq!(o.pitch, PITCH_LIMIT);
}
