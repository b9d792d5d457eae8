use submarine::fixed::MICRO;
use submarine::kinematics::VehiclePose;
use submarine::scan::{detect, Detection, DetectionList, SweepState, MAX_BLIPS, SCAN_RANGE};
use submarine::trig::{HALF_TURN, QUARTER_TURN};
use submarine::vector::{Axes, Frame, Vec3};

const M: i64 = MICRO;

fn origin_pose() -> VehiclePose {
    VehiclePose::at_rest()
}

#[test]
fn detects_what_is_within_range_in_order() {
    let entities = vec![
        Vec3::new(0, 0, -10 * M),
        Vec3::new(10 * M, 0, 0),
        Vec3::new(0, 0, 10 * M),
        Vec3::new(-10 * M, 0, 0),
        Vec3::new(30 * M, -40 * M, 0),
        Vec3::new(30 * M, -40 * M, 1),
        Vec3::new(3 * M, 0, -4 * M),
        Vec3::new(60 * M, 0, 0),
    ];
    let found = detect(Vec3::zero(), &Frame::aligned(), &entities);
    assert_eq!(
        found,
        vec![
            Detection { x: 100_000_000, y: 85_000_000, bearing: QUARTER_TURN },
            Detection { x: 115_000_000, y: 100_000_000, bearing: 0 },
            Detection { x: 100_000_000, y: 115_000_000, bearing: 3 * QUARTER_TURN },
            Detection { x: 85_000_000, y: 100_000_000, bearing: HALF_TURN },
            Detection { x: 175_000_000, y: 100_000_000, bearing: 0 },
            Detection { x: 104_499_175, y: 94_013_403, bearing: 926_543 },
        ]
    );
}

#[test]
fn detection_is_relative_to_the_vehicle_and_its_heading() {
    let frame = Frame::new(Axes {
        right: Vec3::new(0, 0, -M),
        up: Vec3::new(0, M, 0),
        back: Vec3::new(M, 0, 0),
    })
    .unwrap();
    let entities = vec![Vec3::new(M, -2 * M, -7 * M), Vec3::new(-9 * M, -2 * M, 3 * M)];
    let found = detect(Vec3::new(M, -2 * M, 3 * M), &frame, &entities);
    assert_eq!(
        found,
        vec![
            Detection { x: 115_000_000, y: 100_000_000, bearing: 0 },
            Detection { x: 100_000_000, y: 85_000_000, bearing: QUARTER_TURN },
        ]
    );
}

#[test]
fn nothing_beyond_the_range_is_listed() {
    let entities = vec![
        Vec3::new(SCAN_RANGE + 1, 0, 0),
        Vec3::new(0, -SCAN_RANGE - 1, 0),
        Vec3::new(i64::MAX, i64::MAX, i64::MAX),
        Vec3::new(i64::MIN, 0, 0),
        Vec3::new(29 * M, 29 * M, 29 * M),
    ];
    assert!(detect(Vec3::zero(), &Frame::aligned(), &entities).is_empty());
    assert!(detect(Vec3::new(i64::MIN, i64::MAX, 0), &Frame::aligned(), &entities).is_empty());
}

#[test]
fn the_edge_of_the_range_is_inside() {
    let entities = vec![Vec3::new(SCAN_RANGE, 0, 0), Vec3::new(0, 0, -SCAN_RANGE)];
    let found = detect(Vec3::zero(), &Frame::aligned(), &entities);
    assert_eq!(found.len(), 2);
    assert_eq!(found[1], Detection { x: 100_000_000, y: 25_000_000, bearing: QUARTER_TURN });
}

#[test]
fn a_vehicle_far_from_the_origin_still_detects_its_neighbours() {
    let here = Vec3::new(i64::MAX - 5, i64::MIN + 5, 0);
    let entities = vec![Vec3::new(i64::MAX, i64::MIN, 0), Vec3::new(0, 0, 0)];
    let found = detect(here, &Frame::aligned(), &entities);
    assert_eq!(found.len(), 1);
    assert_eq!(found[0].bearing, 0);
}

#[test]
fn an_empty_world_gives_an_empty_list() {
    assert!(detect(Vec3::zero(), &Frame::aligned(), &Vec::new()).is_empty());
}

#[test]
fn a_pass_replaces_the_list() {
    let mut scan = DetectionList::new();
    let pose = origin_pose();
    scan.run_detection(Some(&pose), &vec![Vec3::new(0, 0, -10 * M), Vec3::new(10 * M, 0, 0)]);
    assert_eq!(scan.records().len(), 2);
    scan.run_detection(Some(&pose), &vec![Vec3::new(-10 * M, 0, 0)]);
    assert_eq!(scan.records(), &vec![Detection { x: 85_000_000, y: 100_000_000, bearing: HALF_TURN }]);
    scan.run_detection(Some(&pose), &vec![]);
    assert!(scan.records().is_empty());
}

#[test]
fn a_second_pass_over_the_same_poses_changes_nothing() {
    let mut scan = DetectionList::new();
    let pose = origin_pose();
    let entities = vec![Vec3::new(3 * M, M, -4 * M), Vec3::new(-7 * M, 0, 20 * M), Vec3::new(90 * M, 0, 0)];
    scan.run_detection(Some(&pose), &entities);
    let first = scan.records().clone();
    scan.run_detection(Some(&pose), &entities);
    assert_eq!(scan.records(), &first);
    assert_eq!(first.len(), 2);
}

#[test]
fn without_a_vehicle_the_list_is_kept() {
    let mut scan = DetectionList::new();
    let pose = origin_pose();
    scan.run_detection(Some(&pose), &vec![Vec3::new(0, 0, -10 * M)]);
    scan.run_detection(None, &vec![Vec3::new(10 * M, 0, 0), Vec3::new(-10 * M, 0, 0)]);
    assert_eq!(scan.records(), &vec![Detection { x: 100_000_000, y: 85_000_000, bearing: QUARTER_TURN }]);
}

#[test]
fn sweep_turns_backwards_at_one_radian_per_second() {
    let mut sweep = SweepState::new();
    assert_eq!(sweep.sweep_angle, 0);
    sweep.advance(1_000_000);
    assert_eq!(sweep.sweep_angle, -1_000_000);
    sweep.advance(16_667);
    assert_eq!(sweep.sweep_angle, -1_016_667);
    sweep.advance(0);
    assert_eq!(sweep.sweep_angle, -1_016_667);
    let mut far = SweepState { sweep_angle: i64::MIN + u32::MAX as i64 };
    far.advance(u32::MAX);
    assert_eq!(far.sweep_angle, i64::MIN);
}

#[test]
fn blips_show_the_first_twenty_detections() {
    let mut entities = Vec::new();
    for i in 0..25 {
        entities.push(Vec3::new(0, 0, -(i + 1) * M));
    }
    let mut scan = DetectionList::new();
    scan.run_detection(Some(&origin_pose()), &entities);
    assert_eq!(scan.records().len(), 25);
    assert_eq!(scan.blip(0), Some((97_000_000, 95_500_000)));
    assert_eq!(scan.blip(19), Some((97_000_000, 67_000_000)));
    assert_eq!(scan.blip(MAX_BLIPS), None);
    assert_eq!(scan.blip(24), None);
    assert_eq!(scan.blip(usize::MAX), None);
}

#[test]
fn blips_beyond_the_list_show_nothing() {
    let mut scan = DetectionList::new();
    assert_eq!(scan.blip(0), None);
    scan.run_detection(Some(&origin_pose()), &vec![Vec3::new(10 * M, 0, 0)]);
    assert_eq!(scan.blip(0), Some((112_000_000, 97_000_000)));
    assert_eq!(scan.blip(1), None);
}

#[test]
fn sweep_dots_lie_along_the_sweep_angle() {
    let mut sweep = SweepState::new();
    assert_eq!(sweep.dot(0, 0), (102_750_000, 99_000_000));
    assert_eq!(sweep.dot(0, 19), (174_000_000, 99_000_000));
    assert_eq!(sweep.dot(QUARTER_TURN, 19), (99_000_000, 24_000_000));
    sweep.advance(1_570_796);
    assert_eq!(sweep.dot(0, 19), (99_000_000, 174_000_000));
    assert_eq!(sweep.dot(QUARTER_TURN, 1), (106_500_000, 99_000_000));
    let wide = SweepState { sweep_angle: i64::MIN };
    assert_eq!(wide.dot(i64::MIN, 19), (124_188_450, 28_372_950));
    assert_eq!(wide.dot(i64::MIN, 19), SweepState { sweep_angle: 1_229_552 }.dot(0, 19));
}
