use submarine::ballast::{
    BallastCommand, BallastState, CHARGE_FULL, LEVEL_FULL,
};

const SECOND: u32 = 1_000_000;

fn idle() -> BallastCommand {
    BallastCommand { toggle_vents: false, toggle_air_valve: false, toggle_compressor: false }
}

fn vents() -> BallastCommand {
    BallastCommand { toggle_vents: true, ..idle() }
}

fn air_valve() -> BallastCommand {
    BallastCommand { toggle_air_valve: true, ..idle() }
}

fn compressor() -> BallastCommand {
    BallastCommand { toggle_compressor: true, ..idle() }
}

#[test]
fn starts_empty_with_full_air_and_full_battery() {
    let s = BallastState::new();
    assert_eq!(s.fill_level(), 0);
    assert_eq!(s.compressed_air(), LEVEL_FULL);
    assert_eq!(s.electricity(), CHARGE_FULL);
    assert!(!s.vents_open());
    assert!(!s.air_valve_open());
    assert!(!s.compressor_on());
}

#[test]
fn open_vents_fill_at_the_fill_rate_up_to_full() {
    let mut s = BallastState::new();
    s.tick(vents(), 0, SECOND);
    assert_eq!(s.fill_level(), 300_000_000);
    s.tick(idle(), 0, 2 * SECOND);
    assert_eq!(s.fill_level(), 900_000_000);
    s.tick(idle(), 0, SECOND);
    assert_eq!(s.fill_level(), LEVEL_FULL);
    s.tick(idle(), 0, SECOND);
    assert_eq!(s.fill_level(), LEVEL_FULL);
}

#[test]
fn filling_does_not_depend_on_how_time_is_cut() {
    let mut coarse = BallastState::new();
    coarse.tick(vents(), 0, 2_500_000);
    let mut fine = BallastState::new();
    fine.tick(vents(), 0, 16_667);
    let mut spent: u32 = 16_667;
    while spent < 2_500_000 {
        let step = if 2_500_000 - spent < 16_667 { 2_500_000 - spent } else { 16_667 };
        fine.tick(idle(), 0, step);
        spent += step;
    }
    assert_eq!(coarse.fill_level(), 750_000_000);
    assert_eq!(fine.fill_level(), 750_000_000);
}

#[test]
fn vents_do_not_use_compressed_air() {
    let mut s = BallastState::new();
    s.tick(vents(), 5_000_000, 10 * SECOND);
    assert_eq!(s.compressed_air(), LEVEL_FULL);
}

#[test]
fn opening_one_valve_closes_the_other() {
    let mut s = BallastState::new();
    s.toggle_vents();
    assert!(s.vents_open() && !s.air_valve_open());
    s.toggle_air_valve();
    assert!(!s.vents_open() && s.air_valve_open());
    s.toggle_vents();
    assert!(s.vents_open() && !s.air_valve_open());
    s.toggle_vents();
    assert!(!s.vents_open() && !s.air_valve_open());
}

#[test]
fn both_requests_in_one_tick_leave_only_the_air_valve_open() {
    let mut s = BallastState::from_parts(500_000_000, false, false, LEVEL_FULL, false, CHARGE_FULL).unwrap();
    s.tick(BallastCommand { toggle_vents: true, toggle_air_valve: true, toggle_compressor: false }, 0, 0);
    assert!(!s.vents_open());
    assert!(s.air_valve_open());
}

#[test]
fn an_air_valve_opened_on_an_empty_tank_closes_at_once() {
    let mut s = BallastState::new();
    s.tick(air_valve(), 0, 0);
    assert!(!s.air_valve_open());
    assert_eq!(s.compressed_air(), LEVEL_FULL);
}

#[test]
fn valves_are_never_both_open_over_every_short_toggle_sequence() {
    for pattern in 0u32..4096 {
        let mut s = BallastState::new();
        let mut bits = pattern;
        for _ in 0..6 {
            let cmd = BallastCommand {
                toggle_vents: bits & 1 == 1,
                toggle_air_valve: bits & 2 == 2,
                toggle_compressor: false,
            };
            bits >>= 2;
            s.tick(cmd, 0, 100_000);
            assert!(!(s.vents_open() && s.air_valve_open()));
            assert!(s.fill_level() <= LEVEL_FULL);
            assert!(s.compressed_air() <= LEVEL_FULL);
            assert!(s.electricity() <= CHARGE_FULL);
        }
    }
}

#[test]
fn blowing_the_tank_drains_it_and_uses_air_at_half_the_rate() {
    let mut s = BallastState::from_parts(LEVEL_FULL, false, false, LEVEL_FULL, false, CHARGE_FULL).unwrap();
    s.tick(air_valve(), 10_000_000, SECOND);
    assert_eq!(s.fill_level(), 600_000_000);
    assert_eq!(s.compressed_air(), 800_000_000);
    assert!(s.air_valve_open());
}

#[test]
fn air_valve_closes_itself_when_the_tank_is_empty() {
    let mut s = BallastState::from_parts(300_000_000, false, false, LEVEL_FULL, false, CHARGE_FULL).unwrap();
    s.tick(air_valve(), 10_000_000, SECOND);
    assert_eq!(s.fill_level(), 0);
    assert_eq!(s.compressed_air(), 800_000_000);
    assert!(!s.air_valve_open());
}

#[test]
fn air_valve_without_air_does_nothing() {
    let mut s = BallastState::from_parts(500_000_000, false, true, 0, false, CHARGE_FULL).unwrap();
    s.tick(idle(), 10_000_000, SECOND);
    assert_eq!(s.fill_level(), 500_000_000);
    assert_eq!(s.compressed_air(), 0);
    assert!(s.air_valve_open());
}

#[test]
fn air_floors_at_zero_while_blowing() {
    let mut s = BallastState::from_parts(LEVEL_FULL, false, true, 100_000_000, false, CHARGE_FULL).unwrap();
    s.tick(idle(), 10_000_000, SECOND);
    assert_eq!(s.compressed_air(), 0);
    assert_eq!(s.fill_level(), 600_000_000);
}

#[test]
fn compressor_at_the_surface_stores_air_and_drains_the_battery() {
    let mut s = BallastState::from_parts(0, false, false, 200_000_000, false, CHARGE_FULL).unwrap();
    s.tick(compressor(), 0, SECOND);
    assert!(s.compressor_on());
    assert_eq!(s.compressed_air(), 400_000_000);
    assert_eq!(s.electricity(), CHARGE_FULL - 500_000_000);
    s.tick(idle(), 0, 2 * SECOND);
    assert_eq!(s.compressed_air(), 800_000_000);
    assert_eq!(s.electricity(), CHARGE_FULL - 1_500_000_000);
    s.tick(idle(), 0, 2 * SECOND);
    assert_eq!(s.compressed_air(), LEVEL_FULL);
    assert_eq!(s.electricity(), CHARGE_FULL - 2_500_000_000);
}

#[test]
fn compressor_stops_working_when_the_battery_is_flat() {
    let mut s = BallastState::from_parts(0, false, false, 0, true, 250_000_000).unwrap();
    s.tick(idle(), 0, SECOND);
    assert_eq!(s.electricity(), 0);
    assert_eq!(s.compressed_air(), 200_000_000);
    s.tick(idle(), 0, SECOND);
    assert_eq!(s.electricity(), 0);
    assert_eq!(s.compressed_air(), 200_000_000);
    assert!(s.compressor_on());
}

#[test]
fn compressor_request_below_the_surface_turns_it_off() {
    let mut s = BallastState::new();
    s.tick(compressor(), 1, SECOND);
    assert!(!s.compressor_on());
    let mut running = BallastState::from_parts(0, false, false, 0, true, CHARGE_FULL).unwrap();
    running.tick(compressor(), 1, 0);
    assert!(!running.compressor_on());
}

#[test]
fn diving_forces_the_compressor_off() {
    let mut s = BallastState::from_parts(0, false, false, 0, true, 50_000_000_000).unwrap();
    s.tick(idle(), 2_000_000, SECOND);
    assert!(!s.compressor_on());
    assert_eq!(s.compressed_air(), 0);
    assert_eq!(s.electricity(), 50_100_000_000);
}

#[test]
fn battery_recharges_while_the_compressor_is_off() {
    let mut s = BallastState::from_parts(0, false, false, LEVEL_FULL, false, 99_950_000_000).unwrap();
    s.tick(idle(), 0, 300_000);
    assert_eq!(s.electricity(), 99_980_000_000);
    s.tick(idle(), 0, SECOND);
    assert_eq!(s.electricity(), CHARGE_FULL);
}

#[test]
fn longest_tick_keeps_every_level_in_range() {
    let mut s = BallastState::new();
    s.tick(BallastCommand { toggle_vents: true, toggle_air_valve: false, toggle_compressor: true }, 0, u32::MAX);
    assert_eq!(s.fill_level(), LEVEL_FULL);
    assert_eq!(s.compressed_air(), LEVEL_FULL);
    assert_eq!(s.electricity(), 0);
    s.tick(BallastCommand { toggle_vents: false, toggle_air_valve: true, toggle_compressor: true }, 7, u32::MAX);
    assert_eq!(s.fill_level(), 0);
    assert_eq!(s.compressed_air(), 0);
    assert_eq!(s.electricity(), CHARGE_FULL);
    assert!(!s.air_valve_open());
}

#[test]
fn from_parts_rejects_what_is_out_of_range() {
    assert!(BallastState::from_parts(LEVEL_FULL + 1, false, false, 0, false, 0).is_none());
    assert!(BallastState::from_parts(0, false, false, LEVEL_FULL + 1, false, 0).is_none());
    assert!(BallastState::from_parts(0, false, false, 0, false, CHARGE_FULL + 1).is_none());
    assert!(BallastState::from_parts(0, true, true, 0, false, 0).is_none());
    assert!(BallastState::from_parts(LEVEL_FULL, true, false, LEVEL_FULL, true, CHARGE_FULL).is_some());
}
