//! The ballast and power controller: a tank that floods through vents and is
//! blown clear with compressed air, a compressor that refills the air store
//! at the surface, and the battery that drives the compressor.
//!
//! Levels are counted in billionths and time in microseconds, so each rate
//! below is a whole number of counts per microsecond and no tick ever rounds.
use vstd::prelude::*;
use vstd::math::{max, min};
use crate::fixed::{NANO, lowered, raised};

verus! {

/// A full tank, and a full store of compressed air: 1.0.
pub const LEVEL_FULL: u64 = NANO;

/// A full battery: 100.0.
pub const CHARGE_FULL: u64 = 100 * NANO;

/// The tank floods at 0.3 per second while the vents are open.
pub const FILL_RATE: u64 = 300;

/// The tank empties at 0.4 per second while air is blown in.
pub const DRAIN_RATE: u64 = 400;

/// Blowing the tank uses air at half the drain rate.
pub const AIR_USE_RATE: u64 = 200;

/// The compressor stores air at 0.2 per second.
pub const COMPRESS_RATE: u64 = 200;

/// The compressor draws 0.5 of charge per second.
pub const POWER_DRAIN_RATE: u64 = 500;

/// With the compressor off the battery regains 0.1 per second.
pub const RECHARGE_RATE: u64 = 100;

/// The toggle requests that arrive with one tick.
#[derive(Clone, Copy, Debug, PartialEq, Eq, Structural)]
pub struct BallastCommand {
    pub toggle_vents: bool,
    pub toggle_air_valve: bool,
    pub toggle_compressor: bool,
}

/// The mathematical state of the controller.
pub struct BallastModel {
    /// 0 is an empty, buoyant tank; `LEVEL_FULL` is a flooded one.
    pub fill_level: int,
    pub vents_open: bool,
    pub air_valve_open: bool,
    pub compressed_air: int,
    pub compressor_on: bool,
    pub electricity: int,
}

/// One tick's worth of input, as the sequence laws below see it. `depth` is
/// positive below the surface.
pub struct BallastInput {
    pub command: BallastCommand,
    pub depth: int,
    pub dt: nat,
}

impl BallastModel {
    /// Every level is inside its interval and the two valves are not both
    /// open.
    pub open spec fn wf(self) -> bool {
        &&& 0 <= self.fill_level <= LEVEL_FULL
        &&& 0 <= self.compressed_air <= LEVEL_FULL
        &&& 0 <= self.electricity <= CHARGE_FULL
        &&& !(self.vents_open && self.air_valve_open)
    }

    /// Empty tank, full air, full battery, everything shut.
    pub open spec fn initial() -> BallastModel {
        BallastModel {
            fill_level: 0,
            vents_open: false,
            air_valve_open: false,
            compressed_air: LEVEL_FULL as int,
            compressor_on: false,
            electricity: CHARGE_FULL as int,
        }
    }

    /// Flips the vents; opening them shuts the air valve.
    pub open spec fn toggle_vents(self) -> BallastModel {
        BallastModel {
            vents_open: !self.vents_open,
            air_valve_open: self.vents_open && self.air_valve_open,
            ..self
        }
    }

    /// Flips the air valve; opening it shuts the vents.
    pub open spec fn toggle_air_valve(self) -> BallastModel {
        BallastModel {
            air_valve_open: !self.air_valve_open,
            vents_open: self.air_valve_open && self.vents_open,
            ..self
        }
    }

    /// Flips the compressor at or above the surface; below it the request
    /// switches the compressor off.
    pub open spec fn toggle_compressor(self, depth: int) -> BallastModel {
        BallastModel { compressor_on: depth <= 0 && !self.compressor_on, ..self }
    }

    /// Applies the requests of one command: vents, then air valve, then
    /// compressor.
    pub open spec fn command(self, command: BallastCommand, depth: int) -> BallastModel {
        let a = if command.toggle_vents {
            self.toggle_vents()
        } else {
            self
        };
        let b = if command.toggle_air_valve {
            a.toggle_air_valve()
        } else {
            a
        };
        if command.toggle_compressor {
            b.toggle_compressor(depth)
        } else {
            b
        }
    }

    /// Whether the compressor does work this tick.
    pub open spec fn compressing(self, depth: int) -> bool {
        self.compressor_on && self.electricity > 0 && depth <= 0
    }

    /// The compressor stage: store air and draw charge while it runs at the
    /// surface; below the surface it is switched off.
    pub open spec fn compress(self, depth: int, dt: nat) -> BallastModel {
        if self.compressing(depth) {
            BallastModel {
                compressed_air: min(LEVEL_FULL as int, self.compressed_air + COMPRESS_RATE * dt),
                electricity: max(0, self.electricity - POWER_DRAIN_RATE * dt),
                ..self
            }
        } else if depth > 0 {
            BallastModel { compressor_on: false, ..self }
        } else {
            self
        }
    }

    /// The battery stage: recharge while the compressor is off.
    pub open spec fn recharge(self, dt: nat) -> BallastModel {
        if !self.compressor_on {
            BallastModel {
                electricity: min(CHARGE_FULL as int, self.electricity + RECHARGE_RATE * dt),
                ..self
            }
        } else {
            self
        }
    }

    /// The transfer stage: open vents flood the tank; otherwise an open air
    /// valve with air left blows it, and shuts itself once the tank is
    /// empty.
    pub open spec fn transfer(self, dt: nat) -> BallastModel {
        if self.vents_open {
            BallastModel {
                fill_level: min(LEVEL_FULL as int, self.fill_level + FILL_RATE * dt),
                ..self
            }
        } else if self.air_valve_open && self.compressed_air > 0 {
            let fill = max(0, self.fill_level - DRAIN_RATE * dt);
            BallastModel {
                fill_level: fill,
                compressed_air: max(0, self.compressed_air - AIR_USE_RATE * dt),
                air_valve_open: fill > 0,
                ..self
            }
        } else {
            self
        }
    }

    /// The passage of `dt` microseconds at `depth`: compressor, battery,
    /// transfer, in that order.
    pub open spec fn advance(self, depth: int, dt: nat) -> BallastModel {
        self.compress(depth, dt).recharge(dt).transfer(dt)
    }

    /// One whole tick: the requests, then the passage of time.
    pub open spec fn tick(self, command: BallastCommand, depth: int, dt: nat) -> BallastModel {
        self.command(command, depth).advance(depth, dt)
    }

    /// The state after a whole sequence of ticks.
    pub open spec fn run(self, inputs: Seq<BallastInput>) -> BallastModel
        decreases inputs.len(),
    {
        if inputs.len() == 0 {
            self
        } else {
            let last = inputs.last();
            self.run(inputs.drop_last()).tick(last.command, last.depth, last.dt)
        }
    }
}

/// The microseconds that a sequence of ticks spans.
pub open spec fn elapsed(inputs: Seq<BallastInput>) -> nat
    decreases inputs.len(),
{
    if inputs.len() == 0 {
        0
    } else {
        elapsed(inputs.drop_last()) + inputs.last().dt
    }
}

/// Whether no tick of the sequence carries a toggle request.
pub open spec fn hands_off(inputs: Seq<BallastInput>) -> bool {
    forall|i: int|
        0 <= i < inputs.len() ==> !(#[trigger] inputs[i]).command.toggle_vents
            && !inputs[i].command.toggle_air_valve && !inputs[i].command.toggle_compressor
}

/// Whether every tick of the sequence happens at or above the surface.
pub open spec fn surfaced(inputs: Seq<BallastInput>) -> bool {
    forall|i: int| 0 <= i < inputs.len() ==> (#[trigger] inputs[i]).depth <= 0
}

/// The no-op command.
pub open spec fn idle() -> BallastCommand {
    BallastCommand { toggle_vents: false, toggle_air_valve: false, toggle_compressor: false }
}

/// One tick keeps a well-formed state well formed, whatever is requested at
/// whatever depth for however long; and below the surface it leaves the
/// compressor off.
pub proof fn lemma_tick_preserves_wf(s: BallastModel, command: BallastCommand, depth: int, dt: nat)
    requires
        s.wf(),
    ensures
        s.tick(command, depth, dt).wf(),
        depth > 0 ==> !s.tick(command, depth, dt).compressor_on,
{
}

/// No sequence of ticks and toggles opens both valves at once or moves a
/// level out of its interval.
pub proof fn lemma_run_preserves_wf(s: BallastModel, inputs: Seq<BallastInput>)
    requires
        s.wf(),
    ensures
        s.run(inputs).wf(),
        !(s.run(inputs).vents_open && s.run(inputs).air_valve_open),
        0 <= s.run(inputs).fill_level <= LEVEL_FULL,
        0 <= s.run(inputs).compressed_air <= LEVEL_FULL,
        0 <= s.run(inputs).electricity <= CHARGE_FULL,
    decreases inputs.len(),
{
    if inputs.len() > 0 {
        let last = inputs.last();
        lemma_run_preserves_wf(s, inputs.drop_last());
        lemma_tick_preserves_wf(s.run(inputs.drop_last()), last.command, last.depth, last.dt);
    }
}

/// With the vents open and the controls left alone, the tank gains the fill
/// rate times the time that has passed, up to full, however that time is cut
/// into ticks.
pub proof fn lemma_flooding(s: BallastModel, inputs: Seq<BallastInput>)
    requires
        s.wf(),
        s.vents_open,
        hands_off(inputs),
    ensures
        s.run(inputs).vents_open,
        s.run(inputs).fill_level == min(
            LEVEL_FULL as int,
            s.fill_level + FILL_RATE * elapsed(inputs),
        ),
    decreases inputs.len(),
{
    if inputs.len() > 0 {
        let front = inputs.drop_last();
        let last = inputs.last();
        assert(hands_off(front)) by {
            assert forall|i: int| 0 <= i < front.len() implies !(#[trigger] front[i]).command.toggle_vents
                && !front[i].command.toggle_air_valve && !front[i].command.toggle_compressor by {
                assert(front[i] == inputs[i]);
            }
        }
        lemma_flooding(s, front);
        assert(last == inputs[inputs.len() - 1]);
        assert(last.command == idle());
    }
}

/// With the compressor on at the surface and the controls left alone, the
/// battery falls by the drain rate times the time that has passed, down to
/// empty, and stays there.
pub proof fn lemma_compressor_drains_battery(s: BallastModel, inputs: Seq<BallastInput>)
    requires
        s.wf(),
        s.compressor_on,
        hands_off(inputs),
        surfaced(inputs),
    ensures
        s.run(inputs).compressor_on,
        s.run(inputs).electricity == max(
            0,
            s.electricity - POWER_DRAIN_RATE * elapsed(inputs),
        ),
    decreases inputs.len(),
{
    if inputs.len() > 0 {
        let front = inputs.drop_last();
        let last = inputs.last();
        assert(hands_off(front) && surfaced(front)) by {
            assert forall|i: int| 0 <= i < front.len() implies !(#[trigger] front[i]).command.toggle_vents
                && !front[i].command.toggle_air_valve && !front[i].command.toggle_compressor
                && front[i].depth <= 0 by {
                assert(front[i] == inputs[i]);
            }
        }
        lemma_compressor_drains_battery(s, front);
        lemma_run_preserves_wf(s, front);
        assert(last == inputs[inputs.len() - 1]);
        assert(last.command == idle());
    }
}

/// With the compressor on at the surface, the air valve shut, the controls
/// left alone and enough charge for the whole span, the air store gains the
/// compression rate times the time that has passed, up to full.
pub proof fn lemma_compressor_stores_air(s: BallastModel, inputs: Seq<BallastInput>)
    requires
        s.wf(),
        s.compressor_on,
        !s.air_valve_open,
        hands_off(inputs),
        surfaced(inputs),
        s.electricity >= POWER_DRAIN_RATE * elapsed(inputs),
    ensures
        s.run(inputs).compressor_on,
        !s.run(inputs).air_valve_open,
        s.run(inputs).electricity == s.electricity - POWER_DRAIN_RATE * elapsed(inputs),
        s.run(inputs).compressed_air == min(
            LEVEL_FULL as int,
            s.compressed_air + COMPRESS_RATE * elapsed(inputs),
        ),
    decreases inputs.len(),
{
    if inputs.len() > 0 {
        let front = inputs.drop_last();
        let last = inputs.last();
        assert(hands_off(front) && surfaced(front)) by {
            assert forall|i: int| 0 <= i < front.len() implies !(#[trigger] front[i]).command.toggle_vents
                && !front[i].command.toggle_air_valve && !front[i].command.toggle_compressor
                && front[i].depth <= 0 by {
                assert(front[i] == inputs[i]);
            }
        }
        lemma_compressor_stores_air(s, front);
        lemma_run_preserves_wf(s, front);
        assert(last == inputs[inputs.len() - 1]);
        assert(last.command == idle());
    }
}

/// The controller's state. It can only be reached through the operations
/// below, so its levels are always inside their intervals and its two valves
/// are never both open.
#[derive(Clone, Copy, Debug)]
pub struct BallastState {
    fill_level: u64,
    vents_open: bool,
    air_valve_open: bool,
    compressed_air: u64,
    compressor_on: bool,
    electricity: u64,
}

impl View for BallastState {
    type V = BallastModel;

    closed spec fn view(&self) -> BallastModel {
        BallastModel {
            fill_level: self.fill_level as int,
            vents_open: self.vents_open,
            air_valve_open: self.air_valve_open,
            compressed_air: self.compressed_air as int,
            compressor_on: self.compressor_on,
            electricity: self.electricity as int,
        }
    }
}

impl BallastState {
    #[verifier::type_invariant]
    spec fn inv(self) -> bool {
        self@.wf()
    }

    /// Empty tank, full air, full battery, everything shut.
    pub fn new() -> (s: BallastState)
        ensures
            s@ == BallastModel::initial(),
            s@.wf(),
    {
        BallastState {
            fill_level: 0,
            vents_open: false,
            air_valve_open: false,
            compressed_air: LEVEL_FULL,
            compressor_on: false,
            electricity: CHARGE_FULL,
        }
    }

    /// Builds a state from its six parts, if they form a valid one.
    pub fn from_parts(
        fill_level: u64,
        vents_open: bool,
        air_valve_open: bool,
        compressed_air: u64,
        compressor_on: bool,
        electricity: u64,
    ) -> (r: Option<BallastState>)
        ensures
            r is Some <==> (BallastModel {
                fill_level: fill_level as int,
                vents_open,
                air_valve_open,
                compressed_air: compressed_air as int,
                compressor_on,
                electricity: electricity as int,
            }).wf(),
            r matches Some(s) ==> s@ == (BallastModel {
                fill_level: fill_level as int,
                vents_open,
                air_valve_open,
                compressed_air: compressed_air as int,
                compressor_on,
                electricity: electricity as int,
            }),
    {
        if fill_level <= LEVEL_FULL && compressed_air <= LEVEL_FULL && electricity <= CHARGE_FULL
            && !(vents_open && air_valve_open) {
            Some(
                BallastState {
                    fill_level,
                    vents_open,
                    air_valve_open,
                    compressed_air,
                    compressor_on,
                    electricity,
                },
            )
        } else {
            None
        }
    }

    pub fn fill_level(&self) -> (r: u64)
        ensures
            r == self@.fill_level,
            r <= LEVEL_FULL,
    {
        proof {
            use_type_invariant(self);
        }
        self.fill_level
    }

    pub fn compressed_air(&self) -> (r: u64)
        ensures
            r == self@.compressed_air,
            r <= LEVEL_FULL,
    {
        proof {
            use_type_invariant(self);
        }
        self.compressed_air
    }

    pub fn electricity(&self) -> (r: u64)
        ensures
            r == self@.electricity,
            r <= CHARGE_FULL,
    {
        proof {
            use_type_invariant(self);
        }
        self.electricity
    }

    pub fn vents_open(&self) -> (r: bool)
        ensures
            r == self@.vents_open,
            r ==> !self@.air_valve_open,
    {
        proof {
            use_type_invariant(self);
        }
        self.vents_open
    }

    pub fn air_valve_open(&self) -> (r: bool)
        ensures
            r == self@.air_valve_open,
            r ==> !self@.vents_open,
    {
        proof {
            use_type_invariant(self);
        }
        self.air_valve_open
    }

    pub fn compressor_on(&self) -> (r: bool)
        ensures
            r == self@.compressor_on,
    {
        self.compressor_on
    }

    /// Flips the vents; opening them shuts the air valve.
    pub fn toggle_vents(&mut self)
        ensures
            final(self)@ == old(self)@.toggle_vents(),
            final(self)@.wf(),
    {
        proof {
            use_type_invariant(&*self);
        }
        let open = !self.vents_open;
        *self = BallastState {
            vents_open: open,
            air_valve_open: !open && self.air_valve_open,
            ..*self
        };
    }

    /// Flips the air valve; opening it shuts the vents.
    pub fn toggle_air_valve(&mut self)
        ensures
            final(self)@ == old(self)@.toggle_air_valve(),
            final(self)@.wf(),
    {
        proof {
            use_type_invariant(&*self);
        }
        let open = !self.air_valve_open;
        *self = BallastState {
            air_valve_open: open,
            vents_open: !open && self.vents_open,
            ..*self
        };
    }

    /// Flips the compressor at or above the surface; below it the request
    /// switches the compressor off.
    pub fn toggle_compressor(&mut self, depth: i64)
        ensures
            final(self)@ == old(self)@.toggle_compressor(depth as int),
            final(self)@.wf(),
    {
        proof {
            use_type_invariant(&*self);
        }
        *self = BallastState { compressor_on: depth <= 0 && !self.compressor_on, ..*self };
    }

    /// Lets `dt` microseconds pass at `depth`.
    pub fn advance(&mut self, depth: i64, dt: u32)
        ensures
            final(self)@ == old(self)@.advance(depth as int, dt as nat),
            final(self)@.wf(),
            depth > 0 ==> !final(self)@.compressor_on,
    {
        proof {
            use_type_invariant(&*self);
        }
        let mut fill_level = self.fill_level;
        let mut air_valve_open = self.air_valve_open;
        let mut compressed_air = self.compressed_air;
        let mut compressor_on = self.compressor_on;
        let mut electricity = self.electricity;

        if compressor_on && electricity > 0 && depth <= 0 {
            compressed_air = raised(compressed_air, COMPRESS_RATE, dt, LEVEL_FULL);
            electricity = lowered(electricity, POWER_DRAIN_RATE, dt);
        } else if depth > 0 {
            compressor_on = false;
        }
        if !compressor_on {
            electricity = raised(electricity, RECHARGE_RATE, dt, CHARGE_FULL);
        }
        if self.vents_open {
            fill_level = raised(fill_level, FILL_RATE, dt, LEVEL_FULL);
        } else if air_valve_open && compressed_air > 0 {
            fill_level = lowered(fill_level, DRAIN_RATE, dt);
            compressed_air = lowered(compressed_air, AIR_USE_RATE, dt);
            if fill_level == 0 {
                air_valve_open = false;
            }
        }
        *self = BallastState {
            fill_level,
            vents_open: self.vents_open,
            air_valve_open,
            compressed_air,
            compressor_on,
            electricity,
        };
    }

    /// Runs one tick: the toggle requests in their fixed order, then the
    /// passage of `dt` microseconds.
    pub fn tick(&mut self, command: BallastCommand, depth: i64, dt: u32)
        ensures
            final(self)@ == old(self)@.tick(command, depth as int, dt as nat),
            final(self)@.wf(),
            depth > 0 ==> !final(self)@.compressor_on,
    {
        if command.toggle_vents {
            self.toggle_vents();
        }
        if command.toggle_air_valve {
            self.toggle_air_valve();
        }
        if command.toggle_compressor {
            self.toggle_compressor(depth);
        }
        self.advance(depth, dt);
    }
}

} // verus!
