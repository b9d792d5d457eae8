//! The directional scan: a sweep angle that turns at a fixed rate, and a
//! detection pass that lists every mobile entity within range of the vehicle
//! with its bearing and its place on the display panel.
//!
//! The two are independent. The sweep turns whatever is detected; the list
//! is rebuilt from nothing on every pass and depends on the current poses
//! alone.
use vstd::prelude::*;
use crate::fixed::{
    MICRO, isqrt, lemma_quot_le, lemma_sqrt_floor_brackets, magnitude, quot, sqrt_floor,
};
use crate::geometry::{
    PANEL_CENTER_X, PANEL_CENTER_Y, bearing, bearing_of, lemma_panel_bounds, panel_x, panel_y,
    project_to_panel,
};
use crate::kinematics::VehiclePose;
use crate::trig::{FULL_TURN, cos_micro, cos_wide, sin_micro, sin_wide};
use crate::vector::{Axes, Frame, Vec3, Vector};

verus! {

/// Entities farther than 50 metres from the vehicle are not detected.
pub const SCAN_RANGE: i64 = 50_000_000;

/// The panel's rim is 75 pixels from its centre.
pub const PANEL_RADIUS: i64 = 75_000_000;

/// The sweep turns one radian per second: one microradian per microsecond.
pub const SWEEP_RATE: i64 = 1;

/// The panel shows at most this many blips at once.
pub const MAX_BLIPS: usize = 20;

/// A blip is drawn with its corner this far up and left of the detection.
pub const BLIP_HALF_SIZE: i64 = 3_000_000;

/// The sweep line is drawn as this many dots.
pub const SWEEP_SEGMENTS: u32 = 20;

/// The dots of the sweep line are this far apart: the radius over their
/// number.
pub const SEGMENT_SPACING: i64 = 3_750_000;

/// A sweep dot is drawn with its corner this far up and left of its centre.
pub const SEGMENT_HALF_SIZE: i64 = 1_000_000;

/// One detected entity: where it is drawn on the panel, and its bearing.
#[derive(Clone, Copy, Debug, PartialEq, Eq, Structural)]
pub struct Detection {
    pub x: i64,
    pub y: i64,
    pub bearing: i64,
}

/// The mathematical form of a detection.
pub struct DetectionModel {
    pub x: int,
    pub y: int,
    pub bearing: int,
}

impl View for Detection {
    type V = DetectionModel;

    open spec fn view(&self) -> DetectionModel {
        DetectionModel { x: self.x as int, y: self.y as int, bearing: self.bearing as int }
    }
}

impl DeepView for Detection {
    type V = DetectionModel;

    open spec fn deep_view(&self) -> DetectionModel {
        self@
    }
}

impl DetectionModel {
    /// Whether the detection is drawn within the rim and its bearing is
    /// normalized.
    pub open spec fn on_panel(self) -> bool {
        &&& PANEL_CENTER_X - PANEL_RADIUS <= self.x <= PANEL_CENTER_X + PANEL_RADIUS
        &&& PANEL_CENTER_Y - PANEL_RADIUS <= self.y <= PANEL_CENTER_Y + PANEL_RADIUS
        &&& 0 <= self.bearing < FULL_TURN
    }
}

/// Whether `entity` is within scan range of `vehicle`. The comparison is
/// exact: it is made on the squared distance.
pub open spec fn in_range(vehicle: Vector, entity: Vector) -> bool {
    entity.minus(vehicle).length_squared() <= SCAN_RANGE * SCAN_RANGE
}

/// The distance from `vehicle` to `entity`, rounded down.
pub open spec fn distance(vehicle: Vector, entity: Vector) -> nat {
    entity.minus(vehicle).length()
}

/// The detection of one entity within range: its offset from the vehicle is
/// taken into the vehicle's frame, its bearing follows from that, and
/// bearing and distance are projected onto the panel.
pub open spec fn detection_of(vehicle: Vector, axes: Axes, entity: Vector) -> DetectionModel {
    let offset = entity.minus(vehicle);
    let b = bearing_of(axes.local(offset));
    let d = distance(vehicle, entity) as int;
    DetectionModel {
        x: panel_x(b, d, SCAN_RANGE as int, PANEL_RADIUS as int),
        y: panel_y(b, d, SCAN_RANGE as int, PANEL_RADIUS as int),
        bearing: b,
    }
}

/// The detection list for a set of entities: one detection for each entity
/// within range, in the order of the entities.
pub open spec fn detections_of(vehicle: Vector, axes: Axes, entities: Seq<Vector>) -> Seq<
    DetectionModel,
>
    decreases entities.len(),
{
    if entities.len() == 0 {
        Seq::empty()
    } else {
        let front = detections_of(vehicle, axes, entities.drop_last());
        if in_range(vehicle, entities.last()) {
            front.push(detection_of(vehicle, axes, entities.last()))
        } else {
            front
        }
    }
}

/// How many of the entities are within range.
pub open spec fn count_in_range(vehicle: Vector, entities: Seq<Vector>) -> nat
    decreases entities.len(),
{
    if entities.len() == 0 {
        0
    } else {
        count_in_range(vehicle, entities.drop_last()) + if in_range(vehicle, entities.last()) {
            1nat
        } else {
            0nat
        }
    }
}

/// Whether `d` is the detection of some entity within range, one whose
/// distance from the vehicle is at most the scan range.
pub open spec fn detected_from(
    vehicle: Vector,
    axes: Axes,
    entities: Seq<Vector>,
    d: DetectionModel,
) -> bool {
    exists|j: int|
        0 <= j < entities.len() && in_range(vehicle, #[trigger] entities[j]) && distance(
            vehicle,
            entities[j],
        ) <= SCAN_RANGE && d == detection_of(vehicle, axes, entities[j])
}

/// The distance to an entity within range is at most the scan range.
pub proof fn lemma_in_range_distance(vehicle: Vector, entity: Vector)
    requires
        in_range(vehicle, entity),
    ensures
        distance(vehicle, entity) <= SCAN_RANGE,
{
    let n = entity.minus(vehicle).length_squared();
    let o = entity.minus(vehicle);
    assert(n >= 0) by (nonlinear_arith)
        requires
            n == o.x * o.x + o.y * o.y + o.z * o.z,
    ;
    lemma_sqrt_floor_brackets(n as nat);
    let s = sqrt_floor(n as nat) as int;
    let r = SCAN_RANGE as int;
    assert(s <= r) by (nonlinear_arith)
        requires
            s * s <= n,
            n <= r * r,
            s >= 0,
            r >= 0,
    ;
}

/// The detection of an entity within range is drawn within the rim.
pub proof fn lemma_detection_on_panel(vehicle: Vector, axes: Axes, entity: Vector)
    requires
        in_range(vehicle, entity),
    ensures
        detection_of(vehicle, axes, entity).on_panel(),
{
    lemma_in_range_distance(vehicle, entity);
    let b = bearing_of(axes.local(entity.minus(vehicle)));
    lemma_panel_bounds(
        b,
        distance(vehicle, entity) as int,
        SCAN_RANGE as int,
        PANEL_RADIUS as int,
    );
}

/// The detection list is exactly as long as the number of entities within
/// range, so never longer than the entity list; and each of its entries is
/// the detection of an entity whose distance is at most the scan range.
pub proof fn lemma_detections_within_range(vehicle: Vector, axes: Axes, entities: Seq<Vector>)
    ensures
        detections_of(vehicle, axes, entities).len() == count_in_range(vehicle, entities),
        count_in_range(vehicle, entities) <= entities.len(),
        forall|k: int|
            0 <= k < detections_of(vehicle, axes, entities).len() ==> detected_from(
                vehicle,
                axes,
                entities,
                #[trigger] detections_of(vehicle, axes, entities)[k],
            ),
    decreases entities.len(),
{
    let all = detections_of(vehicle, axes, entities);
    if entities.len() > 0 {
        let front_entities = entities.drop_last();
        let front = detections_of(vehicle, axes, front_entities);
        lemma_detections_within_range(vehicle, axes, front_entities);
        assert forall|k: int| 0 <= k < all.len() implies detected_from(
            vehicle,
            axes,
            entities,
            #[trigger] all[k],
        ) by {
            if k < front.len() {
                assert(all[k] == front[k]);
                assert(detected_from(vehicle, axes, front_entities, front[k]));
                let j = choose|j: int|
                    0 <= j < front_entities.len() && in_range(
                        vehicle,
                        #[trigger] front_entities[j],
                    ) && distance(vehicle, front_entities[j]) <= SCAN_RANGE && front[k]
                        == detection_of(vehicle, axes, front_entities[j]);
                assert(front_entities[j] == entities[j]);
            } else {
                let j = entities.len() - 1;
                assert(entities[j] == entities.last());
                lemma_in_range_distance(vehicle, entities[j]);
            }
        }
    }
}

/// Every entry of a detection list is drawn within the rim.
pub proof fn lemma_detections_on_panel(vehicle: Vector, axes: Axes, entities: Seq<Vector>)
    ensures
        forall|k: int|
            0 <= k < detections_of(vehicle, axes, entities).len() ==> (
            #[trigger] detections_of(vehicle, axes, entities)[k]).on_panel(),
    decreases entities.len(),
{
    let all = detections_of(vehicle, axes, entities);
    if entities.len() > 0 {
        let front = detections_of(vehicle, axes, entities.drop_last());
        lemma_detections_on_panel(vehicle, axes, entities.drop_last());
        if in_range(vehicle, entities.last()) {
            lemma_detection_on_panel(vehicle, axes, entities.last());
        }
        assert forall|k: int| 0 <= k < all.len() implies (#[trigger] all[k]).on_panel() by {
            if k < front.len() {
                assert(all[k] == front[k]);
            }
        }
    }
}

/// Runs the detection pass: lists every entity within range of the vehicle,
/// with its panel position and bearing, in the order given.
pub fn detect(position: Vec3, frame: &Frame, entities: &Vec<Vec3>) -> (found: Vec<Detection>)
    ensures
        found.deep_view() == detections_of(position@, frame@, entities.deep_view()),
        found.len() == count_in_range(position@, entities.deep_view()),
        found.len() <= entities.len(),
        forall|k: int| 0 <= k < found.len() ==> (#[trigger] found[k])@.on_panel(),
{
    proof {
        lemma_detections_within_range(position@, frame@, entities.deep_view());
    }
    let axes = frame.axes();
    let mut found: Vec<Detection> = Vec::new();
    let mut i: usize = 0;
    let range: i128 = SCAN_RANGE as i128;
    assert(entities.deep_view().take(0) =~= Seq::<Vector>::empty());
    while i < entities.len()
        invariant
            i <= entities.len(),
            range == SCAN_RANGE,
            axes == frame@,
            axes.wf(),
            found.len() <= i,
            found.deep_view() == detections_of(
                position@,
                axes,
                entities.deep_view().take(i as int),
            ),
            forall|k: int| 0 <= k < found.len() ==> (#[trigger] found[k])@.on_panel(),
        decreases entities.len() - i,
    {
        let entity = entities[i];
        let ghost before = entities.deep_view().take(i as int);
        let ghost upto = entities.deep_view().take(i + 1);
        let ghost old_found = found.deep_view();
        proof {
            assert(upto.drop_last() =~= before);
            assert(upto.last() == entity@);
        }
        let dx: i128 = entity.x as i128 - position.x as i128;
        let dy: i128 = entity.y as i128 - position.y as i128;
        let dz: i128 = entity.z as i128 - position.z as i128;
        let ghost offset = entity@.minus(position@);
        if -range <= dx && dx <= range && -range <= dy && dy <= range && -range <= dz && dz
            <= range {
            assert(0 <= dx * dx <= range * range && 0 <= dy * dy <= range * range && 0 <= dz * dz
                <= range * range) by (nonlinear_arith)
                requires
                    -range <= dx <= range,
                    -range <= dy <= range,
                    -range <= dz <= range,
            ;
            let squared: i128 = dx * dx + dy * dy + dz * dz;
            if squared <= range * range {
                let reach: i64 = isqrt(squared as u128) as i64;
                proof {
                    lemma_in_range_distance(position@, entity@);
                    lemma_detection_on_panel(position@, axes, entity@);
                }
                let rel = Vec3 { x: dx as i64, y: dy as i64, z: dz as i64 };
                let local = frame.to_local(rel);
                let b = bearing(local);
                let spot = project_to_panel(b, reach, SCAN_RANGE, PANEL_RADIUS);
                let d = Detection { x: spot.0, y: spot.1, bearing: b };
                found.push(d);
                proof {
                    assert(d@ == detection_of(position@, axes, entity@));
                    assert(found.deep_view() =~= old_found.push(d@));
                }
            } else {
                proof {
                    assert(found.deep_view() =~= old_found);
                }
            }
        } else {
            proof {
                let r = range as int;
                assert(offset.x * offset.x + offset.y * offset.y + offset.z * offset.z > r * r)
                    by (nonlinear_arith)
                    requires
                        offset.x < -r || offset.x > r || offset.y < -r || offset.y > r || offset.z
                            < -r || offset.z > r,
                        r >= 0,
                ;
                assert(found.deep_view() =~= old_found);
            }
        }
        i = i + 1;
    }
    assert(entities.deep_view().take(entities.len() as int) =~= entities.deep_view());
    found
}

/// The sweep angle after the sweep has turned for `dt` microseconds.
pub open spec fn swept(sweep_angle: int, dt: nat) -> int {
    sweep_angle - SWEEP_RATE * dt
}

/// Where dot `index` of the sweep line is drawn for a vehicle heading
/// `vehicle_yaw`: the corner of a dot laid off from the centre along the
/// sweep angle taken relative to the heading.
pub open spec fn sweep_dot(sweep_angle: int, vehicle_yaw: int, index: int) -> (int, int) {
    let reach = (index + 1) * SEGMENT_SPACING;
    let angle = sweep_angle + vehicle_yaw;
    (
        PANEL_CENTER_X + quot(reach * cos_micro(angle), MICRO as int) - SEGMENT_HALF_SIZE,
        PANEL_CENTER_Y - quot(reach * sin_micro(angle), MICRO as int) - SEGMENT_HALF_SIZE,
    )
}

/// The detection list after a pass. With a vehicle the list is replaced by
/// the detections of the entities given; without one it is left as it was.
pub open spec fn scanned(
    list: Seq<DetectionModel>,
    vehicle: Option<VehiclePose>,
    entities: Seq<Vector>,
) -> Seq<DetectionModel> {
    match vehicle {
        Some(pose) => detections_of(pose.position@, pose.frame@, entities),
        None => list,
    }
}

/// Where the blip in `slot` is drawn: the corner of the slot's detection, or
/// nothing when the slot is beyond the list or beyond the panel's blips.
pub open spec fn blip_at(list: Seq<DetectionModel>, slot: int) -> Option<(int, int)> {
    if 0 <= slot < list.len() && slot < MAX_BLIPS {
        Some((list[slot].x - BLIP_HALF_SIZE, list[slot].y - BLIP_HALF_SIZE))
    } else {
        None
    }
}

/// A second detection pass over the same poses leaves the list as the first
/// pass left it.
pub proof fn lemma_detection_pass_idempotent(
    list: Seq<DetectionModel>,
    vehicle: Option<VehiclePose>,
    entities: Seq<Vector>,
)
    ensures
        scanned(scanned(list, vehicle, entities), vehicle, entities) == scanned(
            list,
            vehicle,
            entities,
        ),
{
}

/// The detection list after a pass with a vehicle does not depend on the
/// list before it.
pub proof fn lemma_detection_pass_replaces(
    list: Seq<DetectionModel>,
    other: Seq<DetectionModel>,
    pose: VehiclePose,
    entities: Seq<Vector>,
)
    ensures
        scanned(list, Some(pose), entities) == scanned(other, Some(pose), entities),
{
}

/// The sweep: an angle that turns at a fixed rate, whatever is detected. It
/// is an accumulator and is never wrapped; only its sine and cosine are ever
/// used.
#[derive(Clone, Copy, Debug, PartialEq, Eq, Structural)]
pub struct SweepState {
    pub sweep_angle: i64,
}

impl SweepState {
    /// A sweep at angle zero.
    pub fn new() -> (s: SweepState)
        ensures
            s.sweep_angle == 0,
    {
        SweepState { sweep_angle: 0 }
    }

    /// Turns the sweep for `dt` microseconds. The one input this cannot
    /// serve is a step that leaves the range of an `i64`.
    pub fn advance(&mut self, dt: u32)
        requires
            swept(old(self).sweep_angle as int, dt as nat) >= i64::MIN,
        ensures
            final(self).sweep_angle == swept(old(self).sweep_angle as int, dt as nat),
    {
        self.sweep_angle = self.sweep_angle - SWEEP_RATE * (dt as i64);
    }

    /// Where to draw dot `index` of the sweep line for a vehicle heading
    /// `vehicle_yaw`.
    pub fn dot(&self, vehicle_yaw: i64, index: u32) -> (p: (i64, i64))
        requires
            index < SWEEP_SEGMENTS,
        ensures
            sweep_dot(self.sweep_angle as int, vehicle_yaw as int, index as int) == (
                p.0 as int,
                p.1 as int,
            ),
    {
        let reach: i64 = (index as i64 + 1) * SEGMENT_SPACING;
        let c = cos_wide(self.sweep_angle as i128 + vehicle_yaw as i128);
        let s = sin_wide(self.sweep_angle as i128 + vehicle_yaw as i128);
        proof {
            let m = MICRO as int;
            assert(magnitude(reach * c) <= reach * m && magnitude(reach * s) <= reach * m)
                by (nonlinear_arith)
                requires
                    0 <= reach,
                    -m <= c <= m,
                    -m <= s <= m,
            ;
            lemma_quot_le(reach * c, m, reach as int);
            lemma_quot_le(reach * s, m, reach as int);
        }
        let dx: i64 = ((reach as i128 * c as i128) / (MICRO as i128)) as i64;
        let dy: i64 = ((reach as i128 * s as i128) / (MICRO as i128)) as i64;
        (PANEL_CENTER_X + dx - SEGMENT_HALF_SIZE, PANEL_CENTER_Y - dy - SEGMENT_HALF_SIZE)
    }
}

/// The detections of the latest pass, every one of them within the panel's
/// rim.
pub struct DetectionList {
    records: Vec<Detection>,
}

impl View for DetectionList {
    type V = Seq<DetectionModel>;

    closed spec fn view(&self) -> Seq<DetectionModel> {
        self.records.deep_view()
    }
}

impl DetectionList {
    #[verifier::type_invariant]
    spec fn inv(self) -> bool {
        forall|k: int| 0 <= k < self.records.len() ==> (#[trigger] self.records[k])@.on_panel()
    }

    /// A list with nothing detected.
    pub fn new() -> (s: DetectionList)
        ensures
            s@ == Seq::<DetectionModel>::empty(),
    {
        let s = DetectionList { records: Vec::new() };
        assert(s.records.deep_view() =~= Seq::<DetectionModel>::empty());
        s
    }

    /// The detections, in the order of the entities they were made from.
    pub fn records(&self) -> (d: &Vec<Detection>)
        ensures
            d.deep_view() == self@,
            forall|k: int| 0 <= k < d.len() ==> (#[trigger] d[k])@.on_panel(),
    {
        proof {
            use_type_invariant(self);
        }
        &self.records
    }

    /// Runs the detection pass and replaces the list with its result. With
    /// no vehicle the list is left as it was.
    pub fn run_detection(&mut self, vehicle: Option<&VehiclePose>, entities: &Vec<Vec3>)
        ensures
            final(self)@ == scanned(
                old(self)@,
                match vehicle {
                    Some(pose) => Some(*pose),
                    None => None,
                },
                entities.deep_view(),
            ),
    {
        proof {
            use_type_invariant(&*self);
        }
        match vehicle {
            Some(pose) => {
                let found = detect(pose.position, &pose.frame, entities);
                self.records = found;
            },
            None => {},
        }
    }

    /// Where to draw the blip in `slot`, if that slot shows one: a slot
    /// beyond the list, or beyond the panel's blips, shows nothing.
    pub fn blip(&self, slot: usize) -> (r: Option<(i64, i64)>)
        ensures
            match r {
                Some(p) => blip_at(self@, slot as int) == Some((p.0 as int, p.1 as int)),
                None => blip_at(self@, slot as int) is None,
            },
    {
        proof {
            use_type_invariant(self);
        }
        if slot < self.records.len() && slot < MAX_BLIPS {
            let d = self.records[slot];
            assert(d@ == self@[slot as int]);
            Some((d.x - BLIP_HALF_SIZE, d.y - BLIP_HALF_SIZE))
        } else {
            None
        }
    }
}

} // verus!
