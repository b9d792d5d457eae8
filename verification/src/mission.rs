//! The mission's running tally: the score, the crew's oxygen and the hull's
//! health, and the collection of entities that the vehicle reaches.
use vstd::math::{max, min};
use vstd::prelude::*;
use crate::fixed::{NANO, lowered, raised};
use crate::vector::{Vec3, Vector};

verus! {

/// Full health, and a full oxygen supply: 100.0, in billionths.
pub const GAUGE_FULL: u64 = 100 * NANO;

/// At or above the surface the oxygen is replenished at 5.0 per second.
pub const OXYGEN_GAIN_RATE: u64 = 5_000;

/// Below the surface the oxygen is used at 0.02 per second.
pub const OXYGEN_USE_RATE: u64 = 20;

/// Without oxygen the health falls at 5.0 per second.
pub const HEALTH_LOSS_RATE: u64 = 5_000;

/// An entity closer than 2 metres is collected.
pub const COLLECTION_REACH: i64 = 2_000_000;

/// Each collected entity scores 10.
pub const COLLECTION_SCORE: u32 = 10;

/// Each collected entity restores 20.0 of oxygen.
pub const COLLECTION_OXYGEN: u64 = 20 * NANO;

/// The mathematical form of the tally.
pub struct MissionModel {
    pub score: int,
    pub health: int,
    pub oxygen: int,
}

/// Whether `entity` is within collection reach of `vehicle`. The comparison
/// is exact: it is made on the squared distance.
pub open spec fn within_reach(vehicle: Vector, entity: Vector) -> bool {
    entity.minus(vehicle).length_squared() < COLLECTION_REACH * COLLECTION_REACH
}

/// The indices of the entities within collection reach, in rising order.
pub open spec fn reached(vehicle: Vector, entities: Seq<Vector>) -> Seq<int>
    decreases entities.len(),
{
    if entities.len() == 0 {
        Seq::empty()
    } else {
        let front = reached(vehicle, entities.drop_last());
        if within_reach(vehicle, entities.last()) {
            front.push(entities.len() - 1)
        } else {
            front
        }
    }
}

impl MissionModel {
    /// Both gauges are inside their interval.
    pub open spec fn wf(self) -> bool {
        &&& 0 <= self.score
        &&& 0 <= self.health <= GAUGE_FULL
        &&& 0 <= self.oxygen <= GAUGE_FULL
    }

    /// No score, full health, full oxygen.
    pub open spec fn initial() -> MissionModel {
        MissionModel { score: 0, health: GAUGE_FULL as int, oxygen: GAUGE_FULL as int }
    }

    /// The tally after `dt` microseconds at `depth`: oxygen is replenished at
    /// or above the surface and used below it; once it is gone the health
    /// falls.
    pub open spec fn breathed(self, depth: int, dt: nat) -> MissionModel {
        let oxygen = if depth <= 0 {
            min(GAUGE_FULL as int, self.oxygen + OXYGEN_GAIN_RATE * dt)
        } else {
            max(0, self.oxygen - OXYGEN_USE_RATE * dt)
        };
        let health = if oxygen <= 0 {
            max(0, self.health - HEALTH_LOSS_RATE * dt)
        } else {
            self.health
        };
        MissionModel { oxygen, health, ..self }
    }

    /// The tally after `count` entities have been collected.
    pub open spec fn rewarded(self, count: nat) -> MissionModel {
        MissionModel {
            score: self.score + COLLECTION_SCORE * count,
            oxygen: min(GAUGE_FULL as int, self.oxygen + COLLECTION_OXYGEN * count),
            ..self
        }
    }
}

/// The indices of the reached entities rise, each names an entity within
/// reach, and every entity within reach is named.
pub proof fn lemma_reached(vehicle: Vector, entities: Seq<Vector>)
    ensures
        reached(vehicle, entities).len() <= entities.len(),
        forall|k: int|
            0 <= k < reached(vehicle, entities).len() ==> 0 <= (#[trigger] reached(
                vehicle,
                entities,
            )[k]) < entities.len() && within_reach(
                vehicle,
                entities[reached(vehicle, entities)[k]],
            ),
        forall|k: int, l: int|
            0 <= k < l < reached(vehicle, entities).len() ==> (#[trigger] reached(
                vehicle,
                entities,
            )[k]) < (#[trigger] reached(vehicle, entities)[l]),
        forall|j: int|
            0 <= j < entities.len() && within_reach(vehicle, #[trigger] entities[j]) ==> reached(
                vehicle,
                entities,
            ).contains(j),
    decreases entities.len(),
{
    let all = reached(vehicle, entities);
    if entities.len() > 0 {
        let front_entities = entities.drop_last();
        let front = reached(vehicle, front_entities);
        lemma_reached(vehicle, front_entities);
        assert forall|k: int| 0 <= k < all.len() implies 0 <= (#[trigger] all[k]) < entities.len()
            && within_reach(vehicle, entities[all[k]]) by {
            if k < front.len() {
                assert(all[k] == front[k]);
                assert(front_entities[front[k]] == entities[front[k]]);
            }
        }
        assert forall|k: int, l: int| 0 <= k < l < all.len() implies (#[trigger] all[k]) < (
        #[trigger] all[l]) by {
            assert(all[k] == front[k]);
            if l < front.len() {
                assert(all[l] == front[l]);
            }
        }
        assert forall|j: int|
            0 <= j < entities.len() && within_reach(
                vehicle,
                #[trigger] entities[j],
            ) implies all.contains(j) by {
            if j < front_entities.len() {
                assert(front_entities[j] == entities[j]);
                assert(front.contains(j));
                let k = choose|k: int| 0 <= k < front.len() && front[k] == j;
                assert(all[k] == j);
            } else {
                assert(all[all.len() - 1] == j);
            }
        }
    }
}

/// The tally. Its gauges are always inside their interval.
#[derive(Clone, Copy, Debug)]
pub struct MissionState {
    score: u32,
    health: u64,
    oxygen: u64,
}

impl View for MissionState {
    type V = MissionModel;

    closed spec fn view(&self) -> MissionModel {
        MissionModel {
            score: self.score as int,
            health: self.health as int,
            oxygen: self.oxygen as int,
        }
    }
}

/// Reports whether `entity` is within collection reach of `vehicle`.
pub fn is_within_reach(vehicle: Vec3, entity: Vec3) -> (b: bool)
    ensures
        b == within_reach(vehicle@, entity@),
{
    let reach: i128 = COLLECTION_REACH as i128;
    let dx: i128 = entity.x as i128 - vehicle.x as i128;
    let dy: i128 = entity.y as i128 - vehicle.y as i128;
    let dz: i128 = entity.z as i128 - vehicle.z as i128;
    let ghost o = entity@.minus(vehicle@);
    if -reach < dx && dx < reach && -reach < dy && dy < reach && -reach < dz && dz < reach {
        assert(0 <= dx * dx <= reach * reach && 0 <= dy * dy <= reach * reach && 0 <= dz * dz
            <= reach * reach) by (nonlinear_arith)
            requires
                -reach < dx < reach,
                -reach < dy < reach,
                -reach < dz < reach,
        ;
        dx * dx + dy * dy + dz * dz < reach * reach
    } else {
        proof {
            let r = reach as int;
            assert(o.x * o.x + o.y * o.y + o.z * o.z >= r * r) by (nonlinear_arith)
                requires
                    o.x <= -r || o.x >= r || o.y <= -r || o.y >= r || o.z <= -r || o.z >= r,
                    r >= 0,
            ;
        }
        false
    }
}

impl MissionState {
    #[verifier::type_invariant]
    spec fn inv(self) -> bool {
        self@.wf()
    }

    /// No score, full health, full oxygen.
    pub fn new() -> (s: MissionState)
        ensures
            s@ == MissionModel::initial(),
    {
        MissionState { score: 0, health: GAUGE_FULL, oxygen: GAUGE_FULL }
    }

    pub fn score(&self) -> (r: u32)
        ensures
            r == self@.score,
    {
        self.score
    }

    pub fn health(&self) -> (r: u64)
        ensures
            r == self@.health,
            r <= GAUGE_FULL,
    {
        proof {
            use_type_invariant(self);
        }
        self.health
    }

    pub fn oxygen(&self) -> (r: u64)
        ensures
            r == self@.oxygen,
            r <= GAUGE_FULL,
    {
        proof {
            use_type_invariant(self);
        }
        self.oxygen
    }

    /// Lets `dt` microseconds pass at `depth`.
    pub fn breathe(&mut self, depth: i64, dt: u32)
        ensures
            final(self)@ == old(self)@.breathed(depth as int, dt as nat),
            final(self)@.wf(),
    {
        proof {
            use_type_invariant(&*self);
        }
        let oxygen = if depth <= 0 {
            raised(self.oxygen, OXYGEN_GAIN_RATE, dt, GAUGE_FULL)
        } else {
            lowered(self.oxygen, OXYGEN_USE_RATE, dt)
        };
        let health = if oxygen == 0 {
            lowered(self.health, HEALTH_LOSS_RATE, dt)
        } else {
            self.health
        };
        *self = MissionState { score: self.score, health, oxygen };
    }

    /// Collects every entity within reach of the vehicle: each scores and
    /// restores oxygen. The indices of the collected entities are returned,
    /// in rising order, for the host to remove them. The one input this
    /// cannot serve is a score that leaves the range of a `u32`.
    pub fn collect(&mut self, vehicle: Vec3, entities: &Vec<Vec3>) -> (taken: Vec<usize>)
        requires
            old(self)@.score + COLLECTION_SCORE * reached(vehicle@, entities.deep_view()).len()
                <= u32::MAX,
        ensures
            taken@.map_values(|i: usize| i as int) == reached(vehicle@, entities.deep_view()),
            final(self)@ == old(self)@.rewarded(taken.len() as nat),
            final(self)@.wf(),
    {
        proof {
            use_type_invariant(&*self);
        }
        let ghost all = entities.deep_view();
        let ghost start = self@;
        let mut taken: Vec<usize> = Vec::new();
        let mut score = self.score;
        let mut oxygen = self.oxygen;
        let mut i: usize = 0;
        assert(all.take(0) =~= Seq::<Vector>::empty());
        assert(taken@.map_values(|i: usize| i as int) =~= Seq::<int>::empty());
        while i < entities.len()
            invariant
                i <= entities.len(),
                all == entities.deep_view(),
                taken@.map_values(|i: usize| i as int) == reached(vehicle@, all.take(i as int)),
                taken.len() <= i,
                score == start.score + COLLECTION_SCORE * taken.len(),
                oxygen == min(GAUGE_FULL as int, start.oxygen + COLLECTION_OXYGEN * taken.len()),
                0 <= start.oxygen <= GAUGE_FULL,
                start.score + COLLECTION_SCORE * reached(vehicle@, all).len() <= u32::MAX,
            decreases entities.len() - i,
        {
            let ghost before = all.take(i as int);
            let ghost upto = all.take(i + 1);
            let ghost had = taken@.map_values(|i: usize| i as int);
            proof {
                assert(upto.drop_last() =~= before);
                assert(upto.last() == entities[i as int]@);
                lemma_reached_grows(vehicle@, all, i + 1);
            }
            if is_within_reach(vehicle, entities[i]) {
                let ghost count = taken.len() as int;
                taken.push(i);
                proof {
                    assert(taken@.map_values(|i: usize| i as int) =~= had.push(i as int));
                    assert(COLLECTION_OXYGEN * (count + 1) == COLLECTION_OXYGEN * count
                        + COLLECTION_OXYGEN) by (nonlinear_arith);
                    assert(COLLECTION_SCORE * (count + 1) == COLLECTION_SCORE * count
                        + COLLECTION_SCORE) by (nonlinear_arith);
                    assert(COLLECTION_OXYGEN * count >= 0) by (nonlinear_arith)
                        requires
                            count >= 0,
                    ;
                }
                score = score + COLLECTION_SCORE;
                oxygen = if COLLECTION_OXYGEN >= GAUGE_FULL - oxygen {
                    GAUGE_FULL
                } else {
                    oxygen + COLLECTION_OXYGEN
                };
            }
            i = i + 1;
        }
        assert(all.take(entities.len() as int) =~= all);
        *self = MissionState { score, health: self.health, oxygen };
        taken
    }
}

/// A longer prefix of the entities has at least as many within reach.
pub proof fn lemma_reached_grows(vehicle: Vector, entities: Seq<Vector>, n: int)
    requires
        0 <= n <= entities.len(),
    ensures
        reached(vehicle, entities.take(n)).len() <= reached(vehicle, entities).len(),
    decreases entities.len() - n,
{
    if n < entities.len() {
        lemma_reached_grows(vehicle, entities, n + 1);
        assert(entities.take(n + 1).drop_last() =~= entities.take(n));
    } else {
        assert(entities.take(n) =~= entities);
    }
}

} // verus!
