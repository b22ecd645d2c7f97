//! Explosion hazards and the timed chain that sweeps a team class by class.
use crate::clock::Clock;
use crate::enemy::{class_at, class_rank, EnemyClass, EnemyCounts, EnemyTeam, Point};
use crate::energy::AttackPoints;
use crate::level::LevelStats;
use bevy::time::TimerMode;
use vstd::prelude::*;

verus! {

/// Nanoseconds a hazard lives, and nanoseconds between two stages of a chain: one second.
pub const EXPLOSION_NANOS: u64 = 1_000_000_000;

/// The longest time step a chain's timer takes: it counts the periods of one step in a `u32`.
pub const MAX_STEP_NANOS: u64 = 4_294_967_294_000_000_000;

/// What a hazard is: its strength, the class it came from, where it stands and how large
/// its source was.
#[derive(Clone, Copy, Debug, PartialEq, Eq, Structural)]
pub struct Hazard {
    pub attack_points: AttackPoints,
    pub class: EnemyClass,
    pub position: Point,
    pub source_scale: Point,
}

/// A growing hazard left where an enemy was destroyed; it can hurt the player until it expires.
pub struct Explosion {
    hazard: Hazard,
    lifecycle: Clock,
}

impl View for Explosion {
    type V = Hazard;

    closed spec fn view(&self) -> Hazard {
        self.hazard
    }
}

impl Explosion {
    /// How long the hazard has been in the level.
    pub closed spec fn age(&self) -> nat {
        self.lifecycle.elapsed()
    }

    /// A live hazard: its one-shot lifetime of `EXPLOSION_NANOS` has not run out.
    pub closed spec fn wf(&self) -> bool {
        &&& self.lifecycle.wf()
        &&& !self.lifecycle.repeating()
        &&& !self.lifecycle.finished()
        &&& self.lifecycle.duration() == EXPLOSION_NANOS
    }

    /// A fresh hazard with one attack point and a full lifetime.
    pub fn new(class: EnemyClass, position: Point, source_scale: Point) -> (r: Self)
        ensures
            r@ == (Hazard { attack_points: AttackPoints(1), class, position, source_scale }),
            r.wf(),
            r.age() == 0,
    {
        Explosion {
            hazard: Hazard { attack_points: AttackPoints(1), class, position, source_scale },
            lifecycle: Clock::new(EXPLOSION_NANOS, TimerMode::Once),
        }
    }

    /// The hazard's data.
    pub fn hazard(&self) -> (r: Hazard)
        ensures
            r == self@,
    {
        self.hazard
    }

    /// Lets `delta_nanos` pass; true when the hazard's lifetime runs out on this tick.
    /// A hazard that lives on has aged by `delta_nanos`.
    pub fn tick(&mut self, delta_nanos: u64) -> (expired: bool)
        requires
            old(self).wf(),
        ensures
            final(self)@ == old(self)@,
            expired == (old(self).age() + delta_nanos >= EXPLOSION_NANOS),
            !expired ==> final(self).wf() && final(self).age() == old(self).age() + delta_nanos,
    {
        self.lifecycle.advance(delta_nanos)
    }
}

/// A hazard touched the player.
#[derive(Clone, Copy, Debug, PartialEq, Eq, Structural)]
pub struct ExplosionCollisionEvent {}

/// A chain reached a stage: every living enemy of this class and team is destroyed.
#[derive(Clone, Copy, Debug, PartialEq, Eq, Structural)]
pub struct ExplosionChainEvent {
    pub class: EnemyClass,
    pub team: EnemyTeam,
}

impl ExplosionChainEvent {
    pub fn new(team: EnemyTeam, class: EnemyClass) -> (r: Self)
        ensures
            r == (ExplosionChainEvent { class, team }),
    {
        ExplosionChainEvent { class, team }
    }
}

/// The first class at position `i` or later of the chain order, `Wall` excluded,
/// of which the level started with at least one enemy.
pub open spec fn stage_from(i: nat, counts: EnemyCounts) -> Option<EnemyClass>
    decreases 6 - i,
{
    if i >= 6 {
        None
    } else if counts.count_of(class_at(i)) > 0 {
        Some(class_at(i))
    } else {
        stage_from(i + 1, counts)
    }
}

/// The stage that follows class `c` in a level with these starting counts.
pub open spec fn next_stage(c: EnemyClass, counts: EnemyCounts) -> Option<EnemyClass> {
    stage_from(class_rank(c) + 1, counts)
}

/// The stages a chain standing at `stage` goes through, in order, until it ends.
pub open spec fn stages_from(stage: Option<EnemyClass>, counts: EnemyCounts) -> Seq<EnemyClass>
    decreases 7 - (match stage {
        Some(c) => class_rank(c),
        None => 6,
    }),
{
    match stage {
        Some(c) => {
            if class_rank(c) < 6 {
                proof {
                    lemma_next_stage(c, counts);
                }
                seq![c] + stages_from(next_stage(c, counts), counts)
            } else {
                seq![c]
            }
        },
        None => Seq::empty(),
    }
}

/// What `stage_from` finds: the first counted class at or after `i`, and nothing counted
/// between `i` and it.
pub proof fn lemma_stage_from(i: nat, counts: EnemyCounts)
    ensures
        match stage_from(i, counts) {
            Some(d) => {
                &&& i <= class_rank(d) < 6
                &&& counts.count_of(d) > 0
                &&& forall|e: EnemyClass|
                    i <= class_rank(e) < class_rank(d) ==> counts.count_of(e) == 0
            },
            None => forall|e: EnemyClass| i <= class_rank(e) < 6 ==> counts.count_of(e) == 0,
        },
    decreases 6 - i,
{
    if i < 6 {
        lemma_stage_from(i + 1, counts);
        if counts.count_of(class_at(i)) == 0 {
            assert forall|e: EnemyClass| class_rank(e) == i implies counts.count_of(e) == 0 by {
                crate::enemy::lemma_class_rank_inverse(e);
            }
        }
    }
}

/// The step of a chain: the stage after `c` comes later in the fixed order, is a class the
/// level started with, is never a wall, and no counted class lies between the two; when no
/// stage follows, no counted class other than a wall comes after `c`.
pub proof fn lemma_next_stage(c: EnemyClass, counts: EnemyCounts)
    ensures
        match next_stage(c, counts) {
            Some(d) => {
                &&& class_rank(c) < class_rank(d)
                &&& d != EnemyClass::Wall
                &&& counts.count_of(d) > 0
                &&& forall|e: EnemyClass|
                    class_rank(c) < class_rank(e) < class_rank(d) ==> counts.count_of(e) == 0
            },
            None => forall|e: EnemyClass|
                class_rank(c) < class_rank(e) && e != EnemyClass::Wall ==> counts.count_of(e)
                    == 0,
        },
{
    lemma_stage_from(class_rank(c) + 1, counts);
}

/// A whole chain started at a class the level holds: it visits only classes the level
/// started with, never a wall, in strictly increasing chain order (so never twice), misses
/// none that comes after its start, and ends after at most six stages.
pub proof fn lemma_chain_stages(first: EnemyClass, counts: EnemyCounts)
    requires
        first != EnemyClass::Wall,
        counts.count_of(first) > 0,
    ensures
        stages_from(Some(first), counts).len() <= 6,
        stages_from(Some(first), counts)[0] == first,
        forall|k: int|
            0 <= k < stages_from(Some(first), counts).len() ==> #[trigger] stages_from(
                Some(first),
                counts,
            )[k] != EnemyClass::Wall && counts.count_of(stages_from(Some(first), counts)[k]) > 0,
        forall|j: int, k: int|
            0 <= j < k < stages_from(Some(first), counts).len() ==> class_rank(
                #[trigger] stages_from(Some(first), counts)[j],
            ) < class_rank(#[trigger] stages_from(Some(first), counts)[k]),
        forall|e: EnemyClass|
            class_rank(first) <= class_rank(e) && e != EnemyClass::Wall && counts.count_of(e) > 0
                ==> stages_from(Some(first), counts).contains(e),
    decreases 6 - class_rank(first),
{
    let all = stages_from(Some(first), counts);
    lemma_next_stage(first, counts);
    match next_stage(first, counts) {
        Some(d) => {
            lemma_chain_stages(d, counts);
            let rest = stages_from(Some(d), counts);
            assert(all == seq![first] + rest);
            assert(rest.len() <= 6 - class_rank(d)) by {
                lemma_stages_len(Some(d), counts);
            }
            assert forall|j: int, k: int| 0 <= j < k < all.len() implies class_rank(all[j])
                < class_rank(all[k]) by {
                if j == 0 {
                    assert(all[k] == rest[k - 1]);
                    lemma_stages_rank(Some(d), counts, k - 1);
                } else {
                    assert(all[j] == rest[j - 1] && all[k] == rest[k - 1]);
                }
            }
            assert forall|e: EnemyClass|
                class_rank(first) <= class_rank(e) && e != EnemyClass::Wall && counts.count_of(e)
                    > 0 implies all.contains(e) by {
                if e == first {
                    assert(all[0] == e);
                } else {
                    assert(class_rank(e) != class_rank(first)) by {
                        crate::enemy::lemma_class_rank_inverse(e);
                        crate::enemy::lemma_class_rank_inverse(first);
                    }
                    assert(class_rank(d) <= class_rank(e));
                    assert(rest.contains(e));
                    let k = choose|k: int| 0 <= k < rest.len() && rest[k] == e;
                    assert(all[k + 1] == e);
                }
            }
            assert(all.len() <= 6) by {
                lemma_stages_len(Some(first), counts);
            }
        },
        None => {
            assert(stages_from(None, counts) =~= Seq::<EnemyClass>::empty());
            assert(all =~= seq![first]);
            assert forall|e: EnemyClass|
                class_rank(first) <= class_rank(e) && e != EnemyClass::Wall && counts.count_of(e)
                    > 0 implies all.contains(e) by {
                if e != first {
                    assert(class_rank(e) != class_rank(first)) by {
                        crate::enemy::lemma_class_rank_inverse(e);
                        crate::enemy::lemma_class_rank_inverse(first);
                    }
                }
                assert(all[0] == first);
            }
        },
    }
}

/// A chain standing at a class other than a wall has at most `6 - rank` stages left.
proof fn lemma_stages_len(stage: Option<EnemyClass>, counts: EnemyCounts)
    ensures
        match stage {
            Some(c) => class_rank(c) < 6 ==> stages_from(stage, counts).len() <= 6 - class_rank(c),
            None => stages_from(stage, counts).len() == 0,
        },
    decreases 7 - (match stage {
        Some(c) => class_rank(c),
        None => 6,
    }),
{
    if let Some(c) = stage {
        if class_rank(c) < 6 {
            lemma_next_stage(c, counts);
            lemma_stages_len(next_stage(c, counts), counts);
        }
    }
}

/// Every stage still to come lies at or after the current one in the fixed order.
proof fn lemma_stages_rank(stage: Option<EnemyClass>, counts: EnemyCounts, k: int)
    requires
        stage is Some,
        0 <= k < stages_from(stage, counts).len(),
    ensures
        class_rank(stage->0) <= class_rank(stages_from(stage, counts)[k]),
    decreases 7 - class_rank(stage->0),
{
    let c = stage->0;
    if k > 0 && class_rank(c) < 6 {
        lemma_next_stage(c, counts);
        let rest = stages_from(next_stage(c, counts), counts);
        assert(stages_from(stage, counts)[k] == rest[k - 1]);
        lemma_stages_rank(next_stage(c, counts), counts, k - 1);
    }
}

/// With a first and a second defender wave in the level, a chain goes from the first wave
/// to the second, and no stage before the second wave leads straight to the land.
pub proof fn lemma_defender_waves(counts: EnemyCounts, c: EnemyClass)
    requires
        counts.count_of(EnemyClass::DefenderOne) > 0,
        counts.count_of(EnemyClass::DefenderTwo) > 0,
    ensures
        next_stage(EnemyClass::DefenderOne, counts) == Some(EnemyClass::DefenderTwo),
        next_stage(c, counts) == Some(EnemyClass::Land) ==> class_rank(EnemyClass::DefenderTwo)
            <= class_rank(c),
{
    lemma_next_stage(EnemyClass::DefenderOne, counts);
    lemma_next_stage(c, counts);
}

/// A timed sweep through the classes of one team, one stage per interval.
pub struct ExplosionChain {
    stage: Option<EnemyClass>,
    team: EnemyTeam,
    timer: Clock,
}

impl ExplosionChain {
    /// The class whose enemies the next firing destroys; none once the chain is done.
    pub closed spec fn stage_spec(&self) -> Option<EnemyClass> {
        self.stage
    }

    /// The team the chain sweeps.
    pub closed spec fn team_spec(&self) -> EnemyTeam {
        self.team
    }

    /// Time since the chain started or last fired.
    pub closed spec fn elapsed_spec(&self) -> nat {
        self.timer.elapsed()
    }

    /// The chain's timer repeats every `EXPLOSION_NANOS`.
    pub closed spec fn wf(&self) -> bool {
        &&& self.timer.wf()
        &&& self.timer.repeating()
        &&& self.timer.duration() == EXPLOSION_NANOS
    }

    /// The stage after `class`: the next class in chain order, walls excluded,
    /// that the level started with.
    pub fn following_class(class: &EnemyClass, level_stats: &LevelStats) -> (r: Option<
        EnemyClass,
    >)
        ensures
            r == next_stage(*class, level_stats.original_enemy_counts),
    {
        let order = EnemyClass::in_order();
        let mut i: usize = class.index_of(*class) + 1;
        while i < 6
            invariant
                class_rank(*class) + 1 <= i <= 7,
                order@ == crate::enemy::class_order(),
                next_stage(*class, level_stats.original_enemy_counts) == stage_from(
                    i as nat,
                    level_stats.original_enemy_counts,
                ),
            decreases 7 - i,
        {
            assert(order@[i as int] == class_at(i as nat));
            if level_stats.original_enemy_counts.started_with_enemy(&order[i]) {
                return Some(order[i]);
            }
            i = i + 1;
        }
        None
    }

    /// A chain of `team` whose first stage is `stage`.
    pub fn new(team: EnemyTeam, stage: EnemyClass) -> (r: Self)
        ensures
            r.stage_spec() == Some(stage),
            r.team_spec() == team,
            r.elapsed_spec() == 0,
            r.wf(),
    {
        ExplosionChain {
            stage: Some(stage),
            team,
            timer: Clock::new(EXPLOSION_NANOS, TimerMode::Repeating),
        }
    }

    /// Whether no stage is left.
    pub fn is_complete(&self) -> (r: bool)
        ensures
            r == (self.stage_spec() is None),
    {
        self.stage.is_none()
    }

    /// The team the chain sweeps.
    pub fn team(&self) -> (r: EnemyTeam)
        ensures
            r == self.team_spec(),
    {
        self.team
    }

    /// The stage the next firing reaches.
    pub fn stage(&self) -> (r: Option<EnemyClass>)
        ensures
            r == self.stage_spec(),
    {
        self.stage
    }

    /// One step given whether the timer fired: a chain that fires emits the event of its
    /// current stage and moves to the following stage; otherwise nothing changes.
    pub fn advance(&mut self, fired: bool, level_stats: &LevelStats) -> (r: Option<
        ExplosionChainEvent,
    >)
        ensures
            final(self).team_spec() == old(self).team_spec(),
            final(self).elapsed_spec() == old(self).elapsed_spec(),
            final(self).wf() == old(self).wf(),
            match old(self).stage_spec() {
                Some(c) => if fired {
                    &&& r == Some(ExplosionChainEvent { class: c, team: old(self).team_spec() })
                    &&& final(self).stage_spec() == next_stage(
                        c,
                        level_stats.original_enemy_counts,
                    )
                } else {
                    &&& r is None
                    &&& final(self).stage_spec() == old(self).stage_spec()
                },
                None => r is None && final(self).stage_spec() is None,
            },
    {
        match self.stage {
            Some(class) => {
                if fired {
                    let event = ExplosionChainEvent::new(self.team, class);
                    self.stage = Self::following_class(&class, level_stats);
                    Some(event)
                } else {
                    None
                }
            },
            None => None,
        }
    }

    /// Lets `delta_nanos` pass on the chain's timer. A chain with a stage left fires when its
    /// elapsed time reaches `EXPLOSION_NANOS`, emitting the event of its stage and moving to
    /// the following one, and keeps the remainder of the period; a finished chain stays as it is.
    pub fn tick(&mut self, delta_nanos: u64, level_stats: &LevelStats) -> (r: Option<
        ExplosionChainEvent,
    >)
        requires
            old(self).wf(),
            delta_nanos <= MAX_STEP_NANOS,
        ensures
            final(self).wf(),
            final(self).team_spec() == old(self).team_spec(),
            match old(self).stage_spec() {
                Some(c) => {
                    &&& final(self).elapsed_spec() == (old(self).elapsed_spec() + delta_nanos) % (
                    EXPLOSION_NANOS as int)
                    &&& if old(self).elapsed_spec() + delta_nanos >= EXPLOSION_NANOS {
                        &&& r == Some(ExplosionChainEvent { class: c, team: old(self).team_spec() })
                        &&& final(self).stage_spec() == next_stage(
                            c,
                            level_stats.original_enemy_counts,
                        )
                    } else {
                        &&& r is None
                        &&& final(self).stage_spec() == old(self).stage_spec()
                    }
                },
                None => {
                    &&& r is None
                    &&& final(self).stage_spec() is None
                    &&& final(self).elapsed_spec() == old(self).elapsed_spec()
                },
            },
    {
        if self.stage.is_some() {
            let fired = self.timer.advance(delta_nanos);
            self.advance(fired, level_stats)
        } else {
            None
        }
    }
}

} // verus!
