//! Enemy classes, teams, spawn descriptors and per-class counts.
use crate::energy::{AttackPoints, HitPoints};
use crate::tally::{empty_tally, tally_get, tally_insert, tally_of};
use bevy::platform::collections::HashMap;
use vstd::prelude::*;

verus! {

/// Kind of an enemy. Each defender wave has a class of its own.
#[derive(Clone, Copy, Debug, PartialEq, Eq, Hash, Structural)]
pub enum EnemyClass {
    Base,
    DefenderOne,
    DefenderTwo,
    DefenderThree,
    Land,
    Shadow,
    Wall,
}

/// Position of a class in the fixed chain order
/// Base, Shadow, DefenderOne, DefenderTwo, DefenderThree, Land, Wall.
pub open spec fn class_rank(c: EnemyClass) -> nat {
    match c {
        EnemyClass::Base => 0,
        EnemyClass::Shadow => 1,
        EnemyClass::DefenderOne => 2,
        EnemyClass::DefenderTwo => 3,
        EnemyClass::DefenderThree => 4,
        EnemyClass::Land => 5,
        EnemyClass::Wall => 6,
    }
}

/// The class at position `i` of the chain order (`Wall` from position 6 on).
pub open spec fn class_at(i: nat) -> EnemyClass {
    if i == 0 {
        EnemyClass::Base
    } else if i == 1 {
        EnemyClass::Shadow
    } else if i == 2 {
        EnemyClass::DefenderOne
    } else if i == 3 {
        EnemyClass::DefenderTwo
    } else if i == 4 {
        EnemyClass::DefenderThree
    } else if i == 5 {
        EnemyClass::Land
    } else {
        EnemyClass::Wall
    }
}

/// The whole chain order as a sequence.
pub open spec fn class_order() -> Seq<EnemyClass> {
    seq![
        EnemyClass::Base,
        EnemyClass::Shadow,
        EnemyClass::DefenderOne,
        EnemyClass::DefenderTwo,
        EnemyClass::DefenderThree,
        EnemyClass::Land,
        EnemyClass::Wall,
    ]
}

/// `class_at` and `class_rank` are inverse to each other.
pub proof fn lemma_class_rank_inverse(c: EnemyClass)
    ensures
        class_rank(c) < 7,
        class_at(class_rank(c)) == c,
        class_order()[class_rank(c) as int] == c,
{
}

impl EnemyClass {
    /// All classes in chain order.
    pub fn in_order() -> (r: [Self; 7])
        ensures
            r@ == class_order(),
    {
        let r = [
            Self::Base,
            Self::Shadow,
            Self::DefenderOne,
            Self::DefenderTwo,
            Self::DefenderThree,
            Self::Land,
            Self::Wall,
        ];
        assert(r@ =~= class_order());
        r
    }

    /// Position of `wave` in the chain order; `self` plays no part.
    pub fn index_of(&self, wave: Self) -> (r: usize)
        ensures
            r == class_rank(wave),
    {
        match wave {
            Self::Base => 0,
            Self::Shadow => 1,
            Self::DefenderOne => 2,
            Self::DefenderTwo => 3,
            Self::DefenderThree => 4,
            Self::Land => 5,
            Self::Wall => 6,
        }
    }
}

/// Faction of an enemy; a chain only reaches enemies of its own team.
#[derive(Clone, Copy, Debug, PartialEq, Eq, Hash, Structural)]
pub enum EnemyTeam {
    Alien,
    Demon,
    Phantom,
    Skull,
}

/// Display name of a team.
pub open spec fn team_label(t: EnemyTeam) -> Seq<char> {
    match t {
        EnemyTeam::Alien => "Alien"@,
        EnemyTeam::Demon => "Demon"@,
        EnemyTeam::Phantom => "Ghost"@,
        EnemyTeam::Skull => "Skull"@,
    }
}

impl EnemyTeam {
    /// The team's display name.
    pub fn label(&self) -> (r: &'static str)
        ensures
            r@ == team_label(*self),
    {
        proof {
            reveal_strlit("Alien");
            reveal_strlit("Demon");
            reveal_strlit("Ghost");
            reveal_strlit("Skull");
        }
        match self {
            EnemyTeam::Alien => "Alien",
            EnemyTeam::Demon => "Demon",
            EnemyTeam::Phantom => "Ghost",
            EnemyTeam::Skull => "Skull",
        }
    }
}

/// Whether a level can only be won once this enemy is gone.
#[derive(Clone, Copy, Debug, PartialEq, Eq, Structural)]
pub enum EnemyDestruction {
    Required,
    Impossible,
}

/// The destruction rule of a class: everything but a wall must be destroyed.
pub open spec fn destruction_of(c: EnemyClass) -> EnemyDestruction {
    if c == EnemyClass::Wall {
        EnemyDestruction::Impossible
    } else {
        EnemyDestruction::Required
    }
}

/// A point or a size on the stage, in whole pixels.
#[derive(Clone, Copy, Debug, PartialEq, Eq, Structural)]
pub struct Point {
    pub x: i32,
    pub y: i32,
}

/// How many enemies of each class: present at the start of a level, or destroyed so far.
pub struct EnemyCounts {
    tally: HashMap<u8, u32>,
}

impl EnemyCounts {
    /// Count recorded for class `c`; absent classes count zero.
    pub closed spec fn count_of(&self, c: EnemyClass) -> nat {
        let m = tally_of(self.tally);
        let k = class_rank(c) as u8;
        if m.contains_key(k) {
            m[k] as nat
        } else {
            0
        }
    }

    /// Sum of the counts of every class but `Wall`.
    pub open spec fn total_of(&self) -> nat {
        self.count_of(EnemyClass::Base) + self.count_of(EnemyClass::Shadow) + self.count_of(
            EnemyClass::DefenderOne,
        ) + self.count_of(EnemyClass::DefenderTwo) + self.count_of(EnemyClass::DefenderThree)
            + self.count_of(EnemyClass::Land)
    }

    /// Every count fits in a `u32`.
    pub proof fn lemma_count_bound(&self, c: EnemyClass)
        ensures
            self.count_of(c) <= u32::MAX,
    {
    }

    /// No enemy counted.
    pub fn new() -> (r: Self)
        ensures
            forall|c: EnemyClass| r.count_of(c) == 0,
    {
        EnemyCounts { tally: empty_tally() }
    }

    /// Whether at least one enemy of `class` is counted.
    pub fn started_with_enemy(&self, class: &EnemyClass) -> (r: bool)
        ensures
            r == (self.count_of(*class) > 0),
    {
        self.count(class) > 0
    }

    /// Adds one to the count of `class`.
    pub fn increment(&mut self, class: &EnemyClass)
        requires
            old(self).count_of(*class) < u32::MAX,
        ensures
            final(self).count_of(*class) == old(self).count_of(*class) + 1,
            forall|c: EnemyClass| c != *class ==> final(self).count_of(c) == old(self).count_of(c),
    {
        let n = self.count(class);
        let k = class.index_of(*class) as u8;
        tally_insert(&mut self.tally, k, n + 1);
        proof {
            assert forall|c: EnemyClass| c != *class implies final(self).count_of(c) == old(
                self,
            ).count_of(c) by {
                assert(class_rank(c) as u8 != k);
            }
        }
    }

    /// Count of `class`.
    pub fn count(&self, class: &EnemyClass) -> (r: u32)
        ensures
            r == self.count_of(*class),
    {
        match tally_get(&self.tally, class.index_of(*class) as u8) {
            Some(n) => n,
            None => 0,
        }
    }

    /// Number of counted enemies of every class but `Wall`.
    pub fn total(&self) -> (r: u32)
        requires
            self.total_of() <= u32::MAX,
        ensures
            r == self.total_of(),
    {
        let order = EnemyClass::in_order();
        let mut sum: u32 = 0;
        let mut i: usize = 0;
        while i < 6
            invariant
                i <= 6,
                order@ == class_order(),
                self.total_of() <= u32::MAX,
                sum == partial_total(self, i as nat),
            decreases 6 - i,
        {
            proof {
                lemma_partial_total_bound(self, (i + 1) as nat);
            }
            sum = sum + self.count(&order[i]);
            i = i + 1;
        }
        proof {
            reveal_with_fuel(partial_total, 7);
        }
        sum
    }

    /// Counts the classes of a list of spawn descriptors.
    pub fn from_bundles(enemies: &Vec<EnemyBundle>) -> (r: Self)
        requires
            enemies@.len() <= u32::MAX,
        ensures
            forall|c: EnemyClass| r.count_of(c) == bundle_count(enemies@, c),
    {
        let mut counts = EnemyCounts::new();
        let mut i: usize = 0;
        while i < enemies.len()
            invariant
                i <= enemies@.len() <= u32::MAX,
                forall|c: EnemyClass| counts.count_of(c) == bundle_count(enemies@.take(i as int), c),
            decreases enemies@.len() - i,
        {
            proof {
                assert(enemies@.take(i + 1).drop_last() =~= enemies@.take(i as int));
                lemma_bundle_count_bound(enemies@.take(i as int), enemies[i as int].class);
            }
            counts.increment(&enemies[i].class);
            i = i + 1;
        }
        assert(enemies@.take(i as int) =~= enemies@);
        counts
    }
}

/// Sum of the counts of the first `n` classes of the chain order.
pub open spec fn partial_total(counts: &EnemyCounts, n: nat) -> nat
    decreases n,
{
    if n == 0 {
        0
    } else {
        partial_total(counts, (n - 1) as nat) + counts.count_of(class_at((n - 1) as nat))
    }
}

proof fn lemma_partial_total_bound(counts: &EnemyCounts, n: nat)
    requires
        n <= 6,
        counts.total_of() <= u32::MAX,
    ensures
        partial_total(counts, n) <= counts.total_of(),
{
    reveal_with_fuel(partial_total, 7);
}

/// Number of descriptors of class `c` in `s`.
pub open spec fn bundle_count(s: Seq<EnemyBundle>, c: EnemyClass) -> nat
    decreases s.len(),
{
    if s.len() == 0 {
        0
    } else {
        bundle_count(s.drop_last(), c) + if s.last().class == c {
            1nat
        } else {
            0nat
        }
    }
}

/// A class never appears more often than the list is long.
pub proof fn lemma_bundle_count_bound(s: Seq<EnemyBundle>, c: EnemyClass)
    ensures
        bundle_count(s, c) <= s.len(),
    decreases s.len(),
{
    if s.len() > 0 {
        lemma_bundle_count_bound(s.drop_last(), c);
    }
}

/// Everything a level needs to spawn one enemy.
#[derive(Clone, Copy, Debug, PartialEq, Eq, Structural)]
pub struct EnemyBundle {
    pub class: EnemyClass,
    pub team: EnemyTeam,
    pub destruction: EnemyDestruction,
    pub ap: AttackPoints,
    pub hp: HitPoints,
    pub position: Point,
    pub scale: Point,
}

/// The unit scale.
pub open spec fn unit_scale() -> Point {
    Point { x: 1, y: 1 }
}

/// The descriptor that the class constructors build: an Alien of class `c`
/// with the class's destruction rule and the given strengths.
pub open spec fn bundle_spec(c: EnemyClass, ap: u32, hp: u32, position: Point, scale: Point) -> EnemyBundle {
    EnemyBundle {
        class: c,
        team: EnemyTeam::Alien,
        destruction: destruction_of(c),
        ap: AttackPoints(ap),
        hp: HitPoints(hp),
        position,
        scale,
    }
}

impl EnemyBundle {
    fn new_defender(position: Point, class: EnemyClass) -> (r: Self)
        requires
            class == EnemyClass::DefenderOne || class == EnemyClass::DefenderTwo || class
                == EnemyClass::DefenderThree,
        ensures
            r == bundle_spec(class, 1, 1, position, unit_scale()),
    {
        EnemyBundle {
            class,
            team: EnemyTeam::Alien,
            destruction: EnemyDestruction::Required,
            ap: AttackPoints(1),
            hp: HitPoints(1),
            position,
            scale: Point { x: 1, y: 1 },
        }
    }

    /// A base: three hit points.
    pub fn new_base(position: Point) -> (r: Self)
        ensures
            r == bundle_spec(EnemyClass::Base, 1, 3, position, unit_scale()),
    {
        EnemyBundle {
            class: EnemyClass::Base,
            team: EnemyTeam::Alien,
            destruction: EnemyDestruction::Required,
            ap: AttackPoints(1),
            hp: HitPoints(3),
            position,
            scale: Point { x: 1, y: 1 },
        }
    }

    /// A defender of the first wave.
    pub fn new_primary_defender(position: Point) -> (r: Self)
        ensures
            r == bundle_spec(EnemyClass::DefenderOne, 1, 1, position, unit_scale()),
    {
        Self::new_defender(position, EnemyClass::DefenderOne)
    }

    /// A defender of the second wave.
    pub fn new_secondary_defender(position: Point) -> (r: Self)
        ensures
            r == bundle_spec(EnemyClass::DefenderTwo, 1, 1, position, unit_scale()),
    {
        Self::new_defender(position, EnemyClass::DefenderTwo)
    }

    /// A defender of the third wave.
    pub fn new_tertiary_defender(position: Point) -> (r: Self)
        ensures
            r == bundle_spec(EnemyClass::DefenderThree, 1, 1, position, unit_scale()),
    {
        Self::new_defender(position, EnemyClass::DefenderThree)
    }

    /// A stretch of land of the given size.
    pub fn new_land(position: Point, scale: Point) -> (r: Self)
        ensures
            r == bundle_spec(EnemyClass::Land, 1, 1, position, scale),
    {
        EnemyBundle {
            class: EnemyClass::Land,
            team: EnemyTeam::Alien,
            destruction: EnemyDestruction::Required,
            ap: AttackPoints(1),
            hp: HitPoints(1),
            position,
            scale,
        }
    }

    /// A shadow.
    pub fn new_shadow(position: Point) -> (r: Self)
        ensures
            r == bundle_spec(EnemyClass::Shadow, 1, 1, position, unit_scale()),
    {
        EnemyBundle {
            class: EnemyClass::Shadow,
            team: EnemyTeam::Alien,
            destruction: EnemyDestruction::Required,
            ap: AttackPoints(1),
            hp: HitPoints(1),
            position,
            scale: Point { x: 1, y: 1 },
        }
    }

    /// An indestructible wall of the given size, with no hit points and no attack.
    pub fn new_wall(position: Point, scale: Point) -> (r: Self)
        ensures
            r == bundle_spec(EnemyClass::Wall, 0, 0, position, scale),
    {
        EnemyBundle {
            class: EnemyClass::Wall,
            team: EnemyTeam::Alien,
            destruction: EnemyDestruction::Impossible,
            ap: AttackPoints(0),
            hp: HitPoints(0),
            position,
            scale,
        }
    }

    /// Whether the level is only won once this enemy is destroyed.
    pub fn requires_destruction(&self) -> (r: bool)
        ensures
            r == (self.destruction == EnemyDestruction::Required),
    {
        self.destruction == EnemyDestruction::Required
    }
}

/// An enemy as it stands in a level: its descriptor's data and whether it is still alive.
#[derive(Clone, Copy, Debug, PartialEq, Eq, Structural)]
pub struct Enemy {
    pub class: EnemyClass,
    pub team: EnemyTeam,
    pub destruction: EnemyDestruction,
    pub ap: AttackPoints,
    pub hp: HitPoints,
    pub position: Point,
    pub scale: Point,
    pub alive: bool,
}

/// The living enemy that a descriptor spawns.
pub open spec fn spawned(b: EnemyBundle) -> Enemy {
    Enemy {
        class: b.class,
        team: b.team,
        destruction: b.destruction,
        ap: b.ap,
        hp: b.hp,
        position: b.position,
        scale: b.scale,
        alive: true,
    }
}

impl Enemy {
    /// Spawns the enemy that `bundle` describes.
    pub fn from_bundle(bundle: &EnemyBundle) -> (r: Self)
        ensures
            r == spawned(*bundle),
    {
        Enemy {
            class: bundle.class,
            team: bundle.team,
            destruction: bundle.destruction,
            ap: bundle.ap,
            hp: bundle.hp,
            position: bundle.position,
            scale: bundle.scale,
            alive: true,
        }
    }
}

/// Number of enemies of class `c` in `s`, alive or not.
pub open spec fn count_class(s: Seq<Enemy>, c: EnemyClass) -> nat
    decreases s.len(),
{
    if s.len() == 0 {
        0
    } else {
        count_class(s.drop_last(), c) + if s.last().class == c {
            1nat
        } else {
            0nat
        }
    }
}

/// Number of destroyed enemies of class `c` in `s`.
pub open spec fn count_destroyed(s: Seq<Enemy>, c: EnemyClass) -> nat
    decreases s.len(),
{
    if s.len() == 0 {
        0
    } else {
        count_destroyed(s.drop_last(), c) + if s.last().class == c && !s.last().alive {
            1nat
        } else {
            0nat
        }
    }
}

/// One for an enemy of class `c` that is destroyed, zero otherwise.
pub open spec fn destroyed_unit(e: Enemy, c: EnemyClass) -> int {
    if e.class == c && !e.alive {
        1
    } else {
        0
    }
}

/// Replacing one enemy by another of the same class keeps the class counts and moves the
/// destroyed count by the difference of the two.
pub proof fn lemma_count_update(s: Seq<Enemy>, i: int, e: Enemy, c: EnemyClass)
    requires
        0 <= i < s.len(),
        e.class == s[i].class,
    ensures
        count_class(s.update(i, e), c) == count_class(s, c),
        count_destroyed(s.update(i, e), c) == count_destroyed(s, c) - destroyed_unit(s[i], c)
            + destroyed_unit(e, c),
    decreases s.len(),
{
    let t = s.update(i, e);
    if i == s.len() - 1 {
        assert(t.drop_last() =~= s.drop_last());
    } else {
        assert(t.drop_last() =~= s.drop_last().update(i, e));
        lemma_count_update(s.drop_last(), i, e, c);
    }
}

/// Destroyed enemies of a class are among the enemies of that class.
pub proof fn lemma_destroyed_le_class(s: Seq<Enemy>, c: EnemyClass)
    ensures
        count_destroyed(s, c) <= count_class(s, c),
    decreases s.len(),
{
    if s.len() > 0 {
        lemma_destroyed_le_class(s.drop_last(), c);
    }
}

/// A living enemy of class `c` leaves room for one more destroyed enemy of that class.
pub proof fn lemma_alive_leaves_room(s: Seq<Enemy>, i: int)
    requires
        0 <= i < s.len(),
        s[i].alive,
    ensures
        count_destroyed(s, s[i].class) < count_class(s, s[i].class),
{
    let c = s[i].class;
    let e = Enemy { alive: false, ..s[i] };
    lemma_count_update(s, i, e, c);
    lemma_destroyed_le_class(s.update(i, e), c);
}

/// Spawning the descriptors one by one counts each class as the descriptors do.
pub proof fn lemma_count_spawned(s: Seq<Enemy>, b: Seq<EnemyBundle>, c: EnemyClass)
    requires
        s.len() == b.len(),
        forall|k: int| 0 <= k < s.len() ==> s[k] == spawned(b[k]),
    ensures
        count_class(s, c) == bundle_count(b, c),
        count_destroyed(s, c) == 0,
    decreases s.len(),
{
    if s.len() > 0 {
        lemma_count_spawned(s.drop_last(), b.drop_last(), c);
    }
}

/// A player projectile struck an enemy of this class and team.
#[derive(Clone, Copy, Debug, PartialEq, Eq, Structural)]
pub struct EnemyCollisionEvent {
    pub attacking_points: AttackPoints,
    pub class: EnemyClass,
    pub team: EnemyTeam,
}

impl EnemyCollisionEvent {
    pub fn new(class: EnemyClass, team: EnemyTeam, attacking_points: AttackPoints) -> (r: Self)
        ensures
            r == (EnemyCollisionEvent { attacking_points, class, team }),
    {
        EnemyCollisionEvent { attacking_points, class, team }
    }
}

/// What destroyed an enemy.
#[derive(Clone, Copy, Debug, PartialEq, Eq, Structural)]
pub enum EnemyDestructionSource {
    ExplosionChain,
    Player,
}

/// An enemy left the level; `enemy` is its handle in the level.
#[derive(Clone, Copy, Debug, PartialEq, Eq, Structural)]
pub struct EnemyDestroyedEvent {
    pub enemy: usize,
    pub class: EnemyClass,
    pub destruction_source: EnemyDestructionSource,
    pub position: Point,
    pub scale: Point,
    pub team: EnemyTeam,
}

} // verus!
