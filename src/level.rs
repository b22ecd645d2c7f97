//! Per-level statistics and the arena in which a level is played.
use crate::enemy::{
    bundle_count, count_class, count_destroyed, lemma_alive_leaves_room, lemma_count_spawned,
    lemma_count_update, spawned, Enemy, EnemyBundle, EnemyClass, EnemyCounts, EnemyDestroyedEvent,
    EnemyDestruction, EnemyDestructionSource, Point,
};
use crate::energy::{AttackPoints, HitPoints};
use crate::explosion::{
    Explosion, ExplosionChain, ExplosionChainEvent, Hazard, EXPLOSION_NANOS, MAX_STEP_NANOS,
};
use crate::player::{volley_fires, AutoFire};
use crate::rules::{
    chain_after, chain_fired_event, chain_tick_outcome, collision_step, complete_step,
    destroy_step, destroyable, destroyed_event, enemy_contact, hazard_after, hazard_contact,
    hazards_after, hit_step, lemma_sweep_destroys_once, lemma_sweep_reaches, level_cleared,
    live_enemy, live_hazard, live_projectile, player_destroyed_step, player_hit_step,
    projectile_contact, reached_by, step_outcome, sweep_step, sweeps, tick_chains,
};
use vstd::prelude::*;

verus! {

/// What a level started with, what has been destroyed so far, and how it ended.
pub struct LevelStats {
    pub enemy_counts: EnemyCounts,
    pub original_enemy_counts: EnemyCounts,
    pub success: Option<bool>,
}

impl LevelStats {
    /// Statistics of a level that starts with `original_enemy_counts`, nothing destroyed and
    /// no outcome yet.
    pub fn new(original_enemy_counts: EnemyCounts) -> (r: Self)
        ensures
            r.original_enemy_counts == original_enemy_counts,
            forall|c: EnemyClass| r.enemy_counts.count_of(c) == 0,
            r.success is None,
    {
        LevelStats { enemy_counts: EnemyCounts::new(), original_enemy_counts, success: None }
    }
}

/// The definition of a level: its enemies and where the player starts.
pub struct LevelConfig {
    pub enemies: Vec<EnemyBundle>,
    pub name: &'static str,
    pub notes: &'static str,
    pub start_position: Point,
}

impl LevelConfig {
    /// How many enemies of each class the level starts with.
    pub fn enemy_counts(&self) -> (r: EnemyCounts)
        requires
            self.enemies@.len() <= u32::MAX,
        ensures
            forall|c: EnemyClass| r.count_of(c) == bundle_count(self.enemies@, c),
    {
        EnemyCounts::from_bundles(&self.enemies)
    }
}

/// Where a running chain stands: the stage it fires next, and its team.
#[derive(Clone, Copy, Debug, PartialEq, Eq, Structural)]
pub struct ChainState {
    pub stage: Option<EnemyClass>,
    pub team: crate::enemy::EnemyTeam,
}

/// A hazard as the rules see it: its data, and how long it has been in the level.
pub struct TimedHazard {
    pub hazard: Hazard,
    pub age: nat,
}

/// A running chain as the rules see it: where it stands, and the time since it started or
/// last fired.
pub struct TimedChain {
    pub stage: Option<EnemyClass>,
    pub team: crate::enemy::EnemyTeam,
    pub elapsed: nat,
}

/// Hit points the player starts a level with.
pub const PLAYER_HIT_POINTS: u32 = 1;

/// The state of a level as the rules see it. Handles are positions in `enemies`,
/// `projectiles` and `hazards`; a despawned projectile or hazard leaves `None` behind.
pub struct LevelView {
    pub enemies: Seq<Enemy>,
    pub projectiles: Seq<Option<AttackPoints>>,
    pub hazards: Seq<Option<TimedHazard>>,
    pub chains: Seq<TimedChain>,
    pub player_hp: u32,
    pub player_alive: bool,
    pub success: Option<bool>,
    pub original: EnemyCounts,
}

/// The hazard of a hazard slot, with its age.
pub open spec fn hazard_slot(o: Option<Explosion>) -> Option<TimedHazard> {
    match o {
        Some(e) => Some(TimedHazard { hazard: e@, age: e.age() }),
        None => None,
    }
}

/// The state of a running chain.
pub open spec fn chain_state(c: ExplosionChain) -> TimedChain {
    TimedChain { stage: c.stage_spec(), team: c.team_spec(), elapsed: c.elapsed_spec() }
}

/// A level in play: every enemy, projectile, hazard and chain, the player, and the statistics.
pub struct Level {
    enemies: Vec<Enemy>,
    projectiles: Vec<Option<AttackPoints>>,
    explosions: Vec<Option<Explosion>>,
    chains: Vec<ExplosionChain>,
    player: HitPoints,
    player_alive: bool,
    stats: LevelStats,
}

impl View for Level {
    type V = LevelView;

    closed spec fn view(&self) -> LevelView {
        LevelView {
            enemies: self.enemies@,
            projectiles: self.projectiles@,
            hazards: self.explosions@.map_values(|o: Option<Explosion>| hazard_slot(o)),
            chains: self.chains@.map_values(|c: ExplosionChain| chain_state(c)),
            player_hp: self.player.0,
            player_alive: self.player_alive,
            success: self.stats.success,
            original: self.stats.original_enemy_counts,
        }
    }
}

/// The invariant of a level: the statistics agree with the enemies, walls stand, every
/// running chain has a stage left and less than a period elapsed, every hazard is younger
/// than its lifetime, and the player is in the level exactly while it has hit points.
pub open spec fn view_wf(v: LevelView, destroyed: EnemyCounts) -> bool {
    &&& v.player_alive <==> v.player_hp > 0
    &&& forall|k: int|
        0 <= k < v.chains.len() ==> (#[trigger] v.chains[k]).elapsed < EXPLOSION_NANOS
    &&& forall|h: int|
        0 <= h < v.hazards.len() && (#[trigger] v.hazards[h]) is Some ==> v.hazards[h]->0.age
            < EXPLOSION_NANOS
    &&& forall|c: EnemyClass| v.original.count_of(c) == count_class(v.enemies, c)
    &&& forall|c: EnemyClass| destroyed.count_of(c) == count_destroyed(v.enemies, c)
    &&& forall|i: int|
        0 <= i < v.enemies.len() && (#[trigger] v.enemies[i]).class == EnemyClass::Wall
            ==> v.enemies[i].alive
    &&& forall|k: int| 0 <= k < v.chains.len() ==> (#[trigger] v.chains[k]).stage is Some
}

/// One side of a pair of bodies whose contact just started.
#[derive(Clone, Copy, Debug, PartialEq, Eq, Structural)]
pub enum Body {
    Player,
    Projectile(usize),
    Enemy(usize),
    Explosion(usize),
    Scenery,
}

/// What a contact came to.
#[derive(Clone, Copy, Debug, PartialEq, Eq, Structural)]
pub enum Contact {
    /// The projectile is gone and the enemy took its attack points.
    ProjectileHitEnemy { projectile: usize, enemy: usize, destroyed: Option<EnemyDestroyedEvent> },
    /// The projectile is gone; walls take no damage.
    ProjectileHitWall { projectile: usize, enemy: usize },
    /// The hazard is gone and the player took its attack points.
    HazardHitPlayer { hazard: usize, player_destroyed: bool },
    /// The player ran into an enemy and took its attack points.
    EnemyHitPlayer { enemy: usize, player_destroyed: bool },
    /// Nothing of the rules applies to this pair.
    Ignored,
}

proof fn lemma_push_contains(s: Seq<usize>, a: usize, x: usize)
    ensures
        s.push(a).contains(x) <==> (s.contains(x) || x == a),
{
    if s.contains(x) {
        let k = choose|k: int| 0 <= k < s.len() && s[k] == x;
        assert(s.push(a)[k] == x);
    }
    if x == a {
        assert(s.push(a)[s.len() as int] == x);
    }
    if s.push(a).contains(x) && x != a {
        let k = choose|k: int| 0 <= k < s.len() + 1 && s.push(a)[k] == x;
        assert(k < s.len());
        assert(s[k] == x);
    }
}

impl Level {
    /// The level's invariant.
    pub closed spec fn wf(&self) -> bool {
        &&& view_wf(self@, self.stats.enemy_counts)
        &&& forall|k: int| 0 <= k < self.chains@.len() ==> (#[trigger] self.chains@[k]).wf()
        &&& forall|h: int|
            0 <= h < self.explosions@.len() && (#[trigger] self.explosions@[h]) is Some
                ==> self.explosions@[h]->0.wf()
    }

    /// Destroyed enemies per class, as the statistics record them.
    pub closed spec fn destroyed_counts(&self) -> EnemyCounts {
        self.stats.enemy_counts
    }

    /// What the invariant says of the view: the counts agree with the enemies, walls stand,
    /// chains and hazards are within their periods, and the player is in the level exactly
    /// while it has hit points.
    pub proof fn lemma_wf(&self)
        requires
            self.wf(),
        ensures
            view_wf(self@, self.destroyed_counts()),
    {
    }

    /// A level as `config` sets it up: every enemy alive, no projectile, hazard or chain, the
    /// player alive, and no outcome.
    pub fn new(config: &LevelConfig) -> (r: Self)
        requires
            config.enemies@.len() <= u32::MAX,
        ensures
            r.wf(),
            r@.enemies == config.enemies@.map_values(|b: EnemyBundle| spawned(b)),
            r@.projectiles.len() == 0,
            r@.hazards.len() == 0,
            r@.chains.len() == 0,
            r@.player_hp == PLAYER_HIT_POINTS,
            r@.player_alive,
            r@.success is None,
            forall|c: EnemyClass| r@.original.count_of(c) == bundle_count(config.enemies@, c),
    {
        let stats = LevelStats::new(config.enemy_counts());
        let mut enemies: Vec<Enemy> = Vec::new();
        let mut i: usize = 0;
        while i < config.enemies.len()
            invariant
                i <= config.enemies@.len(),
                enemies@.len() == i,
                forall|k: int| 0 <= k < i ==> enemies@[k] == spawned(config.enemies@[k]),
            decreases config.enemies@.len() - i,
        {
            enemies.push(Enemy::from_bundle(&config.enemies[i]));
            i = i + 1;
        }
        let r = Level {
            enemies,
            projectiles: Vec::new(),
            explosions: Vec::new(),
            chains: Vec::new(),
            player: HitPoints(PLAYER_HIT_POINTS),
            player_alive: true,
            stats,
        };
        assert(r@.enemies =~= config.enemies@.map_values(|b: EnemyBundle| spawned(b)));
        assert forall|c: EnemyClass|
            r@.original.count_of(c) == count_class(r@.enemies, c)
                && r.stats.enemy_counts.count_of(c) == count_destroyed(r@.enemies, c) by {
            lemma_count_spawned(r@.enemies, config.enemies@, c);
        }
        r
    }

    /// Destroys enemy `i` on behalf of `source`; a dead enemy, a wall or a handle that names
    /// nothing is left alone.
    pub fn destroy_enemy(&mut self, i: usize, source: EnemyDestructionSource) -> (r: Option<
        EnemyDestroyedEvent,
    >)
        requires
            old(self).wf(),
        ensures
            final(self).wf(),
            if destroyable(old(self)@, i as int) {
                &&& final(self)@ == destroy_step(old(self)@, i as int, source)
                &&& r == Some(destroyed_event(old(self)@, i as int, source))
            } else {
                &&& final(self)@ == old(self)@
                &&& r is None
            },
    {
        if i >= self.enemies.len() || !self.enemies[i].alive || self.enemies[i].class
            == EnemyClass::Wall {
            return None;
        }
        let ghost v = self@;
        let e = self.enemies[i];
        proof {
            lemma_alive_leaves_room(self.enemies@, i as int);
            self.stats.original_enemy_counts.lemma_count_bound(e.class);
        }
        let ghost before = self.stats.enemy_counts;
        let ghost old_enemies = self.enemies@;
        self.enemies.set(i, Enemy { alive: false, ..e });
        self.stats.enemy_counts.increment(&e.class);
        proof {
            assert forall|c: EnemyClass|
                self.stats.enemy_counts.count_of(c) == count_destroyed(self.enemies@, c)
                    && self.stats.original_enemy_counts.count_of(c) == count_class(
                    self.enemies@,
                    c,
                ) by {
                assert(before.count_of(c) == count_destroyed(old_enemies, c));
                assert(self.stats.original_enemy_counts.count_of(c) == count_class(
                    old_enemies,
                    c,
                ));
                assert(self.enemies@ == old_enemies.update(i as int, Enemy { alive: false, ..e }));
                lemma_count_update(old_enemies, i as int, Enemy { alive: false, ..e }, c);
            }
        }
        self.explosions.push(Some(Explosion::new(e.class, e.position, e.scale)));
        if source == EnemyDestructionSource::Player {
            if let Some(stage) = ExplosionChain::following_class(&e.class, &self.stats) {
                self.chains.push(ExplosionChain::new(e.team, stage));
            }
        }
        let event = EnemyDestroyedEvent {
            enemy: i,
            class: e.class,
            destruction_source: source,
            position: e.position,
            scale: e.scale,
            team: e.team,
        };
        proof {
            let w = destroy_step(v, i as int, source);
            assert(self@.enemies =~= w.enemies);
            assert(self@.hazards =~= w.hazards);
            assert(self@.chains =~= w.chains);
            assert forall|j: int|
                0 <= j < self@.enemies.len() && (#[trigger] self@.enemies[j]).class
                    == EnemyClass::Wall implies self@.enemies[j].alive by {
                assert(j != i);
            }
        }
        Some(event)
    }

    /// A projectile of `attack` points struck enemy `i`.
    pub fn hit_enemy(&mut self, i: usize, attack: AttackPoints) -> (r: Option<
        EnemyDestroyedEvent,
    >)
        requires
            old(self).wf(),
        ensures
            final(self).wf(),
            (final(self)@, r) == hit_step(old(self)@, i as int, attack),
    {
        if i >= self.enemies.len() || !self.enemies[i].alive || self.enemies[i].class
            == EnemyClass::Wall {
            return None;
        }
        let ghost v = self@;
        let mut e = self.enemies[i];
        let lethal = e.hp.apply_damage(attack);
        proof {
            assert forall|c: EnemyClass|
                count_destroyed(self.enemies@.update(i as int, e), c) == count_destroyed(
                    self.enemies@,
                    c,
                ) && count_class(self.enemies@.update(i as int, e), c) == count_class(
                    self.enemies@,
                    c,
                ) by {
                lemma_count_update(self.enemies@, i as int, e, c);
            }
        }
        let ghost old_enemies = self.enemies@;
        self.enemies.set(i, e);
        proof {
            assert forall|c: EnemyClass|
                self.stats.enemy_counts.count_of(c) == count_destroyed(self.enemies@, c)
                    && self.stats.original_enemy_counts.count_of(c) == count_class(
                    self.enemies@,
                    c,
                ) by {
                assert(self.stats.enemy_counts.count_of(c) == count_destroyed(old_enemies, c));
                assert(self.stats.original_enemy_counts.count_of(c) == count_class(
                    old_enemies,
                    c,
                ));
            }
            assert forall|j: int|
                0 <= j < self@.enemies.len() && (#[trigger] self@.enemies[j]).class
                    == EnemyClass::Wall implies self@.enemies[j].alive by {
                assert(j != i);
            }
        }
        if lethal {
            self.destroy_enemy(i, EnemyDestructionSource::Player)
        } else {
            None
        }
    }

    /// Chain event `event` destroys every living enemy of its class and team, walls excepted;
    /// the destruction events come out in handle order.
    pub fn on_explosion_chain_event(&mut self, event: ExplosionChainEvent) -> (r: Vec<
        EnemyDestroyedEvent,
    >)
        requires
            old(self).wf(),
        ensures
            final(self).wf(),
            (final(self)@, r@) == sweep_step(old(self)@, event, old(self)@.enemies.len()),
            final(self)@.enemies.len() == old(self)@.enemies.len(),
            forall|j: int|
                0 <= j < old(self)@.enemies.len() ==> (#[trigger] final(self)@.enemies[j]).alive
                    == (old(self)@.enemies[j].alive && !reached_by(old(self)@, j, event)),
            forall|j: int|
                0 <= j < old(self)@.enemies.len() ==> (#[trigger] reached_by(old(self)@, j, event)
                    <==> exists|k: int| 0 <= k < r@.len() && (#[trigger] r@[k]).enemy == j),
            forall|a: int, b: int|
                0 <= a < b < r@.len() ==> #[trigger] r@[a].enemy < #[trigger] r@[b].enemy,
    {
        let ghost v = self@;
        let n_enemies = self.enemies.len();
        let mut out: Vec<EnemyDestroyedEvent> = Vec::new();
        let mut i: usize = 0;
        while i < self.enemies.len()
            invariant
                self.wf(),
                i <= self@.enemies.len() == v.enemies.len(),
                (self@, out@) == sweep_step(v, event, i as nat),
            decreases self@.enemies.len() - i,
        {
            let e = self.enemies[i];
            if e.alive && e.class == event.class && e.team == event.team && e.class
                != EnemyClass::Wall {
                let d = self.destroy_enemy(i, EnemyDestructionSource::ExplosionChain);
                if let Some(x) = d {
                    out.push(x);
                }
            }
            i = i + 1;
        }
        proof {
            lemma_sweep_reaches(v, event, v.enemies.len());
            lemma_sweep_destroys_once(v, event, v.enemies.len());
        }
        out
    }

    /// The player takes `attack` points; true when that hit destroyed the player.
    pub fn damage_player(&mut self, attack: AttackPoints) -> (r: bool)
        requires
            old(self).wf(),
        ensures
            final(self).wf(),
            (final(self)@, r) == player_hit_step(old(self)@, attack),
    {
        if !self.player_alive {
            return false;
        }
        let lethal = self.player.apply_damage(attack);
        if lethal {
            self.player_alive = false;
            if self.stats.success.is_none() {
                self.stats.success = Some(false);
            }
        }
        lethal
    }

    /// The player was destroyed: the level fails unless it already has an outcome.
    pub fn on_player_destroyed(&mut self)
        requires
            old(self).wf(),
        ensures
            final(self).wf(),
            final(self)@ == player_destroyed_step(old(self)@),
    {
        self.player_alive = false;
        self.player = HitPoints(0);
        if self.stats.success.is_none() {
            self.stats.success = Some(false);
        }
    }

    /// Declares success when the level has no outcome yet, no enemy that must be destroyed is
    /// alive and no hazard is left; returns the outcome afterwards.
    pub fn check_level_complete(&mut self) -> (r: Option<bool>)
        requires
            old(self).wf(),
        ensures
            final(self).wf(),
            final(self)@ == complete_step(old(self)@),
            r == final(self)@.success,
    {
        if self.stats.success.is_some() {
            return self.stats.success;
        }
        let mut i: usize = 0;
        while i < self.enemies.len()
            invariant
                self.wf(),
                self.stats.success is None,
                i <= self@.enemies.len(),
                forall|j: int|
                    0 <= j < i && (#[trigger] self@.enemies[j]).alive ==> self@.enemies[j].destruction
                        != EnemyDestruction::Required,
            decreases self@.enemies.len() - i,
        {
            if self.enemies[i].alive && self.enemies[i].destruction == EnemyDestruction::Required {
                return None;
            }
            i = i + 1;
        }
        let mut h: usize = 0;
        while h < self.explosions.len()
            invariant
                self.wf(),
                self.stats.success is None,
                h <= self@.hazards.len(),
                level_cleared(self@) <==> (forall|k: int|
                    h <= k < self@.hazards.len() ==> (#[trigger] self@.hazards[k]) is None),
                forall|j: int|
                    0 <= j < self@.enemies.len() && (#[trigger] self@.enemies[j]).alive
                        ==> self@.enemies[j].destruction != EnemyDestruction::Required,
            decreases self@.hazards.len() - h,
        {
            if self.explosions[h].is_some() {
                assert(self@.hazards[h as int] is Some);
                return None;
            }
            h = h + 1;
        }
        self.stats.success = Some(true);
        Some(true)
    }

    /// A projectile of `attacking_points` enters the level; returns its handle.
    pub fn fire_projectile(&mut self, attacking_points: AttackPoints) -> (r: usize)
        requires
            old(self).wf(),
        ensures
            final(self).wf(),
            final(self)@ == (LevelView {
                projectiles: old(self)@.projectiles.push(Some(attacking_points)),
                ..old(self)@
            }),
            r == old(self)@.projectiles.len(),
    {
        let r = self.projectiles.len();
        self.projectiles.push(Some(attacking_points));
        r
    }

    /// One fixed step of the player's weapons: `auto_fire` runs for `delta`, and when a shot
    /// goes off each of the `weapon_count` weapons fires a projectile of one attack point.
    /// Returns the new projectiles' handles.
    pub fn fire_player_projectiles(
        &mut self,
        auto_fire: &mut AutoFire,
        delta_nanos: u64,
        weapon_count: usize,
    ) -> (r: Vec<usize>)
        requires
            old(self).wf(),
            old(auto_fire).wf(),
            delta_nanos <= (u32::MAX - 1) * old(auto_fire).gap_spec(),
        ensures
            final(self).wf(),
            final(auto_fire).wf(),
            final(self)@ == (LevelView { projectiles: final(self)@.projectiles, ..old(self)@ }),
            final(auto_fire).active_spec() == old(auto_fire).active_spec(),
            final(auto_fire).gap_spec() == old(auto_fire).gap_spec(),
            !final(auto_fire).just_started_spec(),
            r@.len() == if volley_fires(*old(auto_fire), delta_nanos as nat) {
                weapon_count as nat
            } else {
                0
            },
            final(self)@.projectiles == old(self)@.projectiles + Seq::new(
                r@.len(),
                |k: int| Some(AttackPoints(1)),
            ),
            forall|k: int| 0 <= k < r@.len() ==> r@[k] == old(self)@.projectiles.len() + k,
    {
        auto_fire.tick(delta_nanos);
        proof {
            old(auto_fire).lemma_wf();
        }
        let mut handles: Vec<usize> = Vec::new();
        if !auto_fire.just_triggered() {
            assert(self@.projectiles =~= old(self)@.projectiles + Seq::new(0, |k: int| Some(AttackPoints(1))));
            return handles;
        }
        let ghost start = self@.projectiles;
        let mut w: usize = 0;
        while w < weapon_count
            invariant
                self.wf(),
                self@ == (LevelView { projectiles: self@.projectiles, ..old(self)@ }),
                w <= weapon_count,
                handles@.len() == w,
                self@.projectiles == start + Seq::new(w as nat, |k: int| Some(AttackPoints(1))),
                forall|k: int| 0 <= k < w ==> handles@[k] == start.len() + k,
            decreases weapon_count - w,
        {
            let p = self.fire_projectile(AttackPoints(1));
            handles.push(p);
            w = w + 1;
            assert(self@.projectiles =~= start + Seq::new(w as nat, |k: int| Some(AttackPoints(1))));
        }
        handles
    }

    fn is_live_projectile(&self, b: Body) -> (r: bool)
        ensures
            r == live_projectile(self@, b),
    {
        match b {
            Body::Projectile(p) => p < self.projectiles.len() && self.projectiles[p].is_some(),
            _ => false,
        }
    }

    fn is_live_hazard(&self, b: Body) -> (r: bool)
        ensures
            r == live_hazard(self@, b),
    {
        match b {
            Body::Explosion(h) => h < self.explosions.len() && self.explosions[h].is_some(),
            _ => false,
        }
    }

    fn is_live_enemy(&self, b: Body) -> (r: bool)
        ensures
            r == live_enemy(self@, b),
    {
        match b {
            Body::Enemy(i) => i < self.enemies.len() && self.enemies[i].alive,
            _ => false,
        }
    }

    fn projectile_contact(&mut self, p: usize, other: Body) -> (r: Contact)
        requires
            old(self).wf(),
            live_projectile(old(self)@, Body::Projectile(p)),
        ensures
            final(self).wf(),
            (final(self)@, r) == projectile_contact(old(self)@, p, other),
    {
        if let Body::Enemy(i) = other {
            if self.is_live_enemy(other) {
                let attack = match self.projectiles[p] {
                    Some(ap) => ap,
                    None => AttackPoints(0),
                };
                self.projectiles.set(p, None);
                if self.enemies[i].class == EnemyClass::Wall {
                    return Contact::ProjectileHitWall { projectile: p, enemy: i };
                }
                let destroyed = self.hit_enemy(i, attack);
                return Contact::ProjectileHitEnemy { projectile: p, enemy: i, destroyed };
            }
        }
        Contact::Ignored
    }

    fn hazard_contact(&mut self, h: usize, other: Body) -> (r: Contact)
        requires
            old(self).wf(),
            live_hazard(old(self)@, Body::Explosion(h)),
        ensures
            final(self).wf(),
            (final(self)@, r) == hazard_contact(old(self)@, h, other),
    {
        if other == Body::Player && self.player_alive {
            let attack = match &self.explosions[h] {
                Some(e) => e.hazard().attack_points,
                None => AttackPoints(0),
            };
            let ghost v = self@;
            self.explosions.set(h, None);
            assert(self@.hazards =~= v.hazards.update(h as int, None));
            let player_destroyed = self.damage_player(attack);
            Contact::HazardHitPlayer { hazard: h, player_destroyed }
        } else {
            Contact::Ignored
        }
    }

    fn enemy_contact(&mut self, i: usize, other: Body) -> (r: Contact)
        requires
            old(self).wf(),
            live_enemy(old(self)@, Body::Enemy(i)),
        ensures
            final(self).wf(),
            (final(self)@, r) == enemy_contact(old(self)@, i, other),
    {
        if other == Body::Player && self.player_alive {
            let attack = self.enemies[i].ap;
            let player_destroyed = self.damage_player(attack);
            Contact::EnemyHitPlayer { enemy: i, player_destroyed }
        } else {
            Contact::Ignored
        }
    }

    /// Resolves a contact that the physics reported between `a` and `b`.
    pub fn handle_collision(&mut self, a: Body, b: Body) -> (r: Contact)
        requires
            old(self).wf(),
        ensures
            final(self).wf(),
            (final(self)@, r) == collision_step(old(self)@, a, b),
    {
        let pa = self.is_live_projectile(a);
        let pb = self.is_live_projectile(b);
        if pa && !pb {
            if let Body::Projectile(p) = a {
                return self.projectile_contact(p, b);
            }
        }
        if pb && !pa {
            if let Body::Projectile(p) = b {
                return self.projectile_contact(p, a);
            }
        }
        let ha = self.is_live_hazard(a);
        let hb = self.is_live_hazard(b);
        if ha && !hb {
            if let Body::Explosion(h) = a {
                return self.hazard_contact(h, b);
            }
        }
        if hb && !ha {
            if let Body::Explosion(h) = b {
                return self.hazard_contact(h, a);
            }
        }
        let ea = self.is_live_enemy(a);
        let eb = self.is_live_enemy(b);
        if ea && !eb {
            if let Body::Enemy(i) = a {
                return self.enemy_contact(i, b);
            }
        }
        if eb && !ea {
            if let Body::Enemy(i) = b {
                return self.enemy_contact(i, a);
            }
        }
        Contact::Ignored
    }

    /// Lets `delta_nanos` pass on every chain: chains whose timer reaches its period emit their
    /// stage and move on, finished chains leave, and the stage events then destroy what they
    /// reach, in order.
    pub fn tick_explosion_chains(&mut self, delta_nanos: u64) -> (r: Vec<EnemyDestroyedEvent>)
        requires
            old(self).wf(),
            delta_nanos <= MAX_STEP_NANOS,
        ensures
            final(self).wf(),
            (final(self)@, r@) == chain_tick_outcome(old(self)@, delta_nanos as nat),
    {
        let ghost v = self@;
        let ghost chains0 = self.chains@;
        let mut pending: Vec<ExplosionChain> = Vec::new();
        std::mem::swap(&mut pending, &mut self.chains);
        let mut stages: Vec<ExplosionChainEvent> = Vec::new();
        let ghost mut n: int = 0;
        let ghost n0 = pending@.len() as int;
        while pending.len() > 0
            invariant
                self.wf(),
                self@ == (LevelView { chains: self@.chains, ..v }),
                self.stats.original_enemy_counts == v.original,
                delta_nanos <= MAX_STEP_NANOS,
                n0 == v.chains.len() == chains0.len(),
                v.chains == chains0.map_values(|c: ExplosionChain| chain_state(c)),
                forall|k: int| 0 <= k < v.chains.len() ==> (#[trigger] v.chains[k]).stage is Some,
                forall|k: int| 0 <= k < chains0.len() ==> (#[trigger] chains0[k]).wf(),
                0 <= n <= n0,
                n + pending@.len() == n0,
                pending@ =~= chains0.subrange(n, n0),
                (self@.chains, stages@) == tick_chains(v.chains.take(n), delta_nanos as nat, v.original),
            decreases pending@.len(),
        {
            let mut c = pending.remove(0);
            assert(c == chains0[n]);
            assert(chain_state(c) == v.chains[n]);
            let ghost c0 = chain_state(c);
            let ev = c.tick(delta_nanos, &self.stats);
            proof {
                assert(v.chains.take(n + 1).drop_last() =~= v.chains.take(n));
                assert(v.chains.take(n + 1).last() == c0);
                assert(chain_after(c0, delta_nanos as nat, v.original) == chain_state(c));
                assert(chain_fired_event(c0, delta_nanos as nat) == ev);
                n = n + 1;
            }
            if let Some(e) = ev {
                stages.push(e);
            }
            if !c.is_complete() {
                let ghost before = self.chains@;
                self.chains.push(c);
                proof {
                    assert(self@.chains =~= before.map_values(|c: ExplosionChain| chain_state(c)).push(
                        chain_state(c),
                    ));
                    assert forall|k: int| 0 <= k < self.chains@.len() implies (
                    #[trigger] self.chains@[k]).wf() by {
                        if k < before.len() {
                            assert(self.chains@[k] == before[k]);
                        }
                    }
                }
            }
        }
        proof {
            assert(v.chains.take(n) =~= v.chains);
        }
        let ghost mid = self@;
        let mut out: Vec<EnemyDestroyedEvent> = Vec::new();
        let mut j: usize = 0;
        while j < stages.len()
            invariant
                self.wf(),
                j <= stages@.len(),
                (self@, out@) == sweeps(mid, stages@.take(j as int)),
            decreases stages@.len() - j,
        {
            let mut more = self.on_explosion_chain_event(stages[j]);
            out.append(&mut more);
            proof {
                assert(stages@.take(j + 1).drop_last() =~= stages@.take(j as int));
            }
            j = j + 1;
        }
        proof {
            assert(stages@.take(j as int) =~= stages@);
        }
        out
    }

    /// Lets `delta_nanos` pass on every hazard: a hazard whose age reaches its lifetime leaves
    /// the level, every other one ages by `delta_nanos`. Returns the handles of the hazards
    /// that left.
    pub fn update_explosions(&mut self, delta_nanos: u64) -> (r: Vec<usize>)
        requires
            old(self).wf(),
        ensures
            final(self).wf(),
            final(self)@ == (LevelView {
                hazards: hazards_after(old(self)@.hazards, delta_nanos as nat),
                ..old(self)@
            }),
            forall|h: int|
                0 <= h < old(self)@.hazards.len() ==> (r@.contains(h as usize) <==> (
                old(self)@.hazards[h] is Some && final(self)@.hazards[h] is None)),
    {
        let ghost v = self@;
        let mut expired: Vec<usize> = Vec::new();
        let mut h: usize = 0;
        while h < self.explosions.len()
            invariant
                self.wf(),
                self@ == (LevelView { hazards: self@.hazards, ..v }),
                h <= self@.hazards.len() == v.hazards.len(),
                forall|k: int|
                    0 <= k < h ==> self@.hazards[k] == hazard_after(
                        v.hazards[k],
                        delta_nanos as nat,
                    ),
                forall|k: int| h <= k < v.hazards.len() ==> self@.hazards[k] == v.hazards[k],
                forall|x: usize| expired@.contains(x) ==> x < h,
                forall|k: int|
                    0 <= k < h ==> (expired@.contains(k as usize) <==> (v.hazards[k] is Some
                        && self@.hazards[k] is None)),
            decreases v.hazards.len() - h,
        {
            let ghost before = self@.hazards;
            let ghost ex0 = expired@;
            let ghost mut gone = false;
            let ghost slots0 = self.explosions@;
            let mut slot: Option<Explosion> = None;
            std::mem::swap(&mut slot, &mut self.explosions[h]);
            match slot {
                Some(mut e) => {
                    assert(slots0[h as int] == Some(e));
                    let ghost h0 = e@;
                    let ghost age0 = e.age();
                    let done = e.tick(delta_nanos);
                    if done {
                        expired.push(h);
                        proof {
                            gone = true;
                            assert forall|x: usize|
                                expired@.contains(x) <==> (ex0.contains(x) || x == h) by {
                                lemma_push_contains(ex0, h, x);
                            }
                        }
                    } else {
                        self.explosions.set(h, Some(e));
                    }
                    proof {
                        let after = if done {
                            None
                        } else {
                            Some(TimedHazard { hazard: h0, age: (age0 + delta_nanos) as nat })
                        };
                        assert(self@.hazards =~= before.update(h as int, after));
                        assert(after == hazard_after(before[h as int], delta_nanos as nat));
                        assert forall|k: int|
                            0 <= k < self.explosions@.len() && (#[trigger] self.explosions@[k]) is Some
                                implies self.explosions@[k]->0.wf() by {
                            if k != h {
                                assert(self.explosions@[k] == slots0[k]);
                            }
                        }
                    }
                },
                None => {
                    proof {
                        assert(self@.hazards =~= before);
                        assert(self.explosions@ =~= slots0);
                    }
                },
            }
            proof {
                assert(!ex0.contains(h));
                assert(gone ==> before[h as int] is Some);
                assert forall|x: usize|
                    expired@.contains(x) <==> (ex0.contains(x) || (gone && x == h)) by {
                    if gone {
                        lemma_push_contains(ex0, h, x);
                    }
                }
                assert(self@.hazards[h as int] is None <==> (gone || before[h as int] is None));
                assert forall|x: usize| expired@.contains(x) implies x < h + 1 by {
                    if ex0.contains(x) {
                        assert(x < h);
                    }
                }
            }
            h = h + 1;
        }
        proof {
            assert(self@.hazards =~= hazards_after(v.hazards, delta_nanos as nat));
        }
        expired
    }

    /// One fixed step of `delta_nanos`: the hazards age, the chains tick and sweep (hazards they
    /// leave start aging on the next step), and the level is checked for success.
    pub fn update(&mut self, delta_nanos: u64) -> (r: Vec<EnemyDestroyedEvent>)
        requires
            old(self).wf(),
            delta_nanos <= MAX_STEP_NANOS,
        ensures
            final(self).wf(),
            (final(self)@, r@) == step_outcome(old(self)@, delta_nanos as nat),
    {
        let _ = self.update_explosions(delta_nanos);
        let destroyed = self.tick_explosion_chains(delta_nanos);
        let _ = self.check_level_complete();
        destroyed
    }

    /// The enemy behind handle `i`, if there is one.
    pub fn enemy(&self, i: usize) -> (r: Option<Enemy>)
        ensures
            r == (if i < self@.enemies.len() {
                Some(self@.enemies[i as int])
            } else {
                None::<Enemy>
            }),
    {
        if i < self.enemies.len() {
            Some(self.enemies[i])
        } else {
            None
        }
    }

    /// Number of enemy handles, alive or not.
    pub fn enemy_count(&self) -> (r: usize)
        ensures
            r == self@.enemies.len(),
    {
        self.enemies.len()
    }

    /// The hazard behind handle `i`, if it is still there.
    pub fn hazard(&self, i: usize) -> (r: Option<Hazard>)
        ensures
            r == (if i < self@.hazards.len() && self@.hazards[i as int] is Some {
                Some(self@.hazards[i as int]->0.hazard)
            } else {
                None::<Hazard>
            }),
    {
        if i < self.explosions.len() {
            match &self.explosions[i] {
                Some(e) => Some(e.hazard()),
                None => None,
            }
        } else {
            None
        }
    }

    /// Number of hazard handles, live or not.
    pub fn hazard_count(&self) -> (r: usize)
        ensures
            r == self@.hazards.len(),
    {
        self.explosions.len()
    }

    /// Number of running chains.
    pub fn chain_count(&self) -> (r: usize)
        ensures
            r == self@.chains.len(),
    {
        self.chains.len()
    }

    /// Where the running chain `k` stands.
    pub fn chain(&self, k: usize) -> (r: Option<ChainState>)
        ensures
            r == (if k < self@.chains.len() {
                Some(
                    ChainState {
                        stage: self@.chains[k as int].stage,
                        team: self@.chains[k as int].team,
                    },
                )
            } else {
                None::<ChainState>
            }),
    {
        if k < self.chains.len() {
            Some(ChainState { stage: self.chains[k].stage(), team: self.chains[k].team() })
        } else {
            None
        }
    }

    /// The attack points of projectile `p`, if it is still in flight.
    pub fn projectile(&self, p: usize) -> (r: Option<AttackPoints>)
        ensures
            r == (if p < self@.projectiles.len() {
                self@.projectiles[p as int]
            } else {
                None::<AttackPoints>
            }),
    {
        if p < self.projectiles.len() {
            self.projectiles[p]
        } else {
            None
        }
    }

    /// The player's hit points.
    pub fn player_hit_points(&self) -> (r: HitPoints)
        ensures
            r.0 == self@.player_hp,
    {
        self.player
    }

    /// Whether the player is still in the level.
    pub fn player_alive(&self) -> (r: bool)
        ensures
            r == self@.player_alive,
    {
        self.player_alive
    }

    /// The level's statistics; the destroyed counts agree with the enemies.
    pub fn stats(&self) -> (r: &LevelStats)
        requires
            self.wf(),
        ensures
            r.original_enemy_counts == self@.original,
            r.success == self@.success,
            forall|c: EnemyClass| r.enemy_counts.count_of(c) == count_destroyed(self@.enemies, c),
    {
        &self.stats
    }
}

} // verus!
