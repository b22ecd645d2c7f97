//! The rules of a level as functions on its view: what each event does, and the laws
//! that follow.
use crate::enemy::{
    Enemy, EnemyClass, EnemyCounts, EnemyDestroyedEvent, EnemyDestruction, EnemyDestructionSource,
};
use crate::energy::{damaged, is_lethal, AttackPoints, HitPoints};
use crate::explosion::{next_stage, ExplosionChainEvent, Hazard, EXPLOSION_NANOS};
use crate::level::{Body, Contact, LevelView, TimedChain, TimedHazard};
use vstd::prelude::*;

verus! {

/// The hazard a destroyed enemy leaves behind.
pub open spec fn hazard_of(e: Enemy) -> Hazard {
    Hazard {
        attack_points: AttackPoints(1),
        class: e.class,
        position: e.position,
        source_scale: e.scale,
    }
}

/// Whether handle `i` names a living enemy that can be destroyed (walls never can).
pub open spec fn destroyable(v: LevelView, i: int) -> bool {
    &&& 0 <= i < v.enemies.len()
    &&& v.enemies[i].alive
    &&& v.enemies[i].class != EnemyClass::Wall
}

/// The event announcing that enemy `i`, as it stood, was destroyed by `source`.
pub open spec fn destroyed_event(v: LevelView, i: int, source: EnemyDestructionSource) -> EnemyDestroyedEvent {
    let e = v.enemies[i];
    EnemyDestroyedEvent {
        enemy: i as usize,
        class: e.class,
        destruction_source: source,
        position: e.position,
        scale: e.scale,
        team: e.team,
    }
}

/// Whether destroying enemy `i` by `source` seeds a chain: only the player's kills do, and
/// only when a stage follows the enemy's class.
pub open spec fn seeds_chain(v: LevelView, i: int, source: EnemyDestructionSource) -> bool {
    source == EnemyDestructionSource::Player && next_stage(v.enemies[i].class, v.original) is Some
}

/// Enemy `i` is destroyed by `source`: it is marked dead, a hazard appears where it stood,
/// and a chain of its team starts at the following stage when `seeds_chain` says so.
pub open spec fn destroy_step(v: LevelView, i: int, source: EnemyDestructionSource) -> LevelView {
    let e = v.enemies[i];
    LevelView {
        enemies: v.enemies.update(i, Enemy { alive: false, ..e }),
        hazards: v.hazards.push(Some(TimedHazard { hazard: hazard_of(e), age: 0 })),
        chains: if seeds_chain(v, i, source) {
            v.chains.push(
                TimedChain { stage: next_stage(e.class, v.original), team: e.team, elapsed: 0 },
            )
        } else {
            v.chains
        },
        ..v
    }
}

/// A hit of `attack` points on handle `i`: a living enemy other than a wall loses hit points,
/// and the hit that takes it to zero destroys it; any other handle is left alone.
pub open spec fn hit_step(v: LevelView, i: int, attack: AttackPoints) -> (LevelView, Option<
    EnemyDestroyedEvent,
>) {
    if !destroyable(v, i) {
        (v, None)
    } else {
        let e = v.enemies[i];
        let hit = LevelView {
            enemies: v.enemies.update(
                i,
                Enemy { hp: HitPoints(damaged(e.hp.0 as nat, attack.0 as nat) as u32), ..e },
            ),
            ..v
        };
        if is_lethal(e.hp.0 as nat, attack.0 as nat) {
            (
                destroy_step(hit, i, EnemyDestructionSource::Player),
                Some(destroyed_event(hit, i, EnemyDestructionSource::Player)),
            )
        } else {
            (hit, None)
        }
    }
}

/// Whether chain event `ev` reaches enemy `i`: a living enemy, not a wall, of the event's
/// class and team.
pub open spec fn reached_by(v: LevelView, i: int, ev: ExplosionChainEvent) -> bool {
    &&& destroyable(v, i)
    &&& v.enemies[i].class == ev.class
    &&& v.enemies[i].team == ev.team
}

/// Chain event `ev` applied to the first `n` handles in order: each enemy it reaches is
/// destroyed by the chain, and the destruction events come out in handle order.
pub open spec fn sweep_step(v: LevelView, ev: ExplosionChainEvent, n: nat) -> (LevelView, Seq<
    EnemyDestroyedEvent,
>)
    decreases n,
{
    if n == 0 {
        (v, Seq::empty())
    } else {
        let (w, evs) = sweep_step(v, ev, (n - 1) as nat);
        let i = n - 1;
        if reached_by(w, i, ev) {
            (
                destroy_step(w, i, EnemyDestructionSource::ExplosionChain),
                evs.push(destroyed_event(w, i, EnemyDestructionSource::ExplosionChain)),
            )
        } else {
            (w, evs)
        }
    }
}

/// The player takes `attack` points; the hit that takes the player to zero removes the player
/// and, unless the level already has an outcome, fails the level.
pub open spec fn player_hit_step(v: LevelView, attack: AttackPoints) -> (LevelView, bool) {
    if !v.player_alive {
        (v, false)
    } else {
        let hit = LevelView { player_hp: damaged(v.player_hp as nat, attack.0 as nat) as u32, ..v };
        if is_lethal(v.player_hp as nat, attack.0 as nat) {
            (player_destroyed_step(hit), true)
        } else {
            (hit, false)
        }
    }
}

/// The player is gone: the level fails, unless it already has an outcome.
pub open spec fn player_destroyed_step(v: LevelView) -> LevelView {
    LevelView {
        player_alive: false,
        player_hp: 0,
        success: if v.success is None {
            Some(false)
        } else {
            v.success
        },
        ..v
    }
}

/// No enemy that must be destroyed is alive, and no hazard is left.
pub open spec fn level_cleared(v: LevelView) -> bool {
    &&& forall|i: int|
        0 <= i < v.enemies.len() && (#[trigger] v.enemies[i]).alive ==> v.enemies[i].destruction
            != EnemyDestruction::Required
    &&& forall|h: int| 0 <= h < v.hazards.len() ==> (#[trigger] v.hazards[h]) is None
}

/// A level without an outcome succeeds once it is cleared; an outcome, once set, stays.
pub open spec fn complete_step(v: LevelView) -> LevelView {
    if v.success is None && level_cleared(v) {
        LevelView { success: Some(true), ..v }
    } else {
        v
    }
}

/// Whether a chain standing at a stage fires when `delta` passes: its elapsed time reaches
/// the period.
pub open spec fn chain_fires(c: TimedChain, delta: nat) -> bool {
    c.stage is Some && c.elapsed + delta >= EXPLOSION_NANOS
}

/// A chain after `delta` passes: one with a stage left keeps the remainder of its period and,
/// when it fires, moves to the following stage; a finished chain stays as it is.
pub open spec fn chain_after(c: TimedChain, delta: nat, counts: EnemyCounts) -> TimedChain {
    match c.stage {
        Some(s) => TimedChain {
            stage: if chain_fires(c, delta) {
                next_stage(s, counts)
            } else {
                c.stage
            },
            elapsed: ((c.elapsed + delta) as int % (EXPLOSION_NANOS as int)) as nat,
            ..c
        },
        None => c,
    }
}

/// The stage event a chain emits when `delta` passes.
pub open spec fn chain_fired_event(c: TimedChain, delta: nat) -> Option<ExplosionChainEvent> {
    if chain_fires(c, delta) {
        Some(ExplosionChainEvent { class: c.stage->0, team: c.team })
    } else {
        None
    }
}

/// Every chain, in order, after `delta` passes: the chains that still have a stage, and the
/// stage events emitted.
pub open spec fn tick_chains(chains: Seq<TimedChain>, delta: nat, counts: EnemyCounts) -> (Seq<
    TimedChain,
>, Seq<ExplosionChainEvent>)
    decreases chains.len(),
{
    if chains.len() == 0 {
        (Seq::empty(), Seq::empty())
    } else {
        let (kept, stages) = tick_chains(chains.drop_last(), delta, counts);
        let c = chain_after(chains.last(), delta, counts);
        (
            if c.stage is Some {
                kept.push(c)
            } else {
                kept
            },
            match chain_fired_event(chains.last(), delta) {
                Some(e) => stages.push(e),
                None => stages,
            },
        )
    }
}

/// Stage events applied one after the other; the destruction events come out in order.
pub open spec fn sweeps(v: LevelView, evs: Seq<ExplosionChainEvent>) -> (LevelView, Seq<
    EnemyDestroyedEvent,
>)
    decreases evs.len(),
{
    if evs.len() == 0 {
        (v, Seq::empty())
    } else {
        let (w, out) = sweeps(v, evs.drop_last());
        let (x, more) = sweep_step(w, evs.last(), w.enemies.len());
        (x, out + more)
    }
}

/// The chains after `delta` passes: they step, finished chains leave, then the stage events
/// sweep the enemies in order.
pub open spec fn chain_tick_outcome(v: LevelView, delta: nat) -> (LevelView, Seq<
    EnemyDestroyedEvent,
>) {
    let (chains, stages) = tick_chains(v.chains, delta, v.original);
    sweeps(LevelView { chains, ..v }, stages)
}

/// A hazard slot after `delta` passes: a hazard whose age reaches its lifetime leaves the
/// level, any other hazard ages by `delta`; an empty slot stays empty.
pub open spec fn hazard_after(h: Option<TimedHazard>, delta: nat) -> Option<TimedHazard> {
    match h {
        Some(t) => if t.age + delta >= EXPLOSION_NANOS {
            None
        } else {
            Some(TimedHazard { age: t.age + delta, ..t })
        },
        None => None,
    }
}

/// Every hazard slot after `delta` passes.
pub open spec fn hazards_after(hs: Seq<Option<TimedHazard>>, delta: nat) -> Seq<Option<TimedHazard>> {
    hs.map_values(|h: Option<TimedHazard>| hazard_after(h, delta))
}

/// A fixed step of `delta`: the hazards age, the chains tick and sweep (hazards they leave
/// start aging on the next step), and the level is checked for success.
pub open spec fn step_outcome(v: LevelView, delta: nat) -> (LevelView, Seq<EnemyDestroyedEvent>) {
    let aged = LevelView { hazards: hazards_after(v.hazards, delta), ..v };
    let (w, out) = chain_tick_outcome(aged, delta);
    (complete_step(w), out)
}


/// Whether `b` is a projectile still in flight.
pub open spec fn live_projectile(v: LevelView, b: Body) -> bool {
    match b {
        Body::Projectile(p) => p < v.projectiles.len() && v.projectiles[p as int] is Some,
        _ => false,
    }
}

/// Whether `b` is a hazard still in the level.
pub open spec fn live_hazard(v: LevelView, b: Body) -> bool {
    match b {
        Body::Explosion(h) => h < v.hazards.len() && v.hazards[h as int] is Some,
        _ => false,
    }
}

/// Whether `b` is a living enemy.
pub open spec fn live_enemy(v: LevelView, b: Body) -> bool {
    match b {
        Body::Enemy(i) => i < v.enemies.len() && v.enemies[i as int].alive,
        _ => false,
    }
}

/// Whether `b` is the player, still in the level.
pub open spec fn live_player(v: LevelView, b: Body) -> bool {
    b is Player && v.player_alive
}

/// Projectile `p` met `other`: against a living enemy the projectile is spent and the enemy
/// hit, unless it is a wall; against anything else nothing happens.
pub open spec fn projectile_contact(v: LevelView, p: usize, other: Body) -> (LevelView, Contact) {
    match other {
        Body::Enemy(i) => if live_enemy(v, other) {
            let spent = LevelView { projectiles: v.projectiles.update(p as int, None), ..v };
            if v.enemies[i as int].class == EnemyClass::Wall {
                (spent, Contact::ProjectileHitWall { projectile: p, enemy: i })
            } else {
                let (w, d) = hit_step(spent, i as int, v.projectiles[p as int]->0);
                (w, Contact::ProjectileHitEnemy { projectile: p, enemy: i, destroyed: d })
            }
        } else {
            (v, Contact::Ignored)
        },
        _ => (v, Contact::Ignored),
    }
}

/// Hazard `h` met `other`: it hurts the player and vanishes at once; nothing else.
pub open spec fn hazard_contact(v: LevelView, h: usize, other: Body) -> (LevelView, Contact) {
    if live_player(v, other) {
        let gone = LevelView { hazards: v.hazards.update(h as int, None), ..v };
        let (w, dead) = player_hit_step(gone, v.hazards[h as int]->0.hazard.attack_points);
        (w, Contact::HazardHitPlayer { hazard: h, player_destroyed: dead })
    } else {
        (v, Contact::Ignored)
    }
}

/// Enemy `i` met `other`: the player takes the enemy's attack points; nothing else.
pub open spec fn enemy_contact(v: LevelView, i: usize, other: Body) -> (LevelView, Contact) {
    if live_player(v, other) {
        let (w, dead) = player_hit_step(v, v.enemies[i as int].ap);
        (w, Contact::EnemyHitPlayer { enemy: i, player_destroyed: dead })
    } else {
        (v, Contact::Ignored)
    }
}

/// A contact between `a` and `b`, in either order: the projectile rule when exactly one side
/// is a live projectile, else the hazard rule when exactly one is a live hazard, else the
/// enemy rule when exactly one is a living enemy; any other pair is ignored.
pub open spec fn collision_step(v: LevelView, a: Body, b: Body) -> (LevelView, Contact) {
    if live_projectile(v, a) && !live_projectile(v, b) {
        projectile_contact(v, a->Projectile_0, b)
    } else if live_projectile(v, b) && !live_projectile(v, a) {
        projectile_contact(v, b->Projectile_0, a)
    } else if live_hazard(v, a) && !live_hazard(v, b) {
        hazard_contact(v, a->Explosion_0, b)
    } else if live_hazard(v, b) && !live_hazard(v, a) {
        hazard_contact(v, b->Explosion_0, a)
    } else if live_enemy(v, a) && !live_enemy(v, b) {
        enemy_contact(v, a->Enemy_0, b)
    } else if live_enemy(v, b) && !live_enemy(v, a) {
        enemy_contact(v, b->Enemy_0, a)
    } else {
        (v, Contact::Ignored)
    }
}

/// A chain event never revives an enemy and never touches chains; every destruction event
/// it produces names an enemy that was alive before and is dead after, in strictly
/// increasing handle order, so no enemy is announced twice.
pub proof fn lemma_sweep_destroys_once(v: LevelView, ev: ExplosionChainEvent, n: nat)
    requires
        n <= v.enemies.len() <= usize::MAX,
    ensures
        ({
            let (w, out) = sweep_step(v, ev, n);
            &&& w.enemies.len() == v.enemies.len()
            &&& w.chains == v.chains
            &&& w.success == v.success
            &&& forall|j: int|
                0 <= j < v.enemies.len() && !v.enemies[j].alive ==> !(#[trigger] w.enemies[j]).alive
            &&& forall|k: int|
                0 <= k < out.len() ==> {
                    let d = #[trigger] out[k];
                    &&& d.enemy < n
                    &&& v.enemies[d.enemy as int].alive
                    &&& !w.enemies[d.enemy as int].alive
                    &&& d.destruction_source == EnemyDestructionSource::ExplosionChain
                }
            &&& forall|a: int, b: int| 0 <= a < b < out.len() ==> #[trigger] out[a].enemy < #[trigger] out[b].enemy
        }),
    decreases n,
{
    if n > 0 {
        lemma_sweep_destroys_once(v, ev, (n - 1) as nat);
        let (w, out) = sweep_step(v, ev, (n - 1) as nat);
        let i = n - 1;
        let (x, all) = sweep_step(v, ev, n);
        if reached_by(w, i, ev) {
            assert(all == out.push(destroyed_event(w, i, EnemyDestructionSource::ExplosionChain)));
            assert(x.enemies == w.enemies.update(i, Enemy { alive: false, ..w.enemies[i] }));
            assert forall|k: int| 0 <= k < all.len() implies {
                let d = #[trigger] all[k];
                &&& d.enemy < n
                &&& v.enemies[d.enemy as int].alive
                &&& !x.enemies[d.enemy as int].alive
                &&& d.destruction_source == EnemyDestructionSource::ExplosionChain
            } by {
                if k < out.len() {
                    assert(all[k] == out[k]);
                } else {
                    assert(w.enemies[i].alive);
                    assert(v.enemies[i].alive);
                }
            }
        }
    }
}

/// What a chain event does to each handle: among the first `n`, an enemy is alive afterwards
/// exactly when it was alive and the event did not reach it, and the events name exactly the
/// reached handles; the handles from `n` on are untouched.
pub proof fn lemma_sweep_reaches(v: LevelView, ev: ExplosionChainEvent, n: nat)
    requires
        n <= v.enemies.len() <= usize::MAX,
    ensures
        ({
            let (w, out) = sweep_step(v, ev, n);
            &&& w.enemies.len() == v.enemies.len()
            &&& forall|j: int|
                0 <= j < n ==> (#[trigger] w.enemies[j]).alive == (v.enemies[j].alive
                    && !reached_by(v, j, ev))
            &&& forall|j: int| n <= j < v.enemies.len() ==> #[trigger] w.enemies[j] == v.enemies[j]
            &&& forall|j: int|
                0 <= j < n ==> (#[trigger] reached_by(v, j, ev) <==> exists|k: int|
                    0 <= k < out.len() && (#[trigger] out[k]).enemy == j)
        }),
    decreases n,
{
    if n > 0 {
        lemma_sweep_reaches(v, ev, (n - 1) as nat);
        lemma_sweep_destroys_once(v, ev, (n - 1) as nat);
        let (w, out) = sweep_step(v, ev, (n - 1) as nat);
        let i = n - 1;
        let (x, all) = sweep_step(v, ev, n);
        assert(w.enemies[i] == v.enemies[i]);
        assert(reached_by(w, i, ev) == reached_by(v, i, ev));
        if reached_by(w, i, ev) {
            let d = destroyed_event(w, i, EnemyDestructionSource::ExplosionChain);
            assert(all == out.push(d));
            assert(x.enemies == w.enemies.update(i, Enemy { alive: false, ..w.enemies[i] }));
            assert forall|j: int| 0 <= j < n implies (#[trigger] reached_by(v, j, ev) <==> exists|
                k: int,
            | 0 <= k < all.len() && (#[trigger] all[k]).enemy == j) by {
                if j == i {
                    assert(all[out.len() as int].enemy == j);
                } else {
                    if reached_by(v, j, ev) {
                        let k = choose|k: int| 0 <= k < out.len() && (#[trigger] out[k]).enemy == j;
                        assert(all[k] == out[k]);
                    }
                    if exists|k: int| 0 <= k < all.len() && (#[trigger] all[k]).enemy == j {
                        let k = choose|k: int| 0 <= k < all.len() && (#[trigger] all[k]).enemy == j;
                        assert(k < out.len());
                        assert(out[k] == all[k]);
                    }
                }
            }
        } else {
            assert forall|j: int| 0 <= j < n implies (#[trigger] reached_by(v, j, ev) <==> exists|
                k: int,
            | 0 <= k < all.len() && (#[trigger] all[k]).enemy == j) by {
                if j == i {
                    if exists|k: int| 0 <= k < all.len() && (#[trigger] all[k]).enemy == j {
                        let k = choose|k: int| 0 <= k < all.len() && (#[trigger] all[k]).enemy == j;
                        assert(all[k].enemy < i);
                    }
                }
            }
        }
    }
}

/// Each enemy is destroyed at most once, whatever hits or chain events reach it: a hit on an
/// enemy that is no longer alive changes nothing and announces nothing, a hit that announces
/// a destruction found its enemy alive and leaves it dead, hit points only go down and never
/// below zero, and no hit or chain event brings a dead enemy back.
pub proof fn lemma_destroyed_exactly_once(
    v: LevelView,
    i: int,
    attack: AttackPoints,
    ev: ExplosionChainEvent,
)
    requires
        0 <= i < v.enemies.len() <= usize::MAX,
    ensures
        !v.enemies[i].alive ==> hit_step(v, i, attack) == (v, None::<EnemyDestroyedEvent>),
        hit_step(v, i, attack).0.enemies[i].hp.0 <= v.enemies[i].hp.0,
        hit_step(v, i, attack).1 is Some ==> {
            &&& v.enemies[i].alive
            &&& !hit_step(v, i, attack).0.enemies[i].alive
            &&& hit_step(v, i, attack).1->0.enemy == i
        },
        forall|j: int|
            0 <= j < v.enemies.len() && !v.enemies[j].alive ==> !(#[trigger] hit_step(
                v,
                i,
                attack,
            ).0.enemies[j]).alive,
        forall|j: int|
            0 <= j < v.enemies.len() && !v.enemies[j].alive ==> !(#[trigger] sweep_step(
                v,
                ev,
                v.enemies.len(),
            ).0.enemies[j]).alive,
        forall|k: int|
            0 <= k < sweep_step(v, ev, v.enemies.len()).1.len() ==> v.enemies[(#[trigger] sweep_step(
                v,
                ev,
                v.enemies.len(),
            ).1[k]).enemy as int].alive,
{
    lemma_sweep_destroys_once(v, ev, v.enemies.len());
}

/// Only the player's kills start chains: a destruction by a chain, a chain event, and a
/// whole run of chain events leave the running chains as they were, while a kill by the
/// player adds at most one chain.
pub proof fn lemma_chain_kills_seed_no_chain(
    v: LevelView,
    i: int,
    ev: ExplosionChainEvent,
    evs: Seq<ExplosionChainEvent>,
)
    requires
        0 <= i < v.enemies.len() <= usize::MAX,
    ensures
        destroy_step(v, i, EnemyDestructionSource::ExplosionChain).chains == v.chains,
        sweep_step(v, ev, v.enemies.len()).0.chains == v.chains,
        sweeps(v, evs).0.chains == v.chains,
        destroy_step(v, i, EnemyDestructionSource::Player).chains.len() <= v.chains.len() + 1,
    decreases evs.len(),
{
    lemma_sweep_destroys_once(v, ev, v.enemies.len());
    if evs.len() > 0 {
        lemma_chain_kills_seed_no_chain(v, i, ev, evs.drop_last());
        let (w, out) = sweeps(v, evs.drop_last());
        assert(w.enemies.len() == v.enemies.len()) by {
            lemma_sweeps_keep_length(v, evs.drop_last());
        }
        lemma_sweep_destroys_once(w, evs.last(), w.enemies.len());
    }
}

proof fn lemma_sweeps_keep_length(v: LevelView, evs: Seq<ExplosionChainEvent>)
    requires
        v.enemies.len() <= usize::MAX,
    ensures
        sweeps(v, evs).0.enemies.len() == v.enemies.len(),
    decreases evs.len(),
{
    if evs.len() > 0 {
        lemma_sweeps_keep_length(v, evs.drop_last());
        let (w, out) = sweeps(v, evs.drop_last());
        lemma_sweep_destroys_once(w, evs.last(), w.enemies.len());
    }
}

/// The outcome of a level: success is declared exactly when the level has no outcome yet,
/// every enemy that must be destroyed is gone and no hazard is left; the player's death
/// fails a level that has no outcome yet; and once an outcome is set, neither the check,
/// the player's death, a hit nor a chain event changes it.
pub proof fn lemma_outcome_is_final(
    v: LevelView,
    i: int,
    attack: AttackPoints,
    ev: ExplosionChainEvent,
)
    requires
        v.enemies.len() <= usize::MAX,
    ensures
        complete_step(v).success == Some(true) <==> (v.success == Some(true) || (v.success is None
            && level_cleared(v))),
        (player_destroyed_step(v).success == Some(false)) <==> (v.success != Some(true)),
        v.success is Some ==> {
            &&& complete_step(v).success == v.success
            &&& player_destroyed_step(v).success == v.success
            &&& player_hit_step(v, attack).0.success == v.success
            &&& hit_step(v, i, attack).0.success == v.success
            &&& (0 <= i < v.enemies.len() ==> sweep_step(v, ev, v.enemies.len()).0.success
                == v.success)
        },
{
    if 0 <= i < v.enemies.len() {
        lemma_sweep_destroys_once(v, ev, v.enemies.len());
    }
    match v.success {
        Some(b) => {
            assert(player_destroyed_step(v).success == Some(b));
        },
        None => {
            assert(player_destroyed_step(v).success == Some(false));
        },
    }
}

} // verus!
