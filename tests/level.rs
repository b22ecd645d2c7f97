use maxx_obliterate::enemy::{
    EnemyBundle, EnemyClass, EnemyDestroyedEvent, EnemyDestructionSource, EnemyTeam, Point,
};
use maxx_obliterate::energy::{AttackPoints, HitPoints};
use maxx_obliterate::explosion::ExplosionChainEvent;
use maxx_obliterate::level::{Body, Contact, Level, LevelConfig};


fn at(x: i32, y: i32) -> Point {
    Point { x, y }
}

fn level_of(enemies: Vec<EnemyBundle>) -> Level {
    Level::new(&LevelConfig {
        enemies,
        name: "test",
        notes: "",
        start_position: at(0, -300),
    })
}

fn shoot(level: &mut Level, enemy: usize) -> Contact {
    let p = level.fire_projectile(AttackPoints(1));
    level.handle_collision(Body::Projectile(p), Body::Enemy(enemy))
}

fn live_hazards(level: &Level) -> usize {
    (0..level.hazard_count()).filter(|&h| level.hazard(h).is_some()).count()
}

fn one_second() -> u64 {
    ms(1000)
}

#[test]
fn scenario_lone_base() {
    let mut level = level_of(vec![EnemyBundle::new_base(at(0, 330))]);
    assert!(matches!(
        shoot(&mut level, 0),
        Contact::ProjectileHitEnemy { enemy: 0, destroyed: None, .. }
    ));
    assert_eq!(level.enemy(0).unwrap().hp, HitPoints(2));
    shoot(&mut level, 0);
    assert_eq!(level.enemy(0).unwrap().hp, HitPoints(1));
    let third = shoot(&mut level, 0);
    match third {
        Contact::ProjectileHitEnemy { destroyed: Some(event), .. } => {
            assert_eq!(event.enemy, 0);
            assert_eq!(event.class, EnemyClass::Base);
            assert_eq!(event.destruction_source, EnemyDestructionSource::Player);
        }
        other => panic!("unexpected contact {:?}", other),
    }
    assert!(!level.enemy(0).unwrap().alive);
    assert_eq!(level.chain_count(), 0);
    assert_eq!(live_hazards(&level), 1);
    assert_eq!(level.check_level_complete(), None);
    assert_eq!(level.update_explosions(one_second()), vec![0]);
    assert_eq!(live_hazards(&level), 0);
    assert_eq!(level.check_level_complete(), Some(true));
    assert_eq!(level.stats().enemy_counts.count(&EnemyClass::Base), 1);
}

#[test]
fn scenario_chain_through_defenders_to_land() {
    let mut level = level_of(vec![
        EnemyBundle::new_base(at(0, 330)),
        EnemyBundle::new_primary_defender(at(-15, 200)),
        EnemyBundle::new_primary_defender(at(15, 200)),
        EnemyBundle::new_land(at(0, 0), at(520, 40)),
    ]);
    for _ in 0..3 {
        shoot(&mut level, 0);
    }
    assert!(!level.enemy(0).unwrap().alive);
    assert_eq!(level.chain_count(), 1);
    assert_eq!(level.chain(0).unwrap().stage, Some(EnemyClass::DefenderOne));

    assert_eq!(level.tick_explosion_chains(ms(400)), vec![]);
    assert!(level.enemy(1).unwrap().alive);

    let first = level.tick_explosion_chains(ms(600));
    assert_eq!(first.len(), 2);
    assert_eq!((first[0].enemy, first[1].enemy), (1, 2));
    assert!(first
        .iter()
        .all(|e| e.destruction_source == EnemyDestructionSource::ExplosionChain));
    assert!(!level.enemy(1).unwrap().alive && !level.enemy(2).unwrap().alive);
    assert!(level.enemy(3).unwrap().alive);
    assert_eq!(level.chain(0).unwrap().stage, Some(EnemyClass::Land));

    let second = level.tick_explosion_chains(one_second());
    assert_eq!(second.len(), 1);
    assert_eq!(second[0].enemy, 3);
    assert_eq!(second[0].class, EnemyClass::Land);
    assert_eq!(level.chain_count(), 0);

    assert_eq!(level.check_level_complete(), None);
    assert_eq!(level.update_explosions(one_second()).len(), 4);
    assert_eq!(level.check_level_complete(), Some(true));
    assert_eq!(level.stats().enemy_counts.count(&EnemyClass::DefenderOne), 2);
    assert_eq!(level.stats().enemy_counts.total(), 4);
}

#[test]
fn scenario_projectile_on_wall() {
    let mut level = level_of(vec![
        EnemyBundle::new_base(at(0, 330)),
        EnemyBundle::new_wall(at(0, 0), at(200, 40)),
    ]);
    let p = level.fire_projectile(AttackPoints(1));
    assert_eq!(
        level.handle_collision(Body::Enemy(1), Body::Projectile(p)),
        Contact::ProjectileHitWall { projectile: p, enemy: 1 }
    );
    assert_eq!(level.projectile(p), None);
    let wall = level.enemy(1).unwrap();
    assert_eq!(wall.hp, HitPoints(0));
    assert!(wall.alive);
    assert_eq!(level.hazard_count(), 0);
}

#[test]
fn scenario_hazard_touches_player() {
    let mut level = level_of(vec![
        EnemyBundle::new_base(at(0, 330)),
        EnemyBundle::new_land(at(0, 0), at(10, 10)),
    ]);
    for _ in 0..3 {
        shoot(&mut level, 0);
    }
    assert!(level.hazard(0).is_some());
    assert_eq!(level.update_explosions(ms(300)), vec![]);
    assert_eq!(
        level.handle_collision(Body::Player, Body::Explosion(0)),
        Contact::HazardHitPlayer { hazard: 0, player_destroyed: true }
    );
    assert_eq!(level.hazard(0), None);
    assert_eq!(level.player_hit_points(), HitPoints(0));
    assert!(!level.player_alive());
    assert_eq!(level.stats().success, Some(false));
}

#[test]
fn repeated_lethal_hits_destroy_once() {
    let mut level = level_of(vec![EnemyBundle::new_land(at(0, 0), at(1, 1))]);
    let first = level.hit_enemy(0, AttackPoints(5));
    assert!(first.is_some());
    assert_eq!(level.hit_enemy(0, AttackPoints(5)), None);
    assert_eq!(level.destroy_enemy(0, EnemyDestructionSource::Player), None);
    let chain_event = ExplosionChainEvent::new(EnemyTeam::Alien, EnemyClass::Land);
    assert_eq!(level.on_explosion_chain_event(chain_event), Vec::<EnemyDestroyedEvent>::new());
    assert_eq!(level.enemy(0).unwrap().hp, HitPoints(0));
    assert_eq!(level.stats().enemy_counts.count(&EnemyClass::Land), 1);
    assert_eq!(level.hazard_count(), 1);
}

#[test]
fn chain_event_reaches_only_its_team_and_class() {
    let mut shadow_demon = EnemyBundle::new_shadow(at(0, 0));
    shadow_demon.team = EnemyTeam::Demon;
    let mut level = level_of(vec![
        EnemyBundle::new_shadow(at(0, 0)),
        shadow_demon,
        EnemyBundle::new_primary_defender(at(0, 0)),
        EnemyBundle::new_shadow(at(5, 5)),
    ]);
    let out = level.on_explosion_chain_event(ExplosionChainEvent::new(
        EnemyTeam::Alien,
        EnemyClass::Shadow,
    ));
    assert_eq!(out.iter().map(|e| e.enemy).collect::<Vec<_>>(), vec![0, 3]);
    assert!(level.enemy(1).unwrap().alive);
    assert!(level.enemy(2).unwrap().alive);
}

#[test]
fn chain_event_with_no_living_match_is_a_no_op() {
    let mut level = level_of(vec![EnemyBundle::new_base(at(0, 330))]);
    let out = level.on_explosion_chain_event(ExplosionChainEvent::new(
        EnemyTeam::Alien,
        EnemyClass::Land,
    ));
    assert!(out.is_empty());
    assert!(level.enemy(0).unwrap().alive);
    assert_eq!(level.hazard_count(), 0);
}

#[test]
fn chain_event_never_destroys_walls() {
    let mut level = level_of(vec![EnemyBundle::new_wall(at(0, 0), at(5, 5))]);
    let out = level.on_explosion_chain_event(ExplosionChainEvent::new(
        EnemyTeam::Alien,
        EnemyClass::Wall,
    ));
    assert!(out.is_empty());
    assert!(level.enemy(0).unwrap().alive);
}

#[test]
fn chain_kills_seed_no_chain() {
    let mut level = level_of(vec![
        EnemyBundle::new_base(at(0, 330)),
        EnemyBundle::new_shadow(at(0, 0)),
        EnemyBundle::new_land(at(0, 0), at(5, 5)),
    ]);
    let out = level.on_explosion_chain_event(ExplosionChainEvent::new(
        EnemyTeam::Alien,
        EnemyClass::Shadow,
    ));
    assert_eq!(out.len(), 1);
    assert_eq!(level.chain_count(), 0);
    assert!(level.destroy_enemy(2, EnemyDestructionSource::ExplosionChain).is_some());
    assert_eq!(level.chain_count(), 0);
}

#[test]
fn player_kill_seeds_a_chain_at_the_next_present_class() {
    let mut level = level_of(vec![
        EnemyBundle::new_shadow(at(0, 0)),
        EnemyBundle::new_land(at(0, 0), at(5, 5)),
    ]);
    let event = level.destroy_enemy(0, EnemyDestructionSource::Player).unwrap();
    assert_eq!(event.class, EnemyClass::Shadow);
    assert_eq!(level.chain_count(), 1);
    let chain = level.chain(0).unwrap();
    assert_eq!(chain.stage, Some(EnemyClass::Land));
    assert_eq!(chain.team, EnemyTeam::Alien);
    assert_eq!(level.hazard(0).unwrap().class, EnemyClass::Shadow);
    assert_eq!(level.hazard(0).unwrap().attack_points, AttackPoints(1));
}

#[test]
fn player_kill_of_the_last_class_seeds_nothing() {
    let mut level = level_of(vec![
        EnemyBundle::new_base(at(0, 330)),
        EnemyBundle::new_land(at(0, 0), at(5, 5)),
    ]);
    assert!(level.hit_enemy(1, AttackPoints(1)).is_some());
    assert_eq!(level.chain_count(), 0);
}

#[test]
fn failure_is_final() {
    let mut level = level_of(vec![EnemyBundle::new_land(at(0, 0), at(5, 5))]);
    level.on_player_destroyed();
    assert_eq!(level.stats().success, Some(false));
    level.hit_enemy(0, AttackPoints(1));
    level.update_explosions(one_second());
    assert_eq!(level.check_level_complete(), Some(false));
}

#[test]
fn success_is_final() {
    let mut level = level_of(vec![]);
    assert_eq!(level.check_level_complete(), Some(true));
    level.on_player_destroyed();
    assert!(!level.player_alive());
    assert_eq!(level.stats().success, Some(true));
}

#[test]
fn level_with_only_walls_is_complete_at_once() {
    let mut level = level_of(vec![EnemyBundle::new_wall(at(0, 0), at(5, 5))]);
    assert_eq!(level.check_level_complete(), Some(true));
}

#[test]
fn level_waits_for_required_enemies() {
    let mut level = level_of(vec![EnemyBundle::new_shadow(at(0, 0))]);
    assert_eq!(level.check_level_complete(), None);
    assert_eq!(level.stats().success, None);
}

#[test]
fn enemy_contact_hurts_player() {
    let mut level = level_of(vec![EnemyBundle::new_base(at(0, 330))]);
    assert_eq!(
        level.handle_collision(Body::Enemy(0), Body::Player),
        Contact::EnemyHitPlayer { enemy: 0, player_destroyed: true }
    );
    assert!(!level.player_alive());
    assert!(level.enemy(0).unwrap().alive);
    assert_eq!(level.stats().success, Some(false));
}

#[test]
fn pairs_outside_the_rules_are_ignored() {
    let mut level = level_of(vec![EnemyBundle::new_base(at(0, 330))]);
    let p = level.fire_projectile(AttackPoints(1));
    let q = level.fire_projectile(AttackPoints(1));
    assert_eq!(level.handle_collision(Body::Projectile(p), Body::Projectile(q)), Contact::Ignored);
    assert_eq!(level.handle_collision(Body::Projectile(p), Body::Player), Contact::Ignored);
    assert_eq!(level.handle_collision(Body::Scenery, Body::Player), Contact::Ignored);
    assert_eq!(level.handle_collision(Body::Projectile(p), Body::Enemy(7)), Contact::Ignored);
    assert_eq!(level.projectile(p), Some(AttackPoints(1)));
    assert_eq!(level.projectile(q), Some(AttackPoints(1)));
    assert_eq!(level.enemy(0).unwrap().hp, HitPoints(3));
    assert!(level.player_alive());
}

#[test]
fn spent_projectile_hits_nothing() {
    let mut level = level_of(vec![EnemyBundle::new_base(at(0, 330))]);
    let p = level.fire_projectile(AttackPoints(1));
    level.handle_collision(Body::Projectile(p), Body::Enemy(0));
    assert_eq!(level.handle_collision(Body::Projectile(p), Body::Enemy(0)), Contact::Ignored);
    assert_eq!(level.enemy(0).unwrap().hp, HitPoints(2));
}

#[test]
fn hazard_expires_after_its_lifetime() {
    let mut level = level_of(vec![EnemyBundle::new_shadow(at(3, 4))]);
    level.destroy_enemy(0, EnemyDestructionSource::ExplosionChain);
    let hazard = level.hazard(0).unwrap();
    assert_eq!(hazard.position, at(3, 4));
    assert_eq!(level.update_explosions(ms(999)), vec![]);
    assert!(level.hazard(0).is_some());
    assert_eq!(level.update_explosions(ms(1)), vec![0]);
    assert_eq!(level.hazard(0), None);
    assert_eq!(level.update_explosions(one_second()), vec![]);
}

#[test]
fn handles_out_of_range_give_nothing() {
    let level = level_of(vec![]);
    assert_eq!(level.enemy(0), None);
    assert_eq!(level.hazard(0), None);
    assert_eq!(level.projectile(0), None);
    assert_eq!(level.chain(0), None);
    assert_eq!(level.enemy_count(), 0);
}

#[test]
fn fixed_steps_play_the_chain_to_success() {
    let mut level = level_of(vec![
        EnemyBundle::new_base(at(0, 330)),
        EnemyBundle::new_primary_defender(at(-15, 200)),
        EnemyBundle::new_primary_defender(at(15, 200)),
        EnemyBundle::new_land(at(0, 0), at(520, 40)),
    ]);
    assert!(level.hit_enemy(0, AttackPoints(3)).is_some());
    assert_eq!(live_hazards(&level), 1);

    let first = level.update(one_second());
    assert_eq!(first.len(), 2);
    assert_eq!(level.hazard(0), None);
    assert_eq!(live_hazards(&level), 2);
    assert_eq!(level.stats().success, None);

    let second = level.update(one_second());
    assert_eq!(second.len(), 1);
    assert_eq!(second[0].class, EnemyClass::Land);
    assert_eq!(level.chain_count(), 0);
    assert_eq!(live_hazards(&level), 1);
    assert_eq!(level.stats().success, None);

    assert!(level.update(one_second()).is_empty());
    assert_eq!(live_hazards(&level), 0);
    assert_eq!(level.stats().success, Some(true));
}

/// Milliseconds in nanoseconds.
fn ms(n: u64) -> u64 {
    n * 1_000_000
}

#[test]
fn destroyed_player_has_no_hit_points() {
    let mut level = level_of(vec![EnemyBundle::new_base(at(0, 330))]);
    assert_eq!(level.player_hit_points(), HitPoints(1));
    level.on_player_destroyed();
    assert_eq!(level.player_hit_points(), HitPoints(0));
    assert!(!level.player_alive());
}

#[test]
fn chain_keeps_the_remainder_of_its_period() {
    let mut level = level_of(vec![
        EnemyBundle::new_shadow(at(0, 0)),
        EnemyBundle::new_primary_defender(at(0, 0)),
        EnemyBundle::new_land(at(0, 0), at(5, 5)),
    ]);
    level.destroy_enemy(0, EnemyDestructionSource::Player);
    assert_eq!(level.tick_explosion_chains(ms(1500)).len(), 1);
    assert!(!level.enemy(1).unwrap().alive);
    assert!(level.tick_explosion_chains(ms(400)).is_empty());
    assert_eq!(level.tick_explosion_chains(ms(100)).len(), 1);
    assert!(!level.enemy(2).unwrap().alive);
}
