use maxx_obliterate::enemy::{EnemyBundle, EnemyClass, EnemyCounts, EnemyTeam, Point};
use maxx_obliterate::explosion::{ExplosionChain, ExplosionChainEvent};
use maxx_obliterate::level::LevelStats;


fn stats_of(classes: &[EnemyClass]) -> LevelStats {
    let mut counts = EnemyCounts::new();
    for c in classes {
        counts.increment(c);
    }
    LevelStats::new(counts)
}

#[test]
fn following_class_skips_absent_classes() {
    let stats = stats_of(&[EnemyClass::Base, EnemyClass::DefenderOne, EnemyClass::Land]);
    assert_eq!(
        ExplosionChain::following_class(&EnemyClass::Base, &stats),
        Some(EnemyClass::DefenderOne)
    );
    assert_eq!(
        ExplosionChain::following_class(&EnemyClass::DefenderOne, &stats),
        Some(EnemyClass::Land)
    );
    assert_eq!(ExplosionChain::following_class(&EnemyClass::Land, &stats), None);
}

#[test]
fn following_class_goes_through_shadow_first() {
    let stats = stats_of(&[EnemyClass::Base, EnemyClass::Shadow, EnemyClass::DefenderOne]);
    assert_eq!(
        ExplosionChain::following_class(&EnemyClass::Base, &stats),
        Some(EnemyClass::Shadow)
    );
}

#[test]
fn following_class_never_reaches_walls() {
    let stats = stats_of(&[EnemyClass::Base, EnemyClass::Land, EnemyClass::Wall]);
    assert_eq!(ExplosionChain::following_class(&EnemyClass::Land, &stats), None);
    let only_walls = stats_of(&[EnemyClass::Base, EnemyClass::Wall]);
    assert_eq!(ExplosionChain::following_class(&EnemyClass::Base, &only_walls), None);
}

#[test]
fn defender_waves_in_ascending_order() {
    let stats = stats_of(&[
        EnemyClass::Base,
        EnemyClass::DefenderOne,
        EnemyClass::DefenderTwo,
        EnemyClass::Land,
    ]);
    let mut chain = ExplosionChain::new(EnemyTeam::Alien, EnemyClass::DefenderOne);
    let mut stages = Vec::new();
    while let Some(event) = chain.advance(true, &stats) {
        stages.push(event.class);
    }
    assert_eq!(
        stages,
        vec![EnemyClass::DefenderOne, EnemyClass::DefenderTwo, EnemyClass::Land]
    );
    assert!(chain.is_complete());
}

#[test]
fn whole_chain_visits_each_present_class_once() {
    let stats = stats_of(&[
        EnemyClass::Base,
        EnemyClass::Shadow,
        EnemyClass::DefenderOne,
        EnemyClass::DefenderThree,
        EnemyClass::Land,
        EnemyClass::Wall,
    ]);
    let first = ExplosionChain::following_class(&EnemyClass::Base, &stats).unwrap();
    let mut chain = ExplosionChain::new(EnemyTeam::Demon, first);
    let mut stages = Vec::new();
    for _ in 0..10 {
        if let Some(event) = chain.advance(true, &stats) {
            assert_eq!(event.team, EnemyTeam::Demon);
            stages.push(event.class);
        }
    }
    assert_eq!(
        stages,
        vec![
            EnemyClass::Shadow,
            EnemyClass::DefenderOne,
            EnemyClass::DefenderThree,
            EnemyClass::Land
        ]
    );
}

#[test]
fn chain_that_does_not_fire_stays() {
    let stats = stats_of(&[EnemyClass::Base, EnemyClass::Land]);
    let mut chain = ExplosionChain::new(EnemyTeam::Alien, EnemyClass::Land);
    assert_eq!(chain.advance(false, &stats), None);
    assert_eq!(chain.stage(), Some(EnemyClass::Land));
    assert_eq!(chain.team(), EnemyTeam::Alien);
}

#[test]
fn chain_timer_fires_after_one_second() {
    let stats = stats_of(&[EnemyClass::Base, EnemyClass::DefenderOne, EnemyClass::Land]);
    let mut chain = ExplosionChain::new(EnemyTeam::Alien, EnemyClass::DefenderOne);
    assert_eq!(chain.tick(ms(500), &stats), None);
    assert_eq!(chain.stage(), Some(EnemyClass::DefenderOne));
    assert_eq!(
        chain.tick(ms(500), &stats),
        Some(ExplosionChainEvent::new(EnemyTeam::Alien, EnemyClass::DefenderOne))
    );
    assert_eq!(chain.stage(), Some(EnemyClass::Land));
    assert_eq!(chain.tick(ms(999), &stats), None);
    assert_eq!(
        chain.tick(ms(1), &stats),
        Some(ExplosionChainEvent::new(EnemyTeam::Alien, EnemyClass::Land))
    );
    assert!(chain.is_complete());
    assert_eq!(chain.tick(ms(5000), &stats), None);
}

#[test]
fn level_config_counts() {
    let config = maxx_obliterate::level::LevelConfig {
        enemies: vec![
            EnemyBundle::new_base(Point { x: 0, y: 330 }),
            EnemyBundle::new_land(Point { x: 0, y: 0 }, Point { x: 10, y: 10 }),
        ],
        name: "Two",
        notes: "",
        start_position: Point { x: 0, y: -300 },
    };
    let counts = config.enemy_counts();
    assert_eq!(counts.count(&EnemyClass::Base), 1);
    assert_eq!(counts.count(&EnemyClass::Land), 1);
    assert_eq!(counts.total(), 2);
}

/// Milliseconds in nanoseconds.
fn ms(n: u64) -> u64 {
    n * 1_000_000
}
