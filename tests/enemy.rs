use maxx_obliterate::enemy::{
    EnemyBundle, EnemyClass, EnemyCollisionEvent, EnemyCounts, EnemyDestruction, EnemyTeam,
    Point,
};
use maxx_obliterate::energy::{AttackPoints, HitPoints};

fn at(x: i32, y: i32) -> Point {
    Point { x, y }
}

#[test]
fn classes_in_chain_order() {
    assert_eq!(
        EnemyClass::in_order(),
        [
            EnemyClass::Base,
            EnemyClass::Shadow,
            EnemyClass::DefenderOne,
            EnemyClass::DefenderTwo,
            EnemyClass::DefenderThree,
            EnemyClass::Land,
            EnemyClass::Wall,
        ]
    );
}

#[test]
fn index_of_follows_chain_order() {
    let any = EnemyClass::Land;
    assert_eq!(any.index_of(EnemyClass::Base), 0);
    assert_eq!(any.index_of(EnemyClass::Shadow), 1);
    assert_eq!(any.index_of(EnemyClass::DefenderOne), 2);
    assert_eq!(any.index_of(EnemyClass::DefenderTwo), 3);
    assert_eq!(any.index_of(EnemyClass::DefenderThree), 4);
    assert_eq!(any.index_of(EnemyClass::Land), 5);
    assert_eq!(any.index_of(EnemyClass::Wall), 6);
}

#[test]
fn team_labels() {
    assert_eq!(EnemyTeam::Alien.label(), "Alien");
    assert_eq!(EnemyTeam::Demon.label(), "Demon");
    assert_eq!(EnemyTeam::Phantom.label(), "Ghost");
    assert_eq!(EnemyTeam::Skull.label(), "Skull");
}

#[test]
fn new_counts_are_zero() {
    let counts = EnemyCounts::new();
    for class in EnemyClass::in_order() {
        assert_eq!(counts.count(&class), 0);
        assert!(!counts.started_with_enemy(&class));
    }
    assert_eq!(counts.total(), 0);
}

#[test]
fn increment_counts_one_class_only() {
    let mut counts = EnemyCounts::new();
    counts.increment(&EnemyClass::Shadow);
    counts.increment(&EnemyClass::Shadow);
    counts.increment(&EnemyClass::Land);
    assert_eq!(counts.count(&EnemyClass::Shadow), 2);
    assert_eq!(counts.count(&EnemyClass::Land), 1);
    assert_eq!(counts.count(&EnemyClass::Base), 0);
    assert!(counts.started_with_enemy(&EnemyClass::Shadow));
    assert!(!counts.started_with_enemy(&EnemyClass::DefenderOne));
}

#[test]
fn total_leaves_out_walls() {
    let mut counts = EnemyCounts::new();
    counts.increment(&EnemyClass::Base);
    counts.increment(&EnemyClass::DefenderTwo);
    counts.increment(&EnemyClass::Wall);
    counts.increment(&EnemyClass::Wall);
    assert_eq!(counts.count(&EnemyClass::Wall), 2);
    assert_eq!(counts.total(), 2);
}

#[test]
fn counts_from_bundles() {
    let enemies = vec![
        EnemyBundle::new_base(at(0, 330)),
        EnemyBundle::new_primary_defender(at(-15, 15)),
        EnemyBundle::new_primary_defender(at(15, 15)),
        EnemyBundle::new_tertiary_defender(at(60, 200)),
        EnemyBundle::new_wall(at(0, 0), at(200, 40)),
    ];
    let counts = EnemyCounts::from_bundles(&enemies);
    assert_eq!(counts.count(&EnemyClass::Base), 1);
    assert_eq!(counts.count(&EnemyClass::DefenderOne), 2);
    assert_eq!(counts.count(&EnemyClass::DefenderTwo), 0);
    assert_eq!(counts.count(&EnemyClass::DefenderThree), 1);
    assert_eq!(counts.count(&EnemyClass::Wall), 1);
    assert_eq!(counts.total(), 4);
}

#[test]
fn counts_from_no_bundles() {
    let counts = EnemyCounts::from_bundles(&Vec::new());
    assert_eq!(counts.total(), 0);
}

#[test]
fn class_constructors() {
    let base = EnemyBundle::new_base(at(1, 2));
    assert_eq!(base.class, EnemyClass::Base);
    assert_eq!(base.team, EnemyTeam::Alien);
    assert_eq!(base.hp, HitPoints(3));
    assert_eq!(base.ap, AttackPoints(1));
    assert_eq!(base.position, at(1, 2));
    assert_eq!(base.scale, at(1, 1));
    assert!(base.requires_destruction());

    assert_eq!(EnemyBundle::new_secondary_defender(at(0, 0)).class, EnemyClass::DefenderTwo);
    assert_eq!(EnemyBundle::new_secondary_defender(at(0, 0)).hp, HitPoints(1));
    assert_eq!(EnemyBundle::new_shadow(at(0, 0)).class, EnemyClass::Shadow);

    let land = EnemyBundle::new_land(at(0, -340), at(520, 40));
    assert_eq!(land.class, EnemyClass::Land);
    assert_eq!(land.scale, at(520, 40));
    assert!(land.requires_destruction());

    let wall = EnemyBundle::new_wall(at(0, 0), at(200, 40));
    assert_eq!(wall.destruction, EnemyDestruction::Impossible);
    assert_eq!(wall.hp, HitPoints(0));
    assert_eq!(wall.ap, AttackPoints(0));
    assert!(!wall.requires_destruction());
}

#[test]
fn collision_event_new() {
    let e = EnemyCollisionEvent::new(EnemyClass::Land, EnemyTeam::Skull, AttackPoints(4));
    assert_eq!(e.class, EnemyClass::Land);
    assert_eq!(e.team, EnemyTeam::Skull);
    assert_eq!(e.attacking_points, AttackPoints(4));
}
