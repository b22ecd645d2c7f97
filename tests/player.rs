use maxx_obliterate::energy::AttackPoints;
use maxx_obliterate::level::{Level, LevelConfig};
use maxx_obliterate::player::AutoFire;
use maxx_obliterate::enemy::Point;


fn gap() -> u64 {
    ms(200)
}

#[test]
fn inactive_fire_never_triggers() {
    let mut fire = AutoFire::new(gap(), false);
    fire.tick(ms(1000));
    assert!(!fire.just_triggered());
}

#[test]
fn pressing_fire_shoots_at_once_then_each_period() {
    let mut fire = AutoFire::new(gap(), false);
    fire.start();
    assert!(fire.just_triggered());
    fire.tick(ms(100));
    assert!(!fire.just_triggered());
    fire.tick(ms(100));
    assert!(fire.just_triggered());
    fire.stop();
    fire.tick(ms(200));
    assert!(!fire.just_triggered());
}

#[test]
fn restarting_fire_restarts_the_period() {
    let mut fire = AutoFire::new(gap(), true);
    assert!(fire.just_triggered());
    fire.tick(ms(150));
    fire.start();
    assert!(fire.just_triggered());
    fire.tick(ms(150));
    assert!(!fire.just_triggered());
}

#[test]
fn each_weapon_fires_a_projectile() {
    let mut level = Level::new(&LevelConfig {
        enemies: vec![],
        name: "empty",
        notes: "",
        start_position: Point { x: 0, y: 0 },
    });
    let mut fire = AutoFire::new(gap(), true);
    let shots = level.fire_player_projectiles(&mut fire, ms(10), 2);
    assert_eq!(shots, vec![0, 1]);
    assert_eq!(level.projectile(1), Some(AttackPoints(1)));
    let none = level.fire_player_projectiles(&mut fire, ms(10), 2);
    assert!(none.is_empty());
    let again = level.fire_player_projectiles(&mut fire, ms(190), 2);
    assert_eq!(again, vec![2, 3]);
}

/// Milliseconds in nanoseconds.
fn ms(n: u64) -> u64 {
    n * 1_000_000
}
