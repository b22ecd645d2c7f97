use maxx_obliterate::energy::{AttackPoints, HitPoints};

#[test]
fn damage_subtracts_attack_points() {
    let mut hp = HitPoints(3);
    assert!(!hp.apply_damage(AttackPoints(1)));
    assert_eq!(hp, HitPoints(2));
}

#[test]
fn damage_saturates_at_zero() {
    let mut hp = HitPoints(2);
    assert!(hp.apply_damage(AttackPoints(5)));
    assert_eq!(hp, HitPoints(0));
}

#[test]
fn only_the_first_lethal_hit_is_lethal() {
    let mut hp = HitPoints(1);
    assert!(hp.apply_damage(AttackPoints(1)));
    assert!(!hp.apply_damage(AttackPoints(1)));
    assert!(!hp.apply_damage(AttackPoints(10)));
    assert_eq!(hp, HitPoints(0));
}

#[test]
fn zero_attack_on_zero_hit_points_is_not_lethal() {
    let mut hp = HitPoints(0);
    assert!(!hp.apply_damage(AttackPoints(0)));
    assert_eq!(hp, HitPoints(0));
}
