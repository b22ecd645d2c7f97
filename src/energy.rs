use vstd::prelude::*;

verus! {

/// Damage that an attacker deals on contact.
#[derive(Clone, Copy, Debug, PartialEq, Eq, Structural)]
pub struct AttackPoints(pub u32);

/// Remaining health of a destructible entity; never negative by construction.
#[derive(Clone, Copy, Debug, PartialEq, Eq, Structural)]
pub struct HitPoints(pub u32);

/// Hit points left after `attack` points of damage: subtraction saturating at zero.
pub open spec fn damaged(hp: nat, attack: nat) -> nat {
    if hp >= attack { (hp - attack) as nat } else { 0 }
}

/// A hit is lethal when it takes a still-living target down to zero.
pub open spec fn is_lethal(hp: nat, attack: nat) -> bool {
    hp > 0 && damaged(hp, attack) == 0
}

impl HitPoints {
    /// Applies `attack` points of damage and reports whether this hit was the lethal one.
    pub fn apply_damage(&mut self, attack: AttackPoints) -> (lethal: bool)
        ensures
            final(self).0 == damaged(old(self).0 as nat, attack.0 as nat),
            lethal == is_lethal(old(self).0 as nat, attack.0 as nat),
    {
        let before = self.0;
        self.0 = self.0.saturating_sub(attack.0);
        before > 0 && self.0 == 0
    }
}

} // verus!
