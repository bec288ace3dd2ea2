//! Damage classes and their narrative flavor text.

use vstd::prelude::*;

verus! {

/// Flavor catalog entry for one damage class: the phrasings used when an
/// attack of this class lands, and when it kills.
#[derive(Debug)]
pub struct DamageInfo {
    pub name: String,
    pub attacks: Vec<AttackFlavor>,
    pub deaths: Vec<DeathFlavor>,
}

impl DamageInfo {
    /// A usable entry offers at least one attack phrasing and one death
    /// phrasing, so a uniform choice among them is always possible.
    pub open spec fn wf(&self) -> bool {
        self.attacks@.len() >= 1 && self.deaths@.len() >= 1
    }
}

/// One attack phrasing, as (before, after) fragments wrapped around the
/// participants' names: one variant per combat role combination.
#[derive(Debug)]
pub struct AttackFlavor {
    /// The player attacks a monster.
    pub player: (String, String),
    /// A monster attacks another monster.
    pub monster_m: (String, String),
    /// A monster attacks the player.
    pub monster_p: (String, String),
}

/// One death phrasing: the full player-death line, and the fragment appended
/// to a monster's name when it dies.
#[derive(Debug)]
pub struct DeathFlavor {
    pub player: String,
    pub monster: String,
}

} // verus!
