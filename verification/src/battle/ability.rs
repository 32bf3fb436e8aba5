//! Abilities: the active ones an agent spends an attack on, with their
//! cooldown, and the passive ones that tiles and attacks trigger.

use vstd::prelude::*;

use crate::battle::Rounds;

verus! {

/// Active ability.
#[derive(Clone, Copy, Debug, PartialEq, Eq, Hash, Structural)]
pub enum Ability {
    Knockback,
    Club,
    Jump,
    LongJump,
    Poison,
    ExplodePush,
    ExplodeDamage,
    ExplodeFire,
    ExplodePoison,
    Bomb,
    BombPush,
    BombFire,
    BombPoison,
    BombDemonic,
    Summon,
    Vanish,
    Dash,
    Rage,
    Heal,
    GreatHeal,
    Bloodlust,
}

/// Whether an ability can be used, or for how many rounds it still rests.
#[derive(Clone, Copy, Debug, PartialEq, Eq, Structural)]
pub enum Status {
    Ready,
    Cooldown(Rounds),
}

impl Status {
    /// The status one round later: a cooldown loses a round and becomes
    /// `Ready` when none is left.
    pub open spec fn updated(self) -> Status {
        match self {
            Status::Ready => Status::Ready,
            Status::Cooldown(rounds) => if rounds.decreased().0 == 0 {
                Status::Ready
            } else {
                Status::Cooldown(rounds.decreased())
            },
        }
    }

    /// Rounds until the ability is ready again.
    pub open spec fn rounds_left(self) -> int {
        match self {
            Status::Ready => 0,
            Status::Cooldown(rounds) => rounds.0 as int,
        }
    }

    /// A cooldown counts a positive number of rounds.
    pub open spec fn wf(self) -> bool {
        match self {
            Status::Ready => true,
            Status::Cooldown(rounds) => rounds.0 >= 1,
        }
    }

    /// Lets one round pass.
    pub fn update(&mut self)
        ensures
            *final(self) == old(self).updated(),
    {
        let next: Status = match *self {
            Status::Ready => Status::Ready,
            Status::Cooldown(rounds) => {
                let mut rounds: Rounds = rounds;
                rounds.decrease();
                if rounds.is_zero() {
                    Status::Ready
                } else {
                    Status::Cooldown(rounds)
                }
            },
        };
        *self = next;
    }
}

/// A passing round never lengthens a cooldown: it takes exactly one round
/// off a running one, ends it at zero, and leaves a ready ability ready.
pub proof fn lemma_cooldown_only_decreases(status: Status)
    requires
        status.wf(),
    ensures
        status.updated().wf(),
        status.updated().rounds_left() <= status.rounds_left(),
        status is Cooldown ==> status.updated().rounds_left() == status.rounds_left() - 1,
        status is Ready ==> status.updated() is Ready,
        status.rounds_left() == 1 ==> status.updated() is Ready,
{
}

/// An ability of an agent together with its cooldown.
#[derive(Clone, Copy, Debug, PartialEq, Eq, Structural)]
pub struct RechargeableAbility {
    pub ability: Ability,
    pub status: Status,
}

impl RechargeableAbility {
    /// The ability, ready for use.
    pub fn from(ability: Ability) -> (r: RechargeableAbility)
        ensures
            r == (RechargeableAbility { ability, status: Status::Ready }),
    {
        RechargeableAbility { ability, status: Status::Ready }
    }
}

/// Rounds an ability rests after it was used.
pub open spec fn base_cooldown_rounds(ability: Ability) -> int {
    match ability {
        Ability::Knockback | Ability::Dash => 1,
        Ability::LongJump | Ability::Summon | Ability::Rage | Ability::Heal | Ability::Bloodlust => 3,
        _ => 2,
    }
}

/// Name of an ability as shown to the player.
pub open spec fn ability_title(ability: Ability) -> Seq<char> {
    match ability {
        Ability::Knockback => "Knockback"@,
        Ability::Club => "Club"@,
        Ability::Jump => "Jump"@,
        Ability::LongJump => "Long Jump"@,
        Ability::Poison => "Poison"@,
        Ability::ExplodePush => "Explode Push"@,
        Ability::ExplodeDamage => "Explode Damage"@,
        Ability::ExplodeFire => "Explode Fire"@,
        Ability::ExplodePoison => "Explode Poison"@,
        Ability::Bomb => "Bomb"@,
        Ability::BombPush => "Bomb Push"@,
        Ability::BombFire => "Fire Bomb"@,
        Ability::BombPoison => "Poison Bomb"@,
        Ability::BombDemonic => "Demonic Bomb"@,
        Ability::Vanish => "Vanish"@,
        Ability::Summon => "Summon"@,
        Ability::Dash => "Dash"@,
        Ability::Rage => "Rage"@,
        Ability::Heal => "Heal"@,
        Ability::GreatHeal => "Great Heal"@,
        Ability::Bloodlust => "Bloodlust"@,
    }
}

/// The lines that describe an ability to the player.
pub open spec fn ability_description(ability: Ability) -> Seq<Seq<char>> {
    match ability {
        Ability::Knockback => seq![
            "Push an adjusted object one tile away."@,
            "Can move objects with a weight up to Normal."@,
        ],
        Ability::Club => seq!["Stun an adjusted agent for one turn."@],
        Ability::Jump => seq![
            "Jump for up to 2 tiles."@,
            "Note: Triggers reaction attacks on landing."@,
        ],
        Ability::LongJump => seq![
            "Jump for up to 3 tiles."@,
            "Note: Triggers reaction attacks on landing."@,
        ],
        Ability::Bomb => seq![
            "Throw a bomb that explodes on the next turn."@,
            "Damages all agents on the neighbour tiles."@,
            "Can be thrown for up to 3 tiles."@,
        ],
        Ability::BombPush => seq![
            "Throw a bomb that explodes *instantly*."@,
            "Pushes all agents on the neighbour tiles."@,
            "Can be thrown for up to 3 tiles."@,
            "Can move objects with a weight up to Normal."@,
        ],
        Ability::BombFire => seq![
            "Throw a bomb that explodes on the next turn."@,
            "Creates 7 fires."@,
            "Can be thrown for up to 3 tiles."@,
        ],
        Ability::BombPoison => seq![
            "Throw a bomb that explodes on the next turn."@,
            "Creates 7 poison clouds."@,
            "Can be thrown for up to 3 tiles."@,
        ],
        Ability::BombDemonic => seq![
            "Throw a demonic bomb"@,
            "that explodes on the next turn."@,
            "Damages all agents on the neighbour tiles."@,
            "Can be thrown for up to 3 tiles."@,
        ],
        Ability::Dash => seq![
            "Move one tile"@,
            "without triggering any reaction attacks."@,
        ],
        Ability::Rage => seq!["Instantly receive 3 additional attacks."@],
        Ability::Heal => seq![
            "Heal 2 strength points."@,
            "Also, removes 'Poison' and 'Stun' lasting effects."@,
        ],
        Ability::GreatHeal => seq![
            "Heal 3 strength points."@,
            "Also, removes 'Poison' and 'Stun' lasting effects."@,
        ],
        Ability::Summon => seq![
            "Summon a few lesser daemons."@,
            "The number of summoned daemons increases"@,
            "by one with every use (up to six)."@,
        ],
        Ability::Bloodlust => seq![
            "Cast the 'Bloodlust' lasting effect on a friendly agent."@,
            "This agent will receive three additional Jokers"@,
            "for a few turns."@,
        ],
        Ability::Poison
        | Ability::Vanish
        | Ability::ExplodePush
        | Ability::ExplodeDamage
        | Ability::ExplodeFire
        | Ability::ExplodePoison => seq!["<internal ability>"@],
    }
}

/// The texts of a list of lines.
pub open spec fn texts(lines: Seq<String>) -> Seq<Seq<char>> {
    Seq::new(lines.len(), |i: int| lines[i]@)
}

/// A list of one line.
pub fn lines1(a: &str) -> (v: Vec<String>)
    ensures
        texts(v@) == seq![a@],
{
    let mut v: Vec<String> = Vec::new();
    v.push(a.to_owned());
    assert(texts(v@) =~= seq![a@]);
    v
}

/// A list of two lines.
pub fn lines2(a: &str, b: &str) -> (v: Vec<String>)
    ensures
        texts(v@) == seq![a@, b@],
{
    let mut v: Vec<String> = Vec::new();
    v.push(a.to_owned());
    v.push(b.to_owned());
    assert(texts(v@) =~= seq![a@, b@]);
    v
}

/// A list of three lines.
pub fn lines3(a: &str, b: &str, c: &str) -> (v: Vec<String>)
    ensures
        texts(v@) == seq![a@, b@, c@],
{
    let mut v: Vec<String> = Vec::new();
    v.push(a.to_owned());
    v.push(b.to_owned());
    v.push(c.to_owned());
    assert(texts(v@) =~= seq![a@, b@, c@]);
    v
}

/// A list of four lines.
pub fn lines4(a: &str, b: &str, c: &str, d: &str) -> (v: Vec<String>)
    ensures
        texts(v@) == seq![a@, b@, c@, d@],
{
    let mut v: Vec<String> = Vec::new();
    v.push(a.to_owned());
    v.push(b.to_owned());
    v.push(c.to_owned());
    v.push(d.to_owned());
    assert(texts(v@) =~= seq![a@, b@, c@, d@]);
    v
}

impl Ability {
    pub fn title(&self) -> (t: String)
        ensures
            t@ == ability_title(*self),
    {
        match self {
            Ability::Knockback => "Knockback".to_owned(),
            Ability::Club => "Club".to_owned(),
            Ability::Jump => "Jump".to_owned(),
            Ability::LongJump => "Long Jump".to_owned(),
            Ability::Poison => "Poison".to_owned(),
            Ability::ExplodePush => "Explode Push".to_owned(),
            Ability::ExplodeDamage => "Explode Damage".to_owned(),
            Ability::ExplodeFire => "Explode Fire".to_owned(),
            Ability::ExplodePoison => "Explode Poison".to_owned(),
            Ability::Bomb => "Bomb".to_owned(),
            Ability::BombPush => "Bomb Push".to_owned(),
            Ability::BombFire => "Fire Bomb".to_owned(),
            Ability::BombPoison => "Poison Bomb".to_owned(),
            Ability::BombDemonic => "Demonic Bomb".to_owned(),
            Ability::Vanish => "Vanish".to_owned(),
            Ability::Summon => "Summon".to_owned(),
            Ability::Dash => "Dash".to_owned(),
            Ability::Rage => "Rage".to_owned(),
            Ability::Heal => "Heal".to_owned(),
            Ability::GreatHeal => "Great Heal".to_owned(),
            Ability::Bloodlust => "Bloodlust".to_owned(),
        }
    }

    /// Rounds the ability rests after it was used; at least one.
    pub fn base_cooldown(&self) -> (rounds: Rounds)
        ensures
            rounds.0 == base_cooldown_rounds(*self),
            1 <= rounds.0 <= 3,
    {
        let n: i32 = match self {
            Ability::Knockback => 1,
            Ability::Club => 2,
            Ability::Jump => 2,
            Ability::LongJump => 3,
            Ability::Poison => 2,
            Ability::ExplodePush => 2,
            Ability::ExplodeDamage => 2,
            Ability::ExplodeFire => 2,
            Ability::ExplodePoison => 2,
            Ability::Bomb => 2,
            Ability::BombPush => 2,
            Ability::BombFire => 2,
            Ability::BombPoison => 2,
            Ability::BombDemonic => 2,
            Ability::Vanish => 2,
            Ability::Summon => 3,
            Ability::Dash => 1,
            Ability::Rage => 3,
            Ability::Heal => 3,
            Ability::GreatHeal => 2,
            Ability::Bloodlust => 3,
        };
        Rounds(n)
    }

    pub fn description(&self) -> (lines: Vec<String>)
        ensures
            texts(lines@) == ability_description(*self),
    {
        match *self {
            Ability::Knockback => lines2(
                "Push an adjusted object one tile away.",
                "Can move objects with a weight up to Normal.",
            ),
            Ability::Club => lines1("Stun an adjusted agent for one turn."),
            Ability::Jump => lines2(
                "Jump for up to 2 tiles.",
                "Note: Triggers reaction attacks on landing.",
            ),
            Ability::LongJump => lines2(
                "Jump for up to 3 tiles.",
                "Note: Triggers reaction attacks on landing.",
            ),
            Ability::Bomb => lines3(
                "Throw a bomb that explodes on the next turn.",
                "Damages all agents on the neighbour tiles.",
                "Can be thrown for up to 3 tiles.",
            ),
            Ability::BombPush => lines4(
                "Throw a bomb that explodes *instantly*.",
                "Pushes all agents on the neighbour tiles.",
                "Can be thrown for up to 3 tiles.",
                "Can move objects with a weight up to Normal.",
            ),
            Ability::BombFire => lines3(
                "Throw a bomb that explodes on the next turn.",
                "Creates 7 fires.",
                "Can be thrown for up to 3 tiles.",
            ),
            Ability::BombPoison => lines3(
                "Throw a bomb that explodes on the next turn.",
                "Creates 7 poison clouds.",
                "Can be thrown for up to 3 tiles.",
            ),
            Ability::BombDemonic => lines4(
                "Throw a demonic bomb",
                "that explodes on the next turn.",
                "Damages all agents on the neighbour tiles.",
                "Can be thrown for up to 3 tiles.",
            ),
            Ability::Dash => lines2("Move one tile", "without triggering any reaction attacks."),
            Ability::Rage => lines1("Instantly receive 3 additional attacks."),
            Ability::Heal => lines2(
                "Heal 2 strength points.",
                "Also, removes 'Poison' and 'Stun' lasting effects.",
            ),
            Ability::GreatHeal => lines2(
                "Heal 3 strength points.",
                "Also, removes 'Poison' and 'Stun' lasting effects.",
            ),
            Ability::Summon => lines3(
                "Summon a few lesser daemons.",
                "The number of summoned daemons increases",
                "by one with every use (up to six).",
            ),
            Ability::Bloodlust => lines3(
                "Cast the 'Bloodlust' lasting effect on a friendly agent.",
                "This agent will receive three additional Jokers",
                "for a few turns.",
            ),
            Ability::Poison
            | Ability::Vanish
            | Ability::ExplodePush
            | Ability::ExplodeDamage
            | Ability::ExplodeFire
            | Ability::ExplodePoison => lines1("<internal ability>"),
        }
    }
}

/// An ability that works without being used.
#[derive(Clone, Copy, Debug, PartialEq, Eq, Structural)]
pub enum PassiveAbility {
    HeavyImpact,
    /// Declared for later use; it has no effect.
    SpawnPoisonCloudOnDeath,
    Burn,
    Poison,
    SpikeTrap,
    PoisonAttack,
    Regenerate,
}

/// Name of a passive ability as shown to the player.
pub open spec fn passive_title(ability: PassiveAbility) -> Seq<char> {
    match ability {
        PassiveAbility::HeavyImpact => "Heavy Impact"@,
        PassiveAbility::SpawnPoisonCloudOnDeath => "Spawn Poison Cloud on Death"@,
        PassiveAbility::Burn => "Burn"@,
        PassiveAbility::Poison => "Poison"@,
        PassiveAbility::SpikeTrap => "Spike Trap"@,
        PassiveAbility::PoisonAttack => "Poison Attack"@,
        PassiveAbility::Regenerate => "Regenerate"@,
    }
}

/// The lines that describe a passive ability to the player.
pub open spec fn passive_description(ability: PassiveAbility) -> Seq<Seq<char>> {
    match ability {
        PassiveAbility::HeavyImpact => seq![
            "Regular attack throws the target one tile away."@,
            "Works on targets with a weight for up to Normal."@,
        ],
        PassiveAbility::SpawnPoisonCloudOnDeath => seq!["Not implemented yet."@],
        PassiveAbility::Burn => seq![
            "Damages agents that enter into or begin their turn in the same tile."@,
        ],
        PassiveAbility::Poison => seq![
            "Poisons agents that enter into or begin their turn in the same tile."@,
        ],
        PassiveAbility::SpikeTrap => seq![
            "Damages agents that enter into or begin their turn in the same tile."@,
        ],
        PassiveAbility::PoisonAttack => seq!["Regular attack poisons the target."@],
        PassiveAbility::Regenerate => seq!["Regenerates 1 strength points every turn."@],
    }
}

impl PassiveAbility {
    pub fn title(self) -> (t: String)
        ensures
            t@ == passive_title(self),
    {
        match self {
            PassiveAbility::HeavyImpact => "Heavy Impact".to_owned(),
            PassiveAbility::SpawnPoisonCloudOnDeath => "Spawn Poison Cloud on Death".to_owned(),
            PassiveAbility::Burn => "Burn".to_owned(),
            PassiveAbility::Poison => "Poison".to_owned(),
            PassiveAbility::SpikeTrap => "Spike Trap".to_owned(),
            PassiveAbility::PoisonAttack => "Poison Attack".to_owned(),
            PassiveAbility::Regenerate => "Regenerate".to_owned(),
        }
    }

    pub fn description(self) -> (lines: Vec<String>)
        ensures
            texts(lines@) == passive_description(self),
    {
        match self {
            PassiveAbility::HeavyImpact => lines2(
                "Regular attack throws the target one tile away.",
                "Works on targets with a weight for up to Normal.",
            ),
            PassiveAbility::SpawnPoisonCloudOnDeath => lines1("Not implemented yet."),
            PassiveAbility::Burn => lines1(
                "Damages agents that enter into or begin their turn in the same tile.",
            ),
            PassiveAbility::Poison => lines1(
                "Poisons agents that enter into or begin their turn in the same tile.",
            ),
            PassiveAbility::SpikeTrap => lines1(
                "Damages agents that enter into or begin their turn in the same tile.",
            ),
            PassiveAbility::PoisonAttack => lines1("Regular attack poisons the target."),
            PassiveAbility::Regenerate => lines1("Regenerates 1 strength points every turn."),
        }
    }
}

} // verus!
