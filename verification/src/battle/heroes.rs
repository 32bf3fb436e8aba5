//! The kinds of entity a battle knows: the heroes of the player, the
//! daemons that oppose them, and the bombs and hazards of the board.

use vstd::prelude::*;

use crate::battle::ability::Ability;
use crate::battle::ability::PassiveAbility;
use crate::battle::ability::RechargeableAbility;
use crate::battle::ability::Status;
use crate::battle::component::Abilities;
use crate::battle::component::Agent;
use crate::battle::component::Blocker;
use crate::battle::component::Component;
use crate::battle::component::PassiveAbilities;
use crate::battle::component::Strength;
use crate::battle::component::Summoner;
use crate::battle::component::WeaponType;
use crate::battle::model::kit_model;
use crate::battle::model::kit_ok;
use crate::battle::model::ComponentModel;
use crate::battle::scenario::Line;
use crate::battle::Accuracy;
use crate::battle::Attacks;
use crate::battle::Jokers;
use crate::battle::MovePoints;
use crate::battle::Moves;
use crate::battle::Weight;
use crate::utils::same_text;

verus! {

/// The heroes a player can field.
#[derive(Debug, Clone, Copy, PartialEq, Eq, Structural)]
pub enum Hero {
    Spearman,
    EliteSpearman,
    HeavySpearman,
    Swordsman,
    EliteSwordsman,
    HeavySwordsman,
    Hammerman,
    HeavyHammerman,
    Alchemist,
    Healer,
    Firer,
}

/// The hero with the given number.
pub open spec fn hero_of_index(i: int) -> Hero {
    if i == 0 {
        Hero::Spearman
    } else if i == 1 {
        Hero::EliteSpearman
    } else if i == 2 {
        Hero::HeavySpearman
    } else if i == 3 {
        Hero::Swordsman
    } else if i == 4 {
        Hero::EliteSwordsman
    } else if i == 5 {
        Hero::HeavySwordsman
    } else if i == 6 {
        Hero::Hammerman
    } else if i == 7 {
        Hero::HeavyHammerman
    } else if i == 8 {
        Hero::Alchemist
    } else if i == 9 {
        Hero::Healer
    } else {
        Hero::Firer
    }
}

/// The number of a hero.
pub open spec fn index_of_hero(hero: Hero) -> int {
    match hero {
        Hero::Spearman => 0,
        Hero::EliteSpearman => 1,
        Hero::HeavySpearman => 2,
        Hero::Swordsman => 3,
        Hero::EliteSwordsman => 4,
        Hero::HeavySwordsman => 5,
        Hero::Hammerman => 6,
        Hero::HeavyHammerman => 7,
        Hero::Alchemist => 8,
        Hero::Healer => 9,
        Hero::Firer => 10,
    }
}

/// The name of a hero's kind.
pub open spec fn hero_name(hero: Hero) -> Seq<char> {
    match hero {
        Hero::Spearman => "spearman"@,
        Hero::EliteSpearman => "elite_spearman"@,
        Hero::HeavySpearman => "heavy_spearman"@,
        Hero::Swordsman => "swordsman"@,
        Hero::EliteSwordsman => "elite_swordsman"@,
        Hero::HeavySwordsman => "heavy_swordsman"@,
        Hero::Hammerman => "hammerman"@,
        Hero::HeavyHammerman => "heavy_hammerman"@,
        Hero::Alchemist => "alchemist"@,
        Hero::Healer => "healer"@,
        Hero::Firer => "firer"@,
    }
}

/// Whether a hero's kind has the given name.
pub open spec fn names_hero(name: Seq<char>) -> bool {
    exists|hero: Hero| hero_name(hero) == name
}

/// The line of battle a hero stands in.
pub open spec fn hero_line(hero: Hero) -> Line {
    match hero {
        Hero::Spearman | Hero::EliteSpearman | Hero::HeavySpearman => Line::Middle,
        Hero::Swordsman
        | Hero::EliteSwordsman
        | Hero::HeavySwordsman
        | Hero::Hammerman
        | Hero::HeavyHammerman => Line::Front,
        Hero::Alchemist | Hero::Firer | Hero::Healer => Line::Back,
    }
}

/// Every hero has a number below eleven that names it again, and a
/// kind that the battle knows.
pub proof fn lemma_hero_index(hero: Hero)
    ensures
        0 <= index_of_hero(hero) < 11,
        hero_of_index(index_of_hero(hero)) == hero,
        known_prototype(hero_name(hero)),
{
}

impl Hero {
    pub fn from_index(i: u8) -> (hero: Hero)
        requires
            i < 11,
        ensures
            hero == hero_of_index(i as int),
            index_of_hero(hero) == i,
    {
        if i == 0 {
            Hero::Spearman
        } else if i == 1 {
            Hero::EliteSpearman
        } else if i == 2 {
            Hero::HeavySpearman
        } else if i == 3 {
            Hero::Swordsman
        } else if i == 4 {
            Hero::EliteSwordsman
        } else if i == 5 {
            Hero::HeavySwordsman
        } else if i == 6 {
            Hero::Hammerman
        } else if i == 7 {
            Hero::HeavyHammerman
        } else if i == 8 {
            Hero::Alchemist
        } else if i == 9 {
            Hero::Healer
        } else {
            Hero::Firer
        }
    }

    /// The hero whose kind has the given name.
    pub fn from_name(name: &str) -> (hero: Hero)
        requires
            names_hero(name@),
        ensures
            hero_name(hero) == name@,
    {
        if same_text(name, "spearman") {
            Hero::Spearman
        } else if same_text(name, "elite_spearman") {
            Hero::EliteSpearman
        } else if same_text(name, "heavy_spearman") {
            Hero::HeavySpearman
        } else if same_text(name, "swordsman") {
            Hero::Swordsman
        } else if same_text(name, "elite_swordsman") {
            Hero::EliteSwordsman
        } else if same_text(name, "heavy_swordsman") {
            Hero::HeavySwordsman
        } else if same_text(name, "hammerman") {
            Hero::Hammerman
        } else if same_text(name, "heavy_hammerman") {
            Hero::HeavyHammerman
        } else if same_text(name, "alchemist") {
            Hero::Alchemist
        } else if same_text(name, "healer") {
            Hero::Healer
        } else {
            Hero::Firer
        }
    }

    pub fn to_index(&self) -> (i: u8)
        ensures
            i == index_of_hero(*self),
            i < 11,
    {
        match self {
            Hero::Spearman => 0,
            Hero::EliteSpearman => 1,
            Hero::HeavySpearman => 2,
            Hero::Swordsman => 3,
            Hero::EliteSwordsman => 4,
            Hero::HeavySwordsman => 5,
            Hero::Hammerman => 6,
            Hero::HeavyHammerman => 7,
            Hero::Alchemist => 8,
            Hero::Healer => 9,
            Hero::Firer => 10,
        }
    }

    pub fn name(&self) -> (name: String)
        ensures
            name@ == hero_name(*self),
    {
        match self {
            Hero::Spearman => "spearman".to_owned(),
            Hero::EliteSpearman => "elite_spearman".to_owned(),
            Hero::HeavySpearman => "heavy_spearman".to_owned(),
            Hero::Swordsman => "swordsman".to_owned(),
            Hero::EliteSwordsman => "elite_swordsman".to_owned(),
            Hero::HeavySwordsman => "heavy_swordsman".to_owned(),
            Hero::Hammerman => "hammerman".to_owned(),
            Hero::HeavyHammerman => "heavy_hammerman".to_owned(),
            Hero::Alchemist => "alchemist".to_owned(),
            Hero::Healer => "healer".to_owned(),
            Hero::Firer => "firer".to_owned(),
        }
    }

    pub fn line(&self) -> (line: Line)
        ensures
            line == hero_line(*self),
    {
        match self {
            Hero::Spearman | Hero::EliteSpearman | Hero::HeavySpearman => Line::Middle,
            Hero::Swordsman
            | Hero::EliteSwordsman
            | Hero::HeavySwordsman
            | Hero::Hammerman
            | Hero::HeavyHammerman => Line::Front,
            Hero::Alchemist | Hero::Firer | Hero::Healer => Line::Back,
        }
    }
}

/// A number of heroes of one kind, the kind given by its number.
#[derive(Clone, Copy, Debug, PartialEq, Eq, Structural)]
pub struct HeroObject {
    pub index: u8,
    pub count: u8,
}

impl HeroObject {
    pub fn new(hero: Hero, count: u8) -> (group: HeroObject)
        ensures
            group.index == index_of_hero(hero),
            group.count == count,
    {
        HeroObject { index: hero.to_index(), count }
    }

    pub fn new_index(index: u8, count: u8) -> (group: HeroObject)
        ensures
            group == (HeroObject { index, count }),
    {
        HeroObject { index, count }
    }
}

/// The abilities of a list, each ready for use.
pub open spec fn ready(abilities: Seq<Ability>) -> Seq<RechargeableAbility> {
    Seq::new(
        abilities.len(),
        |i: int| RechargeableAbility { ability: abilities[i], status: Status::Ready },
    )
}

/// The components of an agent, in the order in which every kind lists
/// them: blocker, strength, agent, then the summoner count, the abilities
/// and the passive abilities of those that have any.
pub open spec fn agent_kit_model(
    weight: Weight,
    strength: i32,
    agent: Agent,
    summoned: Option<u32>,
    abilities: Seq<Ability>,
    passives: Seq<PassiveAbility>,
) -> Seq<ComponentModel> {
    let base = seq![
        ComponentModel::Blocker(Blocker { weight }),
        ComponentModel::Strength(
            Strength {
                base_strength: crate::battle::Strength(strength),
                strength: crate::battle::Strength(strength),
            },
        ),
        ComponentModel::Agent(agent),
    ];
    let with_summoner = match summoned {
        Some(count) => base.push(ComponentModel::Summoner(Summoner { count })),
        None => base,
    };
    let with_abilities = if abilities.len() > 0 {
        with_summoner.push(ComponentModel::Abilities(ready(abilities)))
    } else {
        with_summoner
    };
    if passives.len() > 0 {
        with_abilities.push(ComponentModel::PassiveAbilities(passives))
    } else {
        with_abilities
    }
}

/// The components of an object that only blocks its tile.
pub open spec fn blocker_kit_model(weight: Weight) -> Seq<ComponentModel> {
    seq![ComponentModel::Blocker(Blocker { weight })]
}

/// The components of a hazard that only has a passive ability.
pub open spec fn hazard_kit_model(passive: PassiveAbility) -> Seq<ComponentModel> {
    seq![ComponentModel::PassiveAbilities(seq![passive])]
}

fn agent_kit(
    weight: Weight,
    strength: i32,
    agent: Agent,
    summoned: Option<u32>,
    abilities: Vec<Ability>,
    passives: Vec<PassiveAbility>,
) -> (kit: Vec<Component>)
    ensures
        kit_model(kit@) == agent_kit_model(
            weight,
            strength,
            agent,
            summoned,
            abilities@,
            passives@,
        ),
        strength > 0 && agent.wf() ==> kit_ok(kit_model(kit@)),
{
    let mut kit: Vec<Component> = Vec::new();
    kit.push(Component::Blocker(Blocker { weight }));
    kit.push(
        Component::Strength(
            Strength {
                base_strength: crate::battle::Strength(strength),
                strength: crate::battle::Strength(strength),
            },
        ),
    );
    kit.push(Component::Agent(agent));
    if let Some(count) = summoned {
        kit.push(Component::Summoner(Summoner { count }));
    }
    if abilities.len() > 0 {
        let mut list: Vec<RechargeableAbility> = Vec::new();
        let mut i: usize = 0;
        while i < abilities.len()
            invariant
                i <= abilities@.len(),
                list@ == ready(abilities@.subrange(0, i as int)),
            decreases abilities@.len() - i,
        {
            list.push(RechargeableAbility { ability: abilities[i], status: Status::Ready });
            assert(list@ =~= ready(abilities@.subrange(0, i + 1)));
            i += 1;
        }
        assert(abilities@.subrange(0, i as int) =~= abilities@);
        kit.push(Component::Abilities(Abilities(list)));
    }
    if passives.len() > 0 {
        kit.push(Component::PassiveAbilities(PassiveAbilities(passives)));
    }
    assert(kit_model(kit@) =~= agent_kit_model(
        weight,
        strength,
        agent,
        summoned,
        abilities@,
        passives@,
    ));
    kit
}

fn blocker_kit(weight: Weight) -> (kit: Vec<Component>)
    ensures
        kit_model(kit@) == blocker_kit_model(weight),
        kit_ok(kit_model(kit@)),
{
    let mut kit: Vec<Component> = Vec::new();
    kit.push(Component::Blocker(Blocker { weight }));
    assert(kit_model(kit@) =~= blocker_kit_model(weight));
    kit
}

fn hazard_kit(passive: PassiveAbility) -> (kit: Vec<Component>)
    ensures
        kit_model(kit@) == hazard_kit_model(passive),
        kit_ok(kit_model(kit@)),
{
    let mut list: Vec<PassiveAbility> = Vec::new();
    list.push(passive);
    assert(list@ =~= seq![passive]);
    let mut kit: Vec<Component> = Vec::new();
    kit.push(Component::PassiveAbilities(PassiveAbilities(list)));
    assert(kit_model(kit@) =~= hazard_kit_model(passive));
    kit
}

/// The counters and the weapon of the kind `spearman`.
pub open spec fn spearman_agent() -> Agent {
    Agent {
        moves: Moves(0),
        attacks: Attacks(0),
        jokers: Jokers(1),
        attack_strength: crate::battle::Strength(1),
        attack_distance: 2,
        attack_accuracy: Accuracy(4),
        weapon_type: WeaponType::Pierce,
        move_points: MovePoints(2),
        reactive_attacks: Attacks(2),
        base_moves: Moves(0),
        base_attacks: Attacks(0),
        base_jokers: Jokers(1),
    }
}

/// The components of the kind `spearman`.
pub open spec fn spearman_model() -> Seq<ComponentModel> {
    agent_kit_model(
        Weight::Normal,
        3,
        spearman_agent(),
        None,
        seq![Ability::LongJump],
        Seq::<PassiveAbility>::empty(),
    )
}

/// A fighter with a long reach who can leap far.
pub fn spearman() -> (kit: Vec<Component>)
    ensures
        kit_model(kit@) == spearman_model(),
        kit_ok(kit_model(kit@)),
{
    let agent = Agent {
        moves: Moves(0),
        attacks: Attacks(0),
        jokers: Jokers(1),
        attack_strength: crate::battle::Strength(1),
        attack_distance: 2,
        attack_accuracy: Accuracy(4),
        weapon_type: WeaponType::Pierce,
        move_points: MovePoints(2),
        reactive_attacks: Attacks(2),
        base_moves: Moves(0),
        base_attacks: Attacks(0),
        base_jokers: Jokers(1),
    };
    let abilities: Vec<Ability> = vec![Ability::LongJump];
    assert(abilities@ =~= seq![Ability::LongJump]);
    let passives: Vec<PassiveAbility> = Vec::new();
    agent_kit(Weight::Normal, 3, agent, None, abilities, passives)
}

/// The counters and the weapon of the kind `elite_spearman`.
pub open spec fn elite_spearman_agent() -> Agent {
    Agent {
        moves: Moves(0),
        attacks: Attacks(1),
        jokers: Jokers(1),
        attack_strength: crate::battle::Strength(1),
        attack_distance: 2,
        attack_accuracy: Accuracy(5),
        weapon_type: WeaponType::Pierce,
        move_points: MovePoints(2),
        reactive_attacks: Attacks(2),
        base_moves: Moves(0),
        base_attacks: Attacks(1),
        base_jokers: Jokers(1),
    }
}

/// The components of the kind `elite_spearman`.
pub open spec fn elite_spearman_model() -> Seq<ComponentModel> {
    agent_kit_model(
        Weight::Normal,
        3,
        elite_spearman_agent(),
        None,
        seq![Ability::LongJump],
        Seq::<PassiveAbility>::empty(),
    )
}

/// A seasoned spearman: one attack more and a surer hand.
pub fn elite_spearman() -> (kit: Vec<Component>)
    ensures
        kit_model(kit@) == elite_spearman_model(),
        kit_ok(kit_model(kit@)),
{
    let agent = Agent {
        moves: Moves(0),
        attacks: Attacks(1),
        jokers: Jokers(1),
        attack_strength: crate::battle::Strength(1),
        attack_distance: 2,
        attack_accuracy: Accuracy(5),
        weapon_type: WeaponType::Pierce,
        move_points: MovePoints(2),
        reactive_attacks: Attacks(2),
        base_moves: Moves(0),
        base_attacks: Attacks(1),
        base_jokers: Jokers(1),
    };
    let abilities: Vec<Ability> = vec![Ability::LongJump];
    assert(abilities@ =~= seq![Ability::LongJump]);
    let passives: Vec<PassiveAbility> = Vec::new();
    agent_kit(Weight::Normal, 3, agent, None, abilities, passives)
}

/// The counters and the weapon of the kind `heavy_spearman`.
pub open spec fn heavy_spearman_agent() -> Agent {
    Agent {
        moves: Moves(0),
        attacks: Attacks(1),
        jokers: Jokers(1),
        attack_strength: crate::battle::Strength(1),
        attack_distance: 2,
        attack_accuracy: Accuracy(4),
        weapon_type: WeaponType::Pierce,
        move_points: MovePoints(1),
        reactive_attacks: Attacks(2),
        base_moves: Moves(0),
        base_attacks: Attacks(1),
        base_jokers: Jokers(1),
    }
}

/// The components of the kind `heavy_spearman`.
pub open spec fn heavy_spearman_model() -> Seq<ComponentModel> {
    agent_kit_model(
        Weight::Heavy,
        5,
        heavy_spearman_agent(),
        None,
        Seq::<Ability>::empty(),
        Seq::<PassiveAbility>::empty(),
    )
}

/// An armoured spearman: tougher, slower, and it does not leap.
pub fn heavy_spearman() -> (kit: Vec<Component>)
    ensures
        kit_model(kit@) == heavy_spearman_model(),
        kit_ok(kit_model(kit@)),
{
    let agent = Agent {
        moves: Moves(0),
        attacks: Attacks(1),
        jokers: Jokers(1),
        attack_strength: crate::battle::Strength(1),
        attack_distance: 2,
        attack_accuracy: Accuracy(4),
        weapon_type: WeaponType::Pierce,
        move_points: MovePoints(1),
        reactive_attacks: Attacks(2),
        base_moves: Moves(0),
        base_attacks: Attacks(1),
        base_jokers: Jokers(1),
    };
    let abilities: Vec<Ability> = Vec::new();
    let passives: Vec<PassiveAbility> = Vec::new();
    agent_kit(Weight::Heavy, 5, agent, None, abilities, passives)
}

/// The counters and the weapon of the kind `swordsman`.
pub open spec fn swordsman_agent() -> Agent {
    Agent {
        moves: Moves(1),
        attacks: Attacks(1),
        jokers: Jokers(0),
        attack_strength: crate::battle::Strength(1),
        attack_distance: 1,
        attack_accuracy: Accuracy(4),
        weapon_type: WeaponType::Slash,
        move_points: MovePoints(2),
        reactive_attacks: Attacks(1),
        base_moves: Moves(1),
        base_attacks: Attacks(1),
        base_jokers: Jokers(0),
    }
}

/// The components of the kind `swordsman`.
pub open spec fn swordsman_model() -> Seq<ComponentModel> {
    agent_kit_model(
        Weight::Normal,
        3,
        swordsman_agent(),
        None,
        Seq::<Ability>::empty(),
        Seq::<PassiveAbility>::empty(),
    )
}

/// A plain fighter of the front line.
pub fn swordsman() -> (kit: Vec<Component>)
    ensures
        kit_model(kit@) == swordsman_model(),
        kit_ok(kit_model(kit@)),
{
    let agent = Agent {
        moves: Moves(1),
        attacks: Attacks(1),
        jokers: Jokers(0),
        attack_strength: crate::battle::Strength(1),
        attack_distance: 1,
        attack_accuracy: Accuracy(4),
        weapon_type: WeaponType::Slash,
        move_points: MovePoints(2),
        reactive_attacks: Attacks(1),
        base_moves: Moves(1),
        base_attacks: Attacks(1),
        base_jokers: Jokers(0),
    };
    let abilities: Vec<Ability> = Vec::new();
    let passives: Vec<PassiveAbility> = Vec::new();
    agent_kit(Weight::Normal, 3, agent, None, abilities, passives)
}

/// The counters and the weapon of the kind `elite_swordsman`.
pub open spec fn elite_swordsman_agent() -> Agent {
    Agent {
        moves: Moves(0),
        attacks: Attacks(1),
        jokers: Jokers(1),
        attack_strength: crate::battle::Strength(1),
        attack_distance: 1,
        attack_accuracy: Accuracy(4),
        weapon_type: WeaponType::Slash,
        move_points: MovePoints(2),
        reactive_attacks: Attacks(1),
        base_moves: Moves(0),
        base_attacks: Attacks(1),
        base_jokers: Jokers(1),
    }
}

/// The components of the kind `elite_swordsman`.
pub open spec fn elite_swordsman_model() -> Seq<ComponentModel> {
    agent_kit_model(
        Weight::Normal,
        3,
        elite_swordsman_agent(),
        None,
        seq![Ability::Rage],
        Seq::<PassiveAbility>::empty(),
    )
}

/// A seasoned swordsman who can fly into a rage.
pub fn elite_swordsman() -> (kit: Vec<Component>)
    ensures
        kit_model(kit@) == elite_swordsman_model(),
        kit_ok(kit_model(kit@)),
{
    let agent = Agent {
        moves: Moves(0),
        attacks: Attacks(1),
        jokers: Jokers(1),
        attack_strength: crate::battle::Strength(1),
        attack_distance: 1,
        attack_accuracy: Accuracy(4),
        weapon_type: WeaponType::Slash,
        move_points: MovePoints(2),
        reactive_attacks: Attacks(1),
        base_moves: Moves(0),
        base_attacks: Attacks(1),
        base_jokers: Jokers(1),
    };
    let abilities: Vec<Ability> = vec![Ability::Rage];
    assert(abilities@ =~= seq![Ability::Rage]);
    let passives: Vec<PassiveAbility> = Vec::new();
    agent_kit(Weight::Normal, 3, agent, None, abilities, passives)
}

/// The counters and the weapon of the kind `heavy_swordsman`.
pub open spec fn heavy_swordsman_agent() -> Agent {
    Agent {
        moves: Moves(0),
        attacks: Attacks(1),
        jokers: Jokers(1),
        attack_strength: crate::battle::Strength(1),
        attack_distance: 1,
        attack_accuracy: Accuracy(4),
        weapon_type: WeaponType::Slash,
        move_points: MovePoints(1),
        reactive_attacks: Attacks(1),
        base_moves: Moves(0),
        base_attacks: Attacks(1),
        base_jokers: Jokers(1),
    }
}

/// The components of the kind `heavy_swordsman`.
pub open spec fn heavy_swordsman_model() -> Seq<ComponentModel> {
    agent_kit_model(
        Weight::Heavy,
        5,
        heavy_swordsman_agent(),
        None,
        Seq::<Ability>::empty(),
        Seq::<PassiveAbility>::empty(),
    )
}

/// An armoured swordsman: tougher and slower.
pub fn heavy_swordsman() -> (kit: Vec<Component>)
    ensures
        kit_model(kit@) == heavy_swordsman_model(),
        kit_ok(kit_model(kit@)),
{
    let agent = Agent {
        moves: Moves(0),
        attacks: Attacks(1),
        jokers: Jokers(1),
        attack_strength: crate::battle::Strength(1),
        attack_distance: 1,
        attack_accuracy: Accuracy(4),
        weapon_type: WeaponType::Slash,
        move_points: MovePoints(1),
        reactive_attacks: Attacks(1),
        base_moves: Moves(0),
        base_attacks: Attacks(1),
        base_jokers: Jokers(1),
    };
    let abilities: Vec<Ability> = Vec::new();
    let passives: Vec<PassiveAbility> = Vec::new();
    agent_kit(Weight::Heavy, 5, agent, None, abilities, passives)
}

/// The counters and the weapon of the kind `hammerman`.
pub open spec fn hammerman_agent() -> Agent {
    Agent {
        moves: Moves(1),
        attacks: Attacks(1),
        jokers: Jokers(0),
        attack_strength: crate::battle::Strength(2),
        attack_distance: 1,
        attack_accuracy: Accuracy(3),
        weapon_type: WeaponType::Smash,
        move_points: MovePoints(2),
        reactive_attacks: Attacks(1),
        base_moves: Moves(1),
        base_attacks: Attacks(2),
        base_jokers: Jokers(0),
    }
}

/// The components of the kind `hammerman`.
pub open spec fn hammerman_model() -> Seq<ComponentModel> {
    agent_kit_model(
        Weight::Normal,
        3,
        hammerman_agent(),
        None,
        seq![Ability::Club],
        Seq::<PassiveAbility>::empty(),
    )
}

/// A fighter whose club stuns.
pub fn hammerman() -> (kit: Vec<Component>)
    ensures
        kit_model(kit@) == hammerman_model(),
        kit_ok(kit_model(kit@)),
{
    let agent = Agent {
        moves: Moves(1),
        attacks: Attacks(1),
        jokers: Jokers(0),
        attack_strength: crate::battle::Strength(2),
        attack_distance: 1,
        attack_accuracy: Accuracy(3),
        weapon_type: WeaponType::Smash,
        move_points: MovePoints(2),
        reactive_attacks: Attacks(1),
        base_moves: Moves(1),
        base_attacks: Attacks(2),
        base_jokers: Jokers(0),
    };
    let abilities: Vec<Ability> = vec![Ability::Club];
    assert(abilities@ =~= seq![Ability::Club]);
    let passives: Vec<PassiveAbility> = Vec::new();
    agent_kit(Weight::Normal, 3, agent, None, abilities, passives)
}

/// The counters and the weapon of the kind `heavy_hammerman`.
pub open spec fn heavy_hammerman_agent() -> Agent {
    Agent {
        moves: Moves(0),
        attacks: Attacks(1),
        jokers: Jokers(1),
        attack_strength: crate::battle::Strength(3),
        attack_distance: 1,
        attack_accuracy: Accuracy(3),
        weapon_type: WeaponType::Smash,
        move_points: MovePoints(1),
        reactive_attacks: Attacks(0),
        base_moves: Moves(0),
        base_attacks: Attacks(1),
        base_jokers: Jokers(1),
    }
}

/// The components of the kind `heavy_hammerman`.
pub open spec fn heavy_hammerman_model() -> Seq<ComponentModel> {
    agent_kit_model(
        Weight::Heavy,
        5,
        heavy_hammerman_agent(),
        None,
        seq![Ability::Club],
        Seq::<PassiveAbility>::empty(),
    )
}

/// An armoured hammerman: a heavier blow, no reaction.
pub fn heavy_hammerman() -> (kit: Vec<Component>)
    ensures
        kit_model(kit@) == heavy_hammerman_model(),
        kit_ok(kit_model(kit@)),
{
    let agent = Agent {
        moves: Moves(0),
        attacks: Attacks(1),
        jokers: Jokers(1),
        attack_strength: crate::battle::Strength(3),
        attack_distance: 1,
        attack_accuracy: Accuracy(3),
        weapon_type: WeaponType::Smash,
        move_points: MovePoints(1),
        reactive_attacks: Attacks(0),
        base_moves: Moves(0),
        base_attacks: Attacks(1),
        base_jokers: Jokers(1),
    };
    let abilities: Vec<Ability> = vec![Ability::Club];
    assert(abilities@ =~= seq![Ability::Club]);
    let passives: Vec<PassiveAbility> = Vec::new();
    agent_kit(Weight::Heavy, 5, agent, None, abilities, passives)
}

/// The counters and the weapon of the kind `alchemist`.
pub open spec fn alchemist_agent() -> Agent {
    Agent {
        moves: Moves(1),
        attacks: Attacks(1),
        jokers: Jokers(0),
        attack_strength: crate::battle::Strength(1),
        attack_distance: 0,
        attack_accuracy: Accuracy(4),
        weapon_type: WeaponType::Slash,
        move_points: MovePoints(2),
        reactive_attacks: Attacks(0),
        base_moves: Moves(1),
        base_attacks: Attacks(1),
        base_jokers: Jokers(0),
    }
}

/// The components of the kind `alchemist`.
pub open spec fn alchemist_model() -> Seq<ComponentModel> {
    agent_kit_model(
        Weight::Normal,
        3,
        alchemist_agent(),
        None,
        seq![Ability::Heal],
        Seq::<PassiveAbility>::empty(),
    )
}

/// A healer of the back line.
pub fn alchemist() -> (kit: Vec<Component>)
    ensures
        kit_model(kit@) == alchemist_model(),
        kit_ok(kit_model(kit@)),
{
    let agent = Agent {
        moves: Moves(1),
        attacks: Attacks(1),
        jokers: Jokers(0),
        attack_strength: crate::battle::Strength(1),
        attack_distance: 0,
        attack_accuracy: Accuracy(4),
        weapon_type: WeaponType::Slash,
        move_points: MovePoints(2),
        reactive_attacks: Attacks(0),
        base_moves: Moves(1),
        base_attacks: Attacks(1),
        base_jokers: Jokers(0),
    };
    let abilities: Vec<Ability> = vec![Ability::Heal];
    assert(abilities@ =~= seq![Ability::Heal]);
    let passives: Vec<PassiveAbility> = Vec::new();
    agent_kit(Weight::Normal, 3, agent, None, abilities, passives)
}

/// The counters and the weapon of the kind `healer`.
pub open spec fn healer_agent() -> Agent {
    Agent {
        moves: Moves(1),
        attacks: Attacks(0),
        jokers: Jokers(1),
        attack_strength: crate::battle::Strength(1),
        attack_distance: 0,
        attack_accuracy: Accuracy(4),
        weapon_type: WeaponType::Slash,
        move_points: MovePoints(2),
        reactive_attacks: Attacks(0),
        base_moves: Moves(1),
        base_attacks: Attacks(0),
        base_jokers: Jokers(1),
    }
}

/// The components of the kind `healer`.
pub open spec fn healer_model() -> Seq<ComponentModel> {
    agent_kit_model(
        Weight::Normal,
        4,
        healer_agent(),
        None,
        seq![Ability::GreatHeal],
        Seq::<PassiveAbility>::empty(),
    )
}

/// A stronger healer of the back line.
pub fn healer() -> (kit: Vec<Component>)
    ensures
        kit_model(kit@) == healer_model(),
        kit_ok(kit_model(kit@)),
{
    let agent = Agent {
        moves: Moves(1),
        attacks: Attacks(0),
        jokers: Jokers(1),
        attack_strength: crate::battle::Strength(1),
        attack_distance: 0,
        attack_accuracy: Accuracy(4),
        weapon_type: WeaponType::Slash,
        move_points: MovePoints(2),
        reactive_attacks: Attacks(0),
        base_moves: Moves(1),
        base_attacks: Attacks(0),
        base_jokers: Jokers(1),
    };
    let abilities: Vec<Ability> = vec![Ability::GreatHeal];
    assert(abilities@ =~= seq![Ability::GreatHeal]);
    let passives: Vec<PassiveAbility> = Vec::new();
    agent_kit(Weight::Normal, 4, agent, None, abilities, passives)
}

/// The counters and the weapon of the kind `firer`.
pub open spec fn firer_agent() -> Agent {
    Agent {
        moves: Moves(0),
        attacks: Attacks(1),
        jokers: Jokers(1),
        attack_strength: crate::battle::Strength(1),
        attack_distance: 0,
        attack_accuracy: Accuracy(4),
        weapon_type: WeaponType::Slash,
        move_points: MovePoints(2),
        reactive_attacks: Attacks(0),
        base_moves: Moves(0),
        base_attacks: Attacks(1),
        base_jokers: Jokers(1),
    }
}

/// The components of the kind `firer`.
pub open spec fn firer_model() -> Seq<ComponentModel> {
    agent_kit_model(
        Weight::Normal,
        4,
        firer_agent(),
        None,
        seq![Ability::Bomb, Ability::BombFire],
        Seq::<PassiveAbility>::empty(),
    )
}

/// A thrower of bombs and fire bombs.
pub fn firer() -> (kit: Vec<Component>)
    ensures
        kit_model(kit@) == firer_model(),
        kit_ok(kit_model(kit@)),
{
    let agent = Agent {
        moves: Moves(0),
        attacks: Attacks(1),
        jokers: Jokers(1),
        attack_strength: crate::battle::Strength(1),
        attack_distance: 0,
        attack_accuracy: Accuracy(4),
        weapon_type: WeaponType::Slash,
        move_points: MovePoints(2),
        reactive_attacks: Attacks(0),
        base_moves: Moves(0),
        base_attacks: Attacks(1),
        base_jokers: Jokers(1),
    };
    let abilities: Vec<Ability> = vec![Ability::Bomb, Ability::BombFire];
    assert(abilities@ =~= seq![Ability::Bomb, Ability::BombFire]);
    let passives: Vec<PassiveAbility> = Vec::new();
    agent_kit(Weight::Normal, 4, agent, None, abilities, passives)
}

/// The counters and the weapon of the kind `imp`.
pub open spec fn imp_agent() -> Agent {
    Agent {
        moves: Moves(1),
        attacks: Attacks(1),
        jokers: Jokers(0),
        attack_strength: crate::battle::Strength(1),
        attack_distance: 1,
        attack_accuracy: Accuracy(3),
        weapon_type: WeaponType::Claw,
        move_points: MovePoints(2),
        reactive_attacks: Attacks(1),
        base_moves: Moves(1),
        base_attacks: Attacks(1),
        base_jokers: Jokers(0),
    }
}

/// The components of the kind `imp`.
pub open spec fn imp_model() -> Seq<ComponentModel> {
    agent_kit_model(
        Weight::Normal,
        3,
        imp_agent(),
        None,
        Seq::<Ability>::empty(),
        Seq::<PassiveAbility>::empty(),
    )
}

/// A lesser daemon.
pub fn imp() -> (kit: Vec<Component>)
    ensures
        kit_model(kit@) == imp_model(),
        kit_ok(kit_model(kit@)),
{
    let agent = Agent {
        moves: Moves(1),
        attacks: Attacks(1),
        jokers: Jokers(0),
        attack_strength: crate::battle::Strength(1),
        attack_distance: 1,
        attack_accuracy: Accuracy(3),
        weapon_type: WeaponType::Claw,
        move_points: MovePoints(2),
        reactive_attacks: Attacks(1),
        base_moves: Moves(1),
        base_attacks: Attacks(1),
        base_jokers: Jokers(0),
    };
    let abilities: Vec<Ability> = Vec::new();
    let passives: Vec<PassiveAbility> = Vec::new();
    agent_kit(Weight::Normal, 3, agent, None, abilities, passives)
}

/// The counters and the weapon of the kind `imp_bomber`.
pub open spec fn imp_bomber_agent() -> Agent {
    Agent {
        moves: Moves(1),
        attacks: Attacks(1),
        jokers: Jokers(0),
        attack_strength: crate::battle::Strength(1),
        attack_distance: 1,
        attack_accuracy: Accuracy(3),
        weapon_type: WeaponType::Claw,
        move_points: MovePoints(2),
        reactive_attacks: Attacks(0),
        base_moves: Moves(1),
        base_attacks: Attacks(1),
        base_jokers: Jokers(0),
    }
}

/// The components of the kind `imp_bomber`.
pub open spec fn imp_bomber_model() -> Seq<ComponentModel> {
    agent_kit_model(
        Weight::Normal,
        2,
        imp_bomber_agent(),
        None,
        seq![Ability::BombDemonic],
        Seq::<PassiveAbility>::empty(),
    )
}

/// A lesser daemon that throws demonic bombs.
pub fn imp_bomber() -> (kit: Vec<Component>)
    ensures
        kit_model(kit@) == imp_bomber_model(),
        kit_ok(kit_model(kit@)),
{
    let agent = Agent {
        moves: Moves(1),
        attacks: Attacks(1),
        jokers: Jokers(0),
        attack_strength: crate::battle::Strength(1),
        attack_distance: 1,
        attack_accuracy: Accuracy(3),
        weapon_type: WeaponType::Claw,
        move_points: MovePoints(2),
        reactive_attacks: Attacks(0),
        base_moves: Moves(1),
        base_attacks: Attacks(1),
        base_jokers: Jokers(0),
    };
    let abilities: Vec<Ability> = vec![Ability::BombDemonic];
    assert(abilities@ =~= seq![Ability::BombDemonic]);
    let passives: Vec<PassiveAbility> = Vec::new();
    agent_kit(Weight::Normal, 2, agent, None, abilities, passives)
}

/// The counters and the weapon of the kind `toxic_imp`.
pub open spec fn toxic_imp_agent() -> Agent {
    Agent {
        moves: Moves(1),
        attacks: Attacks(1),
        jokers: Jokers(0),
        attack_strength: crate::battle::Strength(0),
        attack_distance: 1,
        attack_accuracy: Accuracy(3),
        weapon_type: WeaponType::Claw,
        move_points: MovePoints(2),
        reactive_attacks: Attacks(0),
        base_moves: Moves(1),
        base_attacks: Attacks(1),
        base_jokers: Jokers(0),
    }
}

/// The components of the kind `toxic_imp`.
pub open spec fn toxic_imp_model() -> Seq<ComponentModel> {
    agent_kit_model(
        Weight::Normal,
        2,
        toxic_imp_agent(),
        None,
        Seq::<Ability>::empty(),
        seq![PassiveAbility::PoisonAttack],
    )
}

/// A lesser daemon whose claws poison.
pub fn toxic_imp() -> (kit: Vec<Component>)
    ensures
        kit_model(kit@) == toxic_imp_model(),
        kit_ok(kit_model(kit@)),
{
    let agent = Agent {
        moves: Moves(1),
        attacks: Attacks(1),
        jokers: Jokers(0),
        attack_strength: crate::battle::Strength(0),
        attack_distance: 1,
        attack_accuracy: Accuracy(3),
        weapon_type: WeaponType::Claw,
        move_points: MovePoints(2),
        reactive_attacks: Attacks(0),
        base_moves: Moves(1),
        base_attacks: Attacks(1),
        base_jokers: Jokers(0),
    };
    let abilities: Vec<Ability> = Vec::new();
    let passives: Vec<PassiveAbility> = vec![PassiveAbility::PoisonAttack];
    assert(passives@ =~= seq![PassiveAbility::PoisonAttack]);
    agent_kit(Weight::Normal, 2, agent, None, abilities, passives)
}

/// The counters and the weapon of the kind `imp_summoner`.
pub open spec fn imp_summoner_agent() -> Agent {
    Agent {
        moves: Moves(0),
        attacks: Attacks(0),
        jokers: Jokers(1),
        attack_strength: crate::battle::Strength(2),
        attack_distance: 1,
        attack_accuracy: Accuracy(4),
        weapon_type: WeaponType::Smash,
        move_points: MovePoints(2),
        reactive_attacks: Attacks(1),
        base_moves: Moves(0),
        base_attacks: Attacks(0),
        base_jokers: Jokers(1),
    }
}

/// The components of the kind `imp_summoner`.
pub open spec fn imp_summoner_model() -> Seq<ComponentModel> {
    agent_kit_model(
        Weight::Normal,
        7,
        imp_summoner_agent(),
        Some(2u32),
        seq![Ability::Summon, Ability::Bloodlust],
        seq![PassiveAbility::Regenerate],
    )
}

/// A daemon that summons lesser ones, casts bloodlust and regenerates.
pub fn imp_summoner() -> (kit: Vec<Component>)
    ensures
        kit_model(kit@) == imp_summoner_model(),
        kit_ok(kit_model(kit@)),
{
    let agent = Agent {
        moves: Moves(0),
        attacks: Attacks(0),
        jokers: Jokers(1),
        attack_strength: crate::battle::Strength(2),
        attack_distance: 1,
        attack_accuracy: Accuracy(4),
        weapon_type: WeaponType::Smash,
        move_points: MovePoints(2),
        reactive_attacks: Attacks(1),
        base_moves: Moves(0),
        base_attacks: Attacks(0),
        base_jokers: Jokers(1),
    };
    let abilities: Vec<Ability> = vec![Ability::Summon, Ability::Bloodlust];
    assert(abilities@ =~= seq![Ability::Summon, Ability::Bloodlust]);
    let passives: Vec<PassiveAbility> = vec![PassiveAbility::Regenerate];
    assert(passives@ =~= seq![PassiveAbility::Regenerate]);
    agent_kit(Weight::Normal, 7, agent, Some(2u32), abilities, passives)
}

/// The components of the kind `bomb_demonic`.
pub open spec fn bomb_demonic_model() -> Seq<ComponentModel> {
    blocker_kit_model(Weight::Normal)
}

/// A demonic bomb lying on its tile.
pub fn bomb_demonic() -> (kit: Vec<Component>)
    ensures
        kit_model(kit@) == bomb_demonic_model(),
        kit_ok(kit_model(kit@)),
{
    blocker_kit(Weight::Normal)
}

/// The components of the kind `bomb_poison`.
pub open spec fn bomb_poison_model() -> Seq<ComponentModel> {
    blocker_kit_model(Weight::Normal)
}

/// A poison bomb lying on its tile.
pub fn bomb_poison() -> (kit: Vec<Component>)
    ensures
        kit_model(kit@) == bomb_poison_model(),
        kit_ok(kit_model(kit@)),
{
    blocker_kit(Weight::Normal)
}

/// The components of the kind `bomb_push`.
pub open spec fn bomb_push_model() -> Seq<ComponentModel> {
    blocker_kit_model(Weight::Normal)
}

/// A push bomb lying on its tile.
pub fn bomb_push() -> (kit: Vec<Component>)
    ensures
        kit_model(kit@) == bomb_push_model(),
        kit_ok(kit_model(kit@)),
{
    blocker_kit(Weight::Normal)
}

/// The components of the kind `bomb_damage`.
pub open spec fn bomb_damage_model() -> Seq<ComponentModel> {
    blocker_kit_model(Weight::Normal)
}

/// A bomb lying on its tile.
pub fn bomb_damage() -> (kit: Vec<Component>)
    ensures
        kit_model(kit@) == bomb_damage_model(),
        kit_ok(kit_model(kit@)),
{
    blocker_kit(Weight::Normal)
}

/// The components of the kind `bomb_fire`.
pub open spec fn bomb_fire_model() -> Seq<ComponentModel> {
    blocker_kit_model(Weight::Normal)
}

/// A fire bomb lying on its tile.
pub fn bomb_fire() -> (kit: Vec<Component>)
    ensures
        kit_model(kit@) == bomb_fire_model(),
        kit_ok(kit_model(kit@)),
{
    blocker_kit(Weight::Normal)
}

/// The components of the kind `poison_cloud`.
pub open spec fn poison_cloud_model() -> Seq<ComponentModel> {
    hazard_kit_model(PassiveAbility::Poison)
}

/// A cloud that poisons who stands in it.
pub fn poison_cloud() -> (kit: Vec<Component>)
    ensures
        kit_model(kit@) == poison_cloud_model(),
        kit_ok(kit_model(kit@)),
{
    hazard_kit(PassiveAbility::Poison)
}

/// The components of the kind `fire`.
pub open spec fn fire_model() -> Seq<ComponentModel> {
    hazard_kit_model(PassiveAbility::Burn)
}

/// A fire that burns who stands in it.
pub fn fire() -> (kit: Vec<Component>)
    ensures
        kit_model(kit@) == fire_model(),
        kit_ok(kit_model(kit@)),
{
    hazard_kit(PassiveAbility::Burn)
}

/// The components of the kind `boulder`.
pub open spec fn boulder_model() -> Seq<ComponentModel> {
    blocker_kit_model(Weight::Heavy)
}

/// A heavy rock.
pub fn boulder() -> (kit: Vec<Component>)
    ensures
        kit_model(kit@) == boulder_model(),
        kit_ok(kit_model(kit@)),
{
    blocker_kit(Weight::Heavy)
}

/// The components of the kind `spike_trap`.
pub open spec fn spike_trap_model() -> Seq<ComponentModel> {
    hazard_kit_model(PassiveAbility::SpikeTrap)
}

/// Spikes that wound who steps on them.
pub fn spike_trap() -> (kit: Vec<Component>)
    ensures
        kit_model(kit@) == spike_trap_model(),
        kit_ok(kit_model(kit@)),
{
    hazard_kit(PassiveAbility::SpikeTrap)
}

/// Whether a kind of entity has the given name.
pub open spec fn known_prototype(name: Seq<char>) -> bool {
    ||| name == "spearman"@
    ||| name == "elite_spearman"@
    ||| name == "heavy_spearman"@
    ||| name == "swordsman"@
    ||| name == "elite_swordsman"@
    ||| name == "heavy_swordsman"@
    ||| name == "hammerman"@
    ||| name == "heavy_hammerman"@
    ||| name == "alchemist"@
    ||| name == "healer"@
    ||| name == "firer"@
    ||| name == "imp"@
    ||| name == "imp_bomber"@
    ||| name == "toxic_imp"@
    ||| name == "imp_summoner"@
    ||| name == "bomb_poison"@
    ||| name == "bomb_push"@
    ||| name == "bomb_demonic"@
    ||| name == "bomb_damage"@
    ||| name == "bomb_fire"@
    ||| name == "poison_cloud"@
    ||| name == "fire"@
    ||| name == "boulder"@
    ||| name == "spike_trap"@
}

/// The components of the kind with the given name. A name that no
/// kind has gets those of the last kind of the list; no function of
/// the crate asks for the components of such a name.
pub open spec fn prototype_model(name: Seq<char>) -> Seq<ComponentModel> {
    if name == "spearman"@ {
        spearman_model()
    } else if name == "elite_spearman"@ {
        elite_spearman_model()
    } else if name == "heavy_spearman"@ {
        heavy_spearman_model()
    } else if name == "swordsman"@ {
        swordsman_model()
    } else if name == "elite_swordsman"@ {
        elite_swordsman_model()
    } else if name == "heavy_swordsman"@ {
        heavy_swordsman_model()
    } else if name == "hammerman"@ {
        hammerman_model()
    } else if name == "heavy_hammerman"@ {
        heavy_hammerman_model()
    } else if name == "alchemist"@ {
        alchemist_model()
    } else if name == "healer"@ {
        healer_model()
    } else if name == "firer"@ {
        firer_model()
    } else if name == "imp"@ {
        imp_model()
    } else if name == "imp_bomber"@ {
        imp_bomber_model()
    } else if name == "toxic_imp"@ {
        toxic_imp_model()
    } else if name == "imp_summoner"@ {
        imp_summoner_model()
    } else if name == "bomb_poison"@ {
        bomb_poison_model()
    } else if name == "bomb_push"@ {
        bomb_push_model()
    } else if name == "bomb_demonic"@ {
        bomb_demonic_model()
    } else if name == "bomb_damage"@ {
        bomb_damage_model()
    } else if name == "bomb_fire"@ {
        bomb_fire_model()
    } else if name == "poison_cloud"@ {
        poison_cloud_model()
    } else if name == "fire"@ {
        fire_model()
    } else if name == "boulder"@ {
        boulder_model()
    } else {
        spike_trap_model()
    }
}

/// Whether a kind of entity has the given name.
pub fn is_known_prototype(name: &str) -> (r: bool)
    ensures
        r == known_prototype(name@),
{
    same_text(name, "spearman")
        || same_text(name, "elite_spearman")
        || same_text(name, "heavy_spearman")
        || same_text(name, "swordsman")
        || same_text(name, "elite_swordsman")
        || same_text(name, "heavy_swordsman")
        || same_text(name, "hammerman")
        || same_text(name, "heavy_hammerman")
        || same_text(name, "alchemist")
        || same_text(name, "healer")
        || same_text(name, "firer")
        || same_text(name, "imp")
        || same_text(name, "imp_bomber")
        || same_text(name, "toxic_imp")
        || same_text(name, "imp_summoner")
        || same_text(name, "bomb_poison")
        || same_text(name, "bomb_push")
        || same_text(name, "bomb_demonic")
        || same_text(name, "bomb_damage")
        || same_text(name, "bomb_fire")
        || same_text(name, "poison_cloud")
        || same_text(name, "fire")
        || same_text(name, "boulder")
        || same_text(name, "spike_trap")
}

/// The components of the kind with the given name: those that the
/// function of that name returns.
pub fn prototype_for(name: &str) -> (kit: Vec<Component>)
    requires
        known_prototype(name@),
    ensures
        kit_model(kit@) == prototype_model(name@),
        kit_ok(kit_model(kit@)),
{
    if same_text(name, "spearman") {
        spearman()
    } else if same_text(name, "elite_spearman") {
        elite_spearman()
    } else if same_text(name, "heavy_spearman") {
        heavy_spearman()
    } else if same_text(name, "swordsman") {
        swordsman()
    } else if same_text(name, "elite_swordsman") {
        elite_swordsman()
    } else if same_text(name, "heavy_swordsman") {
        heavy_swordsman()
    } else if same_text(name, "hammerman") {
        hammerman()
    } else if same_text(name, "heavy_hammerman") {
        heavy_hammerman()
    } else if same_text(name, "alchemist") {
        alchemist()
    } else if same_text(name, "healer") {
        healer()
    } else if same_text(name, "firer") {
        firer()
    } else if same_text(name, "imp") {
        imp()
    } else if same_text(name, "imp_bomber") {
        imp_bomber()
    } else if same_text(name, "toxic_imp") {
        toxic_imp()
    } else if same_text(name, "imp_summoner") {
        imp_summoner()
    } else if same_text(name, "bomb_poison") {
        bomb_poison()
    } else if same_text(name, "bomb_push") {
        bomb_push()
    } else if same_text(name, "bomb_demonic") {
        bomb_demonic()
    } else if same_text(name, "bomb_damage") {
        bomb_damage()
    } else if same_text(name, "bomb_fire") {
        bomb_fire()
    } else if same_text(name, "poison_cloud") {
        poison_cloud()
    } else if same_text(name, "fire") {
        fire()
    } else if same_text(name, "boulder") {
        boulder()
    } else {
        spike_trap()
    }
}

/// The number of a kind of entity in the list of all kinds, or the
/// length of that list for a name that is none of them.
pub open spec fn prototype_number(name: Seq<char>) -> int {
    if name == "spearman"@ {
        0
    } else if name == "elite_spearman"@ {
        1
    } else if name == "heavy_spearman"@ {
        2
    } else if name == "swordsman"@ {
        3
    } else if name == "elite_swordsman"@ {
        4
    } else if name == "heavy_swordsman"@ {
        5
    } else if name == "hammerman"@ {
        6
    } else if name == "heavy_hammerman"@ {
        7
    } else if name == "alchemist"@ {
        8
    } else if name == "healer"@ {
        9
    } else if name == "firer"@ {
        10
    } else if name == "imp"@ {
        11
    } else if name == "imp_bomber"@ {
        12
    } else if name == "toxic_imp"@ {
        13
    } else if name == "imp_summoner"@ {
        14
    } else if name == "bomb_poison"@ {
        15
    } else if name == "bomb_push"@ {
        16
    } else if name == "bomb_demonic"@ {
        17
    } else if name == "bomb_damage"@ {
        18
    } else if name == "bomb_fire"@ {
        19
    } else if name == "poison_cloud"@ {
        20
    } else if name == "fire"@ {
        21
    } else if name == "boulder"@ {
        22
    } else if name == "spike_trap"@ {
        23
    } else {
        24
    }
}

/// No two kinds of entity share a name.
pub proof fn lemma_prototype_names_differ()
    ensures
        prototype_number("spearman"@) == 0,
        prototype_number("elite_spearman"@) == 1,
        prototype_number("heavy_spearman"@) == 2,
        prototype_number("swordsman"@) == 3,
        prototype_number("elite_swordsman"@) == 4,
        prototype_number("heavy_swordsman"@) == 5,
        prototype_number("hammerman"@) == 6,
        prototype_number("heavy_hammerman"@) == 7,
        prototype_number("alchemist"@) == 8,
        prototype_number("healer"@) == 9,
        prototype_number("firer"@) == 10,
        prototype_number("imp"@) == 11,
        prototype_number("imp_bomber"@) == 12,
        prototype_number("toxic_imp"@) == 13,
        prototype_number("imp_summoner"@) == 14,
        prototype_number("bomb_poison"@) == 15,
        prototype_number("bomb_push"@) == 16,
        prototype_number("bomb_demonic"@) == 17,
        prototype_number("bomb_damage"@) == 18,
        prototype_number("bomb_fire"@) == 19,
        prototype_number("poison_cloud"@) == 20,
        prototype_number("fire"@) == 21,
        prototype_number("boulder"@) == 22,
        prototype_number("spike_trap"@) == 23,
{
    reveal_strlit("spearman");
    reveal_strlit("elite_spearman");
    reveal_strlit("heavy_spearman");
    reveal_strlit("swordsman");
    reveal_strlit("elite_swordsman");
    reveal_strlit("heavy_swordsman");
    reveal_strlit("hammerman");
    reveal_strlit("heavy_hammerman");
    reveal_strlit("alchemist");
    reveal_strlit("healer");
    reveal_strlit("firer");
    reveal_strlit("imp");
    reveal_strlit("imp_bomber");
    reveal_strlit("toxic_imp");
    reveal_strlit("imp_summoner");
    reveal_strlit("bomb_poison");
    reveal_strlit("bomb_push");
    reveal_strlit("bomb_demonic");
    reveal_strlit("bomb_damage");
    reveal_strlit("bomb_fire");
    reveal_strlit("poison_cloud");
    reveal_strlit("fire");
    reveal_strlit("boulder");
    reveal_strlit("spike_trap");
    assert("spearman"@.len() == 8);
    assert("elite_spearman"@.len() == 14);
    assert("heavy_spearman"@.len() == 14);
    assert("swordsman"@.len() == 9);
    assert("elite_swordsman"@.len() == 15);
    assert("heavy_swordsman"@.len() == 15);
    assert("hammerman"@.len() == 9);
    assert("heavy_hammerman"@.len() == 15);
    assert("alchemist"@.len() == 9);
    assert("healer"@.len() == 6);
    assert("firer"@.len() == 5);
    assert("imp"@.len() == 3);
    assert("imp_bomber"@.len() == 10);
    assert("toxic_imp"@.len() == 9);
    assert("imp_summoner"@.len() == 12);
    assert("bomb_poison"@.len() == 11);
    assert("bomb_push"@.len() == 9);
    assert("bomb_demonic"@.len() == 12);
    assert("bomb_damage"@.len() == 11);
    assert("bomb_fire"@.len() == 9);
    assert("poison_cloud"@.len() == 12);
    assert("fire"@.len() == 4);
    assert("boulder"@.len() == 7);
    assert("spike_trap"@.len() == 10);
    assert("heavy_spearman"@[0] != "elite_spearman"@[0]);
    assert("heavy_swordsman"@[0] != "elite_swordsman"@[0]);
    assert("hammerman"@[0] != "swordsman"@[0]);
    assert("heavy_hammerman"@[0] != "elite_swordsman"@[0]);
    assert("heavy_hammerman"@[6] != "heavy_swordsman"@[6]);
    assert("alchemist"@[0] != "swordsman"@[0]);
    assert("alchemist"@[0] != "hammerman"@[0]);
    assert("toxic_imp"@[0] != "swordsman"@[0]);
    assert("toxic_imp"@[0] != "hammerman"@[0]);
    assert("toxic_imp"@[0] != "alchemist"@[0]);
    assert("bomb_push"@[0] != "swordsman"@[0]);
    assert("bomb_push"@[0] != "hammerman"@[0]);
    assert("bomb_push"@[0] != "alchemist"@[0]);
    assert("bomb_push"@[0] != "toxic_imp"@[0]);
    assert("bomb_demonic"@[0] != "imp_summoner"@[0]);
    assert("bomb_damage"@[5] != "bomb_poison"@[5]);
    assert("bomb_fire"@[0] != "swordsman"@[0]);
    assert("bomb_fire"@[0] != "hammerman"@[0]);
    assert("bomb_fire"@[0] != "alchemist"@[0]);
    assert("bomb_fire"@[0] != "toxic_imp"@[0]);
    assert("bomb_fire"@[5] != "bomb_push"@[5]);
    assert("poison_cloud"@[0] != "imp_summoner"@[0]);
    assert("poison_cloud"@[0] != "bomb_demonic"@[0]);
    assert("spike_trap"@[0] != "imp_bomber"@[0]);
}

} // verus!
