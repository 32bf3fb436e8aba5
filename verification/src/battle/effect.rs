//! Effects: the instant changes an event carries, and the lasting ones
//! that stay on an entity for some rounds.

use vstd::prelude::*;

use crate::battle::ability::lines1;
use crate::battle::ability::lines2;
use crate::battle::ability::texts;
use crate::battle::model::kit_model;
use crate::battle::component::copy_components;
use crate::battle::component::Component;
use crate::battle::component::ObjType;
use crate::battle::Phase;
use crate::battle::PushStrength;
use crate::battle::Rounds;
use crate::battle::Strength;
use crate::map::PosHex;

verus! {

/// How long a lasting effect stays.
#[derive(Clone, Copy, Debug, PartialEq, Eq, Structural)]
pub enum Duration {
    Forever,
    Rounds(Rounds),
}

impl Duration {
    /// Whether no round is left.
    pub fn is_over(self) -> (r: bool)
        ensures
            r == (self == Duration::Rounds(Rounds(0))),
    {
        match self {
            Duration::Rounds(n) => n.0 == 0,
            Duration::Forever => false,
        }
    }
}

/// A lasting effect on an entity, with the rounds it has left and the
/// phase in which they are counted down.
#[derive(Clone, Copy, Debug, PartialEq, Eq, Structural)]
pub struct Timed {
    pub duration: Duration,
    pub phase: Phase,
    pub effect: Lasting,
}

/// Instant effects.
#[derive(Debug, PartialEq)]
pub enum Effect {
    Create(Create),
    Kill(Kill),
    Vanish,
    Stun,
    Heal(Heal),
    Wound(Wound),
    Knockback(Knockback),
    FlyOff(FlyOff),
    Throw(Throw),
    Dodge(Dodge),
    Bloodlust,
}

impl Effect {
    /// Name of the kind of effect.
    pub open spec fn name(self) -> Seq<char> {
        match self {
            Effect::Create(_) => "Create"@,
            Effect::Kill(_) => "Kill"@,
            Effect::Vanish => "Vanish"@,
            Effect::Stun => "Stun"@,
            Effect::Heal(_) => "Heal"@,
            Effect::Wound(_) => "Wound"@,
            Effect::Knockback(_) => "Knockback"@,
            Effect::FlyOff(_) => "Fly off"@,
            Effect::Throw(_) => "Throw"@,
            Effect::Dodge(_) => "Dodge"@,
            Effect::Bloodlust => "Bloodlust"@,
        }
    }

    pub fn to_str(&self) -> (s: &'static str)
        ensures
            s@ == self.name(),
    {
        match *self {
            Effect::Create(_) => "Create",
            Effect::Kill(_) => "Kill",
            Effect::Vanish => "Vanish",
            Effect::Stun => "Stun",
            Effect::Heal(_) => "Heal",
            Effect::Wound(_) => "Wound",
            Effect::Knockback(_) => "Knockback",
            Effect::FlyOff(_) => "Fly off",
            Effect::Throw(_) => "Throw",
            Effect::Dodge(_) => "Dodge",
            Effect::Bloodlust => "Bloodlust",
        }
    }
}

impl Clone for Effect {
    fn clone(&self) -> (c: Effect)
        ensures
            c@ == self@,
    {
        match self {
            Effect::Create(e) => Effect::Create(e.clone()),
            Effect::Kill(e) => Effect::Kill(*e),
            Effect::Vanish => Effect::Vanish,
            Effect::Stun => Effect::Stun,
            Effect::Heal(e) => Effect::Heal(*e),
            Effect::Wound(e) => Effect::Wound(*e),
            Effect::Knockback(e) => Effect::Knockback(*e),
            Effect::FlyOff(e) => Effect::FlyOff(*e),
            Effect::Throw(e) => Effect::Throw(*e),
            Effect::Dodge(e) => Effect::Dodge(*e),
            Effect::Bloodlust => Effect::Bloodlust,
        }
    }
}

/// The kinds of lasting effect.
#[derive(Clone, Copy, Debug, PartialEq, Eq, Hash, Structural)]
pub enum Lasting {
    Poison,
    Stun,
    Bloodlust,
}

/// Name of a lasting effect as shown to the player.
pub open spec fn lasting_title(effect: Lasting) -> Seq<char> {
    match effect {
        Lasting::Poison => "Poison"@,
        Lasting::Stun => "Stun"@,
        Lasting::Bloodlust => "Bloodlust"@,
    }
}

/// The lines that describe a lasting effect to the player.
pub open spec fn lasting_description(effect: Lasting) -> Seq<Seq<char>> {
    match effect {
        Lasting::Poison => seq![
            "Removes one strength every turn."@,
            "Doesn't kill: ends if only one strength is left."@,
        ],
        Lasting::Stun => seq!["Removes all Actions/Moves/Jokers every turn."@],
        Lasting::Bloodlust => seq!["Gives three additional Jokers every turn."@],
    }
}

impl Lasting {
    pub fn title(&self) -> (s: &'static str)
        ensures
            s@ == lasting_title(*self),
    {
        match *self {
            Lasting::Poison => "Poison",
            Lasting::Stun => "Stun",
            Lasting::Bloodlust => "Bloodlust",
        }
    }

    pub fn description(&self) -> (lines: Vec<String>)
        ensures
            texts(lines@) == lasting_description(*self),
    {
        match self {
            Lasting::Poison => lines2(
                "Removes one strength every turn.",
                "Doesn't kill: ends if only one strength is left.",
            ),
            Lasting::Stun => lines1("Removes all Actions/Moves/Jokers every turn."),
            Lasting::Bloodlust => lines1("Gives three additional Jokers every turn."),
        }
    }
}

/// The target loses `damage` points of strength.
#[derive(Clone, Copy, Debug, PartialEq, Eq, Structural)]
pub struct Wound {
    pub damage: Strength,
    pub attacker_pos: Option<PosHex>,
}

/// The target dies.
#[derive(Clone, Copy, Debug, PartialEq, Eq, Structural)]
pub struct Kill {
    pub attacker_pos: Option<PosHex>,
}

/// The target regains up to `strength` points and loses its lasting effects.
#[derive(Clone, Copy, PartialEq, Eq, Debug, Structural)]
pub struct Heal {
    pub strength: Strength,
}

/// A new entity appears with the given components.
#[derive(Debug, PartialEq)]
pub struct Create {
    pub pos: PosHex,
    pub prototype: ObjType,
    pub components: Vec<Component>,
    pub is_teleported: bool,
}

impl Clone for Create {
    fn clone(&self) -> (c: Create)
        ensures
            c.pos == self.pos,
            c.prototype@ == self.prototype@,
            c.is_teleported == self.is_teleported,
            kit_model(c.components@) == kit_model(self.components@),
    {
        Create {
            pos: self.pos,
            prototype: self.prototype.clone(),
            components: copy_components(&self.components),
            is_teleported: self.is_teleported,
        }
    }
}

/// The target flies from one tile to another.
#[derive(Clone, Copy, Debug, PartialEq, Eq, Structural)]
pub struct FlyOff {
    pub from: PosHex,
    pub to: PosHex,
    pub strength: PushStrength,
}

/// The target is thrown from one tile to another.
#[derive(Clone, Copy, Debug, PartialEq, Eq, Structural)]
pub struct Throw {
    pub from: PosHex,
    pub to: PosHex,
}

/// The target evades an attack.
#[derive(Clone, Copy, Debug, PartialEq, Eq, Structural)]
pub struct Dodge {
    pub attacker_pos: PosHex,
}

/// The target is pushed from one tile to another.
#[derive(Clone, Copy, Debug, PartialEq, Eq, Structural)]
pub struct Knockback {
    pub from: PosHex,
    pub to: PosHex,
    pub strength: PushStrength,
}

} // verus!
