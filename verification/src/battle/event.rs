//! Events: what a command, a passive ability or a lasting effect does,
//! told as one active event and the effects that come with it.

use vstd::prelude::*;

use crate::battle::ability::Ability;
use crate::battle::ability::PassiveAbility;
use crate::battle::component::PlannedAbility;
use crate::battle::component::WeaponType;
use crate::battle::effect::Effect;
use crate::battle::effect::Lasting;
use crate::battle::effect::Timed;
use crate::battle::movement::Path;
use crate::battle::state::BattleResult;
use crate::battle::Id;
use crate::battle::Moves;
use crate::battle::PlayerId;
use crate::map::PosHex;

verus! {

/// One step of a battle: what happens, who takes part in it, and what
/// follows from it for each entity it touches.
#[derive(Debug, PartialEq)]
pub struct Event {
    /// What happens.
    pub active_event: ActiveEvent,
    /// The entities that act.
    pub actor_ids: Vec<Id>,
    /// The instant effects, by the entity they fall on.
    pub instant_effects: Vec<(Id, Vec<Effect>)>,
    /// The lasting effects that begin, by the entity they fall on.
    pub timed_effects: Vec<(Id, Vec<Timed>)>,
    /// The abilities that are planned, by the entity that will use them.
    pub scheduled_abilities: Vec<(Id, Vec<PlannedAbility>)>,
}

#[derive(Debug, PartialEq)]
pub enum ActiveEvent {
    Create,
    EndBattle(EndBattle),
    EndTurn(EndTurn),
    BeginTurn(BeginTurn),
    UseAbility(UseAbility),
    UsePassiveAbility(UsePassiveAbility),
    MoveTo(MoveTo),
    Attack(Attack),
    EffectTick(EffectTick),
    EffectEnd(EffectEnd),
}

#[derive(Debug, PartialEq)]
pub struct MoveTo {
    pub path: Path,
    pub cost: Moves,
    pub id: Id,
}

#[derive(Clone, Copy, Debug, PartialEq, Eq, Structural)]
pub enum AttackMode {
    Active,
    Reactive,
}

#[derive(Clone, Copy, Debug, PartialEq, Eq, Structural)]
pub struct Attack {
    pub attacker_id: Id,
    pub target_id: Id,
    pub mode: AttackMode,
    pub weapon_type: WeaponType,
}

#[derive(Clone, Copy, Debug, PartialEq, Eq, Structural)]
pub struct EndTurn {
    pub player_id: PlayerId,
}

#[derive(Clone, Copy, Debug, PartialEq, Eq, Structural)]
pub struct BeginTurn {
    pub player_id: PlayerId,
}

#[derive(Debug, PartialEq)]
pub struct EndBattle {
    pub result: BattleResult,
}

#[derive(Clone, Copy, Debug, PartialEq, Eq, Structural)]
pub struct UseAbility {
    pub id: Id,
    pub pos: PosHex,
    pub ability: Ability,
}

#[derive(Clone, Copy, Debug, PartialEq, Eq, Structural)]
pub struct UsePassiveAbility {
    pub id: Id,
    pub pos: PosHex,
    pub ability: PassiveAbility,
}

#[derive(Clone, Copy, Debug, PartialEq, Eq, Structural)]
pub struct EffectTick {
    pub id: Id,
    pub effect: Lasting,
}

#[derive(Clone, Copy, Debug, PartialEq, Eq, Structural)]
pub struct EffectEnd {
    pub id: Id,
    pub effect: Lasting,
}

} // verus!
