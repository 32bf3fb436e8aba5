//! Validation of commands: whether a command is legal in a state. It
//! reads the state and never changes it.

use vstd::prelude::*;

use crate::battle::ability::Ability;
use crate::battle::ability::Status;
use crate::battle::command;
use crate::battle::command::Command;
use crate::battle::command::CommandModel;
use crate::battle::component::Agent;
use crate::battle::state;
use crate::battle::state::find_status;
use crate::battle::state::status_of;
use crate::battle::model::Model;
use crate::battle::state::State;
use crate::battle::Id;
use crate::battle::PushStrength;
use crate::battle::Weight;
use crate::battle::BAD_ID;
use crate::map::distance_hex;
use crate::map::hex_distance;
use crate::map::reported_distance;
use crate::map::PosHex;

verus! {

/// Why a command is refused.
#[derive(Debug, Clone, Copy, PartialEq, Eq, Structural)]
pub enum Error {
    NotEnoughMovePoints,
    NotEnoughStrength,
    BadActorId,
    BadTargetId,
    BadTargetType,
    TileIsBlocked,
    DistanceIsTooBig,
    DistanceIsTooSmall,
    BadDistance,
    CanNotCommandEnemyAgents,
    NotEnoughMoves,
    NotEnoughAttacks,
    AbilityIsNotReady,
    NoSuchAbility,
    NoTarget,
    BadPos,
    BadActorType,
    BattleEnded,
}

/// How far a bomb can be thrown.
pub const BOMB_THROW_DISTANCE_MAX: i32 = 3;

/// The verdict that lets a command pass.
pub open spec fn pass() -> Result<(), Error> {
    Ok(())
}

/// The verdict that refuses a command.
pub open spec fn refuse(e: Error) -> Result<(), Error> {
    Err(e)
}

/// The first verdict that refuses, or the second one.
pub open spec fn and_then(first: Result<(), Error>, second: Result<(), Error>) -> Result<
    (),
    Error,
> {
    if first.is_err() {
        first
    } else {
        second
    }
}

/// The distance between two tiles as the rules measure it.
pub open spec fn dist(from: PosHex, to: PosHex) -> int {
    reported_distance(hex_distance(from, to))
}

/// The rule that a distance is at least `min`.
pub open spec fn min_distance_rule(from: PosHex, to: PosHex, min: int) -> Result<(), Error> {
    if dist(from, to) < min {
        refuse(Error::DistanceIsTooSmall)
    } else {
        pass()
    }
}

/// The rule that a distance is at most `max`.
pub open spec fn max_distance_rule(from: PosHex, to: PosHex, max: int) -> Result<(), Error> {
    if dist(from, to) > max {
        refuse(Error::DistanceIsTooBig)
    } else {
        pass()
    }
}

/// The rule that a tile is on the board and free of any entity.
pub open spec fn free_tile_rule(state: Model, pos: PosHex) -> Result<(), Error> {
    if !state.on_board(pos) {
        refuse(Error::BadPos)
    } else if state.occupied(pos) {
        refuse(Error::TileIsBlocked)
    } else {
        pass()
    }
}

/// The rule that the entity stands on the tile it is said to stand on.
/// An entity that stands nowhere is no actor.
pub open spec fn object_pos_rule(state: Model, id: Id, expected_pos: PosHex) -> Result<
    (),
    Error,
> {
    if !state.pos.contains_key(id.0 as int) {
        refuse(Error::BadActorId)
    } else if state.pos[id.0 as int].0 != expected_pos {
        refuse(Error::BadPos)
    } else {
        pass()
    }
}

/// The rule that the entity belongs to the player who moves.
pub open spec fn own_agent_rule(state: Model, id: Id) -> Result<(), Error> {
    if state.owned_by(id.0 as int, state.player_id) {
        pass()
    } else {
        refuse(Error::CanNotCommandEnemyAgents)
    }
}

/// The rule that the entity is an agent with an attack or a joker left.
pub open spec fn can_attack_rule(state: Model, id: Id) -> Result<(), Error> {
    if !state.agent.contains_key(id.0 as int) {
        refuse(Error::BadActorId)
    } else if !state.agent[id.0 as int].can_attack() {
        refuse(Error::NotEnoughAttacks)
    } else {
        pass()
    }
}

/// The rule that the entity is an agent with a move or a joker left.
pub open spec fn can_move_rule(state: Model, id: Id) -> Result<(), Error> {
    if !state.agent.contains_key(id.0 as int) {
        refuse(Error::BadActorId)
    } else if !state.agent[id.0 as int].can_move() {
        refuse(Error::NotEnoughMoves)
    } else {
        pass()
    }
}

/// The rule that the agent has the ability and has it ready.
pub open spec fn ability_ready_rule(state: Model, id: Id, ability: Ability) -> Result<(), Error> {
    if !state.abilities.contains_key(id.0 as int) {
        refuse(Error::NoSuchAbility)
    } else {
        match status_of(state.abilities[id.0 as int], ability) {
            None => refuse(Error::NoSuchAbility),
            Some(Status::Ready) => pass(),
            Some(_) => refuse(Error::AbilityIsNotReady),
        }
    }
}

/// The rules of a move: the actor is an agent of the player who moves,
/// has a move or a joker left, and the path ends no farther from its
/// start than the agent's move points reach.
pub open spec fn move_to_rule(state: Model, id: Id, path: Seq<PosHex>) -> Result<(), Error> {
    if !state.agent.contains_key(id.0 as int) {
        refuse(Error::BadActorId)
    } else if !state.owned_by(id.0 as int, state.player_id) {
        refuse(Error::CanNotCommandEnemyAgents)
    } else if !state.agent[id.0 as int].can_move() {
        refuse(Error::NotEnoughMoves)
    } else if dist(path[0], path[path.len() - 1]) > state.agent[id.0 as int].move_points.0 {
        refuse(Error::NotEnoughMovePoints)
    } else {
        pass()
    }
}

/// The rules of an attack: the target is another entity and stands on
/// a tile, the attacker is an agent on a tile within its attack
/// distance of the target, belongs to the player who moves, and has an
/// attack or a joker left.
pub open spec fn attack_rule(state: Model, command: &command::Attack) -> Result<(), Error> {
    if command.attacker_id == command.target_id {
        refuse(Error::BadTargetId)
    } else if !state.pos.contains_key(command.target_id.0 as int) {
        refuse(Error::BadTargetId)
    } else if !state.pos.contains_key(command.attacker_id.0 as int) || !state.agent.contains_key(command.attacker_id.0 as int) {
        refuse(Error::BadActorId)
    } else if dist(state.pos[command.attacker_id.0 as int].0, state.pos[command.target_id.0 as int].0)
        > state.agent[command.attacker_id.0 as int].attack_distance {
        refuse(Error::DistanceIsTooBig)
    } else if !state.owned_by(command.attacker_id.0 as int, state.player_id) {
        refuse(Error::CanNotCommandEnemyAgents)
    } else if !state.agent[command.attacker_id.0 as int].can_attack() {
        refuse(Error::NotEnoughAttacks)
    } else {
        pass()
    }
}

/// The rule of the ability's kind: where the target tile must lie, seen
/// from an actor who stands on `from`, and what must stand there.
pub open spec fn ability_target_rule(state: Model, from: PosHex, pos: PosHex, ability: Ability)
    -> Result<(), Error> {
    match ability {
        Ability::Knockback => if dist(from, pos) < 1 {
            refuse(Error::DistanceIsTooSmall)
        } else if dist(from, pos) > 1 {
            refuse(Error::DistanceIsTooBig)
        } else {
            match state.sole_blocker_on(pos) {
                None => refuse(Error::NoTarget),
                Some(target) => if PushStrength(Weight::Normal).pushes(
                    state.blocker[target.0 as int].weight,
                ) {
                    pass()
                } else {
                    refuse(Error::NotEnoughStrength)
                },
            }
        },
        Ability::Club => if dist(from, pos) != 1 {
            refuse(Error::BadDistance)
        } else if state.first_id_on(pos).0 == BAD_ID {
            refuse(Error::NoTarget)
        } else {
            pass()
        },
        Ability::Jump | Ability::LongJump => if dist(from, pos) < 2 {
            refuse(Error::DistanceIsTooSmall)
        } else if dist(from, pos) > (if ability == Ability::Jump {
            2int
        } else {
            3int
        }) {
            refuse(Error::DistanceIsTooBig)
        } else {
            free_tile_rule(state, pos)
        },
        Ability::Poison => if dist(from, pos) < 1 {
            refuse(Error::DistanceIsTooSmall)
        } else if dist(from, pos) > 3 {
            refuse(Error::DistanceIsTooBig)
        } else if state.sole_blocker_on(pos).is_none() {
            refuse(Error::NoTarget)
        } else {
            pass()
        },
        Ability::Bomb
        | Ability::BombPush
        | Ability::BombFire
        | Ability::BombPoison
        | Ability::BombDemonic => and_then(
            max_distance_rule(from, pos, BOMB_THROW_DISTANCE_MAX as int),
            free_tile_rule(state, pos),
        ),
        Ability::Dash => and_then(max_distance_rule(from, pos, 1), free_tile_rule(state, pos)),
        Ability::Heal | Ability::GreatHeal => if dist(from, pos) > 1 {
            refuse(Error::DistanceIsTooBig)
        } else if state.sole_agent_on(pos).is_none() {
            refuse(Error::NoTarget)
        } else {
            pass()
        },
        Ability::Bloodlust => if state.sole_agent_on(pos).is_none() {
            refuse(Error::NoTarget)
        } else {
            pass()
        },
        Ability::Summon
        | Ability::Rage
        | Ability::ExplodePush
        | Ability::ExplodeDamage
        | Ability::ExplodeFire
        | Ability::ExplodePoison => if from != pos {
            refuse(Error::BadPos)
        } else {
            pass()
        },
        Ability::Vanish => if from != pos {
            refuse(Error::BadPos)
        } else {
            pass()
        },
    }
}

/// The rule that belongs to the ability alone. Only an entity that is
/// no agent can vanish; every other ability needs an actor that stands
/// on a tile, except bloodlust, which only looks at the target.
pub open spec fn ability_rule(state: Model, id: Id, pos: PosHex, ability: Ability) -> Result<
    (),
    Error,
> {
    if ability == Ability::Vanish {
        if state.agent.contains_key(id.0 as int) || !state.pos.contains_key(id.0 as int) {
            refuse(Error::BadActorType)
        } else {
            ability_target_rule(state, state.pos[id.0 as int].0, pos, ability)
        }
    } else if ability == Ability::Bloodlust {
        ability_target_rule(state, pos, pos, ability)
    } else if !state.pos.contains_key(id.0 as int) {
        refuse(Error::BadActorId)
    } else {
        ability_target_rule(state, state.pos[id.0 as int].0, pos, ability)
    }
}

/// The rules of the use of an ability: the actor belongs to the player
/// who moves, is an agent with an attack or a joker left, has the
/// ability and has it ready, and the ability's own rule holds.
pub open spec fn use_ability_rule(state: Model, command: &command::UseAbility) -> Result<
    (),
    Error,
> {
    and_then(
        own_agent_rule(state, command.id),
        and_then(
            can_attack_rule(state, command.id),
            and_then(
                ability_ready_rule(state, command.id, command.ability),
                ability_rule(state, command.id, command.pos, command.ability),
            ),
        ),
    )
}

/// The verdict on a command: no command passes once the battle has a
/// result; else each kind of command has its rules, and the end of a
/// turn always passes.
pub open spec fn checked(state: Model, command: CommandModel) -> Result<(), Error> {
    if state.battle_result.is_some() {
        refuse(Error::BattleEnded)
    } else {
        match command {
            CommandModel::Create(_, pos, _) => free_tile_rule(state, pos),
            CommandModel::MoveTo(id, path) => move_to_rule(state, id, path),
            CommandModel::Attack(c) => attack_rule(state, &c),
            CommandModel::EndTurn => pass(),
            CommandModel::UseAbility(c) => use_ability_rule(state, &c),
        }
    }
}

/// Says whether the command is legal in the state, and why not.
pub fn check(state: &State, command: &Command) -> (r: Result<(), Error>)
    ensures
        r == checked(state@, command@),
{
    if state.battle_result().is_some() {
        return Err(Error::BattleEnded);
    }
    match command {
        Command::Create(command) => check_command_create(state, command),
        Command::MoveTo(command) => check_command_move_to(state, command),
        Command::Attack(command) => check_command_attack(state, command),
        Command::EndTurn(command) => check_command_end_turn(state, command),
        Command::UseAbility(command) => check_command_use_ability(state, command),
    }
}

fn check_command_move_to(state: &State, command: &command::MoveTo) -> (r: Result<(), Error>)
    ensures
        r == move_to_rule(state@, command.id, command.path@),
{
    let agent = try_get_actor(state, command.id)?;
    check_agent_belongs_to_correct_player(state, command.id)?;
    // Check that the agent can move
    if agent.moves.0 == 0 && agent.jokers.0 == 0 {
        return Err(Error::NotEnoughMoves);
    }
    let cost: i32 = distance_hex(command.path.from(), command.path.to());
    if cost > agent.move_points.0 {
        return Err(Error::NotEnoughMovePoints);
    }
    Ok(())
}

fn check_command_create(state: &State, command: &command::Create) -> (r: Result<(), Error>)
    ensures
        r == free_tile_rule(state@, command.pos),
{
    check_not_blocked_and_is_inboard(state, command.pos)
}

pub fn check_command_attack(state: &State, command: &command::Attack) -> (r: Result<(), Error>)
    ensures
        r == attack_rule(state@, command),
{
    if command.attacker_id == command.target_id {
        return Err(Error::BadTargetId);
    }
    let target_pos = match state.parts.pos.get(command.target_id) {
        Some(pos) => pos.0,
        None => return Err(Error::BadTargetId),
    };
    let attacker_pos = match state.parts.pos.get(command.attacker_id) {
        Some(pos) => pos.0,
        None => return Err(Error::BadActorId),
    };
    let attacker_agent = try_get_actor(state, command.attacker_id)?;
    check_max_distance(attacker_pos, target_pos, attacker_agent.attack_distance)?;
    check_agent_belongs_to_correct_player(state, command.attacker_id)?;
    // Check that the agent can attack
    if attacker_agent.attacks.0 == 0 && attacker_agent.jokers.0 == 0 {
        return Err(Error::NotEnoughAttacks);
    }
    Ok(())
}

fn check_command_end_turn(_state: &State, _command: &command::EndTurn) -> (r: Result<(), Error>)
    ensures
        r == pass(),
{
    Ok(())
}

fn check_command_use_ability(state: &State, command: &command::UseAbility) -> (r: Result<
    (),
    Error,
>)
    ensures
        r == use_ability_rule(state@, command),
{
    check_agent_belongs_to_correct_player(state, command.id)?;
    check_agent_can_attack(state, command.id)?;
    check_agent_ability_ready(state, command.id, &command.ability)?;
    match command.ability {
        Ability::Knockback => check_ability_knockback(state, command.id, command.pos),
        Ability::Club => check_ability_club(state, command.id, command.pos),
        Ability::Jump => check_ability_jump(state, command.id, command.pos, 2),
        Ability::LongJump => check_ability_jump(state, command.id, command.pos, 3),
        Ability::Poison => check_ability_poison(state, command.id, command.pos),
        Ability::Bomb
        | Ability::BombPush
        | Ability::BombFire
        | Ability::BombPoison
        | Ability::BombDemonic => check_ability_bomb_throw(state, command.id, command.pos),
        Ability::Summon => check_ability_summon(state, command.id, command.pos),
        Ability::Vanish => check_ability_vanish(state, command.id, command.pos),
        Ability::Dash => check_ability_dash(state, command.id, command.pos),
        Ability::Rage => check_ability_rage(state, command.id, command.pos),
        Ability::Heal | Ability::GreatHeal => check_ability_heal(state, command.id, command.pos),
        Ability::Bloodlust => check_ability_bloodlust(state, command.id, command.pos),
        Ability::ExplodePush
        | Ability::ExplodeDamage
        | Ability::ExplodeFire
        | Ability::ExplodePoison => check_ability_explode(state, command.id, command.pos),
    }
}

/// The tile of an actor, or the refusal of an actor that stands nowhere.
fn actor_pos(state: &State, id: Id) -> (r: Result<PosHex, Error>)
    ensures
        state.parts.pos.has(id) ==> r == Ok::<PosHex, Error>(state.parts.pos.at(id).0),
        !state.parts.pos.has(id) ==> r == Err::<PosHex, Error>(Error::BadActorId),
{
    match state.parts.pos.get(id) {
        Some(pos) => Ok(pos.0),
        None => Err(Error::BadActorId),
    }
}

fn check_ability_knockback(state: &State, id: Id, pos: PosHex) -> (r: Result<(), Error>)
    ensures
        r == ability_rule(state@, id, pos, Ability::Knockback),
{
    let strength = PushStrength(Weight::Normal);
    let selected_pos = actor_pos(state, id)?;
    check_min_distance(selected_pos, pos, 1)?;
    check_max_distance(selected_pos, pos, 1)?;
    let target_id = match state::blocker_id_at_opt(state, pos) {
        Some(id) => id,
        None => return Err(Error::NoTarget),
    };
    proof {
        state::lemma_ids_where(state@, state::Pick::BlockersAt(pos), crate::battle::table::ID_LIMIT as int);
    }
    let target_weight = match state.parts.blocker.get(target_id) {
        Some(blocker) => blocker.weight,
        None => return Err(Error::NoTarget),
    };
    if !strength.can_push(target_weight) {
        return Err(Error::NotEnoughStrength);
    }
    Ok(())
}

fn check_ability_jump(state: &State, id: Id, pos: PosHex, max_distance: i32) -> (r: Result<
    (),
    Error,
>)
    requires
        max_distance == 2 || max_distance == 3,
    ensures
        r == ability_rule(
            state@,
            id,
            pos,
            if max_distance == 2 {
                Ability::Jump
            } else {
                Ability::LongJump
            },
        ),
{
    let agent_pos = actor_pos(state, id)?;
    let dist: i32 = distance_hex(agent_pos, pos);
    if dist < 2 {
        return Err(Error::DistanceIsTooSmall);
    }
    if dist > max_distance {
        return Err(Error::DistanceIsTooBig);
    }
    check_not_blocked_and_is_inboard(state, pos)?;
    Ok(())
}

fn check_ability_club(state: &State, id: Id, pos: PosHex) -> (r: Result<(), Error>)
    ensures
        r == ability_rule(state@, id, pos, Ability::Club),
{
    let selected_pos = actor_pos(state, id)?;
    if distance_hex(selected_pos, pos) != 1 {
        return Err(Error::BadDistance);
    }
    if state::get_id_by_pos(state, pos).0 == BAD_ID {
        return Err(Error::NoTarget);
    }
    Ok(())
}

fn check_ability_poison(state: &State, id: Id, pos: PosHex) -> (r: Result<(), Error>)
    ensures
        r == ability_rule(state@, id, pos, Ability::Poison),
{
    let selected_pos = actor_pos(state, id)?;
    let dist: i32 = distance_hex(selected_pos, pos);
    if dist < 1 {
        return Err(Error::DistanceIsTooSmall);
    }
    if dist > 3 {
        return Err(Error::DistanceIsTooBig);
    }
    if state::blocker_id_at_opt(state, pos).is_none() {
        return Err(Error::NoTarget);
    }
    Ok(())
}

fn check_ability_explode(state: &State, id: Id, pos: PosHex) -> (r: Result<(), Error>)
    ensures
        r == object_pos_rule(state@, id, pos),
{
    check_object_pos(state, id, pos)
}

fn check_ability_bomb_throw(state: &State, id: Id, pos: PosHex) -> (r: Result<(), Error>)
    ensures
        r == ability_rule(state@, id, pos, Ability::Bomb),
{
    let agent_pos = actor_pos(state, id)?;
    check_max_distance(agent_pos, pos, BOMB_THROW_DISTANCE_MAX)?;
    check_not_blocked_and_is_inboard(state, pos)
}

fn check_ability_summon(state: &State, id: Id, pos: PosHex) -> (r: Result<(), Error>)
    ensures
        r == object_pos_rule(state@, id, pos),
{
    check_object_pos(state, id, pos)
}

fn check_ability_vanish(state: &State, id: Id, pos: PosHex) -> (r: Result<(), Error>)
    ensures
        r == ability_rule(state@, id, pos, Ability::Vanish),
{
    if state.parts.agent.get(id).is_some() {
        return Err(Error::BadActorType);
    }
    let actor_pos = match state.parts.pos.get(id) {
        Some(pos) => pos.0,
        None => return Err(Error::BadActorType),
    };
    if pos != actor_pos {
        return Err(Error::BadPos);
    }
    Ok(())
}

fn check_ability_dash(state: &State, id: Id, pos: PosHex) -> (r: Result<(), Error>)
    ensures
        r == ability_rule(state@, id, pos, Ability::Dash),
{
    let agent_pos = actor_pos(state, id)?;
    check_max_distance(agent_pos, pos, 1)?;
    check_not_blocked_and_is_inboard(state, pos)
}

fn check_ability_rage(state: &State, id: Id, pos: PosHex) -> (r: Result<(), Error>)
    ensures
        r == object_pos_rule(state@, id, pos),
{
    check_object_pos(state, id, pos)
}

fn check_ability_heal(state: &State, id: Id, pos: PosHex) -> (r: Result<(), Error>)
    ensures
        r == ability_rule(state@, id, pos, Ability::Heal),
{
    let agent_pos = actor_pos(state, id)?;
    check_max_distance(agent_pos, pos, 1)?;
    if state::agent_id_at_opt(state, pos).is_none() {
        return Err(Error::NoTarget);
    }
    Ok(())
}

fn check_ability_bloodlust(state: &State, _id: Id, pos: PosHex) -> (r: Result<(), Error>)
    ensures
        r == ability_rule(state@, _id, pos, Ability::Bloodlust),
{
    if state::agent_id_at_opt(state, pos).is_none() {
        return Err(Error::NoTarget);
    }
    Ok(())
}

/// The counters of the actor, or the refusal of an entity that is no agent.
pub fn try_get_actor(state: &State, id: Id) -> (r: Result<&Agent, Error>)
    ensures
        state.parts.agent.has(id) ==> r == Ok::<&Agent, Error>(&state.parts.agent.at(id)),
        !state.parts.agent.has(id) ==> r == Err::<&Agent, Error>(Error::BadActorId),
{
    match state.parts.agent.get(id) {
        Some(agent) => Ok(agent),
        None => Err(Error::BadActorId),
    }
}

fn check_agent_ability_ready(state: &State, id: Id, expected_ability: &Ability) -> (r: Result<
    (),
    Error,
>)
    ensures
        r == ability_ready_rule(state@, id, *expected_ability),
{
    let abilities = match state.parts.abilities.get(id) {
        Some(abilities) => abilities,
        None => return Err(Error::NoSuchAbility),
    };
    match find_status(&abilities.0, *expected_ability) {
        Some(Status::Ready) => Ok(()),
        Some(_) => Err(Error::AbilityIsNotReady),
        None => Err(Error::NoSuchAbility),
    }
}

fn check_agent_belongs_to_correct_player(state: &State, id: Id) -> (r: Result<(), Error>)
    ensures
        r == own_agent_rule(state@, id),
{
    match state.parts.belongs_to.get(id) {
        Some(owner) => {
            if owner.0 != state.player_id() {
                return Err(Error::CanNotCommandEnemyAgents);
            }
            Ok(())
        },
        None => Err(Error::CanNotCommandEnemyAgents),
    }
}

pub fn check_agent_can_attack(state: &State, id: Id) -> (r: Result<(), Error>)
    ensures
        r == can_attack_rule(state@, id),
{
    let agent = try_get_actor(state, id)?;
    if agent.attacks.0 == 0 && agent.jokers.0 == 0 {
        return Err(Error::NotEnoughAttacks);
    }
    Ok(())
}

pub fn check_agent_can_move(state: &State, id: Id) -> (r: Result<(), Error>)
    ensures
        r == can_move_rule(state@, id),
{
    let agent = try_get_actor(state, id)?;
    if agent.moves.0 == 0 && agent.jokers.0 == 0 {
        return Err(Error::NotEnoughMoves);
    }
    Ok(())
}

fn check_min_distance(from: PosHex, to: PosHex, min: i32) -> (r: Result<(), Error>)
    ensures
        r == min_distance_rule(from, to, min as int),
{
    let dist: i32 = distance_hex(from, to);
    if dist < min {
        return Err(Error::DistanceIsTooSmall);
    }
    Ok(())
}

pub fn check_max_distance(from: PosHex, to: PosHex, max: i32) -> (r: Result<(), Error>)
    ensures
        r == max_distance_rule(from, to, max as int),
{
    let dist: i32 = distance_hex(from, to);
    if dist > max {
        return Err(Error::DistanceIsTooBig);
    }
    Ok(())
}

fn check_not_blocked_and_is_inboard(state: &State, pos: PosHex) -> (r: Result<(), Error>)
    ensures
        r == free_tile_rule(state@, pos),
{
    check_is_inboard(state, pos)?;
    check_is_tile_blocked(state, pos)
}

fn check_is_inboard(state: &State, pos: PosHex) -> (r: Result<(), Error>)
    ensures
        r == (if state@.on_board(pos) {
            pass()
        } else {
            refuse(Error::BadPos)
        }),
{
    if !state.map.is_inboard(pos) {
        return Err(Error::BadPos);
    }
    Ok(())
}

fn check_is_tile_blocked(state: &State, pos: PosHex) -> (r: Result<(), Error>)
    ensures
        r == (if state@.occupied(pos) {
            refuse(Error::TileIsBlocked)
        } else {
            pass()
        }),
{
    if state::is_tile_blocked_not_check_inboard(state, pos) {
        return Err(Error::TileIsBlocked);
    }
    Ok(())
}

fn check_object_pos(state: &State, id: Id, expected_pos: PosHex) -> (r: Result<(), Error>)
    ensures
        r == object_pos_rule(state@, id, expected_pos),
{
    let real_pos = actor_pos(state, id)?;
    if real_pos != expected_pos {
        return Err(Error::BadPos);
    }
    Ok(())
}

} // verus!
