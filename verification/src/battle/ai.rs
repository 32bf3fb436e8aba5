//! The opponent: a simple policy that picks the next command of a
//! player's agents, one agent after the other.

use vstd::prelude::*;

use crate::battle::ability::Ability;
use crate::battle::ability::RechargeableAbility;
use crate::battle::ability::Status;
use crate::battle::check::attack_rule;
use crate::battle::check::can_attack_rule;
use crate::battle::check::can_move_rule;
use crate::battle::check::check_agent_can_attack;
use crate::battle::check::check_agent_can_move;
use crate::battle::check::check_command_attack;
use crate::battle::check::check_max_distance;
use crate::battle::check::dist;
use crate::battle::command;
use crate::battle::command::said;
use crate::battle::command::Command;
use crate::battle::command::CommandModel;
use crate::battle::effect::Lasting;
use crate::battle::model::Model;
use crate::battle::movement::cost_of;
use crate::battle::movement::Path;
use crate::battle::state;
use crate::battle::state::apply::has_lasting_effect;
use crate::battle::state::apply::holds_lasting;
use crate::battle::state::State;
use crate::battle::Id;
use crate::battle::PlayerId;
use crate::map::dir_of_int;
use crate::map::distance_hex;
use crate::map::neighbor;
use crate::map::Dir;
use crate::map::PosHex;

verus! {

/// Whether the agent has the ability.
pub open spec fn has_ability(m: Model, id: Id, ability: Ability) -> bool {
    m.abilities.contains_key(id.0 as int) && exists|i: int|
        0 <= i < m.abilities[id.0 as int].len() && (#[trigger] m.abilities[id.0 as int][i]).ability
            == ability
}

/// Whether the agent has the ability.
pub fn does_agent_have_ability(state: &State, id: Id, ability: &Ability) -> (r: bool)
    ensures
        r == has_ability(state@, id, *ability),
{
    if let Some(abilities) = state.parts.abilities.get(id) {
        let mut i: usize = 0;
        while i < abilities.0.len()
            invariant
                i <= abilities.0@.len(),
                state@.abilities.contains_key(id.0 as int),
                abilities.0@ == state@.abilities[id.0 as int],
                forall|j: int| 0 <= j < i ==> (#[trigger] abilities.0@[j]).ability != *ability,
            decreases abilities.0@.len() - i,
        {
            if *ability == abilities.0[i].ability {
                assert(state@.abilities[id.0 as int][i as int].ability == *ability);
                return true;
            }
            i += 1;
        }
    }
    false
}

/// Whether the agent has the ability, and has it ready, as an entry
/// of its list.
pub open spec fn holds_ready(m: Model, id: Id, ability: Ability) -> bool {
    m.abilities.contains_key(id.0 as int) && m.abilities[id.0 as int].contains(
        RechargeableAbility { ability, status: Status::Ready },
    )
}

fn has_ready(state: &State, id: Id, ability: Ability) -> (r: bool)
    ensures
        r == holds_ready(state@, id, ability),
{
    if let Some(abilities) = state.parts.abilities.get(id) {
        let wanted = RechargeableAbility { ability, status: Status::Ready };
        let mut i: usize = 0;
        while i < abilities.0.len()
            invariant
                i <= abilities.0@.len(),
                state@.abilities.contains_key(id.0 as int),
                abilities.0@ == state@.abilities[id.0 as int],
                wanted == (RechargeableAbility { ability, status: Status::Ready }),
                forall|j: int| 0 <= j < i ==> abilities.0@[j] != wanted,
            decreases abilities.0@.len() - i,
        {
            if abilities.0[i] == wanted {
                assert(state@.abilities[id.0 as int][i as int] == wanted);
                return true;
            }
            i += 1;
        }
    }
    false
}

/// The opponent's policy for one player.
#[derive(Debug, Clone)]
pub struct Ai {
    /// The player the policy plays.
    pub id: PlayerId,
    /// The agents that have still to be asked for a command this turn.
    pub obj_ids: Vec<Id>,
}

/// What the agents that are still to be asked become when those at
/// the first `n` places of `places` are taken out, one after the
/// other; a place beyond the end of the list takes nothing out.
pub open spec fn trimmed(ids: Seq<Id>, places: Seq<usize>, n: int) -> Seq<Id>
    decreases n,
{
    if n <= 0 {
        ids
    } else {
        let before = trimmed(ids, places, n - 1);
        if places[n - 1] < before.len() {
            before.remove(places[n - 1] as int)
        } else {
            before
        }
    }
}

/// The use of an ability as what a command says.
pub open spec fn use_of(id: Id, pos: PosHex, ability: Ability) -> CommandModel {
    CommandModel::UseAbility(command::UseAbility { id, pos, ability })
}

/// Whether the tile next to the target in the direction is one to
/// throw a bomb on: on the board, free, and within three tiles of the thrower.
pub open spec fn bomb_tile(m: Model, from: PosHex, target: Id, d: int) -> bool {
    &&& m.pos.contains_key(target.0 as int)
    &&& m.on_board(neighbor(m.pos[target.0 as int].0, dir_of_int(d)))
    &&& !m.occupied(neighbor(m.pos[target.0 as int].0, dir_of_int(d)))
    &&& dist(from, neighbor(m.pos[target.0 as int].0, dir_of_int(d))) <= 3
}

/// The first tile to throw a bomb on among the first `n` neighbours of the target.
pub open spec fn bomb_dir(m: Model, from: PosHex, target: Id, n: int) -> Option<PosHex>
    decreases n,
{
    if n <= 0 {
        None
    } else if bomb_dir(m, from, target, n - 1).is_some() {
        bomb_dir(m, from, target, n - 1)
    } else if bomb_tile(m, from, target, n - 1) {
        Some(neighbor(m.pos[target.0 as int].0, dir_of_int(n - 1)))
    } else {
        None
    }
}

/// The first tile to throw a bomb on next to the first `n` targets of a list.
pub open spec fn bomb_target(m: Model, from: PosHex, targets: Seq<Id>, n: int) -> Option<PosHex>
    decreases n,
{
    if n <= 0 {
        None
    } else if bomb_target(m, from, targets, n - 1).is_some() {
        bomb_target(m, from, targets, n - 1)
    } else {
        bomb_dir(m, from, targets[n - 1], 6)
    }
}

/// Whether an agent of the policy is one to cast bloodlust on: an imp
/// or a toxic imp on a tile that is not under bloodlust yet.
pub open spec fn wants_bloodlust(m: Model, target: Id) -> bool {
    &&& m.meta.contains_key(target.0 as int)
    &&& (m.meta[target.0 as int] == "imp"@ || m.meta[target.0 as int] == "toxic_imp"@)
    &&& m.pos.contains_key(target.0 as int)
    &&& !(m.effects.contains_key(target.0 as int) && holds_lasting(
        m.effects[target.0 as int],
        Lasting::Bloodlust,
    ))
}

/// The first of the first `n` agents of a list to cast bloodlust on.
pub open spec fn bloodlust_target(m: Model, targets: Seq<Id>, n: int) -> Option<Id>
    decreases n,
{
    if n <= 0 {
        None
    } else if bloodlust_target(m, targets, n - 1).is_some() {
        bloodlust_target(m, targets, n - 1)
    } else if wants_bloodlust(m, targets[n - 1]) {
        Some(targets[n - 1])
    } else {
        None
    }
}

/// The first of the first `n` entities of a list that the agent may attack.
pub open spec fn attack_target(m: Model, attacker: Id, targets: Seq<Id>, n: int) -> Option<Id>
    decreases n,
{
    if n <= 0 {
        None
    } else if attack_target(m, attacker, targets, n - 1).is_some() {
        attack_target(m, attacker, targets, n - 1)
    } else if attack_rule(
        m,
        &command::Attack { attacker_id: attacker, target_id: targets[n - 1] },
    ).is_ok() {
        Some(targets[n - 1])
    } else {
        None
    }
}

/// The tile of the enemy that is nearest to `from` among the first `n`
/// enemies of a list, the first of them where several are as near,
/// with its distance. An enemy that stands nowhere ends the search.
pub open spec fn nearest(m: Model, from: PosHex, enemies: Seq<Id>, n: int) -> Option<(PosHex, int)>
    decreases n,
{
    if n <= 0 || !m.pos.contains_key(enemies[0].0 as int) {
        None
    } else if n == 1 {
        Some((m.pos[enemies[0].0 as int].0, dist(m.pos[enemies[0].0 as int].0, from)))
    } else {
        match nearest(m, from, enemies, n - 1) {
            None => None,
            Some(best) => if !m.pos.contains_key(enemies[n - 1].0 as int) {
                None
            } else if dist(m.pos[enemies[n - 1].0 as int].0, from) < best.1 {
                Some(
                    (
                        m.pos[enemies[n - 1].0 as int].0,
                        dist(m.pos[enemies[n - 1].0 as int].0, from),
                    ),
                )
            } else {
                Some(best)
            },
        }
    }
}

/// The tile that lies `i` columns and `j` rows from `from` in the
/// directions of the signs.
pub open spec fn offset_tile(from: PosHex, i: int, j: int, east: bool, south: bool) -> (int, int) {
    (
        if east {
            from.q + i
        } else {
            from.q - i
        },
        if south {
            from.r + j
        } else {
            from.r - j
        },
    )
}

/// Whether a column lies beyond the edge of the board in the
/// direction of the search.
pub open spec fn column_out(m: Model, q: int, east: bool) -> bool {
    if east {
        q > m.radius
    } else {
        q < -m.radius
    }
}

/// Whether a tile of a column lies beyond the edge of the board in the
/// direction of the search, or off the board across the column.
pub open spec fn row_out(m: Model, q: int, r: int, south: bool) -> bool {
    (if south {
        r > m.radius
    } else {
        r < -m.radius
    }) || q + r > m.radius || q + r < -m.radius
}

/// The better of the best tile so far and a further tile: the further
/// one if it is free and there is no best one yet or it is nearer to the goal.
pub open spec fn better(m: Model, best: Option<(PosHex, int)>, q: int, r: int, goal: PosHex)
    -> Option<(PosHex, int)> {
    let pos = PosHex { q: q as i32, r: r as i32 };
    if m.occupied(pos) {
        best
    } else {
        match best {
            Some(b) => if dist(pos, goal) < b.1 {
                Some((pos, dist(pos, goal)))
            } else {
                best
            },
            None => Some((pos, dist(pos, goal))),
        }
    }
}

/// The best tile after the first `n` tiles of a column were looked at.
/// The second result says whether the column has come to its end.
pub open spec fn column_scan(
    m: Model,
    from: PosHex,
    goal: PosHex,
    i: int,
    east: bool,
    south: bool,
    best: Option<(PosHex, int)>,
    n: int,
) -> (Option<(PosHex, int)>, bool)
    decreases n,
{
    if n <= 0 {
        (best, false)
    } else {
        let before = column_scan(m, from, goal, i, east, south, best, n - 1);
        let tile = offset_tile(from, i, n - 1, east, south);
        if before.1 || row_out(m, tile.0, tile.1, south) {
            (before.0, true)
        } else {
            (better(m, before.0, tile.0, tile.1, goal), false)
        }
    }
}

/// The best tile after the first `n` columns were looked at, each up
/// to `reach` rows deep. The second result says whether the search
/// has come to the edge of the board.
pub open spec fn board_scan(
    m: Model,
    from: PosHex,
    goal: PosHex,
    reach: int,
    east: bool,
    south: bool,
    n: int,
) -> (Option<(PosHex, int)>, bool)
    decreases n,
{
    if n <= 0 {
        (None, false)
    } else {
        let before = board_scan(m, from, goal, reach, east, south, n - 1);
        if before.1 || column_out(m, offset_tile(from, n - 1, 0, east, south).0, east) {
            (before.0, true)
        } else {
            (column_scan(m, from, goal, n - 1, east, south, before.0, reach + 1).0, false)
        }
    }
}

/// The tile an agent moves to in order to come closer to its enemies:
/// the free tile nearest to the nearest enemy among those the search
/// looks at, if a step onto it costs no more than the agent's move points.
pub open spec fn closer_tile(m: Model, player: PlayerId, id: Id) -> Option<PosHex> {
    if !m.agent.contains_key(id.0 as int) || !m.pos.contains_key(id.0 as int) {
        None
    } else {
        let from = m.pos[id.0 as int].0;
        let reach = m.agent[id.0 as int].move_points.0;
        match nearest(m, from, m.enemy_ids_of(player), m.enemy_ids_of(player).len() as int) {
            None => None,
            Some(goal) => match board_scan(
                m,
                from,
                goal.0,
                reach as int,
                goal.0.q - from.q > 0,
                goal.0.r - from.r > 0,
                reach + 1,
            ).0 {
                None => None,
                Some(found) => if m.on_board(found.0) && cost_of(m.tile_at(found.0)) <= reach {
                    Some(found.0)
                } else {
                    None
                },
            },
        }
    }
}

/// The summon that an agent decides on: on its own tile, if it stands
/// on one and can pay for it.
pub open spec fn summon_decision(m: Model, id: Id) -> Option<CommandModel> {
    if can_attack_rule(m, id).is_ok() && m.pos.contains_key(id.0 as int) {
        Some(use_of(id, m.pos[id.0 as int].0, Ability::Summon))
    } else {
        None
    }
}

/// The bloodlust that an agent decides on: on the first imp of its
/// player that is not under it yet, if it can pay for it.
pub open spec fn bloodlust_decision(m: Model, player: PlayerId, id: Id) -> Option<CommandModel> {
    if can_attack_rule(m, id).is_ok() {
        match bloodlust_target(m, m.agent_ids_of(player), m.agent_ids_of(player).len() as int) {
            Some(target) => Some(use_of(id, m.pos[target.0 as int].0, Ability::Bloodlust)),
            None => None,
        }
    } else {
        None
    }
}

/// The bomb that an agent decides on: next to the first enemy that
/// has a tile for it, if the agent stands on a tile and can pay for it.
pub open spec fn bomb_decision(m: Model, player: PlayerId, id: Id) -> Option<CommandModel> {
    if can_attack_rule(m, id).is_ok() && m.pos.contains_key(id.0 as int) {
        match bomb_target(
            m,
            m.pos[id.0 as int].0,
            m.enemy_ids_of(player),
            m.enemy_ids_of(player).len() as int,
        ) {
            Some(pos) => Some(use_of(id, pos, Ability::BombDemonic)),
            None => None,
        }
    } else {
        None
    }
}

/// The attack that an agent decides on: on the first enemy it may attack.
pub open spec fn attack_decision(m: Model, player: PlayerId, id: Id) -> Option<CommandModel> {
    match attack_target(m, id, m.enemy_ids_of(player), m.enemy_ids_of(player).len() as int) {
        Some(target) => Some(
            CommandModel::Attack(command::Attack { attacker_id: id, target_id: target }),
        ),
        None => None,
    }
}

/// The move that an agent decides on: one step to the tile that
/// brings it closer to its enemies, if it has a move or a joker left.
pub open spec fn move_decision(m: Model, player: PlayerId, id: Id) -> Option<CommandModel> {
    match closer_tile(m, player, id) {
        Some(pos) => if can_move_rule(m, id).is_ok() {
            Some(CommandModel::MoveTo(id, seq![m.pos[id.0 as int].0, pos]))
        } else {
            None
        },
        None => None,
    }
}

/// The command that an agent decides on: a summon, bloodlust or a
/// bomb if it has the ability ready and a use for it, else an attack,
/// else a move.
#[verifier::opaque]
pub open spec fn agent_decision(m: Model, player: PlayerId, id: Id) -> Option<CommandModel> {
    if holds_ready(m, id, Ability::Summon) && summon_decision(m, id).is_some() {
        summon_decision(m, id)
    } else if holds_ready(m, id, Ability::Bloodlust) && bloodlust_decision(m, player, id).is_some() {
        bloodlust_decision(m, player, id)
    } else if holds_ready(m, id, Ability::BombDemonic) && bomb_decision(m, player, id).is_some() {
        bomb_decision(m, player, id)
    } else if attack_decision(m, player, id).is_some() {
        attack_decision(m, player, id)
    } else {
        move_decision(m, player, id)
    }
}

/// The place of the first agent at or after `from` that decides on a
/// command, or the length of the list if none does.
pub open spec fn deciding(m: Model, player: PlayerId, ids: Seq<Id>, from: int) -> int
    decreases ids.len() - from,
{
    if from < 0 || from >= ids.len() {
        ids.len() as int
    } else if agent_decision(m, player, ids[from]).is_some() {
        from
    } else {
        deciding(m, player, ids, from + 1)
    }
}

/// The places from zero up to and including `last`.
pub open spec fn places_to(last: int) -> Seq<usize> {
    Seq::new((last + 1) as nat, |i: int| i as usize)
}

impl Ai {
    /// A policy for the player, with no agent to ask yet.
    pub fn new(id: PlayerId) -> (ai: Ai)
        ensures
            ai.id == id,
            ai.obj_ids@.len() == 0,
    {
        Ai { id, obj_ids: Vec::new() }
    }

    /// Takes the agents of the player, in ascending order, as those to ask.
    pub fn update_obj_ids(&mut self, state: &State)
        ensures
            final(self).id == old(self).id,
            final(self).obj_ids@ == state@.agent_ids_of(old(self).id),
    {
        let ids = state::players_agent_ids(state, self.id);
        self.obj_ids = ids;
    }

    fn trim(&mut self, ids: &[usize])
        ensures
            final(self).id == old(self).id,
            final(self).obj_ids@ == trimmed(old(self).obj_ids@, ids@, ids@.len() as int),
    {
        let mut i: usize = 0;
        while i < ids.len()
            invariant
                i <= ids@.len(),
                self.id == old(self).id,
                self.obj_ids@ == trimmed(old(self).obj_ids@, ids@, i as int),
            decreases ids@.len() - i,
        {
            if ids[i] < self.obj_ids.len() {
                let _ = self.obj_ids.remove(ids[i]);
            }
            i += 1;
        }
    }

    /// A demonic bomb is thrown next to the first enemy that has a
    /// tile for it: see `bomb_target`.
    fn try_throw_bomb(&self, state: &State, agent_id: Id) -> (r: Option<Command>)
        ensures
            said(r) == bomb_decision(state@, self.id, agent_id),
    {
        let agent_pos = match state.parts.pos.get(agent_id) {
            Some(pos) => pos.0,
            None => return None,
        };
        if check_agent_can_attack(state, agent_id).is_err() {
            return None;
        }
        let targets = state::enemy_agent_ids(state, self.id);
        let mut found: Option<PosHex> = None;
        let mut i: usize = 0;
        while i < targets.len()
            invariant
                i <= targets@.len(),
                found == bomb_target(state@, agent_pos, targets@, i as int),
            decreases targets@.len() - i,
        {
            if found.is_none() {
                let target_id = targets[i];
                let mut here: Option<PosHex> = None;
                let mut n: i32 = 0;
                while n < 6
                    invariant
                        0 <= n <= 6,
                        here == bomb_dir(state@, agent_pos, target_id, n as int),
                    decreases 6 - n,
                {
                    if here.is_none() {
                        if let Some(target_pos) = state.parts.pos.get(target_id) {
                            let dir = Dir::from_int(n);
                            let pos = Dir::get_neighbor_pos(target_pos.0, dir);
                            if state.map.is_inboard(pos) && !state::is_tile_blocked(state, pos)
                                && check_max_distance(agent_pos, pos, 3).is_ok() {
                                here = Some(pos);
                            }
                        }
                    }
                    n += 1;
                }
                found = here;
            }
            i += 1;
        }
        match found {
            Some(pos) => Some(
                Command::UseAbility(
                    command::UseAbility { id: agent_id, pos, ability: Ability::BombDemonic },
                ),
            ),
            None => None,
        }
    }

    /// A summon on the summoner's own tile, if it can pay for it.
    fn try_summon_imp(&self, state: &State, agent_id: Id) -> (r: Option<Command>)
        ensures
            said(r) == summon_decision(state@, agent_id),
    {
        let pos = match state.parts.pos.get(agent_id) {
            Some(pos) => pos.0,
            None => return None,
        };
        if check_agent_can_attack(state, agent_id).is_ok() {
            return Some(
                Command::UseAbility(command::UseAbility { id: agent_id, pos, ability: Ability::Summon }),
            );
        }
        None
    }

    /// Bloodlust is cast on the first imp of the policy that is not
    /// under it yet: see `bloodlust_target`.
    fn try_bloodlust_imp(&self, state: &State, agent_id: Id) -> (r: Option<Command>)
        ensures
            said(r) == bloodlust_decision(state@, self.id, agent_id),
    {
        if check_agent_can_attack(state, agent_id).is_err() {
            return None;
        }
        let targets = state::players_agent_ids(state, self.id);
        let mut found: Option<Id> = None;
        let mut at: Option<PosHex> = None;
        let mut i: usize = 0;
        while i < targets.len()
            invariant
                i <= targets@.len(),
                found == bloodlust_target(state@, targets@, i as int),
                found.is_some() == at.is_some(),
                found matches Some(target) ==> state@.pos.contains_key(target.0 as int) && at == Some(
                    state@.pos[target.0 as int].0,
                ),
            decreases targets@.len() - i,
        {
            if found.is_none() {
                let target_id = targets[i];
                let is_imp: bool = match state.parts.meta.get(target_id) {
                    Some(meta) => meta.name.is("imp") || meta.name.is("toxic_imp"),
                    None => false,
                };
                let lusty: bool = match state.parts.effects.get(target_id) {
                    Some(effects) => has_lasting_effect(&effects.0, Lasting::Bloodlust),
                    None => false,
                };
                if is_imp && !lusty {
                    if let Some(pos) = state.parts.pos.get(target_id) {
                        found = Some(target_id);
                        at = Some(pos.0);
                    }
                }
            }
            i += 1;
        }
        match at {
            Some(pos) => Some(
                Command::UseAbility(
                    command::UseAbility { id: agent_id, pos, ability: Ability::Bloodlust },
                ),
            ),
            None => None,
        }
    }

    /// An attack on the first enemy that the agent may attack: see
    /// `attack_target`.
    fn try_to_attack(&self, state: &State, agent_id: Id) -> (r: Option<Command>)
        ensures
            said(r) == attack_decision(state@, self.id, agent_id),
    {
        let targets = state::enemy_agent_ids(state, self.id);
        let mut found: Option<Id> = None;
        let mut i: usize = 0;
        while i < targets.len()
            invariant
                i <= targets@.len(),
                found == attack_target(state@, agent_id, targets@, i as int),
            decreases targets@.len() - i,
        {
            if found.is_none() {
                let command = command::Attack { attacker_id: agent_id, target_id: targets[i] };
                if check_command_attack(state, &command).is_ok() {
                    found = Some(targets[i]);
                }
            }
            i += 1;
        }
        match found {
            Some(target_id) => Some(
                Command::Attack(command::Attack { attacker_id: agent_id, target_id }),
            ),
            None => None,
        }
    }

    /// The path of one step to the tile that brings the agent closer
    /// to its enemies: see `closer_tile`.
    fn try_to_move_closer(&mut self, state: &State, id: Id) -> (r: Option<Path>)
        requires
            state.wf(),
        ensures
            *final(self) == *old(self),
            match closer_tile(state@, old(self).id, id) {
                Some(pos) => r matches Some(path) && path@ == seq![
                    state@.pos[id.0 as int].0,
                    pos,
                ],
                None => r.is_none(),
            },
    {
        let agent_move_point: i32 = match state.parts.agent.get(id) {
            Some(agent) => agent.move_points.0,
            None => return None,
        };
        let agent_pos = match state.parts.pos.get(id) {
            Some(pos) => pos.0,
            None => return None,
        };
        let enemys = state::enemy_agent_ids(state, self.id);
        let mut goal: Option<(PosHex, i32)> = None;
        let mut lost: bool = false;
        let mut e: usize = 0;
        while e < enemys.len()
            invariant
                e <= enemys@.len(),
                lost ==> goal.is_none() && e > 0,
                !lost ==> (match goal {
                    Some(g) => Some((g.0, g.1 as int)),
                    None => None,
                }) == nearest(state@, agent_pos, enemys@, e as int),
                lost ==> nearest(state@, agent_pos, enemys@, e as int).is_none(),
                e > 0 && !lost ==> goal.is_some(),
            decreases enemys@.len() - e,
        {
            if !lost {
                match state.parts.pos.get(enemys[e]) {
                    Some(pos) => {
                        let d: i32 = distance_hex(pos.0, agent_pos);
                        match goal {
                            Some(g) => {
                                if d < g.1 {
                                    goal = Some((pos.0, d));
                                }
                            },
                            None => {
                                goal = Some((pos.0, d));
                            },
                        }
                    },
                    None => {
                        lost = true;
                        goal = None;
                    },
                }
            }
            e += 1;
        }
        let to_pos = match goal {
            Some(g) => g.0,
            None => return None,
        };
        let radius: i64 = state.map.radius() as i64;
        let east: bool = to_pos.q as i64 - agent_pos.q as i64 > 0;
        let south: bool = to_pos.r as i64 - agent_pos.r as i64 > 0;
        let mut best: Option<(PosHex, i32)> = None;
        let mut edge: bool = false;
        let mut i: i64 = 0;
        while i <= agent_move_point as i64
            invariant
                0 <= i,
                agent_move_point >= 0 ==> i <= agent_move_point + 1,
                agent_move_point < 0 ==> i == 0,
                radius == state@.radius,
                0 <= radius <= crate::map::MAX_RADIUS,
                ((match best {
                    Some(b) => Some((b.0, b.1 as int)),
                    None => None,
                }), edge) == board_scan(
                    state@,
                    agent_pos,
                    to_pos,
                    agent_move_point as int,
                    east,
                    south,
                    i as int,
                ),
            decreases agent_move_point + 1 - i,
        {
            let q: i64 = if east {
                agent_pos.q as i64 + i
            } else {
                agent_pos.q as i64 - i
            };
            let out: bool = if east {
                q > radius
            } else {
                q < -radius
            };
            if edge || out {
                edge = true;
            } else {
                let ghost at_column = best;
                let mut stop: bool = false;
                let mut j: i64 = 0;
                while j <= agent_move_point as i64
                    invariant
                        0 <= j <= agent_move_point + 1,
                        0 <= i <= agent_move_point,
                        radius == state@.radius,
                        0 <= radius <= crate::map::MAX_RADIUS,
                        q == offset_tile(agent_pos, i as int, 0, east, south).0,
                        !column_out(state@, q as int, east),
                        ((match best {
                            Some(b) => Some((b.0, b.1 as int)),
                            None => None,
                        }), stop) == column_scan(
                            state@,
                            agent_pos,
                            to_pos,
                            i as int,
                            east,
                            south,
                            match at_column {
                                Some(b) => Some((b.0, b.1 as int)),
                                None => None,
                            },
                            j as int,
                        ),
                    decreases agent_move_point + 1 - j,
                {
                    let r: i64 = if south {
                        agent_pos.r as i64 + j
                    } else {
                        agent_pos.r as i64 - j
                    };
                    let beyond: bool = (if south {
                        r > radius
                    } else {
                        r < -radius
                    }) || q + r > radius || q + r < -radius;
                    if stop || beyond {
                        stop = true;
                    } else {
                        let pos = PosHex { q: q as i32, r: r as i32 };
                        if !state::is_tile_blocked_not_check_inboard(state, pos) {
                            let d: i32 = distance_hex(pos, to_pos);
                            match best {
                                Some(b) => {
                                    if d < b.1 {
                                        best = Some((pos, d));
                                    }
                                },
                                None => {
                                    best = Some((pos, d));
                                },
                            }
                        }
                    }
                    j += 1;
                }
            }
            i += 1;
        }
        proof {
            if agent_move_point < 0 {
                assert(board_scan(
                    state@,
                    agent_pos,
                    to_pos,
                    agent_move_point as int,
                    east,
                    south,
                    agent_move_point + 1,
                ) == (None::<(PosHex, int)>, false));
            }
        }
        let target_pos = match best {
            Some(b) => b.0,
            None => return None,
        };
        if !state.map.is_inboard(target_pos) {
            return None;
        }
        let mut tiles: Vec<PosHex> = Vec::new();
        tiles.push(agent_pos);
        tiles.push(target_pos);
        let path = Path::new(tiles);
        let cost = path.cost_for(state, id);
        proof {
            reveal_with_fuel(crate::battle::movement::steps_cost, 2);
        }
        if cost.0 > agent_move_point {
            return None;
        }
        Some(path)
    }

    /// A move that brings the agent closer to its enemies, if it has a
    /// move or a joker left: see `closer_tile`.
    pub fn try_to_move(&mut self, state: &State, agent_id: Id) -> (r: Option<Command>)
        requires
            state.wf(),
        ensures
            *final(self) == *old(self),
            said(r) == move_decision(state@, old(self).id, agent_id),
    {
        let path_result = self.try_to_move_closer(state, agent_id);
        if let Some(path) = path_result {
            let command = command::MoveTo { id: agent_id, path };
            if check_agent_can_move(state, command.id).is_ok() {
                return Some(Command::MoveTo(command));
            }
        }
        None
    }

    /// The command of one agent: a summon, bloodlust or a bomb if it
    /// has the ability ready and a use for it, else an attack, else a move.
    fn agent_command(&mut self, state: &State, agent_id: Id) -> (r: Option<Command>)
        requires
            state.wf(),
        ensures
            *final(self) == *old(self),
            said(r) == agent_decision(state@, old(self).id, agent_id),
    {
        proof {
            reveal(agent_decision);
        }
        if has_ready(state, agent_id, Ability::Summon) {
            if let Some(summon_command) = self.try_summon_imp(state, agent_id) {
                return Some(summon_command);
            }
        }
        if has_ready(state, agent_id, Ability::Bloodlust) {
            if let Some(bloodlust_command) = self.try_bloodlust_imp(state, agent_id) {
                return Some(bloodlust_command);
            }
        }
        if has_ready(state, agent_id, Ability::BombDemonic) {
            if let Some(bomb_command) = self.try_throw_bomb(state, agent_id) {
                return Some(bomb_command);
            }
        }
        if let Some(attack_command) = self.try_to_attack(state, agent_id) {
            return Some(attack_command);
        }
        if let Some(move_command) = self.try_to_move(state, agent_id) {
            return Some(move_command);
        }
        None
    }

    /// The next command of the policy: nothing once the battle is
    /// decided; else the command of the first agent, among those still
    /// to be asked, that decides on one, and the end of the turn if
    /// none does. When an agent has decided, the agents are taken off
    /// the list as `trimmed` says for the places up to its own.
    pub fn command(&mut self, state: &State) -> (r: Option<Command>)
        requires
            state.wf(),
        ensures
            final(self).id == old(self).id,
            state@.battle_result.is_some() ==> r.is_none() && *final(self) == *old(self),
            state@.battle_result.is_none() ==> ({
                let at = deciding(state@, old(self).id, old(self).obj_ids@, 0);
                if at < old(self).obj_ids@.len() {
                    &&& said(r) == agent_decision(state@, old(self).id, old(self).obj_ids@[at])
                    &&& final(self).obj_ids@ == trimmed(
                        old(self).obj_ids@,
                        places_to(at),
                        at + 1,
                    )
                } else {
                    &&& said(r) == Some(CommandModel::EndTurn)
                    &&& *final(self) == *old(self)
                }
            }),
    {
        if state.battle_result().is_some() {
            return None;
        }
        let asked_all = crate::utils::copy_vec(&self.obj_ids);
        let mut ids: Vec<usize> = Vec::new();
        let mut i: usize = 0;
        while i < asked_all.len()
            invariant
                i <= asked_all@.len(),
                asked_all@ == old(self).obj_ids@,
                state.wf(),
                state@.battle_result.is_none(),
                *self == *old(self),
                ids@ == Seq::new(i as nat, |k: int| k as usize),
                deciding(state@, self.id, asked_all@, 0) == deciding(
                    state@,
                    self.id,
                    asked_all@,
                    i as int,
                ),
            decreases asked_all@.len() - i,
        {
            ids.push(i);
            assert(ids@ =~= places_to(i as int));
            if let Some(command) = self.agent_command(state, asked_all[i]) {
                self.trim(ids.as_slice());
                return Some(command);
            }
            i += 1;
        }
        Some(Command::EndTurn(command::EndTurn))
    }
}

/// The place of the first agent that decides lies at or after `from`
/// and within the list or at its end.
pub proof fn lemma_deciding_in_range(m: Model, player: PlayerId, ids: Seq<Id>, from: int)
    requires
        0 <= from,
    ensures
        0 <= deciding(m, player, ids, from) <= ids.len(),
        deciding(m, player, ids, from) < ids.len() ==> from <= deciding(m, player, ids, from)
            && agent_decision(m, player, ids[deciding(m, player, ids, from)]).is_some(),
    decreases ids.len() - from,
{
    if from < ids.len() && agent_decision(m, player, ids[from]).is_none() {
        lemma_deciding_in_range(m, player, ids, from + 1);
    }
}

/// Taking agents off the list never makes it longer.
pub proof fn lemma_trimmed_shorter(ids: Seq<Id>, places: Seq<usize>, n: int)
    requires
        0 <= n <= places.len(),
    ensures
        trimmed(ids, places, n).len() <= ids.len(),
    decreases n,
{
    if n > 0 {
        lemma_trimmed_shorter(ids, places, n - 1);
    }
}

} // verus!
