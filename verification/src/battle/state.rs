//! The state of a battle and the questions that can be asked of it.

use vstd::prelude::*;

use crate::battle::ability::Ability;
use crate::battle::ability::PassiveAbility;
use crate::battle::ability::RechargeableAbility;
use crate::battle::ability::Status;
use crate::battle::component::ObjType;
use crate::battle::effect::Duration;
use crate::battle::effect::Lasting;
use crate::battle::effect::Timed;
use crate::battle::table::ID_LIMIT;
use crate::battle::Id;
use crate::battle::PlayerId;
use crate::battle::Rounds;
use crate::battle::TileType;
use crate::battle::model::Model;
use crate::battle::BAD_ID;
use crate::map::dir_of_int;
use crate::map::neighbor;
use crate::map::Dir;
use crate::map::PosHex;

pub mod apply;
pub mod private;
pub mod safety;

pub use self::private::BattleResult;
pub use self::private::State;

verus! {

/// A choice of entities of a battle.
pub enum Pick {
    /// The entities on a tile.
    At(PosHex),
    /// The agents on a tile.
    AgentsAt(PosHex),
    /// The blockers on a tile.
    BlockersAt(PosHex),
    /// The agents of a player.
    AgentsOf(PlayerId),
    /// The agents of the players other than the given one.
    EnemiesOf(PlayerId),
    /// The entities on a tile that have a passive ability.
    PassivesAt(PosHex, PassiveAbility),
    /// The blockers.
    Blockers,
    /// The entities that have passive abilities.
    Passive,
    /// The entities that have a list of lasting effects.
    Affected,
    /// The entities that have a list of planned abilities.
    Planning,
}

/// The identifiers below `n` that the pick takes, in ascending order.
pub open spec fn ids_where(state: Model, pick: Pick, n: int) -> Seq<Id>
    decreases n,
{
    if n <= 0 {
        Seq::empty()
    } else if state.picks(pick, n - 1) {
        ids_where(state, pick, n - 1).push(Id((n - 1) as i32))
    } else {
        ids_where(state, pick, n - 1)
    }
}

/// `ids_where` lists exactly the identifiers below `n` that the pick
/// takes, each once and in ascending order.
pub proof fn lemma_ids_where(state: Model, pick: Pick, n: int)
    requires
        0 <= n <= ID_LIMIT,
    ensures
        forall|i: int|
            0 <= i < ids_where(state, pick, n).len() ==> 0 <= (#[trigger] ids_where(
                state,
                pick,
                n,
            )[i]).0 < n && state.picks(pick, ids_where(state, pick, n)[i].0 as int),
        forall|i: int, j: int|
            0 <= i < j < ids_where(state, pick, n).len() ==> (#[trigger] ids_where(
                state,
                pick,
                n,
            )[i]).0 < (#[trigger] ids_where(state, pick, n)[j]).0,
        forall|k: int|
            0 <= k < n && #[trigger] state.picks(pick, k) ==> ids_where(state, pick, n).contains(
                Id(k as i32),
            ),
        ids_where(state, pick, n).len() <= n,
    decreases n,
{
    if n > 0 {
        lemma_ids_where(state, pick, n - 1);
        let rest = ids_where(state, pick, n - 1);
        let all = ids_where(state, pick, n);
        assert forall|k: int| 0 <= k < n && #[trigger] state.picks(pick, k) implies all.contains(
            Id(k as i32),
        ) by {
            let id = Id(k as i32);
            if k < n - 1 {
                assert(rest.contains(id));
                let i = choose|i: int| 0 <= i < rest.len() && rest[i] == id;
                assert(all[i] == id);
            } else {
                assert(all[all.len() - 1] == id);
            }
        }
    }
}

/// Whether every table of the state keeps its rows under identifiers
/// from zero up to the limit of the store. It holds of the view of
/// every `State`: `Table::bound` says so of each of its tables.
pub open spec fn rows_in_range(state: Model) -> bool {
    &&& forall|k: int| #[trigger] state.agent.contains_key(k) ==> 0 <= k < ID_LIMIT
    &&& forall|k: int| #[trigger] state.pos.contains_key(k) ==> 0 <= k < ID_LIMIT
    &&& forall|k: int| #[trigger] state.blocker.contains_key(k) ==> 0 <= k < ID_LIMIT
    &&& forall|k: int| #[trigger] state.passive_abilities.contains_key(k) ==> 0 <= k < ID_LIMIT
    &&& forall|k: int| #[trigger] state.effects.contains_key(k) ==> 0 <= k < ID_LIMIT
    &&& forall|k: int| #[trigger] state.schedule.contains_key(k) ==> 0 <= k < ID_LIMIT
}

/// Where the pick takes nothing from `n` up to `m`, the list stops growing at `n`.
pub proof fn lemma_ids_where_beyond(state: Model, pick: Pick, n: int, m: int)
    requires
        0 <= n <= m,
        forall|k: int| n <= k < m ==> !#[trigger] state.picks(pick, k),
    ensures
        ids_where(state, pick, m) == ids_where(state, pick, n),
    decreases m - n,
{
    if n < m {
        lemma_ids_where_beyond(state, pick, n, m - 1);
    }
}

/// The first identifier below `n` that the pick takes, if there is one.
pub open spec fn first_where(state: Model, pick: Pick, n: int) -> Option<Id> {
    if ids_where(state, pick, n).len() > 0 {
        Some(ids_where(state, pick, n)[0])
    } else {
        None
    }
}

/// The only identifier below `n` that the pick takes, if there is exactly one.
pub open spec fn sole_where(state: Model, pick: Pick, n: int) -> Option<Id> {
    if ids_where(state, pick, n).len() == 1 {
        Some(ids_where(state, pick, n)[0])
    } else {
        None
    }
}

impl State {
    /// The state is consistent: its board is.
    pub open spec fn wf(&self) -> bool {
        self@.wf()
    }

    /// Whether the two states differ in nothing but their entity stores.
    pub open spec fn same_setting(&self, other: &State) -> bool {
        &&& self.map == other.map
        &&& self.players_count == other.players_count
        &&& self.player_id == other.player_id
        &&& self.battle_result == other.battle_result
        &&& self.level == other.level
    }
}

impl Model {
    /// Whether `pos` is a tile of the board.
    pub open spec fn on_board(&self, pos: PosHex) -> bool {
        crate::map::on_board(self.radius as int, pos)
    }

    /// The tile at `pos`.
    pub open spec fn tile_at(&self, pos: PosHex) -> TileType {
        self.tiles[(pos.r + self.radius) + (pos.q + self.radius) * self.size]
    }

    /// Whether entity `k` stands on `pos`.
    pub open spec fn stands_at(&self, k: int, pos: PosHex) -> bool {
        self.pos.contains_key(k) && self.pos[k].0 == pos
    }

    /// Whether any entity stands on `pos`.
    pub open spec fn occupied(&self, pos: PosHex) -> bool {
        exists|k: int| self.stands_at(k, pos)
    }

    /// Whether entity `k` is an agent.
    pub open spec fn is_agent(&self, k: int) -> bool {
        self.agent.contains_key(k)
    }

    /// Whether entity `k` belongs to `player`.
    pub open spec fn owned_by(&self, k: int, player: PlayerId) -> bool {
        self.belongs_to.contains_key(k) && self.belongs_to[k].0 == player
    }

    /// Whether entity `k` belongs to a player other than `player`.
    pub open spec fn owned_by_other(&self, k: int, player: PlayerId) -> bool {
        self.belongs_to.contains_key(k) && self.belongs_to[k].0 != player
    }

    /// Whether entity `k` has the passive ability.
    pub open spec fn has_passive(&self, k: int, ability: PassiveAbility) -> bool {
        self.passive_abilities.contains_key(k) && self.passive_abilities[k].contains(
            ability,
        )
    }

    /// Whether the pick takes entity `k`.
    pub open spec fn picks(&self, pick: Pick, k: int) -> bool {
        match pick {
            Pick::At(pos) => self.stands_at(k, pos),
            Pick::AgentsAt(pos) => self.is_agent(k) && self.stands_at(k, pos),
            Pick::BlockersAt(pos) => self.blocker.contains_key(k) && self.stands_at(k, pos),
            Pick::AgentsOf(player) => self.is_agent(k) && self.owned_by(k, player),
            Pick::EnemiesOf(player) => self.is_agent(k) && self.owned_by_other(k, player),
            Pick::PassivesAt(pos, ability) => self.stands_at(k, pos) && self.has_passive(
                k,
                ability,
            ),
            Pick::Blockers => self.blocker.contains_key(k),
            Pick::Passive => self.passive_abilities.contains_key(k),
            Pick::Affected => self.effects.contains_key(k),
            Pick::Planning => self.schedule.contains_key(k),
        }
    }

    /// The entities on `pos`, in ascending order.
    pub open spec fn ids_on(&self, pos: PosHex) -> Seq<Id> {
        ids_where(*self, Pick::At(pos), ID_LIMIT as int)
    }

    /// The agents on `pos`, in ascending order.
    pub open spec fn agent_ids_on(&self, pos: PosHex) -> Seq<Id> {
        ids_where(*self, Pick::AgentsAt(pos), ID_LIMIT as int)
    }

    /// The blockers on `pos`, in ascending order.
    pub open spec fn blocker_ids_on(&self, pos: PosHex) -> Seq<Id> {
        ids_where(*self, Pick::BlockersAt(pos), ID_LIMIT as int)
    }

    /// The agents of `player`, in ascending order.
    pub open spec fn agent_ids_of(&self, player: PlayerId) -> Seq<Id> {
        ids_where(*self, Pick::AgentsOf(player), ID_LIMIT as int)
    }

    /// The agents of the players other than `player`, in ascending order.
    pub open spec fn enemy_ids_of(&self, player: PlayerId) -> Seq<Id> {
        ids_where(*self, Pick::EnemiesOf(player), ID_LIMIT as int)
    }

    /// The only agent on `pos`, if exactly one stands there.
    pub open spec fn sole_agent_on(&self, pos: PosHex) -> Option<Id> {
        sole_where(*self, Pick::AgentsAt(pos), ID_LIMIT as int)
    }

    /// The only blocker on `pos`, if exactly one stands there.
    pub open spec fn sole_blocker_on(&self, pos: PosHex) -> Option<Id> {
        sole_where(*self, Pick::BlockersAt(pos), ID_LIMIT as int)
    }

    /// The entity on `pos` with the smallest identifier, or the
    /// identifier that names no entity.
    pub open spec fn first_id_on(&self, pos: PosHex) -> Id {
        match first_where(*self, Pick::At(pos), ID_LIMIT as int) {
            Some(id) => id,
            None => Id(BAD_ID),
        }
    }

    /// Whether an agent of another player than `player` stands alone on
    /// the tile next to `pos` in direction `dir`.
    pub open spec fn enemy_next_to(&self, pos: PosHex, dir: Dir, player: PlayerId) -> bool {
        match self.sole_agent_on(neighbor(pos, dir)) {
            Some(id) => self.owned_by_other(id.0 as int, player),
            None => false,
        }
    }
}

/// Whether the entity belongs to the player.
pub fn is_agent_belong_to(state: &State, player_id: PlayerId, id: Id) -> (r: bool)
    requires
        state.parts.belongs_to.has(id),
    ensures
        r == state@.owned_by(id.0 as int, player_id),
{
    state.belongs_to(&id).0 == player_id
}

/// Whether any entity stands on the tile, which must be on the board.
pub fn is_tile_blocked(state: &State, pos: PosHex) -> (r: bool)
    requires
        state@.on_board(pos),
    ensures
        r == state@.occupied(pos),
{
    is_tile_blocked_not_check_inboard(state, pos)
}

/// Whether any entity stands on the tile.
pub fn is_tile_blocked_not_check_inboard(state: &State, pos: PosHex) -> (r: bool)
    ensures
        r == state@.occupied(pos),
{
    let n: i32 = state.parts.pos.bound();
    let mut i: i32 = 0;
    while i < n
        invariant
            0 <= i <= n,
            forall|k: int| 0 <= k < i ==> !state@.stands_at(k, pos),
            forall|k: int| #[trigger] state.parts.pos@.contains_key(k) ==> 0 <= k < n,
        decreases n - i,
    {
        if let Some(p) = state.parts.pos.get(Id(i)) {
            if p.0 == pos {
                assert(state@.stands_at(i as int, pos));
                return true;
            }
        }
        i += 1;
    }
    false
}

/// Whether the tile is on the board, plain, and free of any entity.
pub fn is_tile_plain_and_completely_free(state: &State, pos: PosHex) -> (r: bool)
    requires
        state.wf(),
    ensures
        r == (state@.on_board(pos) && state@.tile_at(pos) == TileType::Plain
            && !state@.occupied(pos)),
{
    if !state.map.is_inboard(pos) {
        return false;
    }
    match state.map.tile(pos) {
        TileType::Plain => !is_tile_blocked_not_check_inboard(state, pos),
        TileType::Rocks => false,
    }
}

/// Whether the tile is on the board and free of any entity.
pub fn is_tile_completely_free(state: &State, pos: PosHex) -> (r: bool)
    ensures
        r == (state@.on_board(pos) && !state@.occupied(pos)),
{
    if !state.map.is_inboard(pos) {
        return false;
    }
    !is_tile_blocked_not_check_inboard(state, pos)
}

/// Whether a lasting effect on the entity is over: its rounds have
/// run out, or it is poison and its bearer is down to one point of
/// strength.
pub fn is_lasting_effect_over(state: &State, id: &Id, timed_effect: &Timed) -> (r: bool)
    ensures
        r == crate::battle::state::apply::over(*timed_effect, state@.is_weak(*id)),
{
    if let Lasting::Poison = timed_effect.effect {
        if let Some(strength) = state.parts.strength.get(*id) {
            if strength.strength.0 <= 1 {
                return true;
            }
        }
    }
    timed_effect.duration.is_over()
}

/// Are there any enemy agents on the adjacent tiles?
pub fn check_enemies_around(state: &State, pos: PosHex, player_id: PlayerId) -> (r: bool)
    ensures
        r == exists|dir: Dir| state@.enemy_next_to(pos, dir, player_id),
{
    let mut n: i32 = 0;
    while n < 6
        invariant
            0 <= n <= 6,
            forall|m: int| 0 <= m < n ==> !state@.enemy_next_to(pos, dir_of_int(m), player_id),
        decreases 6 - n,
    {
        let dir = Dir::from_int(n);
        let neighbor_pos = Dir::get_neighbor_pos(pos, dir);
        if let Some(id) = agent_id_at_opt(state, neighbor_pos) {
            if let Some(owner) = state.parts.belongs_to.get(id) {
                if owner.0 != player_id {
                    assert(state@.enemy_next_to(pos, dir, player_id));
                    return true;
                }
            }
        }
        n += 1;
    }
    assert forall|dir: Dir| !state@.enemy_next_to(pos, dir, player_id) by {
        crate::map::lemma_dirs(dir, pos);
        assert(dir == dir_of_int(crate::map::int_of_dir(dir)));
    }
    false
}

/// The entities on the tile, in ascending order.
pub fn ids_at(state: &State, pos: PosHex) -> (ids: Vec<Id>)
    ensures
        ids@ == state@.ids_on(pos),
{
    let ghost p = Pick::At(pos);
    let n: i32 = state.parts.pos.bound();
    let mut ids: Vec<Id> = Vec::new();
    let mut i: i32 = 0;
    while i < n
        invariant
            0 <= i <= n,
            p == Pick::At(pos),
            ids@ == ids_where(state@, p, i as int),
        decreases n - i,
    {
        if let Some(q) = state.parts.pos.get(Id(i)) {
            if q.0 == pos {
                ids.push(Id(i));
            }
        }
        i += 1;
    }
    proof {
        lemma_ids_where_beyond(state@, p, n as int, ID_LIMIT as int);
    }
    ids
}

/// The entity with the smallest identifier among those on the tile that
/// have the passive ability.
pub fn obj_with_passive_ability_at(state: &State, pos: PosHex, ability: PassiveAbility) -> (r:
    Option<Id>)
    ensures
        r == first_where(state@, Pick::PassivesAt(pos, ability), ID_LIMIT as int),
{
    let ghost p = Pick::PassivesAt(pos, ability);
    let n: i32 = state.parts.pos.bound();
    let mut i: i32 = 0;
    while i < n
        invariant
            0 <= i <= n,
            p == Pick::PassivesAt(pos, ability),
            ids_where(state@, p, i as int).len() == 0,
        decreases n - i,
    {
        let id = Id(i);
        if let Some(q) = state.parts.pos.get(id) {
            if q.0 == pos {
                if let Some(abilities) = state.parts.passive_abilities.get(id) {
                    if list_has(&abilities.0, ability) {
                        proof {
                            assert(state@.picks(p, i as int));
                            lemma_first_stays(state@, p, i as int + 1, ID_LIMIT as int);
                        }
                        return Some(id);
                    }
                }
            }
        }
        i += 1;
    }
    proof {
        lemma_ids_where_beyond(state@, p, n as int, ID_LIMIT as int);
    }
    None
}

/// Whether the list holds the passive ability.
pub fn list_has(list: &Vec<PassiveAbility>, ability: PassiveAbility) -> (r: bool)
    ensures
        r == list@.contains(ability),
{
    let mut j: usize = 0;
    while j < list.len()
        invariant
            j <= list@.len(),
            forall|m: int| 0 <= m < j ==> list@[m] != ability,
        decreases list@.len() - j,
    {
        if list[j] == ability {
            return true;
        }
        j += 1;
    }
    false
}

/// Once the list has a first entry, it keeps it however far it goes on.
pub proof fn lemma_first_stays(state: Model, p: Pick, n: int, m: int)
    requires
        0 <= n <= m,
        ids_where(state, p, n).len() > 0,
    ensures
        ids_where(state, p, m).len() >= ids_where(state, p, n).len(),
        ids_where(state, p, m)[0] == ids_where(state, p, n)[0],
    decreases m - n,
{
    if n < m {
        lemma_first_stays(state, p, n, m - 1);
    }
}

/// The only blocker on the tile, where exactly one stands there.
pub fn blocker_id_at(state: &State, pos: PosHex) -> (id: Id)
    requires
        state@.sole_blocker_on(pos).is_some(),
    ensures
        Some(id) == state@.sole_blocker_on(pos),
{
    blocker_id_at_opt(state, pos).unwrap()
}

/// The only blocker on the tile, if exactly one stands there.
pub fn blocker_id_at_opt(state: &State, pos: PosHex) -> (r: Option<Id>)
    ensures
        r == state@.sole_blocker_on(pos),
{
    let ids = blocker_ids_at(state, pos);
    if ids.len() == 1 {
        Some(ids[0])
    } else {
        None
    }
}

/// The only agent on the tile, if exactly one stands there.
pub fn agent_id_at_opt(state: &State, pos: PosHex) -> (r: Option<Id>)
    ensures
        r == state@.sole_agent_on(pos),
{
    let ids = agent_ids_at(state, pos);
    if ids.len() == 1 {
        Some(ids[0])
    } else {
        None
    }
}

/// The entity on the tile with the smallest identifier, or the
/// identifier that names no entity where the tile is free.
pub fn get_id_by_pos(state: &State, pos: PosHex) -> (id: Id)
    ensures
        id == state@.first_id_on(pos),
{
    let ghost p = Pick::At(pos);
    let n: i32 = state.parts.pos.bound();
    let mut i: i32 = 0;
    while i < n
        invariant
            0 <= i <= n,
            p == Pick::At(pos),
            ids_where(state@, p, i as int).len() == 0,
        decreases n - i,
    {
        if let Some(q) = state.parts.pos.get(Id(i)) {
            if q.0 == pos {
                proof {
                    assert(state@.picks(p, i as int));
                    lemma_first_stays(state@, p, i as int + 1, ID_LIMIT as int);
                }
                return Id(i);
            }
        }
        i += 1;
    }
    proof {
        lemma_ids_where_beyond(state@, p, n as int, ID_LIMIT as int);
    }
    Id(BAD_ID)
}

/// The agents on the tile, in ascending order.
pub fn agent_ids_at(state: &State, pos: PosHex) -> (ids: Vec<Id>)
    ensures
        ids@ == state@.agent_ids_on(pos),
{
    let ghost p = Pick::AgentsAt(pos);
    let n: i32 = state.parts.agent.bound();
    let mut ids: Vec<Id> = Vec::new();
    let mut i: i32 = 0;
    while i < n
        invariant
            0 <= i <= n,
            p == Pick::AgentsAt(pos),
            ids@ == ids_where(state@, p, i as int),
        decreases n - i,
    {
        if state.parts.agent.contains(Id(i)) {
            if let Some(q) = state.parts.pos.get(Id(i)) {
                if q.0 == pos {
                    ids.push(Id(i));
                }
            }
        }
        i += 1;
    }
    proof {
        lemma_ids_where_beyond(state@, p, n as int, ID_LIMIT as int);
    }
    ids
}

/// The blockers on the tile, in ascending order.
pub fn blocker_ids_at(state: &State, pos: PosHex) -> (ids: Vec<Id>)
    ensures
        ids@ == state@.blocker_ids_on(pos),
{
    let ghost p = Pick::BlockersAt(pos);
    let n: i32 = state.parts.blocker.bound();
    let mut ids: Vec<Id> = Vec::new();
    let mut i: i32 = 0;
    while i < n
        invariant
            0 <= i <= n,
            p == Pick::BlockersAt(pos),
            ids@ == ids_where(state@, p, i as int),
        decreases n - i,
    {
        if state.parts.blocker.contains(Id(i)) {
            if let Some(q) = state.parts.pos.get(Id(i)) {
                if q.0 == pos {
                    ids.push(Id(i));
                }
            }
        }
        i += 1;
    }
    proof {
        lemma_ids_where_beyond(state@, p, n as int, ID_LIMIT as int);
    }
    ids
}

/// The agents of the player, in ascending order.
pub fn players_agent_ids(state: &State, player_id: PlayerId) -> (ids: Vec<Id>)
    ensures
        ids@ == state@.agent_ids_of(player_id),
{
    let ghost p = Pick::AgentsOf(player_id);
    let n: i32 = state.parts.agent.bound();
    let mut ids: Vec<Id> = Vec::new();
    let mut i: i32 = 0;
    while i < n
        invariant
            0 <= i <= n,
            p == Pick::AgentsOf(player_id),
            ids@ == ids_where(state@, p, i as int),
        decreases n - i,
    {
        if state.parts.agent.contains(Id(i)) {
            if let Some(owner) = state.parts.belongs_to.get(Id(i)) {
                if owner.0 == player_id {
                    ids.push(Id(i));
                }
            }
        }
        i += 1;
    }
    proof {
        lemma_ids_where_beyond(state@, p, n as int, ID_LIMIT as int);
    }
    ids
}

/// The agents of the other players, in ascending order.
pub fn enemy_agent_ids(state: &State, player_id: PlayerId) -> (ids: Vec<Id>)
    ensures
        ids@ == state@.enemy_ids_of(player_id),
{
    let ghost p = Pick::EnemiesOf(player_id);
    let n: i32 = state.parts.agent.bound();
    let mut ids: Vec<Id> = Vec::new();
    let mut i: i32 = 0;
    while i < n
        invariant
            0 <= i <= n,
            p == Pick::EnemiesOf(player_id),
            ids@ == ids_where(state@, p, i as int),
        decreases n - i,
    {
        if state.parts.agent.contains(Id(i)) {
            if let Some(owner) = state.parts.belongs_to.get(Id(i)) {
                if owner.0 != player_id {
                    ids.push(Id(i));
                }
            }
        }
        i += 1;
    }
    proof {
        lemma_ids_where_beyond(state@, p, n as int, ID_LIMIT as int);
    }
    ids
}

/// The blockers, in ascending order.
pub fn blocker_ids(state: &State) -> (ids: Vec<Id>)
    ensures
        ids@ == ids_where(state@, Pick::Blockers, ID_LIMIT as int),
{
    let ghost p = Pick::Blockers;
    let n: i32 = state.parts.blocker.bound();
    let mut ids: Vec<Id> = Vec::new();
    let mut i: i32 = 0;
    while i < n
        invariant
            0 <= i <= n,
            p == Pick::Blockers,
            ids@ == ids_where(state@, p, i as int),
        decreases n - i,
    {
        if state.parts.blocker.contains(Id(i)) {
            ids.push(Id(i));
        }
        i += 1;
    }
    proof {
        lemma_ids_where_beyond(state@, p, n as int, ID_LIMIT as int);
    }
    ids
}

/// The entities that have passive abilities, in ascending order.
pub fn passive_ids(state: &State) -> (ids: Vec<Id>)
    ensures
        ids@ == ids_where(state@, Pick::Passive, ID_LIMIT as int),
{
    let ghost p = Pick::Passive;
    let n: i32 = state.parts.passive_abilities.bound();
    let mut ids: Vec<Id> = Vec::new();
    let mut i: i32 = 0;
    while i < n
        invariant
            0 <= i <= n,
            p == Pick::Passive,
            ids@ == ids_where(state@, p, i as int),
        decreases n - i,
    {
        if state.parts.passive_abilities.contains(Id(i)) {
            ids.push(Id(i));
        }
        i += 1;
    }
    proof {
        lemma_ids_where_beyond(state@, p, n as int, ID_LIMIT as int);
    }
    ids
}

/// The entities that have a list of lasting effects, in ascending order.
pub fn affected_ids(state: &State) -> (ids: Vec<Id>)
    ensures
        ids@ == ids_where(state@, Pick::Affected, ID_LIMIT as int),
{
    let ghost p = Pick::Affected;
    let n: i32 = state.parts.effects.bound();
    let mut ids: Vec<Id> = Vec::new();
    let mut i: i32 = 0;
    while i < n
        invariant
            0 <= i <= n,
            p == Pick::Affected,
            ids@ == ids_where(state@, p, i as int),
        decreases n - i,
    {
        if state.parts.effects.contains(Id(i)) {
            ids.push(Id(i));
        }
        i += 1;
    }
    proof {
        lemma_ids_where_beyond(state@, p, n as int, ID_LIMIT as int);
    }
    ids
}

/// The entities that have a list of planned abilities, in ascending order.
pub fn planning_ids(state: &State) -> (ids: Vec<Id>)
    ensures
        ids@ == ids_where(state@, Pick::Planning, ID_LIMIT as int),
{
    let ghost p = Pick::Planning;
    let n: i32 = state.parts.schedule.bound();
    let mut ids: Vec<Id> = Vec::new();
    let mut i: i32 = 0;
    while i < n
        invariant
            0 <= i <= n,
            p == Pick::Planning,
            ids@ == ids_where(state@, p, i as int),
        decreases n - i,
    {
        if state.parts.schedule.contains(Id(i)) {
            ids.push(Id(i));
        }
        i += 1;
    }
    proof {
        lemma_ids_where_beyond(state@, p, n as int, ID_LIMIT as int);
    }
    ids
}

/// The agents of the other players. The store is walked in ascending
/// order, so the list comes out as `enemy_agent_ids` gives it.
pub fn enemy_agent_ids_unsort(state: &State, player_id: PlayerId) -> (ids: Vec<Id>)
    ensures
        ids@ == state@.enemy_ids_of(player_id),
{
    enemy_agent_ids(state, player_id)
}

/// The number of agents of the other players, as far as a `u8` counts:
/// 255 stands for that many or more.
pub fn enemy_agent_count(state: &State, player_id: PlayerId) -> (count: u8)
    ensures
        count == (if state@.enemy_ids_of(player_id).len() > 255 {
            255
        } else {
            state@.enemy_ids_of(player_id).len() as int
        }),
{
    let ids = enemy_agent_ids(state, player_id);
    if ids.len() > 255 {
        255
    } else {
        ids.len() as u8
    }
}

/// Whether the tile next to `origin` in direction `dir` is on the board and free.
pub open spec fn free_neighbor(state: Model, origin: PosHex, dir: Dir) -> bool {
    state.on_board(neighbor(origin, dir)) && !state.occupied(neighbor(origin, dir))
}

/// The free tiles next to `origin` in the first `n` directions, at most `count` of them.
pub open spec fn free_neighbors(state: Model, origin: PosHex, count: int, n: int) -> Seq<PosHex>
    decreases n,
{
    if n <= 0 {
        Seq::empty()
    } else {
        let before = free_neighbors(state, origin, count, n - 1);
        if free_neighbor(state, origin, dir_of_int(n - 1)) && !(count > 0 && before.len()
            == count) {
            before.push(neighbor(origin, dir_of_int(n - 1)))
        } else {
            before
        }
    }
}

/// The tiles next to `origin` that are on the board and free, in the
/// order of the directions. The list ends with its `count`-th tile;
/// with a `count` of zero it holds every such tile.
pub fn free_neighbor_positions(state: &State, origin: PosHex, count: usize) -> (positions: Vec<
    PosHex,
>)
    ensures
        positions@ == free_neighbors(state@, origin, count as int, 6),
{
    let mut positions: Vec<PosHex> = Vec::new();
    let mut n: i32 = 0;
    let mut full: bool = false;
    while n < 6 && !full
        invariant
            0 <= n <= 6,
            !full ==> positions@ == free_neighbors(state@, origin, count as int, n as int),
            !full ==> !(count > 0 && positions@.len() == count),
            full ==> positions@ == free_neighbors(state@, origin, count as int, 6),
            positions@.len() <= n,
        decreases 6 - n + (if full { 0int } else { 1int }),
    {
        let dir = Dir::from_int(n);
        let pos = Dir::get_neighbor_pos(origin, dir);
        if state.map.is_inboard(pos) && !is_tile_blocked_not_check_inboard(state, pos) {
            positions.push(pos);
            if positions.len() == count {
                full = true;
                proof {
                    lemma_free_neighbors_full(state@, origin, count as int, n as int + 1, 6);
                }
            }
        }
        n += 1;
    }
    positions
}

/// A list that has reached `count` tiles takes no more.
pub proof fn lemma_free_neighbors_full(state: Model, origin: PosHex, count: int, n: int, m: int)
    requires
        0 <= n <= m,
        count > 0,
        free_neighbors(state, origin, count, n).len() == count,
    ensures
        free_neighbors(state, origin, count, m) == free_neighbors(state, origin, count, n),
    decreases m - n,
{
    if n < m {
        lemma_free_neighbors_full(state, origin, count, n, m - 1);
    }
}

/// The smaller of `start` and the distances from `from` to the first
/// `n` enemies of a list. An enemy that stands nowhere does not count.
pub open spec fn least_distance(state: Model, from: PosHex, enemies: Seq<Id>, start: int, n: int)
    -> int
    decreases n,
{
    if n <= 0 {
        start
    } else {
        let least = least_distance(state, from, enemies, start, n - 1);
        if state.pos.contains_key(enemies[n - 1].0 as int) && crate::map::reported_distance(
            crate::map::hex_distance(from, state.pos[enemies[n - 1].0 as int].0),
        ) < least {
            crate::map::reported_distance(
                crate::map::hex_distance(from, state.pos[enemies[n - 1].0 as int].0),
            )
        } else {
            least
        }
    }
}

/// How far an agent is from its nearest enemy, but no farther than the
/// board is high. An agent without an owner or without a tile counts
/// as that far.
pub open spec fn enemy_distance(state: Model, id: Id) -> int {
    if state.belongs_to.contains_key(id.0 as int) && state.pos.contains_key(id.0 as int) {
        least_distance(
            state,
            state.pos[id.0 as int].0,
            state.enemy_ids_of(state.belongs_to[id.0 as int].0),
            state.radius * 2 + 1,
            state.enemy_ids_of(state.belongs_to[id.0 as int].0).len() as int,
        )
    } else {
        state.radius * 2 + 1
    }
}

fn distance_to_enemies(state: &State, id: Id) -> (d: i32)
    requires
        state.wf(),
    ensures
        d == enemy_distance(state@, id),
{
    let height: i32 = state.map.height();
    let owner = match state.parts.belongs_to.get(id) {
        Some(owner) => owner.0,
        None => return height,
    };
    let agent_pos = match state.parts.pos.get(id) {
        Some(pos) => pos.0,
        None => return height,
    };
    let enemies = enemy_agent_ids(state, owner);
    let mut min_distance: i32 = height;
    let mut i: usize = 0;
    while i < enemies.len()
        invariant
            i <= enemies@.len(),
            min_distance == least_distance(
                state@,
                agent_pos,
                enemies@,
                state@.radius * 2 + 1,
                i as int,
            ),
        decreases enemies@.len() - i,
    {
        if let Some(enemy_pos) = state.parts.pos.get(enemies[i]) {
            let distance: i32 = crate::map::distance_hex(agent_pos, enemy_pos.0);
            if distance < min_distance {
                min_distance = distance;
            }
        }
        i += 1;
    }
    min_distance
}

/// Whether the agents of a list stand in the order of their distance
/// to their nearest enemies, the nearest first.
pub open spec fn by_enemy_distance(state: Model, ids: Seq<Id>) -> bool {
    forall|i: int, j: int|
        0 <= i < j < ids.len() ==> enemy_distance(state, #[trigger] ids[i]) <= enemy_distance(
            state,
            #[trigger] ids[j],
        )
}

/// The place of the first agent at or after `from` that is farther
/// from its enemies than `distance`, or the length of the list if there
/// is none.
pub open spec fn farther_slot(state: Model, ids: Seq<Id>, distance: int, from: int) -> int
    decreases ids.len() - from,
{
    if from < 0 || from >= ids.len() {
        ids.len() as int
    } else if enemy_distance(state, ids[from]) > distance {
        from
    } else {
        farther_slot(state, ids, distance, from + 1)
    }
}

/// The first `n` agents of a list in the order of their distance to
/// their nearest enemies, the nearest first; agents at the same
/// distance stay in the order in which the list has them.
pub open spec fn nearest_first(state: Model, ids: Seq<Id>, n: int) -> Seq<Id>
    decreases n,
{
    if n <= 0 {
        Seq::empty()
    } else {
        nearest_first(state, ids, n - 1).insert(
            farther_slot(
                state,
                nearest_first(state, ids, n - 1),
                enemy_distance(state, ids[n - 1]) as int,
                0,
            ),
            ids[n - 1],
        )
    }
}

/// Puts the agents in the order of their distance to their nearest
/// enemies, the nearest first: see `enemy_distance`. Agents at the same
/// distance stay in the order in which they came.
pub fn sort_agent_ids_by_distance_to_enemies(state: &State, ids: &mut Vec<Id>)
    requires
        state.wf(),
    ensures
        final(ids)@ == nearest_first(state@, old(ids)@, old(ids)@.len() as int),
        by_enemy_distance(state@, final(ids)@),
        final(ids)@.to_multiset() == old(ids)@.to_multiset(),
{
    let mut sorted: Vec<Id> = Vec::new();
    let mut keys: Vec<i32> = Vec::new();
    let mut i: usize = 0;
    assert(sorted@ =~= ids@.subrange(0, 0));
    while i < ids.len()
        invariant
            i <= ids@.len(),
            ids@ == old(ids)@,
            state.wf(),
            keys@.len() == sorted@.len(),
            forall|k: int| 0 <= k < sorted@.len() ==> keys@[k] == enemy_distance(state@, #[trigger] sorted@[k]),
            by_enemy_distance(state@, sorted@),
            sorted@.to_multiset() == ids@.subrange(0, i as int).to_multiset(),
            sorted@ == nearest_first(state@, ids@, i as int),
        decreases ids@.len() - i,
    {
        let id = ids[i];
        let key: i32 = distance_to_enemies(state, id);
        let mut at: usize = 0;
        while at < sorted.len() && keys[at] <= key
            invariant
                at <= sorted@.len(),
                keys@.len() == sorted@.len(),
                forall|k: int| 0 <= k < at ==> keys@[k] <= key,
                forall|k: int|
                    0 <= k < sorted@.len() ==> keys@[k] == enemy_distance(
                        state@,
                        #[trigger] sorted@[k],
                    ),
                farther_slot(state@, sorted@, key as int, 0) == farther_slot(
                    state@,
                    sorted@,
                    key as int,
                    at as int,
                ),
            decreases sorted@.len() - at,
        {
            assert(keys@[at as int] == enemy_distance(state@, sorted@[at as int]));
            at += 1;
        }
        assert(at < sorted@.len() ==> keys@[at as int] == enemy_distance(
            state@,
            sorted@[at as int],
        ));
        assert(at == farther_slot(state@, sorted@, key as int, 0));
        proof {
            vstd::seq_lib::to_multiset_insert(sorted@, at as int, id);
            vstd::seq_lib::to_multiset_build(ids@.subrange(0, i as int), id);
            assert(ids@.subrange(0, i as int).push(id) =~= ids@.subrange(0, i as int + 1));
        }
        let ghost before = sorted@;
        let ghost before_keys = keys@;
        assert(at < before.len() ==> before_keys[at as int] > key);
        sorted.insert(at, id);
        keys.insert(at, key);
        assert forall|k: int| 0 <= k < sorted@.len() implies keys@[k] == enemy_distance(
            state@,
            #[trigger] sorted@[k],
        ) by {
            if k < at {
                assert(sorted@[k] == before[k]);
                assert(keys@[k] == before_keys[k]);
            } else if k > at {
                assert(sorted@[k] == before[k - 1]);
                assert(keys@[k] == before_keys[k - 1]);
            }
        }
        assert forall|a: int, b: int| 0 <= a < b < sorted@.len() implies enemy_distance(
            state@,
            #[trigger] sorted@[a],
        ) <= enemy_distance(state@, #[trigger] sorted@[b]) by {
            let ka = keys@[a];
            let kb = keys@[b];
            assert(ka == enemy_distance(state@, sorted@[a]));
            assert(kb == enemy_distance(state@, sorted@[b]));
            if b < at {
                assert(sorted@[a] == before[a]);
                assert(sorted@[b] == before[b]);
            } else if b == at {
                assert(keys@[a] == before_keys[a]);
                assert(before_keys[a] <= key);
            } else if a == at {
                assert(sorted@[b] == before[b - 1]);
                assert(keys@[b] == before_keys[b - 1]);
                if b - 1 > at {
                    assert(enemy_distance(state@, before[at as int]) <= enemy_distance(
                        state@,
                        before[b - 1],
                    ));
                }
                assert(before_keys[at as int] == enemy_distance(state@, before[at as int]));
            } else if a > at {
                assert(sorted@[a] == before[a - 1]);
                assert(sorted@[b] == before[b - 1]);
            } else {
                assert(sorted@[a] == before[a]);
                assert(sorted@[b] == before[b - 1]);
                if a < b - 1 {
                    assert(enemy_distance(state@, before[a]) <= enemy_distance(
                        state@,
                        before[b - 1],
                    ));
                }
            }
        }
        i += 1;
    }
    assert(ids@.subrange(0, ids@.len() as int) =~= ids@);
    *ids = sorted;
}

/// The names of the kinds of the first `n` entities of the list; an
/// entity whose kind is not on record is left out.
pub open spec fn kinds_of(state: Model, ids: Seq<Id>, n: int) -> Seq<Seq<char>>
    decreases n,
{
    if n <= 0 {
        Seq::empty()
    } else if state.meta.contains_key(ids[n - 1].0 as int) {
        kinds_of(state, ids, n - 1).push(state.meta[ids[n - 1].0 as int])
    } else {
        kinds_of(state, ids, n - 1)
    }
}

/// The names of a list of kinds.
pub open spec fn names_of(types: Seq<ObjType>) -> Seq<Seq<char>> {
    Seq::new(types.len(), |i: int| types[i]@)
}

/// The kinds of the agents of the player, in ascending order of the
/// agents' identifiers; an agent whose kind is not on record is left out.
pub fn players_agent_types(state: &State, player_id: PlayerId) -> (types: Vec<ObjType>)
    ensures
        names_of(types@) == kinds_of(
            state@,
            state@.agent_ids_of(player_id),
            state@.agent_ids_of(player_id).len() as int,
        ),
{
    let ids = players_agent_ids(state, player_id);
    let mut types: Vec<ObjType> = Vec::new();
    let mut i: usize = 0;
    while i < ids.len()
        invariant
            i <= ids@.len(),
            ids@ == state@.agent_ids_of(player_id),
            names_of(types@) == kinds_of(state@, ids@, i as int),
        decreases ids@.len() - i,
    {
        if let Some(meta) = state.parts.meta.get(ids[i]) {
            types.push(meta.name.clone());
            assert(names_of(types@) =~= kinds_of(state@, ids@, i as int + 1));
        }
        i += 1;
    }
    types
}

/// The status of the first entry of the list for the ability, if the
/// list has one.
pub open spec fn status_of(list: Seq<RechargeableAbility>, ability: Ability) -> Option<Status>
    decreases list.len(),
{
    if list.len() == 0 {
        None
    } else if list[0].ability == ability {
        Some(list[0].status)
    } else {
        status_of(list.subrange(1, list.len() as int), ability)
    }
}

/// The status of the first entry of the list for the ability.
pub fn find_status(list: &Vec<RechargeableAbility>, ability: Ability) -> (r: Option<Status>)
    ensures
        r == status_of(list@, ability),
{
    let mut i: usize = 0;
    assert(list@.subrange(0, list@.len() as int) =~= list@);
    while i < list.len()
        invariant
            i <= list@.len(),
            status_of(list@, ability) == status_of(
                list@.subrange(i as int, list@.len() as int),
                ability,
            ),
        decreases list@.len() - i,
    {
        let ghost rest = list@.subrange(i as int, list@.len() as int);
        assert(rest[0] == list@[i as int]);
        if list[i].ability == ability {
            return Some(list[i].status);
        }
        assert(rest.subrange(1, rest.len() as int) =~= list@.subrange(
            i as int + 1,
            list@.len() as int,
        ));
        i += 1;
    }
    assert(list@.subrange(i as int, list@.len() as int).len() == 0);
    None
}

/// Whether the agent has the ability, and has it ready.
pub open spec fn ability_ready(state: Model, id: Id, ability: Ability) -> bool {
    state.abilities.contains_key(id.0 as int) && status_of(state.abilities[id.0 as int], ability)
        == Some(Status::Ready)
}

/// Whether the agent can use the ability now: it belongs to the player
/// who moves, the ability is ready, and an attack or a joker is left.
pub fn can_agent_use_ability(state: &State, id: &Id, ability: &Ability) -> (r: bool)
    requires
        state.parts.belongs_to.has(*id),
        state.parts.agent.has(*id),
        state.parts.abilities.has(*id),
        status_of(state.parts.abilities.at(*id)@, *ability).is_some(),
    ensures
        r == (state@.owned_by(id.0 as int, state.player_id) && ability_ready(state@, *id, *ability)
            && state.parts.agent.at(*id).can_attack_now()),
{
    let agent_player_id = state.belongs_to(id).0;
    let agent = state.agent(id);
    let has_actions = agent.attacks.0 > 0 || agent.jokers.0 > 0;
    let is_player_agent = agent_player_id == state.player_id();
    let is_ready = match find_status(&state.abilities(id).0, *ability) {
        Some(Status::Ready) => true,
        _ => false,
    };
    is_player_agent && is_ready && has_actions
}

} // verus!
