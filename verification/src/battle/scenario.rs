//! The layout a battle starts from: the size of the board and the
//! entities on it, some at fixed tiles, some placed by chance.

use vstd::prelude::*;

use crate::battle::component::ObjType;
use crate::battle::model::Model;
use crate::battle::state;
use crate::battle::state::State;
use crate::utils::SimpleRng;
use crate::battle::PlayerId;
use crate::battle::TileType;
use crate::map::distance_hex;
use crate::map::hex_distance;
use crate::map::reported_distance;
use crate::map::PosHex;

verus! {

#[derive(Debug, Clone, Copy, PartialEq, Eq, Structural)]
pub enum BattleType {
    Skirmish,
    CampaignNode,
}

/// A number of entities of one kind, to be placed by chance.
#[derive(Debug, PartialEq)]
pub struct ObjectsGroup {
    pub owner: Option<PlayerId>,
    pub typename: ObjType,
    pub line: Option<Line>,
    pub count: i32,
}

impl Clone for ObjectsGroup {
    fn clone(&self) -> (c: ObjectsGroup)
        ensures
            c == *self,
    {
        ObjectsGroup {
            owner: self.owner,
            typename: self.typename.clone(),
            line: self.line,
            count: self.count,
        }
    }
}

/// An entity at a fixed tile.
#[derive(Debug, PartialEq)]
pub struct Object {
    pub owner: Option<PlayerId>,
    pub typename: ObjType,
    pub pos: PosHex,
}

impl Clone for Object {
    fn clone(&self) -> (c: Object)
        ensures
            c == *self,
    {
        Object { owner: self.owner, typename: self.typename.clone(), pos: self.pos }
    }
}

#[derive(Debug, Clone, PartialEq)]
pub struct Scenario {
    pub map_radius: i32,
    pub players_count: i32,
    pub rocky_tiles_count: i32,
    pub tiles: Vec<(PosHex, TileType)>,
    pub randomized_objects: Vec<ObjectsGroup>,
    pub objects: Vec<Object>,
}

/// What is wrong with a scenario.
#[derive(Clone, Copy, Debug, PartialEq, Eq, Structural)]
pub enum Error {
    MapIsTooSmall,
    PosOutsideOfMap(PosHex),
    NoPlayerAgents,
    NoEnemyAgents,
    UnsupportedPlayersCount(i32),
}

impl Scenario {
    /// Whether the fixed entity number `i` lies off the board.
    pub open spec fn outside(&self, i: int) -> bool {
        reported_distance(hex_distance(PosHex { q: 0, r: 0 }, self.objects@[i].pos))
            > self.map_radius
    }

    /// Whether the scenario gives the player any entity, fixed or placed by chance.
    pub open spec fn fields(&self, player: PlayerId) -> bool {
        ||| exists|i: int|
            0 <= i < self.objects@.len() && (#[trigger] self.objects@[i]).owner == Some(player)
        ||| exists|i: int|
            0 <= i < self.randomized_objects@.len() && (#[trigger] self.randomized_objects@[i]).owner
                == Some(player)
    }

    /// Whether every fixed entity lies on the board.
    pub open spec fn all_inside(&self) -> bool {
        forall|i: int| 0 <= i < self.objects@.len() ==> !self.outside(i)
    }

    /// Checks the scenario: two players, a radius of three or more, every
    /// fixed entity on the board, and an entity for each of the players.
    /// Reports the first of these that fails, and of the fixed entities
    /// the first that lies off the board.
    pub fn check(&self) -> (r: Result<(), Error>)
        ensures
            self.players_count != 2 ==> r == Err::<(), Error>(
                Error::UnsupportedPlayersCount(self.players_count),
            ),
            self.players_count == 2 && self.map_radius < 3 ==> r == Err::<(), Error>(
                Error::MapIsTooSmall,
            ),
            self.players_count == 2 && self.map_radius >= 3 ==> (match r {
                Err(Error::PosOutsideOfMap(pos)) => exists|i: int|
                    0 <= i < self.objects@.len() && self.outside(i) && pos == self.objects@[i].pos
                        && forall|j: int| 0 <= j < i ==> !self.outside(j),
                Err(Error::NoPlayerAgents) => self.all_inside() && !self.fields(PlayerId(0)),
                Err(Error::NoEnemyAgents) => self.all_inside() && self.fields(PlayerId(0))
                    && !self.fields(PlayerId(1)),
                Ok(_) => self.all_inside() && self.fields(PlayerId(0)) && self.fields(PlayerId(1)),
                _ => false,
            }),
    {
        if self.players_count != 2 {
            return Err(Error::UnsupportedPlayersCount(self.players_count));
        }
        if self.map_radius < 3 {
            return Err(Error::MapIsTooSmall);
        }
        let origin = PosHex { q: 0, r: 0 };
        let mut i: usize = 0;
        while i < self.objects.len()
            invariant
                i <= self.objects@.len(),
                origin == (PosHex { q: 0, r: 0 }),
                self.players_count == 2,
                self.map_radius >= 3,
                forall|j: int| 0 <= j < i ==> !self.outside(j),
            decreases self.objects@.len() - i,
        {
            let dist: i32 = distance_hex(origin, self.objects[i].pos);
            if dist > self.map_radius {
                assert(self.outside(i as int));
                return Err(Error::PosOutsideOfMap(self.objects[i].pos));
            }
            i += 1;
        }
        if !self.any_of(PlayerId(0)) {
            return Err(Error::NoPlayerAgents);
        }
        if !self.any_of(PlayerId(1)) {
            return Err(Error::NoEnemyAgents);
        }
        Ok(())
    }

    fn any_of(&self, player: PlayerId) -> (r: bool)
        ensures
            r == self.fields(player),
    {
        let mut i: usize = 0;
        while i < self.objects.len()
            invariant
                i <= self.objects@.len(),
                forall|j: int| 0 <= j < i ==> (#[trigger] self.objects@[j]).owner != Some(player),
            decreases self.objects@.len() - i,
        {
            if let Some(owner) = self.objects[i].owner {
                if owner == player {
                    return true;
                }
            }
            i += 1;
        }
        let mut k: usize = 0;
        while k < self.randomized_objects.len()
            invariant
                k <= self.randomized_objects@.len(),
                forall|j: int|
                    0 <= j < self.objects@.len() ==> (#[trigger] self.objects@[j]).owner
                        != Some(player),
                forall|j: int|
                    0 <= j < k ==> (#[trigger] self.randomized_objects@[j]).owner != Some(player),
            decreases self.randomized_objects@.len() - k,
        {
            if let Some(owner) = self.randomized_objects[k].owner {
                if owner == player {
                    return true;
                }
            }
            k += 1;
        }
        false
    }
}

impl Default for Scenario {
    fn default() -> (s: Scenario)
        ensures
            s.map_radius == 5,
            s.players_count == 2,
            s.rocky_tiles_count == 0,
            s.tiles@.len() == 0,
            s.randomized_objects@.len() == 0,
            s.objects@.len() == 0,
    {
        Scenario {
            map_radius: 5,
            players_count: 2,
            rocky_tiles_count: 0,
            tiles: Vec::new(),
            randomized_objects: Vec::new(),
            objects: Vec::new(),
        }
    }
}

/// The middle half of the range from `min` to `max`, measured from
/// `min`: from a quarter of its length below the middle to a quarter
/// above it, and at least one wide.
pub open spec fn middle_of(min: int, max: int) -> (int, int) {
    let size = max - min;
    let low = size / 2 - size / 4;
    let high = size / 2 + size / 4;
    (
        low,
        if low == high {
            high + 1
        } else {
            high
        },
    )
}

pub fn middle_range(min: i32, max: i32) -> (r: (i32, i32))
    requires
        min <= max,
        max - min <= i32::MAX,
    ensures
        r.0 == middle_of(min as int, max as int).0,
        r.1 == middle_of(min as int, max as int).1,
        r.0 < r.1,
{
    let size: i32 = max - min;
    let half: i32 = size / 2;
    let forth: i32 = size / 4;
    let min: i32 = half - forth;
    let mut max: i32 = half + forth;
    if min == max {
        max += 1;
    }
    (min, max)
}

/// A line of battle: how far from its own edge of the board a side
/// places an entity.
#[derive(Debug, Clone, Copy, PartialEq, Eq, Structural)]
pub enum Line {
    Any,
    Front,
    Middle,
    Back,
}

/// The columns of a line on the boards of radius three, four and five,
/// counted from the edge: the first one and the one after the last.
pub open spec fn line_columns(line: Line, radius: int) -> (int, int) {
    if radius == 3 {
        match line {
            Line::Back => (0, 1),
            Line::Middle => (1, 2),
            Line::Front => (1, 4),
            Line::Any => (0, 4),
        }
    } else if radius == 4 {
        match line {
            Line::Back => (0, 2),
            Line::Middle => (1, 3),
            Line::Front => (2, 5),
            Line::Any => (0, 5),
        }
    } else {
        match line {
            Line::Back => (0, 2),
            Line::Middle => (1, 3),
            Line::Front => (2, 6),
            Line::Any => (0, 6),
        }
    }
}

impl Line {
    /// The columns of the line on a board of any radius.
    pub fn to_range(self, radius: i32) -> (r: (i32, i32))
        requires
            0 <= radius < i32::MAX,
        ensures
            self == Line::Front ==> r.0 == radius / 2 && r.1 == radius + 1,
            self == Line::Middle ==> r.0 == middle_of(0, radius as int).0 && r.1 == middle_of(
                0,
                radius as int,
            ).1,
            self == Line::Back ==> r.0 == 0 && r.1 == radius / 2,
            self == Line::Any ==> r.0 == 0 && r.1 == radius + 1,
    {
        match self {
            Line::Front => (radius / 2, radius + 1),
            Line::Middle => middle_range(0, radius),
            Line::Back => (0, radius / 2),
            Line::Any => (0, radius + 1),
        }
    }

    /// The columns of the line on a board of radius three, four or five.
    pub fn get_range(self, radius: i32) -> (r: (i32, i32))
        requires
            3 <= radius <= 5,
        ensures
            r.0 == line_columns(self, radius as int).0,
            r.1 == line_columns(self, radius as int).1,
            0 <= r.0 < r.1 <= radius + 1,
    {
        if radius == 3 {
            match self {
                Line::Back => (0, 1),
                Line::Middle => (1, 2),
                Line::Front => (1, 4),
                Line::Any => (0, 4),
            }
        } else if radius == 4 {
            match self {
                Line::Back => (0, 2),
                Line::Middle => (1, 3),
                Line::Front => (2, 5),
                Line::Any => (0, 5),
            }
        } else {
            match self {
                Line::Back => (0, 2),
                Line::Middle => (1, 3),
                Line::Front => (2, 6),
                Line::Any => (0, 6),
            }
        }
    }
}

/// How often a free tile is looked for before the search gives up.
pub const ATTEMPTS: i32 = 30;

/// The tile that the next two draws pick anywhere on the board: its
/// column and its row, each from minus the radius up to, but not
/// including, the radius.
pub open spec fn drawn_pos(m: Model, rng: SimpleRng) -> PosHex {
    PosHex {
        q: rng.peek_range(-(m.radius as int), m.radius as int) as i32,
        r: rng.advanced().peek_range(-(m.radius as int), m.radius as int) as i32,
    }
}

/// Whether a tile is on the board, plain and free of any entity.
pub open spec fn plain_and_free(m: Model, pos: PosHex) -> bool {
    m.on_board(pos) && m.tile_at(pos) == TileType::Plain && !m.occupied(pos)
}

/// The first tile among `n` drawn ones that is plain and free, and the
/// generator after the draws that were made.
pub open spec fn free_pos_search(m: Model, rng: SimpleRng, n: int) -> (Option<PosHex>, SimpleRng)
    decreases n,
{
    if n <= 0 {
        (None, rng)
    } else if plain_and_free(m, drawn_pos(m, rng)) {
        (Some(drawn_pos(m, rng)), rng.advanced().advanced())
    } else {
        free_pos_search(m, rng.advanced().advanced(), n - 1)
    }
}

/// A tile that the search finds is plain and free.
pub proof fn lemma_found_is_free(m: Model, rng: SimpleRng, n: int)
    ensures
        free_pos_search(m, rng, n).0 matches Some(pos) ==> plain_and_free(m, pos),
    decreases n,
{
    if n > 0 && !plain_and_free(m, drawn_pos(m, rng)) {
        lemma_found_is_free(m, rng.advanced().advanced(), n - 1);
    }
}

/// A tile drawn anywhere on the board that is plain and free: the
/// first such tile of thirty draws, if there is one.
pub fn random_free_pos(state: &State, rng: &mut SimpleRng) -> (r: Option<PosHex>)
    requires
        state.wf(),
        state.map.radius >= 1,
    ensures
        (r, *final(rng)) == free_pos_search(state@, *old(rng), ATTEMPTS as int),
        r matches Some(pos) ==> plain_and_free(state@, pos),
{
    proof {
        lemma_found_is_free(state@, *rng, ATTEMPTS as int);
    }
    let radius: i32 = state.map.radius();
    let mut i: i32 = 0;
    while i < ATTEMPTS
        invariant
            0 <= i <= ATTEMPTS,
            state.wf(),
            radius == state.map.radius,
            radius >= 1,
            free_pos_search(state@, *old(rng), ATTEMPTS as int) == free_pos_search(
                state@,
                *rng,
                ATTEMPTS - i,
            ),
        decreases ATTEMPTS - i,
    {
        let q: i32 = rng.gen_range(-radius, radius);
        let r: i32 = rng.gen_range(-radius, radius);
        let pos = PosHex { q, r };
        if state::is_tile_plain_and_completely_free(state, pos) {
            return Some(pos);
        }
        i += 1;
    }
    None
}

/// The tile that the next two draws pick in a line of a player's side
/// of the board.
pub open spec fn drawn_sector_pos(m: Model, player: PlayerId, line: Line, rng: SimpleRng)
    -> PosHex {
    let column = m.radius - rng.peek_range(
        line_columns(line, m.radius as int).0,
        line_columns(line, m.radius as int).1,
    );
    PosHex {
        q: (if player.0 == 0 {
            -column
        } else {
            column
        }) as i32,
        r: rng.advanced().peek_range(-(m.radius as int), m.radius + 1) as i32,
    }
}

/// The first tile among `n` drawn ones of a line that is on the board
/// and free, and the generator after the draws that were made.
pub open spec fn sector_pos_search(m: Model, player: PlayerId, line: Line, rng: SimpleRng, n: int)
    -> (Option<PosHex>, SimpleRng)
    decreases n,
{
    if n <= 0 {
        (None, rng)
    } else {
        let pos = drawn_sector_pos(m, player, line, rng);
        if m.on_board(pos) && !m.occupied(pos) {
            (Some(pos), rng.advanced().advanced())
        } else {
            sector_pos_search(m, player, line, rng.advanced().advanced(), n - 1)
        }
    }
}

fn random_free_sector_pos(state: &State, player_id: PlayerId, line: Line, rng: &mut SimpleRng) -> (r:
    Option<PosHex>)
    requires
        3 <= state.map.radius <= 5,
        player_id.0 == 0 || player_id.0 == 1,
    ensures
        (r, *final(rng)) == sector_pos_search(state@, player_id, line, *old(rng), ATTEMPTS as int),
{
    let radius: i32 = state.map.radius();
    let range = line.get_range(radius);
    let mut i: i32 = 0;
    while i < ATTEMPTS
        invariant
            0 <= i <= ATTEMPTS,
            radius == state.map.radius,
            3 <= radius <= 5,
            player_id.0 == 0 || player_id.0 == 1,
            range.0 == line_columns(line, radius as int).0,
            range.1 == line_columns(line, radius as int).1,
            0 <= range.0 < range.1 <= radius + 1,
            sector_pos_search(state@, player_id, line, *old(rng), ATTEMPTS as int)
                == sector_pos_search(state@, player_id, line, *rng, ATTEMPTS - i),
        decreases ATTEMPTS - i,
    {
        let q: i32 = radius - rng.gen_range(range.0, range.1);
        let pos = PosHex {
            q: if player_id.0 == 0 {
                -q
            } else {
                q
            },
            r: rng.gen_range(-radius, radius + 1),
        };
        if state::is_tile_completely_free(state, pos) {
            return Some(pos);
        }
        i += 1;
    }
    None
}

/// Whether a tile can be drawn for an entity of the owner in the line
/// on this board: a line of a player's side needs a board of radius
/// three to five and one of the two players, any other draw a board of
/// radius one or more.
pub open spec fn can_draw(m: Model, owner: Option<PlayerId>, line: Option<Line>) -> bool {
    if owner.is_some() && line.is_some() {
        3 <= m.radius <= 5 && (owner.unwrap().0 == 0 || owner.unwrap().0 == 1)
    } else {
        m.radius >= 1
    }
}

/// The tile drawn for an entity: in the line of its owner's side, if
/// it has both, and anywhere on the board otherwise.
pub open spec fn pos_search(m: Model, owner: Option<PlayerId>, line: Option<Line>, rng: SimpleRng)
    -> (Option<PosHex>, SimpleRng) {
    if owner.is_some() && line.is_some() {
        sector_pos_search(m, owner.unwrap(), line.unwrap(), rng, ATTEMPTS as int)
    } else {
        free_pos_search(m, rng, ATTEMPTS as int)
    }
}

/// A free tile drawn for an entity: see `pos_search`.
pub fn random_pos(
    state: &State,
    owner: Option<PlayerId>,
    line: Option<Line>,
    rng: &mut SimpleRng,
) -> (r: Option<PosHex>)
    requires
        state.wf(),
        can_draw(state@, owner, line),
    ensures
        (r, *final(rng)) == pos_search(state@, owner, line, *old(rng)),
{
    match (owner, line) {
        (Some(player_id), Some(line)) => random_free_sector_pos(state, player_id, line, rng),
        _ => random_free_pos(state, rng),
    }
}

} // verus!
