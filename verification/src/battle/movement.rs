//! Paths over the board.

use vstd::prelude::*;

use crate::battle::model::Model;
use crate::battle::state::State;
use crate::battle::Id;
use crate::battle::MovePoints;
use crate::battle::TileType;
use crate::map::PosHex;
use crate::utils::copy_vec;

verus! {

/// A walk over the board: the tiles it passes, the first one being
/// where it starts. A path has at least one tile.
#[derive(Debug, PartialEq)]
pub struct Path {
    tiles: Vec<PosHex>,
}

impl View for Path {
    type V = Seq<PosHex>;

    closed spec fn view(&self) -> Seq<PosHex> {
        self.tiles@
    }
}

impl Path {
    #[verifier::type_invariant]
    spec fn inv(&self) -> bool {
        self.tiles@.len() > 0
    }

    /// The tile the path starts on.
    pub open spec fn start(&self) -> PosHex {
        self@[0]
    }

    /// The tile the path ends on.
    pub open spec fn end(&self) -> PosHex {
        self@[self@.len() - 1]
    }

    /// The path over the given tiles.
    pub fn new(tiles: Vec<PosHex>) -> (path: Path)
        requires
            tiles@.len() > 0,
        ensures
            path@ == tiles@,
    {
        Path { tiles }
    }

    /// The tiles of the path, of which there is at least one.
    pub fn tiles(&self) -> (tiles: &Vec<PosHex>)
        ensures
            tiles@ == self@,
            tiles@.len() > 0,
    {
        proof {
            use_type_invariant(self);
        }
        &self.tiles
    }

    pub fn from(&self) -> (pos: PosHex)
        ensures
            pos == self.start(),
    {
        proof {
            use_type_invariant(self);
        }
        self.tiles[0]
    }

    pub fn to(&self) -> (pos: PosHex)
        ensures
            pos == self.end(),
    {
        proof {
            use_type_invariant(self);
        }
        self.tiles[self.tiles.len() - 1]
    }
}

/// The move points that a step onto a tile of the kind costs.
pub open spec fn cost_of(tile: TileType) -> int {
    match tile {
        TileType::Plain => 1,
        TileType::Rocks => 3,
    }
}

/// The move points that a step onto the tile costs; the tile must be
/// on the board.
pub fn tile_cost(state: &State, _id: Id, _from: PosHex, pos: PosHex) -> (cost: MovePoints)
    requires
        state.wf(),
        state@.on_board(pos),
    ensures
        cost.0 == cost_of(state@.tile_at(pos)),
{
    match state.map.tile(pos) {
        TileType::Plain => MovePoints(1),
        TileType::Rocks => MovePoints(3),
    }
}

/// The cost of the steps onto the first `n` tiles after the start of a
/// path, counted up to the largest `i32`.
pub open spec fn steps_cost(m: Model, tiles: Seq<PosHex>, n: int) -> int
    decreases n,
{
    if n <= 0 {
        0
    } else {
        crate::battle::capped_sum(
            steps_cost(m, tiles, n - 1) as i32,
            cost_of(m.tile_at(tiles[n])) as i32,
        ) as int
    }
}

impl Path {
    /// The cost of the path: that of every step after its start. Every
    /// tile after the start must be on the board.
    pub fn cost_for(&self, state: &State, id: Id) -> (cost: MovePoints)
        requires
            state.wf(),
            forall|i: int| 1 <= i < self@.len() ==> state@.on_board(#[trigger] self@[i]),
        ensures
            cost.0 == steps_cost(state@, self@, self@.len() - 1),
    {
        proof {
            use_type_invariant(self);
        }
        let mut cost: i32 = 0;
        let mut i: usize = 1;
        assert(self@ == self.tiles@);
        while i < self.tiles.len()
            invariant
                1 <= i <= self.tiles@.len(),
                state.wf(),
                forall|k: int| 1 <= k < self.tiles@.len() ==> state@.on_board(#[trigger] self.tiles@[k]),
                0 <= cost,
                cost == steps_cost(state@, self.tiles@, i - 1),
            decreases self.tiles@.len() - i,
        {
            let step = tile_cost(state, id, self.tiles[i - 1], self.tiles[i]);
            cost = crate::battle::add_capped(cost, step.0);
            i += 1;
        }
        MovePoints(cost)
    }
}

impl Clone for Path {
    fn clone(&self) -> (c: Path)
        ensures
            c@ == self@,
    {
        proof {
            use_type_invariant(self);
        }
        Path { tiles: copy_vec(&self.tiles) }
    }
}

} // verus!
