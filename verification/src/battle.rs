//! The battle itself: identifiers and counters, the entity store, the
//! commands, their validation and execution, and the turn bookkeeping.

use vstd::prelude::*;

pub mod ability;
pub mod ai;
pub mod check;
pub mod command;
pub mod component;
pub mod effect;
pub mod event;
pub mod execute;
pub mod heroes;
pub mod laws;
pub mod model;
pub mod movement;
pub mod scenario;
pub mod state;
pub mod table;

verus! {

/// Identifier of a player.
#[derive(Clone, Copy, Debug, PartialEq, Eq, Hash, PartialOrd, Ord, Structural)]
pub struct PlayerId(pub i32);

/// Index of the player's turn during which a countdown runs.
#[derive(Clone, Copy, Debug, PartialEq, Eq, Hash, PartialOrd, Ord, Structural)]
pub struct Phase(pub i32);

/// Identifier of an entity.
#[derive(Clone, Copy, Debug, PartialEq, Eq, Hash, PartialOrd, Ord, Structural)]
pub struct Id(pub i32);

/// The identifier that names no entity.
pub const BAD_ID: i32 = -1;

/// Health points, or the damage of a hit.
#[derive(Clone, Copy, Debug, PartialEq, Eq, Hash, PartialOrd, Ord, Structural)]
pub struct Strength(pub i32);

/// How hard it is to push an object off its tile.
#[derive(Clone, Copy, Debug, PartialEq, Eq, Hash, PartialOrd, Ord, Structural)]
pub enum Weight {
    Normal,
    Heavy,
    Immovable,
}

impl Weight {
    /// Position of the weight class, lightest first.
    pub open spec fn rank(self) -> int {
        match self {
            Weight::Normal => 0,
            Weight::Heavy => 1,
            Weight::Immovable => 2,
        }
    }

    fn rank_of(self) -> (r: u8)
        ensures
            r == self.rank(),
    {
        match self {
            Weight::Normal => 0,
            Weight::Heavy => 1,
            Weight::Immovable => 2,
        }
    }

    /// Name of the weight class as shown to the player.
    pub fn title(self) -> (t: String)
        ensures
            t@ == (match self {
                Weight::Normal => "Normal"@,
                Weight::Heavy => "Heavy"@,
                Weight::Immovable => "Immovable"@,
            }),
    {
        match self {
            Weight::Normal => "Normal".to_owned(),
            Weight::Heavy => "Heavy".to_owned(),
            Weight::Immovable => "Immovable".to_owned(),
        }
    }
}

impl Default for Weight {
    fn default() -> (w: Weight)
        ensures
            w == Weight::Normal,
    {
        Weight::Normal
    }
}

/// The heaviest weight class that a push can move.
#[derive(Clone, Copy, Debug, PartialEq, Eq, Structural)]
pub struct PushStrength(pub Weight);

impl PushStrength {
    /// What `can_push` decides.
    pub open spec fn pushes(self, weight: Weight) -> bool {
        weight != Weight::Immovable && self.0.rank() >= weight.rank()
    }

    /// Whether a push of this strength moves an object of the given weight.
    /// Nothing moves an immovable object.
    pub fn can_push(self, weight: Weight) -> (r: bool)
        ensures
            r == self.pushes(weight),
    {
        weight.rank_of() != 2 && self.0.rank_of() >= weight.rank_of()
    }
}

/// Attacks an agent has left this turn.
#[derive(Clone, Copy, Debug, PartialEq, Eq, Hash, PartialOrd, Ord, Structural)]
pub struct Attacks(pub i32);

/// Moves an agent has left this turn.
#[derive(Clone, Copy, Debug, PartialEq, Eq, Hash, PartialOrd, Ord, Structural)]
pub struct Moves(pub i32);

/// Wildcards an agent has left this turn; each stands for a move or an attack.
#[derive(Clone, Copy, Debug, PartialEq, Eq, Hash, PartialOrd, Ord, Structural)]
pub struct Jokers(pub i32);

/// How far one move carries an agent.
#[derive(Clone, Copy, Debug, PartialEq, Eq, Hash, PartialOrd, Ord, Structural)]
pub struct MovePoints(pub i32);

/// How precisely an agent strikes.
#[derive(Clone, Copy, Debug, PartialEq, Eq, Hash, PartialOrd, Ord, Structural)]
pub struct Accuracy(pub i32);

/// A number of rounds left on a countdown.
#[derive(Clone, Copy, Debug, PartialEq, Eq, Hash, PartialOrd, Ord, Structural)]
pub struct Rounds(pub i32);

impl Rounds {
    /// The countdown one round later. It stops at the smallest `i32`.
    pub open spec fn decreased(self) -> Rounds {
        if self.0 > i32::MIN {
            Rounds((self.0 - 1) as i32)
        } else {
            self
        }
    }

    /// Counts one round down.
    pub fn decrease(&mut self)
        ensures
            *final(self) == old(self).decreased(),
    {
        if self.0 > i32::MIN {
            self.0 -= 1;
        }
    }

    pub fn is_zero(self) -> (r: bool)
        ensures
            r == (self.0 == 0),
    {
        self.0 == 0
    }
}

/// The sum of two counters, kept at the nearest end of the range of
/// `i32` where it would leave it.
pub open spec fn capped_sum(a: i32, b: i32) -> i32 {
    if a + b > i32::MAX {
        i32::MAX
    } else if a + b < i32::MIN {
        i32::MIN
    } else {
        (a + b) as i32
    }
}

/// Adds two counters without leaving the range of `i32`.
pub fn add_capped(a: i32, b: i32) -> (r: i32)
    ensures
        r == capped_sum(a, b),
{
    let wide: i64 = a as i64 + b as i64;
    if wide > 0x7fff_ffffi64 {
        0x7fff_ffffi32
    } else if wide < -0x8000_0000i64 {
        -0x8000_0000i32
    } else {
        wide as i32
    }
}

/// What covers a tile of the board.
#[derive(Clone, Copy, Debug, PartialEq, Eq, Structural)]
pub enum TileType {
    Plain,
    Rocks,
}

impl Default for TileType {
    fn default() -> (t: TileType)
        ensures
            t == TileType::Plain,
    {
        TileType::Plain
    }
}

} // verus!
