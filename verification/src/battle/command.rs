//! The commands a player gives.

use vstd::prelude::*;

use crate::battle::ability::Ability;
use crate::battle::component::ObjType;
use crate::battle::movement::Path;
use crate::battle::Id;
use crate::battle::PlayerId;
use crate::map::PosHex;

verus! {

#[derive(Debug, PartialEq)]
pub enum Command {
    Create(Create),
    Attack(Attack),
    MoveTo(MoveTo),
    EndTurn(EndTurn),
    UseAbility(UseAbility),
}

/// What a command says.
pub enum CommandModel {
    /// An entity of a kind appears on a tile, owned by a player or by none.
    Create(Option<PlayerId>, PosHex, Seq<char>),
    Attack(Attack),
    /// An agent walks over the tiles of a path.
    MoveTo(Id, Seq<PosHex>),
    EndTurn,
    UseAbility(UseAbility),
}

impl View for Command {
    type V = CommandModel;

    open spec fn view(&self) -> CommandModel {
        match *self {
            Command::Create(c) => CommandModel::Create(c.owner, c.pos, c.prototype@),
            Command::Attack(c) => CommandModel::Attack(c),
            Command::MoveTo(c) => CommandModel::MoveTo(c.id, c.path@),
            Command::EndTurn(_) => CommandModel::EndTurn,
            Command::UseAbility(c) => CommandModel::UseAbility(c),
        }
    }
}

/// What a command says, if there is one.
pub open spec fn said(command: Option<Command>) -> Option<CommandModel> {
    match command {
        Some(c) => Some(c@),
        None => None,
    }
}

impl Clone for Command {
    fn clone(&self) -> (c: Command)
        ensures
            c@ == self@,
    {
        match self {
            Command::Create(x) => Command::Create(x.clone()),
            Command::Attack(x) => Command::Attack(*x),
            Command::MoveTo(x) => Command::MoveTo(x.clone()),
            Command::EndTurn(x) => Command::EndTurn(*x),
            Command::UseAbility(x) => Command::UseAbility(*x),
        }
    }
}

/// A new entity of kind `prototype` appears on `pos`.
#[derive(Debug, PartialEq)]
pub struct Create {
    pub owner: Option<PlayerId>,
    pub pos: PosHex,
    pub prototype: ObjType,
}

impl Clone for Create {
    fn clone(&self) -> (c: Create)
        ensures
            c == *self,
    {
        Create { owner: self.owner, pos: self.pos, prototype: self.prototype.clone() }
    }
}

/// An agent attacks an entity.
#[derive(Debug, Clone, Copy, PartialEq, Eq, Structural)]
pub struct Attack {
    pub attacker_id: Id,
    pub target_id: Id,
}

/// An agent walks along a path.
#[derive(Debug, PartialEq)]
pub struct MoveTo {
    pub id: Id,
    pub path: Path,
}

impl Clone for MoveTo {
    fn clone(&self) -> (c: MoveTo)
        ensures
            c.id == self.id,
            c.path@ == self.path@,
    {
        MoveTo { id: self.id, path: self.path.clone() }
    }
}

/// The player whose turn it is passes it on.
#[derive(Debug, Clone, Copy, PartialEq, Eq, Structural)]
pub struct EndTurn;

/// An agent uses one of its abilities on a tile.
#[derive(Debug, Clone, Copy, PartialEq, Eq, Structural)]
pub struct UseAbility {
    pub id: Id,
    pub pos: PosHex,
    pub ability: Ability,
}

} // verus!
