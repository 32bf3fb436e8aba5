//! The component records of an entity and the store that holds them.

use vstd::prelude::*;

use crate::battle::ability::PassiveAbility;
use crate::battle::ability::RechargeableAbility;
use crate::battle::effect::Timed;
use crate::battle::model::kit_model;
use crate::battle::table::Table;
use crate::battle::table::ID_LIMIT;
use crate::battle::Accuracy;
use crate::battle::Attacks;
use crate::battle::Id;
use crate::battle::Jokers;
use crate::battle::MovePoints;
use crate::battle::Moves;
use crate::battle::Phase;
use crate::battle::PlayerId;
use crate::battle::Rounds;
use crate::battle::Weight;
use crate::map::PosHex;
use crate::utils::copy_vec;

verus! {

/// The tile an entity stands on.
#[derive(Clone, Copy, Debug, PartialEq, Eq, Structural)]
pub struct Pos(pub PosHex);

/// Blocks the whole tile. Two blocker objects can't coexist in one tile.
#[derive(Clone, Copy, Debug, PartialEq, Eq, Structural)]
pub struct Blocker {
    pub weight: Weight,
}

/// The health of an entity.
#[derive(Clone, Copy, Debug, PartialEq, Eq, Structural)]
pub struct Strength {
    pub base_strength: crate::battle::Strength,
    pub strength: crate::battle::Strength,
}

impl Strength {
    /// A living entity has at least one point and no more than its base.
    pub open spec fn wf(self) -> bool {
        0 < self.strength.0 <= self.base_strength.0
    }
}

/// Name of a kind of entity.
#[derive(Debug, PartialEq, Eq, Hash)]
pub struct ObjType(pub String);

impl View for ObjType {
    type V = Seq<char>;

    open spec fn view(&self) -> Seq<char> {
        self.0@
    }
}

impl Clone for ObjType {
    fn clone(&self) -> (c: ObjType)
        ensures
            c == *self,
    {
        ObjType(self.0.clone())
    }
}

impl ObjType {
    /// The kind with the given name.
    pub fn from(s: &str) -> (t: ObjType)
        ensures
            t@ == s@,
    {
        ObjType(s.to_owned())
    }

    /// Whether two kinds have the same name.
    pub fn same(&self, other: &ObjType) -> (r: bool)
        ensures
            r == (self@ == other@),
    {
        self.0 == other.0
    }

    /// Whether the kind has the given name.
    pub fn is(&self, name: &str) -> (r: bool)
        ensures
            r == (self@ == name@),
    {
        let other: String = name.to_owned();
        self.0 == other
    }
}

/// What an entity is.
#[derive(Debug, PartialEq)]
pub struct Meta {
    pub name: ObjType,
}

impl Clone for Meta {
    fn clone(&self) -> (c: Meta)
        ensures
            c == *self,
    {
        Meta { name: self.name.clone() }
    }
}

/// The player who owns an entity.
#[derive(Clone, Copy, Debug, PartialEq, Eq, Structural)]
pub struct BelongsTo(pub PlayerId);

#[derive(PartialEq, Clone, Copy, Debug, Eq, Hash, Structural)]
pub enum WeaponType {
    Slash,
    Smash,
    Pierce,
    Claw,
}

/// What an entity that acts can do, now and at the start of each turn.
#[derive(Clone, Copy, Debug, PartialEq, Eq, Structural)]
pub struct Agent {
    // dynamic
    pub moves: Moves,
    pub attacks: Attacks,
    pub jokers: Jokers,
    // static
    pub attack_strength: crate::battle::Strength,
    pub attack_distance: i32,
    pub attack_accuracy: Accuracy,
    pub weapon_type: WeaponType,
    pub move_points: MovePoints,
    pub reactive_attacks: Attacks,
    pub base_moves: Moves,
    pub base_attacks: Attacks,
    pub base_jokers: Jokers,
}

impl Agent {
    /// No counter is negative, neither what is left of the turn nor what
    /// a turn starts with.
    pub open spec fn wf(self) -> bool {
        &&& self.moves.0 >= 0
        &&& self.attacks.0 >= 0
        &&& self.jokers.0 >= 0
        &&& self.reactive_attacks.0 >= 0
        &&& self.base_moves.0 >= 0
        &&& self.base_attacks.0 >= 0
        &&& self.base_jokers.0 >= 0
    }

    /// The agent with nothing left to do this turn.
    pub open spec fn stunned(self) -> Agent {
        Agent { moves: Moves(0), attacks: Attacks(0), jokers: Jokers(0), ..self }
    }

    /// The agent as it starts a turn.
    pub open spec fn refreshed(self) -> Agent {
        Agent {
            moves: self.base_moves,
            attacks: self.base_attacks,
            jokers: self.base_jokers,
            ..self
        }
    }

    /// Whether the agent can still attack: by an attack or by a joker.
    pub open spec fn can_attack(self) -> bool {
        !(self.attacks.0 == 0 && self.jokers.0 == 0)
    }

    /// Whether an attack or a joker is left to the agent.
    pub open spec fn can_attack_now(self) -> bool {
        self.attacks.0 > 0 || self.jokers.0 > 0
    }

    /// Whether the agent can still move: by a move or by a joker.
    pub open spec fn can_move(self) -> bool {
        !(self.moves.0 == 0 && self.jokers.0 == 0)
    }
}

/// The active abilities of an entity.
#[derive(Debug, PartialEq)]
pub struct Abilities(pub Vec<RechargeableAbility>);

impl View for Abilities {
    type V = Seq<RechargeableAbility>;

    open spec fn view(&self) -> Seq<RechargeableAbility> {
        self.0@
    }
}

impl Clone for Abilities {
    fn clone(&self) -> (c: Abilities)
        ensures
            c@ == self@,
    {
        Abilities(copy_vec(&self.0))
    }
}

/// The passive abilities of an entity.
#[derive(Debug, PartialEq)]
pub struct PassiveAbilities(pub Vec<PassiveAbility>);

impl View for PassiveAbilities {
    type V = Seq<PassiveAbility>;

    open spec fn view(&self) -> Seq<PassiveAbility> {
        self.0@
    }
}

impl Clone for PassiveAbilities {
    fn clone(&self) -> (c: PassiveAbilities)
        ensures
            c@ == self@,
    {
        PassiveAbilities(copy_vec(&self.0))
    }
}

/// The lasting effects on an entity.
#[derive(Debug, PartialEq)]
pub struct Effects(pub Vec<Timed>);

impl View for Effects {
    type V = Seq<Timed>;

    open spec fn view(&self) -> Seq<Timed> {
        self.0@
    }
}

impl Clone for Effects {
    fn clone(&self) -> (c: Effects)
        ensures
            c@ == self@,
    {
        Effects(copy_vec(&self.0))
    }
}

/// An ability that an entity will use by itself when its countdown ends.
#[derive(Clone, Copy, Debug, PartialEq, Eq, Structural)]
pub struct PlannedAbility {
    pub rounds: Rounds,
    pub phase: Phase,
    pub ability: crate::battle::ability::Ability,
}

/// The planned abilities of an entity.
#[derive(Debug, PartialEq)]
pub struct Schedule {
    pub planned: Vec<PlannedAbility>,
}

impl View for Schedule {
    type V = Seq<PlannedAbility>;

    open spec fn view(&self) -> Seq<PlannedAbility> {
        self.planned@
    }
}

impl Clone for Schedule {
    fn clone(&self) -> (c: Schedule)
        ensures
            c@ == self@,
    {
        Schedule { planned: copy_vec(&self.planned) }
    }
}

impl Default for Schedule {
    fn default() -> (s: Schedule)
        ensures
            s@ == Seq::<PlannedAbility>::empty(),
    {
        Schedule { planned: Vec::new() }
    }
}

/// How many entities a summoner has called so far.
#[derive(Clone, Copy, Debug, PartialEq, Eq, Structural)]
pub struct Summoner {
    pub count: u32,
}

/// One component record of any kind.
#[derive(Debug, PartialEq)]
pub enum Component {
    Pos(Pos),
    Strength(Strength),
    Meta(Meta),
    BelongsTo(BelongsTo),
    Agent(Agent),
    Blocker(Blocker),
    Abilities(Abilities),
    PassiveAbilities(PassiveAbilities),
    Effects(Effects),
    Schedule(Schedule),
    Summoner(Summoner),
}

impl Component {
    /// The component as a fresh prototype: what an agent starts a turn
    /// with is what it has now, and the base strength is the strength.
    pub open spec fn initialized(self) -> Component {
        match self {
            Component::Agent(agent) => Component::Agent(
                Agent {
                    base_moves: agent.moves,
                    base_attacks: agent.attacks,
                    base_jokers: agent.jokers,
                    ..agent
                },
            ),
            Component::Strength(strength) => Component::Strength(
                Strength { base_strength: strength.strength, ..strength },
            ),
            _ => self,
        }
    }
}

impl Clone for Component {
    fn clone(&self) -> (c: Component)
        ensures
            c@ == self@,
    {
        match self {
            Component::Pos(x) => Component::Pos(*x),
            Component::Strength(x) => Component::Strength(*x),
            Component::Meta(x) => Component::Meta(x.clone()),
            Component::BelongsTo(x) => Component::BelongsTo(*x),
            Component::Agent(x) => Component::Agent(*x),
            Component::Blocker(x) => Component::Blocker(*x),
            Component::Abilities(x) => Component::Abilities(x.clone()),
            Component::PassiveAbilities(x) => Component::PassiveAbilities(x.clone()),
            Component::Effects(x) => Component::Effects(x.clone()),
            Component::Schedule(x) => Component::Schedule(x.clone()),
            Component::Summoner(x) => Component::Summoner(*x),
        }
    }
}

/// A copy of a list of components.
pub fn copy_components(v: &Vec<Component>) -> (r: Vec<Component>)
    ensures
        kit_model(r@) == kit_model(v@),
{
    let mut r: Vec<Component> = Vec::new();
    let mut i: usize = 0;
    while i < v.len()
        invariant
            i <= v@.len(),
            r@.len() == i,
            forall|j: int| 0 <= j < i ==> (#[trigger] r@[j])@ == v@[j]@,
        decreases v@.len() - i,
    {
        r.push(v[i].clone());
        i += 1;
    }
    assert(kit_model(r@) =~= kit_model(v@));
    r
}

/// The entity store: one table for each kind of component.
#[derive(Clone, Debug, PartialEq)]
pub struct Parts {
    pub strength: Table<Strength>,
    pub pos: Table<Pos>,
    pub meta: Table<Meta>,
    pub belongs_to: Table<BelongsTo>,
    pub agent: Table<Agent>,
    pub blocker: Table<Blocker>,
    pub abilities: Table<Abilities>,
    pub passive_abilities: Table<PassiveAbilities>,
    pub effects: Table<Effects>,
    pub schedule: Table<Schedule>,
    pub summoner: Table<Summoner>,
    pub next_obj_id: Id,
}

impl Parts {
    /// A store without entities.
    pub fn new() -> (parts: Parts)
        ensures
            parts.next_obj_id == Id(0),
            parts.strength@ == Map::<int, Strength>::empty(),
            parts.pos@ == Map::<int, Pos>::empty(),
            parts.meta@ == Map::<int, Meta>::empty(),
            parts.belongs_to@ == Map::<int, BelongsTo>::empty(),
            parts.agent@ == Map::<int, Agent>::empty(),
            parts.blocker@ == Map::<int, Blocker>::empty(),
            parts.abilities@ == Map::<int, Abilities>::empty(),
            parts.passive_abilities@ == Map::<int, PassiveAbilities>::empty(),
            parts.effects@ == Map::<int, Effects>::empty(),
            parts.schedule@ == Map::<int, Schedule>::empty(),
            parts.summoner@ == Map::<int, Summoner>::empty(),
    {
        Parts {
            strength: Table::new(),
            pos: Table::new(),
            meta: Table::new(),
            belongs_to: Table::new(),
            agent: Table::new(),
            blocker: Table::new(),
            abilities: Table::new(),
            passive_abilities: Table::new(),
            effects: Table::new(),
            schedule: Table::new(),
            summoner: Table::new(),
            next_obj_id: Id(0),
        }
    }

    /// Hands out the next identifier. Identifiers grow by one; the last
    /// one that `i32` can hold is handed out again and again.
    pub fn alloc_id(&mut self) -> (id: Id)
        ensures
            id == old(self).next_obj_id,
            final(self).next_obj_id.0 == (if old(self).next_obj_id.0 < ID_LIMIT {
                old(self).next_obj_id.0 + 1
            } else {
                old(self).next_obj_id.0 as int
            }),
            final(self).strength == old(self).strength,
            final(self).pos == old(self).pos,
            final(self).meta == old(self).meta,
            final(self).belongs_to == old(self).belongs_to,
            final(self).agent == old(self).agent,
            final(self).blocker == old(self).blocker,
            final(self).abilities == old(self).abilities,
            final(self).passive_abilities == old(self).passive_abilities,
            final(self).effects == old(self).effects,
            final(self).schedule == old(self).schedule,
            final(self).summoner == old(self).summoner,
    {
        let id = self.next_obj_id;
        if self.next_obj_id.0 < ID_LIMIT {
            self.next_obj_id.0 += 1;
        }
        id
    }

    /// Whether the entity exists: whether it blocks a tile.
    pub fn is_exist(&self, id: &Id) -> (r: bool)
        ensures
            r == self.blocker.has(*id),
    {
        self.blocker.contains(*id)
    }

    /// Deletes the entity's row from every table.
    pub fn remove(&mut self, id: &Id)
        ensures
            final(self).strength@ == old(self).strength@.remove(id.0 as int),
            final(self).pos@ == old(self).pos@.remove(id.0 as int),
            final(self).meta@ == old(self).meta@.remove(id.0 as int),
            final(self).belongs_to@ == old(self).belongs_to@.remove(id.0 as int),
            final(self).agent@ == old(self).agent@.remove(id.0 as int),
            final(self).blocker@ == old(self).blocker@.remove(id.0 as int),
            final(self).abilities@ == old(self).abilities@.remove(id.0 as int),
            final(self).passive_abilities@ == old(self).passive_abilities@.remove(id.0 as int),
            final(self).effects@ == old(self).effects@.remove(id.0 as int),
            final(self).schedule@ == old(self).schedule@.remove(id.0 as int),
            final(self).summoner@ == old(self).summoner@.remove(id.0 as int),
            final(self).next_obj_id == old(self).next_obj_id,
    {
        let _ = self.strength.remove(*id);
        let _ = self.pos.remove(*id);
        let _ = self.meta.remove(*id);
        let _ = self.belongs_to.remove(*id);
        let _ = self.agent.remove(*id);
        let _ = self.blocker.remove(*id);
        let _ = self.abilities.remove(*id);
        let _ = self.passive_abilities.remove(*id);
        let _ = self.effects.remove(*id);
        let _ = self.schedule.remove(*id);
        let _ = self.summoner.remove(*id);
    }
}

/// The components of each kind of entity, by the kind's name.
#[derive(Clone, Debug, PartialEq)]
pub struct Prototypes(pub Vec<(ObjType, Vec<Component>)>);

fn init_component(component: &mut Component)
    ensures
        *final(component) == old(component).initialized(),
{
    match component {
        Component::Agent(agent) => {
            agent.base_moves = agent.moves;
            agent.base_attacks = agent.attacks;
            agent.base_jokers = agent.jokers;
        },
        Component::Strength(strength) => {
            strength.base_strength = strength.strength;
        },
        _ => {},
    }
}

impl Prototypes {
    /// What `init_components` makes of one prototype.
    pub open spec fn row_initialized(
        before: (ObjType, Vec<Component>),
        after: (ObjType, Vec<Component>),
    ) -> bool {
        &&& after.0 == before.0
        &&& after.1@.len() == before.1@.len()
        &&& forall|j: int|
            0 <= j < before.1@.len() ==> (#[trigger] after.1@[j]) == before.1@[j].initialized()
    }

    /// Makes every prototype start from what it holds: see
    /// `Component::initialized`.
    pub fn init_components(&mut self)
        ensures
            final(self).0@.len() == old(self).0@.len(),
            forall|i: int|
                0 <= i < old(self).0@.len() ==> Self::row_initialized(
                    old(self).0@[i],
                    #[trigger] final(self).0@[i],
                ),
    {
        let mut i: usize = 0;
        while i < self.0.len()
            invariant
                i <= self.0@.len(),
                self.0@.len() == old(self).0@.len(),
                forall|k: int| i <= k < self.0@.len() ==> self.0@[k] == old(self).0@[k],
                forall|k: int|
                    0 <= k < i ==> Self::row_initialized(old(self).0@[k], #[trigger] self.0@[k]),
            decreases self.0@.len() - i,
        {
            let ghost before = self.0@;
            let mut j: usize = 0;
            while j < self.0[i].1.len()
                invariant
                    i < self.0@.len(),
                    self.0@.len() == before.len(),
                    forall|k: int| 0 <= k < self.0@.len() && k != i ==> self.0@[k] == before[k],
                    self.0@[i as int].0 == before[i as int].0,
                    j <= self.0@[i as int].1@.len(),
                    self.0@[i as int].1@.len() == before[i as int].1@.len(),
                    forall|m: int|
                        0 <= m < j ==> (#[trigger] self.0@[i as int].1@[m])
                            == before[i as int].1@[m].initialized(),
                    forall|m: int|
                        j <= m < self.0@[i as int].1@.len() ==> (#[trigger] self.0@[i as int].1@[m])
                            == before[i as int].1@[m],
                decreases self.0@[i as int].1@.len() - j,
            {
                init_component(&mut self.0[i].1[j]);
                j += 1;
            }
            assert(before[i as int] == old(self).0@[i as int]);
            assert(Self::row_initialized(old(self).0@[i as int], self.0@[i as int]));
            assert forall|k: int| 0 <= k < i implies Self::row_initialized(
                old(self).0@[k],
                #[trigger] self.0@[k],
            ) by {
                assert(self.0@[k] == before[k]);
            }
            i += 1;
        }
    }
}

} // verus!
