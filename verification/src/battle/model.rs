//! The mathematical model of a battle: every table of the entity store
//! as a map from identifiers to plain values, lists as sequences. The
//! contracts of the crate speak of states through this model.

use vstd::prelude::*;

use crate::battle::ability::PassiveAbility;
use crate::battle::ability::RechargeableAbility;
use crate::battle::component::Agent;
use crate::battle::component::BelongsTo;
use crate::battle::component::Blocker;
use crate::battle::component::Component;
use crate::battle::component::Parts;
use crate::battle::component::PlannedAbility;
use crate::battle::component::Pos;
use crate::battle::component::Strength;
use crate::battle::component::Summoner;
use crate::battle::effect::Dodge;
use crate::battle::effect::Effect;
use crate::battle::effect::FlyOff;
use crate::battle::effect::Heal;
use crate::battle::effect::Kill;
use crate::battle::effect::Knockback;
use crate::battle::effect::Throw;
use crate::battle::effect::Wound;
use crate::battle::event;
use crate::battle::event::ActiveEvent;
use crate::battle::event::Event;
use crate::battle::effect::Timed;
use crate::battle::state::BattleResult;
use crate::battle::state::State;
use crate::battle::Id;
use crate::battle::PlayerId;
use crate::battle::TileType;
use crate::game::Level;
use crate::map::PosHex;

verus! {

/// What a component says, lists taken as sequences.
pub enum ComponentModel {
    Pos(Pos),
    Strength(Strength),
    /// The name of the entity's kind.
    Meta(Seq<char>),
    BelongsTo(BelongsTo),
    Agent(Agent),
    Blocker(Blocker),
    Abilities(Seq<RechargeableAbility>),
    PassiveAbilities(Seq<PassiveAbility>),
    Effects(Seq<Timed>),
    Schedule(Seq<PlannedAbility>),
    Summoner(Summoner),
}

impl View for Component {
    type V = ComponentModel;

    open spec fn view(&self) -> ComponentModel {
        match *self {
            Component::Pos(c) => ComponentModel::Pos(c),
            Component::Strength(c) => ComponentModel::Strength(c),
            Component::Meta(c) => ComponentModel::Meta(c.name@),
            Component::BelongsTo(c) => ComponentModel::BelongsTo(c),
            Component::Agent(c) => ComponentModel::Agent(c),
            Component::Blocker(c) => ComponentModel::Blocker(c),
            Component::Abilities(c) => ComponentModel::Abilities(c@),
            Component::PassiveAbilities(c) => ComponentModel::PassiveAbilities(c@),
            Component::Effects(c) => ComponentModel::Effects(c@),
            Component::Schedule(c) => ComponentModel::Schedule(c@),
            Component::Summoner(c) => ComponentModel::Summoner(c),
        }
    }
}

/// What a list of components says.
pub open spec fn kit_model(kit: Seq<Component>) -> Seq<ComponentModel> {
    Seq::new(kit.len(), |i: int| kit[i]@)
}

impl ComponentModel {
    /// A component that may join a store: an agent without negative
    /// counters, a strength within its bounds.
    pub open spec fn wf(self) -> bool {
        match self {
            ComponentModel::Agent(agent) => agent.wf(),
            ComponentModel::Strength(strength) => strength.wf(),
            _ => true,
        }
    }
}

/// Every component of the list may join a store.
pub open spec fn kit_ok(kit: Seq<ComponentModel>) -> bool {
    forall|i: int| 0 <= i < kit.len() ==> (#[trigger] kit[i]).wf()
}

/// What the creation of an entity says.
pub struct CreateModel {
    pub pos: PosHex,
    pub prototype: Seq<char>,
    pub components: Seq<ComponentModel>,
    pub is_teleported: bool,
}

/// What an instant effect says.
pub enum EffectModel {
    Create(CreateModel),
    Kill(Kill),
    Vanish,
    Stun,
    Heal(Heal),
    Wound(Wound),
    Knockback(Knockback),
    FlyOff(FlyOff),
    Throw(Throw),
    Dodge(Dodge),
    Bloodlust,
}

impl View for Effect {
    type V = EffectModel;

    open spec fn view(&self) -> EffectModel {
        match *self {
            Effect::Create(e) => EffectModel::Create(
                CreateModel {
                    pos: e.pos,
                    prototype: e.prototype@,
                    components: kit_model(e.components@),
                    is_teleported: e.is_teleported,
                },
            ),
            Effect::Kill(e) => EffectModel::Kill(e),
            Effect::Vanish => EffectModel::Vanish,
            Effect::Stun => EffectModel::Stun,
            Effect::Heal(e) => EffectModel::Heal(e),
            Effect::Wound(e) => EffectModel::Wound(e),
            Effect::Knockback(e) => EffectModel::Knockback(e),
            Effect::FlyOff(e) => EffectModel::FlyOff(e),
            Effect::Throw(e) => EffectModel::Throw(e),
            Effect::Dodge(e) => EffectModel::Dodge(e),
            Effect::Bloodlust => EffectModel::Bloodlust,
        }
    }
}

/// What a list of instant effects says.
pub open spec fn effects_model(effects: Seq<Effect>) -> Seq<EffectModel> {
    Seq::new(effects.len(), |i: int| effects[i]@)
}

/// The lists of a list of entities, each list taken as a sequence.
pub open spec fn raw_entries<T>(entries: Seq<(Id, Vec<T>)>) -> Seq<(Id, Seq<T>)> {
    Seq::new(entries.len(), |i: int| (entries[i].0, entries[i].1@))
}

/// What lists of instant effects say, entity by entity.
pub open spec fn lifted(entries: Seq<(Id, Seq<Effect>)>) -> Seq<(Id, Seq<EffectModel>)> {
    Seq::new(entries.len(), |i: int| (entries[i].0, effects_model(entries[i].1)))
}

/// What the lists of instant effects of a list of entities say.
pub open spec fn instants_model(entries: Seq<(Id, Vec<Effect>)>) -> Seq<(Id, Seq<EffectModel>)> {
    lifted(raw_entries(entries))
}

/// What the lists of lasting effects of a list of entities say.
pub open spec fn timeds_model(entries: Seq<(Id, Vec<Timed>)>) -> Seq<(Id, Seq<Timed>)> {
    raw_entries(entries)
}

/// What the lists of planned abilities of a list of entities say.
pub open spec fn planneds_model(entries: Seq<(Id, Vec<PlannedAbility>)>) -> Seq<
    (Id, Seq<PlannedAbility>),
> {
    raw_entries(entries)
}

/// What the active event of an event says.
pub enum ActiveModel {
    Create,
    EndBattle(ResultModel),
    EndTurn(PlayerId),
    BeginTurn(PlayerId),
    UseAbility(event::UseAbility),
    UsePassiveAbility(event::UsePassiveAbility),
    /// An entity moves to a tile at a cost.
    MoveTo(Id, PosHex, i32),
    Attack(event::Attack),
    EffectTick(event::EffectTick),
    EffectEnd(event::EffectEnd),
}

impl View for ActiveEvent {
    type V = ActiveModel;

    open spec fn view(&self) -> ActiveModel {
        match *self {
            ActiveEvent::Create => ActiveModel::Create,
            ActiveEvent::EndBattle(e) => ActiveModel::EndBattle(e.result@),
            ActiveEvent::EndTurn(e) => ActiveModel::EndTurn(e.player_id),
            ActiveEvent::BeginTurn(e) => ActiveModel::BeginTurn(e.player_id),
            ActiveEvent::UseAbility(e) => ActiveModel::UseAbility(e),
            ActiveEvent::UsePassiveAbility(e) => ActiveModel::UsePassiveAbility(e),
            ActiveEvent::MoveTo(e) => ActiveModel::MoveTo(e.id, e.path.end(), e.cost.0),
            ActiveEvent::Attack(e) => ActiveModel::Attack(e),
            ActiveEvent::EffectTick(e) => ActiveModel::EffectTick(e),
            ActiveEvent::EffectEnd(e) => ActiveModel::EffectEnd(e),
        }
    }
}

/// What an event says.
#[verifier::ext_equal]
pub struct EventModel {
    pub active: ActiveModel,
    pub actor_ids: Seq<Id>,
    pub instant: Seq<(Id, Seq<EffectModel>)>,
    pub timed: Seq<(Id, Seq<Timed>)>,
    pub planned: Seq<(Id, Seq<PlannedAbility>)>,
}

impl View for Event {
    type V = EventModel;

    open spec fn view(&self) -> EventModel {
        EventModel {
            active: self.active_event@,
            actor_ids: self.actor_ids@,
            instant: instants_model(self.instant_effects@),
            timed: timeds_model(self.timed_effects@),
            planned: planneds_model(self.scheduled_abilities@),
        }
    }
}

impl EventModel {
    /// No wound of the event has a negative damage.
    pub open spec fn wounds_ok(self) -> bool {
        forall|i: int, j: int|
            0 <= i < self.instant.len() && 0 <= j < self.instant[i].1.len() ==> (
            #[trigger] self.instant[i].1[j] matches EffectModel::Wound(w) ==> w.damage.0 >= 0)
    }

    /// Every entity the event creates gets components that may join a store.
    pub open spec fn kits_ok(self) -> bool {
        forall|i: int, j: int|
            0 <= i < self.instant.len() && 0 <= j < self.instant[i].1.len() ==> (
            #[trigger] self.instant[i].1[j] matches EffectModel::Create(c) ==> kit_ok(c.components))
    }
}

/// What a battle result says.
pub struct ResultModel {
    pub winner_id: PlayerId,
    pub survivor_types: Seq<Seq<char>>,
    pub level: Level,
}

impl View for BattleResult {
    type V = ResultModel;

    open spec fn view(&self) -> ResultModel {
        ResultModel {
            winner_id: self.winner_id,
            survivor_types: Seq::new(
                self.survivor_types@.len(),
                |i: int| self.survivor_types@[i]@,
            ),
            level: self.level,
        }
    }
}

/// The model of a battle's state.
#[verifier::ext_equal]
pub struct Model {
    pub strength: Map<int, Strength>,
    pub pos: Map<int, Pos>,
    pub meta: Map<int, Seq<char>>,
    pub belongs_to: Map<int, BelongsTo>,
    pub agent: Map<int, Agent>,
    pub blocker: Map<int, Blocker>,
    pub abilities: Map<int, Seq<RechargeableAbility>>,
    pub passive_abilities: Map<int, Seq<PassiveAbility>>,
    pub effects: Map<int, Seq<Timed>>,
    pub schedule: Map<int, Seq<PlannedAbility>>,
    pub summoner: Map<int, Summoner>,
    pub next_obj_id: Id,
    pub radius: i32,
    pub size: i32,
    pub tiles: Seq<TileType>,
    pub players_count: i32,
    pub player_id: PlayerId,
    pub battle_result: Option<ResultModel>,
    pub level: Level,
}

impl View for State {
    type V = Model;

    open spec fn view(&self) -> Model {
        Model {
            strength: self.parts.strength@,
            pos: self.parts.pos@,
            meta: Map::new(
                |k: int| self.parts.meta@.contains_key(k),
                |k: int| self.parts.meta@[k].name@,
            ),
            belongs_to: self.parts.belongs_to@,
            agent: self.parts.agent@,
            blocker: self.parts.blocker@,
            abilities: Map::new(
                |k: int| self.parts.abilities@.contains_key(k),
                |k: int| self.parts.abilities@[k]@,
            ),
            passive_abilities: Map::new(
                |k: int| self.parts.passive_abilities@.contains_key(k),
                |k: int| self.parts.passive_abilities@[k]@,
            ),
            effects: Map::new(
                |k: int| self.parts.effects@.contains_key(k),
                |k: int| self.parts.effects@[k]@,
            ),
            schedule: Map::new(
                |k: int| self.parts.schedule@.contains_key(k),
                |k: int| self.parts.schedule@[k]@,
            ),
            summoner: self.parts.summoner@,
            next_obj_id: self.parts.next_obj_id,
            radius: self.map.radius,
            size: self.map.size,
            tiles: self.map.tiles@,
            players_count: self.players_count,
            player_id: self.player_id,
            battle_result: match self.battle_result {
                Some(r) => Some(r@),
                None => None,
            },
            level: self.level,
        }
    }
}

impl Model {
    /// The board is consistent: one tile for every cell of its bounding square.
    pub open spec fn wf(self) -> bool {
        &&& 0 <= self.radius <= crate::map::MAX_RADIUS
        &&& self.size == self.radius * 2 + 1
        &&& self.tiles.len() == self.size * self.size
    }

    /// Whether two states have the same board, the same number of
    /// players and the same level.
    pub open spec fn same_board(self, other: Model) -> bool {
        &&& self.radius == other.radius
        &&& self.size == other.size
        &&& self.tiles == other.tiles
        &&& self.players_count == other.players_count
        &&& self.level == other.level
    }

    /// Every agent has counters that are not negative.
    pub open spec fn agents_ok(self) -> bool {
        forall|k: int| #[trigger] self.agent.contains_key(k) ==> self.agent[k].wf()
    }

    /// Every strength on record is positive and within its base.
    pub open spec fn strengths_ok(self) -> bool {
        forall|k: int| #[trigger] self.strength.contains_key(k) ==> self.strength[k].wf()
    }

    /// The state with the agent changed, if `id` is an agent.
    pub open spec fn with_agent(self, id: Id, agent: Agent) -> Model {
        if self.agent.contains_key(id.0 as int) {
            Model { agent: self.agent.insert(id.0 as int, agent), ..self }
        } else {
            self
        }
    }

    /// The state with the entity on another tile, if it stands on one.
    pub open spec fn with_pos(self, id: Id, pos: PosHex) -> Model {
        if self.pos.contains_key(id.0 as int) {
            Model { pos: self.pos.insert(id.0 as int, Pos(pos)), ..self }
        } else {
            self
        }
    }

    /// The state with the strength changed, if `id` has one.
    pub open spec fn with_strength(self, id: Id, strength: Strength) -> Model {
        if self.strength.contains_key(id.0 as int) {
            Model { strength: self.strength.insert(id.0 as int, strength), ..self }
        } else {
            self
        }
    }

    /// The state without any row of `id`.
    pub open spec fn without(self, id: Id) -> Model {
        Model {
            strength: self.strength.remove(id.0 as int),
            pos: self.pos.remove(id.0 as int),
            meta: self.meta.remove(id.0 as int),
            belongs_to: self.belongs_to.remove(id.0 as int),
            agent: self.agent.remove(id.0 as int),
            blocker: self.blocker.remove(id.0 as int),
            abilities: self.abilities.remove(id.0 as int),
            passive_abilities: self.passive_abilities.remove(id.0 as int),
            effects: self.effects.remove(id.0 as int),
            schedule: self.schedule.remove(id.0 as int),
            summoner: self.summoner.remove(id.0 as int),
            ..self
        }
    }
}

} // verus!
