//! Execution of commands: what a command does is worked out as events
//! and effects, and these are applied to the state one after the other.

use vstd::prelude::*;

use crate::battle::ability::Ability;
use crate::battle::ability::PassiveAbility;
use crate::battle::check::check;
use crate::battle::check::pass;
use crate::battle::check::refuse;
use crate::battle::check::Error;
use crate::battle::command;
use crate::battle::command::Command;
use crate::battle::command::CommandModel;
use crate::battle::state::BattleResult;
use crate::utils::copy_vec;
use crate::battle::component::BelongsTo;
use crate::battle::component::Component;
use crate::battle::component::Meta;
use crate::battle::component::ObjType;
use crate::battle::component::PlannedAbility;
use crate::battle::component::Pos;
use crate::battle::effect;
use crate::battle::effect::Duration;
use crate::battle::effect::Effect;
use crate::battle::effect::Lasting;
use crate::battle::effect::Timed;
use crate::battle::event;
use crate::battle::event::ActiveEvent;
use crate::battle::event::AttackMode;
use crate::battle::event::Event;
use crate::battle::model::ActiveModel;
use crate::battle::model::EventModel;
use crate::battle::movement::Path;
use crate::battle::Moves;
use crate::battle::heroes::known_prototype;
use crate::battle::heroes::prototype_for;
use crate::battle::heroes::prototype_model;
use crate::battle::model::effects_model;
use crate::battle::model::instants_model;
use crate::battle::model::kit_model;
use crate::battle::model::kit_ok;
use crate::battle::model::lifted;
use crate::battle::model::planneds_model;
use crate::battle::model::raw_entries;
use crate::battle::model::timeds_model;
use crate::battle::model::ComponentModel;
use crate::battle::model::CreateModel;
use crate::battle::model::EffectModel;
use crate::battle::model::Model;
use crate::battle::state;
use crate::battle::state::first_where;
use crate::battle::state::free_neighbors;
use crate::battle::state::Pick;
use crate::battle::state::apply::payable;
use crate::battle::state::safety::all_inert;
use crate::battle::state::safety::entries_safe;
use crate::battle::state::safety::entry_safe;
use crate::battle::state::safety::has_wound;
use crate::battle::state::safety::inert;
use crate::battle::state::safety::lemma_merged_safe;
use crate::battle::state::safety::lemma_push_safe;
use crate::battle::state::safety::lemma_safe_by_strength;
use crate::battle::state::safety::distinct_ids;
use crate::battle::state::safety::lemma_inert_safe;
use crate::battle::state::safety::lemma_merged_distinct;
use crate::battle::state::safety::lemma_touches_more;
use crate::battle::state::safety::touches_only;
use crate::battle::state::State;
use crate::battle::table::ID_LIMIT;
use crate::battle::Id;
use crate::battle::Phase;
use crate::battle::PlayerId;
use crate::battle::PushStrength;
use crate::battle::Rounds;
use crate::battle::Strength;
use crate::battle::Weight;
use crate::map::dir_from_to;
use crate::map::dir_of_int;
use crate::map::distance_hex;
use crate::map::hex_distance;
use crate::map::neighbor;
use crate::map::Dir;
use crate::map::PosHex;
use crate::utils::SimpleRng;

verus! {

/// How an attack ended.
#[derive(PartialEq, Eq, Clone, Copy, Debug, Structural)]
pub enum AttackStatus {
    Hit,
    Miss,
    Kill,
}

/// What the execution of a command has worked out so far: who acts,
/// who has moved, and the effects on each entity.
#[derive(Debug, PartialEq)]
pub struct ExecuteContext {
    pub actor_ids: Vec<Id>,
    pub moved_actor_ids: Vec<Id>,
    pub instant_effects: Vec<(Id, Vec<Effect>)>,
    pub timed_effects: Vec<(Id, Vec<Timed>)>,
    pub scheduled_abilities: Vec<(Id, Vec<PlannedAbility>)>,
}

/// What an execution context says.
#[verifier::ext_equal]
pub struct ContextModel {
    pub actor_ids: Seq<Id>,
    pub moved: Seq<Id>,
    pub instant: Seq<(Id, Seq<EffectModel>)>,
    pub timed: Seq<(Id, Seq<Timed>)>,
    pub planned: Seq<(Id, Seq<PlannedAbility>)>,
}

impl View for ExecuteContext {
    type V = ContextModel;

    open spec fn view(&self) -> ContextModel {
        ContextModel {
            actor_ids: self.actor_ids@,
            moved: self.moved_actor_ids@,
            instant: instants_model(self.instant_effects@),
            timed: timeds_model(self.timed_effects@),
            planned: planneds_model(self.scheduled_abilities@),
        }
    }
}

/// The place of the first entry at or after `from` that is for the
/// entity, or the length of the list if there is none.
pub open spec fn entry_slot<T>(entries: Seq<(Id, Seq<T>)>, id: Id, from: int) -> int
    decreases entries.len() - from,
{
    if from < 0 || from >= entries.len() {
        entries.len() as int
    } else if entries[from].0 == id {
        from
    } else {
        entry_slot(entries, id, from + 1)
    }
}

/// The list with the values added for the entity: at the end of the
/// first entry for it, or as a new entry at the end of the list.
pub open spec fn merged_entry<T>(entries: Seq<(Id, Seq<T>)>, id: Id, values: Seq<T>) -> Seq<
    (Id, Seq<T>),
> {
    let slot = entry_slot(entries, id, 0);
    if slot < entries.len() {
        entries.update(slot, (id, entries[slot].1 + values))
    } else {
        entries.push((id, values))
    }
}

/// The list with the first `n` entries of another list merged in, one
/// after the other.
pub open spec fn merged_entries<T>(entries: Seq<(Id, Seq<T>)>, other: Seq<(Id, Seq<T>)>, n: int)
    -> Seq<(Id, Seq<T>)>
    decreases n,
{
    if n <= 0 {
        entries
    } else {
        merged_entry(merged_entries(entries, other, n - 1), other[n - 1].0, other[n - 1].1)
    }
}

proof fn lemma_slot_lifted(entries: Seq<(Id, Seq<Effect>)>, id: Id, from: int)
    ensures
        entry_slot(lifted(entries), id, from) == entry_slot(entries, id, from),
    decreases entries.len() - from,
{
    if 0 <= from < entries.len() && entries[from].0 != id {
        lemma_slot_lifted(entries, id, from + 1);
    }
}

proof fn lemma_merged_entry_lifted(entries: Seq<(Id, Seq<Effect>)>, id: Id, values: Seq<Effect>)
    ensures
        lifted(merged_entry(entries, id, values)) == merged_entry(
            lifted(entries),
            id,
            effects_model(values),
        ),
{
    lemma_slot_lifted(entries, id, 0);
    let slot = entry_slot(entries, id, 0);
    lemma_slot_in_range(entries, id, 0);
    if slot < entries.len() {
        assert(effects_model(entries[slot].1 + values) =~= effects_model(entries[slot].1)
            + effects_model(values));
    }
    assert(lifted(merged_entry(entries, id, values)) =~= merged_entry(
        lifted(entries),
        id,
        effects_model(values),
    ));
}

/// An entry slot at or after `from` lies between `from` and the length
/// of the list, and holds an entry for the entity if it lies within.
pub proof fn lemma_slot_in_range<T>(entries: Seq<(Id, Seq<T>)>, id: Id, from: int)
    requires
        0 <= from,
    ensures
        from <= entry_slot(entries, id, from) || entry_slot(entries, id, from) == entries.len(),
        0 <= entry_slot(entries, id, from) <= entries.len(),
        entry_slot(entries, id, from) < entries.len() ==> entries[entry_slot(
            entries,
            id,
            from,
        )].0 == id,
    decreases entries.len() - from,
{
    if from < entries.len() && entries[from].0 != id {
        lemma_slot_in_range(entries, id, from + 1);
    }
}

proof fn lemma_merged_lifted(a: Seq<(Id, Seq<Effect>)>, b: Seq<(Id, Seq<Effect>)>, n: int)
    requires
        0 <= n <= b.len(),
    ensures
        lifted(merged_entries(a, b, n)) == merged_entries(lifted(a), lifted(b), n),
    decreases n,
{
    if n > 0 {
        lemma_merged_lifted(a, b, n - 1);
        lemma_merged_entry_lifted(merged_entries(a, b, n - 1), b[n - 1].0, b[n - 1].1);
    }
}

impl ContextModel {
    /// The context that says nothing.
    pub open spec fn empty() -> ContextModel {
        ContextModel {
            actor_ids: Seq::empty(),
            moved: Seq::empty(),
            instant: Seq::empty(),
            timed: Seq::empty(),
            planned: Seq::empty(),
        }
    }

    /// The context with another one merged in: the actors and the moved
    /// entities of the other follow its own, and the effects of the
    /// other join its own, entity by entity.
    pub open spec fn merged(self, other: ContextModel) -> ContextModel {
        ContextModel {
            actor_ids: self.actor_ids + other.actor_ids,
            moved: self.moved + other.moved,
            instant: merged_entries(self.instant, other.instant, other.instant.len() as int),
            timed: merged_entries(self.timed, other.timed, other.timed.len() as int),
            planned: merged_entries(self.planned, other.planned, other.planned.len() as int),
        }
    }
}

/// Adds the values to the first entry for the entity, or to a new
/// entry at the end of the list.
pub fn extend_or_crate_sub_vec<T>(vec: &mut Vec<(Id, Vec<T>)>, id: Id, values: Vec<T>)
    ensures
        raw_entries(final(vec)@) == merged_entry(raw_entries(old(vec)@), id, values@),
{
    let mut rest = values;
    let mut i: usize = 0;
    while i < vec.len()
        invariant
            i <= vec@.len(),
            vec@ == old(vec)@,
            rest@ == values@,
            entry_slot(raw_entries(vec@), id, 0) == entry_slot(raw_entries(vec@), id, i as int),
        decreases vec@.len() - i,
    {
        if vec[i].0 == id {
            vec[i].1.append(&mut rest);
            assert(raw_entries(vec@) =~= merged_entry(raw_entries(old(vec)@), id, values@));
            return ;
        }
        i += 1;
    }
    vec.push((id, rest));
    assert(raw_entries(vec@) =~= merged_entry(raw_entries(old(vec)@), id, values@));
}

/// Whether any entry of the list is for the entity.
pub fn any_effect_with_id(effects: &[(Id, Vec<Effect>)], expected_id: Id) -> (r: bool)
    ensures
        r == exists|i: int| 0 <= i < effects@.len() && (#[trigger] effects@[i]).0 == expected_id,
{
    let mut i: usize = 0;
    while i < effects.len()
        invariant
            i <= effects@.len(),
            forall|j: int| 0 <= j < i ==> (#[trigger] effects@[j]).0 != expected_id,
        decreases effects@.len() - i,
    {
        if effects[i].0 == expected_id {
            return true;
        }
        i += 1;
    }
    false
}

fn merge<T>(m: &mut Vec<(Id, Vec<T>)>, other: Vec<(Id, Vec<T>)>)
    ensures
        raw_entries(final(m)@) == merged_entries(
            raw_entries(old(m)@),
            raw_entries(other@),
            other@.len() as int,
        ),
{
    let mut other = other;
    let ghost target = raw_entries(other@);
    let mut i: usize = 0;
    while i < other.len()
        invariant
            i <= other@.len(),
            other@.len() == target.len(),
            forall|k: int| i <= k < other@.len() ==> (#[trigger] raw_entries(other@)[k]) == target[k],
            raw_entries(m@) == merged_entries(raw_entries(old(m)@), target, i as int),
        decreases other@.len() - i,
    {
        let id = other[i].0;
        let mut values: Vec<T> = Vec::new();
        assert(raw_entries(other@)[i as int] == target[i as int]);
        let ghost prev = other@;
        std::mem::swap(&mut values, &mut other[i].1);
        extend_or_crate_sub_vec(m, id, values);
        assert forall|k: int| i + 1 <= k < other@.len() implies (#[trigger] raw_entries(other@)[k])
            == target[k] by {
            assert(other@[k] == prev[k]);
            assert(raw_entries(prev)[k] == target[k]);
        }
        i += 1;
    }
}

impl ExecuteContext {
    /// The context that says nothing.
    pub fn new() -> (ctx: ExecuteContext)
        ensures
            ctx@ == ContextModel::empty(),
    {
        let ctx = ExecuteContext {
            actor_ids: Vec::new(),
            moved_actor_ids: Vec::new(),
            instant_effects: Vec::new(),
            timed_effects: Vec::new(),
            scheduled_abilities: Vec::new(),
        };
        assert(ctx@ =~= ContextModel::empty());
        ctx
    }

    /// Merges another context into this one: see `ContextModel::merged`.
    pub fn merge_with(&mut self, other: ExecuteContext)
        ensures
            final(self)@ == old(self)@.merged(other@),
            old(self)@.tame() && other@.tame() ==> final(self)@.tame(),
    {
        proof {
            if self@.tame() && other@.tame() {
                assert(tame_entries(self@.instant));
                assert(tame_entries(other@.instant));
                lemma_merged_tame(self@.instant, other@.instant, other@.instant.len() as int);
            }
        }
        let mut other = other;
        let ghost given = other@;
        proof {
            lemma_merged_lifted(
                raw_entries(self.instant_effects@),
                raw_entries(other.instant_effects@),
                other.instant_effects@.len() as int,
            );
        }
        self.actor_ids.append(&mut other.actor_ids);
        self.moved_actor_ids.append(&mut other.moved_actor_ids);
        merge(&mut self.instant_effects, other.instant_effects);
        merge(&mut self.timed_effects, other.timed_effects);
        merge(&mut self.scheduled_abilities, other.scheduled_abilities);
        assert(self@ =~= old(self)@.merged(given));
    }

    fn push_instant(&mut self, id: Id, effects: Vec<Effect>)
        ensures
            final(self)@ == (ContextModel {
                instant: old(self)@.instant.push((id, effects_model(effects@))),
                ..old(self)@
            }),
            old(self)@.tame() && (forall|j: int|
                0 <= j < effects@.len() ==> effect_tame(#[trigger] effects_model(effects@)[j]))
                ==> final(self)@.tame(),
    {
        proof {
            if self@.tame() && (forall|j: int|
                0 <= j < effects@.len() ==> effect_tame(#[trigger] effects_model(effects@)[j])) {
                lemma_push_tame(self@.instant, id, effects_model(effects@));
            }
        }
        self.instant_effects.push((id, effects));
        assert(self@.instant =~= old(self)@.instant.push((id, effects_model(effects@))));
        assert(self@ =~= (ContextModel {
            instant: old(self)@.instant.push((id, effects_model(effects@))),
            ..old(self)@
        }));
    }

    fn push_timed(&mut self, id: Id, effects: Vec<Timed>)
        ensures
            final(self)@ == (ContextModel {
                timed: old(self)@.timed.push((id, effects@)),
                ..old(self)@
            }),
    {
        self.timed_effects.push((id, effects));
        assert(self@.timed =~= old(self)@.timed.push((id, effects@)));
        assert(self@ =~= (ContextModel {
            timed: old(self)@.timed.push((id, effects@)),
            ..old(self)@
        }));
    }

    fn push_planned(&mut self, id: Id, abilities: Vec<PlannedAbility>)
        ensures
            final(self)@ == (ContextModel {
                planned: old(self)@.planned.push((id, abilities@)),
                ..old(self)@
            }),
    {
        self.scheduled_abilities.push((id, abilities));
        assert(self@.planned =~= old(self)@.planned.push((id, abilities@)));
        assert(self@ =~= (ContextModel {
            planned: old(self)@.planned.push((id, abilities@)),
            ..old(self)@
        }));
    }

    fn push_actor(&mut self, id: Id)
        ensures
            final(self)@ == (ContextModel {
                actor_ids: old(self)@.actor_ids.push(id),
                ..old(self)@
            }),
    {
        self.actor_ids.push(id);
    }

    fn push_moved(&mut self, id: Id)
        ensures
            final(self)@ == (ContextModel { moved: old(self)@.moved.push(id), ..old(self)@ }),
    {
        self.moved_actor_ids.push(id);
    }
}

impl Default for ExecuteContext {
    fn default() -> (ctx: ExecuteContext)
        ensures
            ctx@ == ContextModel::empty(),
    {
        ExecuteContext::new()
    }
}

fn one_effect(effect: Effect) -> (list: Vec<Effect>)
    ensures
        effects_model(list@) == seq![effect@],
        list@.len() == 1,
        list@[0]@ == effect@,
{
    let mut list: Vec<Effect> = Vec::new();
    list.push(effect);
    assert(effects_model(list@) =~= seq![effect@]);
    list
}

fn one_timed(timed: Timed) -> (list: Vec<Timed>)
    ensures
        list@ == seq![timed],
{
    let mut list: Vec<Timed> = Vec::new();
    list.push(timed);
    list
}

fn one_planned(planned: PlannedAbility) -> (list: Vec<PlannedAbility>)
    ensures
        list@ == seq![planned],
{
    let mut list: Vec<PlannedAbility> = Vec::new();
    list.push(planned);
    list
}

/// The poison that an entity of the player takes: two rounds, counted
/// in the player's turns.
pub open spec fn poison_of(owner: PlayerId) -> Timed {
    Timed {
        duration: Duration::Rounds(Rounds(2)),
        phase: Phase(owner.0),
        effect: Lasting::Poison,
    }
}

/// The creation of a neutral object of the kind on the tile.
pub open spec fn create_object_effect(name: Seq<char>, pos: PosHex) -> EffectModel {
    EffectModel::Create(
        CreateModel {
            pos,
            prototype: name,
            components: prototype_model(name).push(ComponentModel::Pos(Pos(pos))).push(
                ComponentModel::Meta(name),
            ),
            is_teleported: false,
        },
    )
}

/// The creation of an agent of the kind on the tile, owned by the player.
pub open spec fn create_agent_effect(name: Seq<char>, player: PlayerId, pos: PosHex)
    -> EffectModel {
    EffectModel::Create(
        CreateModel {
            pos,
            prototype: name,
            components: prototype_model(name).push(ComponentModel::Pos(Pos(pos))).push(
                ComponentModel::Meta(name),
            ).push(ComponentModel::BelongsTo(BelongsTo(player))),
            is_teleported: true,
        },
    )
}

fn effect_create_object(prototype: &ObjType, pos: PosHex) -> (effect: Effect)
    requires
        known_prototype(prototype@),
    ensures
        effect@ == create_object_effect(prototype@, pos),
        effect@ matches EffectModel::Create(c) && kit_ok(c.components),
{
    let mut components = prototype_for(prototype.0.as_str());
    components.push(Component::Pos(Pos(pos)));
    components.push(Component::Meta(Meta { name: prototype.clone() }));
    assert(kit_model(components@) =~= prototype_model(prototype@).push(
        ComponentModel::Pos(Pos(pos)),
    ).push(ComponentModel::Meta(prototype@)));
    Effect::Create(
        effect::Create { pos, prototype: prototype.clone(), components, is_teleported: false },
    )
}

fn effect_create_agent(prototype: &ObjType, player_id: PlayerId, pos: PosHex) -> (effect: Effect)
    requires
        known_prototype(prototype@),
    ensures
        effect@ == create_agent_effect(prototype@, player_id, pos),
        effect@ matches EffectModel::Create(c) && kit_ok(c.components),
{
    let mut components = prototype_for(prototype.0.as_str());
    components.push(Component::Pos(Pos(pos)));
    components.push(Component::Meta(Meta { name: prototype.clone() }));
    components.push(Component::BelongsTo(BelongsTo(player_id)));
    assert(kit_model(components@) =~= prototype_model(prototype@).push(
        ComponentModel::Pos(Pos(pos)),
    ).push(ComponentModel::Meta(prototype@)).push(
        ComponentModel::BelongsTo(BelongsTo(player_id)),
    ));
    Effect::Create(
        effect::Create { pos, prototype: prototype.clone(), components, is_teleported: true },
    )
}

impl Model {
    /// The state after the next identifier was handed out.
    pub open spec fn allocated(self) -> Model {
        Model {
            next_obj_id: if self.next_obj_id.0 < ID_LIMIT {
                Id((self.next_obj_id.0 + 1) as i32)
            } else {
                self.next_obj_id
            },
            ..self
        }
    }

    /// The effect of `damage` points on the entity: a wound if it has
    /// more strength than that, or no strength on record at all, and
    /// death otherwise.
    pub open spec fn wound_or_kill(self, id: Id, damage: i32) -> EffectModel {
        if !self.strength.contains_key(id.0 as int) || self.strength[id.0 as int].strength.0
            > damage {
            EffectModel::Wound(effect::Wound { damage: Strength(damage), attacker_pos: None })
        } else {
            EffectModel::Kill(effect::Kill { attacker_pos: None })
        }
    }

    /// What a fire or a spike trap does to the entity on its tile: one
    /// point of damage.
    pub open spec fn burn_ctx(self, target: Id) -> ContextModel {
        ContextModel {
            instant: seq![(target, seq![self.wound_or_kill(target, 1)])],
            ..ContextModel::empty()
        }
    }

    /// What a poison cloud does to the entity on its tile: it poisons
    /// an entity of a player that has more than one point of strength.
    pub open spec fn poison_ctx(self, target: Id) -> ContextModel {
        if self.strength.contains_key(target.0 as int) && self.strength[target.0 as int].strength.0
            > 1 && self.belongs_to.contains_key(target.0 as int) {
            ContextModel {
                timed: seq![(target, seq![poison_of(self.belongs_to[target.0 as int].0)])],
                ..ContextModel::empty()
            }
        } else {
            ContextModel::empty()
        }
    }
}

fn wound_or_kill(state: &State, id: &Id, damage: Strength) -> (effect: Effect)
    ensures
        effect@ == state@.wound_or_kill(*id, damage.0),
{
    let stronger: bool = match state.parts.strength.get(*id) {
        Some(strength) => strength.strength.0 > damage.0,
        None => true,
    };
    if stronger {
        Effect::Wound(effect::Wound { damage, attacker_pos: None })
    } else {
        Effect::Kill(effect::Kill { attacker_pos: None })
    }
}

fn try_execute_passive_ability_burn(state: &State, target_id: Id) -> (ctx: ExecuteContext)
    ensures
        ctx@ == state@.burn_ctx(target_id),
        ctx@.tame(),
        ctx@.safe_on(state@),
{
    let mut context = ExecuteContext::new();
    let target_effects = one_effect(wound_or_kill(state, &target_id, Strength(1)));
    context.push_instant(target_id, target_effects);
    context
}

fn try_execute_passive_ability_spike_trap(state: &State, target_id: Id) -> (ctx: ExecuteContext)
    ensures
        ctx@ == state@.burn_ctx(target_id),
        ctx@.tame(),
        ctx@.safe_on(state@),
{
    let mut context = ExecuteContext::new();
    let target_effects = one_effect(wound_or_kill(state, &target_id, Strength(1)));
    context.push_instant(target_id, target_effects);
    context
}

fn try_execute_passive_ability_poison(state: &State, target_id: Id) -> (ctx: ExecuteContext)
    ensures
        ctx@ == state@.poison_ctx(target_id),
        ctx@.tame(),
        ctx@.safe_on(state@),
{
    let mut context = ExecuteContext::new();
    let strong: bool = match state.parts.strength.get(target_id) {
        Some(strength) => strength.strength.0 > 1,
        None => false,
    };
    if !strong {
        return context;
    }
    let owner = match state.parts.belongs_to.get(target_id) {
        Some(owner) => owner.0,
        None => return context,
    };
    let effect = Timed {
        duration: Duration::Rounds(Rounds(2)),
        phase: Phase(owner.0),
        effect: Lasting::Poison,
    };
    context.push_timed(target_id, one_timed(effect));
    context
}

/// The planned disappearance of a hazard: in two rounds of the phase.
pub open spec fn vanish_plan(player: PlayerId) -> PlannedAbility {
    PlannedAbility { rounds: Rounds(2), phase: Phase(player.0), ability: Ability::Vanish }
}

/// The stun that a club deals: one round, counted in the turns of the
/// stunned entity's owner.
pub open spec fn stun_of(owner: PlayerId) -> Timed {
    Timed { duration: Duration::Rounds(Rounds(1)), phase: Phase(owner.0), effect: Lasting::Stun }
}

/// The bloodlust that is cast on an entity: three rounds, counted in
/// the turns of its owner.
pub open spec fn bloodlust_of(owner: PlayerId) -> Timed {
    Timed {
        duration: Duration::Rounds(Rounds(3)),
        phase: Phase(owner.0),
        effect: Lasting::Bloodlust,
    }
}

/// The name of the kind that a summon calls on the draw `i`.
pub open spec fn summoned_kind(i: int) -> Seq<char> {
    if i == 0 {
        "imp"@
    } else if i == 1 {
        "toxic_imp"@
    } else {
        "imp_bomber"@
    }
}

/// The distance between two tiles as the rules measure it.
pub open spec fn dist(from: PosHex, to: PosHex) -> int {
    crate::map::reported_distance(hex_distance(from, to))
}

/// The damage of a hit: what the draw leaves of the accuracy, no more
/// than the strength of the attack and not less than zero.
pub open spec fn damage_of(raw: int, attack_strength: int) -> int {
    let capped = if raw > attack_strength {
        attack_strength
    } else {
        raw
    };
    if capped < 0 {
        0
    } else {
        capped
    }
}

impl Model {
    /// What a knockback does: the entity on the target tile with the
    /// smallest identifier is pushed one tile on, away from the actor
    /// next to it, if a push of normal strength moves it; else it stays.
    #[verifier::opaque]
    pub open spec fn knockback_ctx(self, cmd: command::UseAbility) -> ContextModel {
        let from = cmd.pos;
        let id = self.first_id_on(cmd.pos);
        let can_push = self.blocker.contains_key(id.0 as int) && PushStrength(
            Weight::Normal,
        ).pushes(self.blocker[id.0 as int].weight);
        let adjacent = self.pos.contains_key(cmd.id.0 as int) && hex_distance(
            self.pos[cmd.id.0 as int].0,
            cmd.pos,
        ) == 1;
        let to = if can_push && adjacent {
            neighbor(cmd.pos, dir_from_to(self.pos[cmd.id.0 as int].0, cmd.pos))
        } else {
            from
        };
        let c = if to != from || !self.occupied(to) {
            ContextModel {
                instant: seq![
                    (
                        id,
                        seq![
                            EffectModel::Knockback(
                                effect::Knockback { from, to, strength: PushStrength(Weight::Normal) },
                            ),
                        ],
                    ),
                ],
                moved: seq![id],
                ..ContextModel::empty()
            }
        } else {
            ContextModel::empty()
        };
        ContextModel { actor_ids: c.actor_ids.push(id), ..c }
    }

    /// What a club does: the entity on the target tile with the
    /// smallest identifier is stunned, now and for a round, if it
    /// belongs to a player.
    pub open spec fn club_ctx(self, cmd: command::UseAbility) -> ContextModel {
        let id = self.first_id_on(cmd.pos);
        let c = if self.belongs_to.contains_key(id.0 as int) {
            ContextModel {
                timed: seq![(id, seq![stun_of(self.belongs_to[id.0 as int].0)])],
                instant: seq![(id, seq![EffectModel::Stun])],
                ..ContextModel::empty()
            }
        } else {
            ContextModel::empty()
        };
        ContextModel { actor_ids: c.actor_ids.push(id), ..c }
    }

    /// What the poison ability does: the entity on the target tile with
    /// the smallest identifier is poisoned, if it belongs to a player.
    pub open spec fn poison_ability_ctx(self, cmd: command::UseAbility) -> ContextModel {
        let id = self.first_id_on(cmd.pos);
        let c = if self.belongs_to.contains_key(id.0 as int) {
            ContextModel {
                timed: seq![(id, seq![poison_of(self.belongs_to[id.0 as int].0)])],
                ..ContextModel::empty()
            }
        } else {
            ContextModel::empty()
        };
        ContextModel { actor_ids: c.actor_ids.push(id), ..c }
    }

    /// What bloodlust does: it is cast on the entity on the target tile
    /// with the smallest identifier, if that belongs to a player.
    pub open spec fn bloodlust_ctx(self, cmd: command::UseAbility) -> ContextModel {
        let id = self.first_id_on(cmd.pos);
        let c = if self.belongs_to.contains_key(id.0 as int) {
            ContextModel {
                timed: seq![(id, seq![bloodlust_of(self.belongs_to[id.0 as int].0)])],
                ..ContextModel::empty()
            }
        } else {
            ContextModel::empty()
        };
        ContextModel { actor_ids: c.actor_ids.push(id), ..c }
    }

    /// What a heal does: the entity on the target tile with the
    /// smallest identifier regains the given strength.
    pub open spec fn heal_ctx(self, cmd: command::UseAbility, amount: i32) -> ContextModel {
        ContextModel {
            instant: seq![
                (
                    self.first_id_on(cmd.pos),
                    seq![EffectModel::Heal(effect::Heal { strength: Strength(amount) })],
                ),
            ],
            ..ContextModel::empty()
        }
    }

    /// The hits of an explosion on the first `n` agents of the list:
    /// one point of damage to each that stands within one tile of `from`.
    pub open spec fn damage_hits(self, from: PosHex, ids: Seq<Id>, n: int) -> Seq<
        (Id, Seq<EffectModel>),
    >
        decreases n,
    {
        if n <= 0 {
            Seq::empty()
        } else {
            let hits = self.damage_hits(from, ids, n - 1);
            let id = ids[n - 1];
            if self.pos.contains_key(id.0 as int) && dist(from, self.pos[id.0 as int].0) <= 1 {
                hits.push((id, seq![self.wound_or_kill(id, 1)]))
            } else {
                hits
            }
        }
    }

    /// What an explosion that damages does: it hits the agents of the
    /// first player around the exploding entity, which then vanishes.
    #[verifier::opaque]
    pub open spec fn explode_damage_ctx(self, cmd: command::UseAbility) -> ContextModel {
        let hits = if self.pos.contains_key(cmd.id.0 as int) {
            self.damage_hits(
                self.pos[cmd.id.0 as int].0,
                self.agent_ids_of(PlayerId(0)),
                self.agent_ids_of(PlayerId(0)).len() as int,
            )
        } else {
            Seq::empty()
        };
        ContextModel {
            instant: hits.push((cmd.id, seq![EffectModel::Vanish])),
            ..ContextModel::empty()
        }
    }

    /// Whether an explosion on `from` pushes the blocker `id`: another
    /// entity than the exploding one, one tile away, light enough, with
    /// a free tile of the board behind it.
    pub open spec fn blast_moves(self, from: PosHex, bomb: Id, id: Id) -> bool {
        &&& self.pos.contains_key(id.0 as int)
        &&& self.blocker.contains_key(id.0 as int)
        &&& hex_distance(from, self.pos[id.0 as int].0) == 1
        &&& id.0 != bomb.0
        &&& PushStrength(Weight::Normal).pushes(self.blocker[id.0 as int].weight)
        &&& self.on_board(self.blast_target(from, id))
        &&& !self.occupied(self.blast_target(from, id))
    }

    /// The tile to which an explosion on `from` pushes the entity.
    pub open spec fn blast_target(self, from: PosHex, id: Id) -> PosHex {
        neighbor(self.pos[id.0 as int].0, dir_from_to(from, self.pos[id.0 as int].0))
    }

    /// The pushes of an explosion on the first `n` blockers of the list.
    pub open spec fn blast_pushes(self, from: PosHex, bomb: Id, ids: Seq<Id>, n: int)
        -> ContextModel
        decreases n,
    {
        if n <= 0 {
            ContextModel::empty()
        } else {
            let c = self.blast_pushes(from, bomb, ids, n - 1);
            let id = ids[n - 1];
            if self.blast_moves(from, bomb, id) {
                ContextModel {
                    instant: c.instant.push(
                        (
                            id,
                            seq![
                                EffectModel::Knockback(
                                    effect::Knockback {
                                        from: self.pos[id.0 as int].0,
                                        to: self.blast_target(from, id),
                                        strength: PushStrength(Weight::Normal),
                                    },
                                ),
                            ],
                        ),
                    ),
                    moved: c.moved.push(id),
                    ..c
                }
            } else {
                c
            }
        }
    }

    /// What an explosion that pushes does: it pushes the blockers
    /// around the target tile away, and the exploding entity vanishes.
    #[verifier::opaque]
    pub open spec fn explode_push_ctx(self, cmd: command::UseAbility) -> ContextModel {
        let ids = state::ids_where(self, Pick::Blockers, ID_LIMIT as int);
        let c = self.blast_pushes(cmd.pos, cmd.id, ids, ids.len() as int);
        ContextModel { instant: c.instant.push((cmd.id, seq![EffectModel::Vanish])), ..c }
    }

    /// What the throw of a bomb does: a bomb of the kind appears on the
    /// target tile under the next identifier, with the plan to explode.
    pub open spec fn throw_bomb(
        self,
        cmd: command::UseAbility,
        name: Seq<char>,
        rounds: Rounds,
        ability: Ability,
    ) -> (Model, ContextModel) {
        let id = self.next_obj_id;
        (
            self.allocated(),
            ContextModel {
                instant: seq![(id, seq![create_object_effect(name, cmd.pos)])],
                planned: seq![
                    (id, seq![PlannedAbility { rounds, phase: Phase(self.player_id.0), ability }]),
                ],
                ..ContextModel::empty()
            },
        )
    }

    /// The context with what a fire does to the first `n` agents of the
    /// list merged in.
    pub open spec fn burns_merged(self, ctx: ContextModel, ids: Seq<Id>, n: int) -> ContextModel
        decreases n,
    {
        if n <= 0 {
            ctx
        } else {
            self.burns_merged(ctx, ids, n - 1).merged(self.burn_ctx(ids[n - 1]))
        }
    }

    /// The context with what a poison cloud does to the first `n`
    /// agents of the list merged in.
    pub open spec fn poisons_merged(self, ctx: ContextModel, ids: Seq<Id>, n: int) -> ContextModel
        decreases n,
    {
        if n <= 0 {
            ctx
        } else {
            self.poisons_merged(ctx, ids, n - 1).merged(self.poison_ctx(ids[n - 1]))
        }
    }

    /// A fire starts on the tile: a fire that burns there already is
    /// planned to vanish two rounds from now; else a fire appears under
    /// the next identifier, with that plan, and burns the agents on the tile.
    #[verifier::opaque]
    pub open spec fn fire_started(self, pos: PosHex) -> (Model, ContextModel) {
        match first_where(self, Pick::PassivesAt(pos, PassiveAbility::Burn), ID_LIMIT as int) {
            Some(id) => (
                self,
                ContextModel {
                    planned: seq![(id, seq![vanish_plan(self.player_id)])],
                    ..ContextModel::empty()
                },
            ),
            None => {
                let id = self.next_obj_id;
                let m = self.allocated();
                let ctx = ContextModel {
                    instant: seq![(id, seq![create_object_effect("fire"@, pos)])],
                    planned: seq![(id, seq![vanish_plan(self.player_id)])],
                    ..ContextModel::empty()
                };
                (m, m.burns_merged(ctx, m.agent_ids_on(pos), m.agent_ids_on(pos).len() as int))
            },
        }
    }

    /// A poison cloud forms on the tile: a cloud that hangs there
    /// already is planned to vanish two rounds from now; else a cloud
    /// appears under the next identifier, with that plan, and poisons
    /// the agents on the tile.
    #[verifier::opaque]
    pub open spec fn cloud_formed(self, pos: PosHex) -> (Model, ContextModel) {
        match first_where(self, Pick::PassivesAt(pos, PassiveAbility::Poison), ID_LIMIT as int) {
            Some(id) => (
                self,
                ContextModel {
                    planned: seq![(id, seq![vanish_plan(self.player_id)])],
                    ..ContextModel::empty()
                },
            ),
            None => {
                let id = self.next_obj_id;
                let m = self.allocated();
                let ctx = ContextModel {
                    instant: seq![(id, seq![create_object_effect("poison_cloud"@, pos)])],
                    planned: seq![(id, seq![vanish_plan(self.player_id)])],
                    ..ContextModel::empty()
                };
                (m, m.poisons_merged(ctx, m.agent_ids_on(pos), m.agent_ids_on(pos).len() as int))
            },
        }
    }

    /// Fires start on those of the first `n` neighbours of the tile
    /// that are on the board, one after the other.
    pub open spec fn fires_around(self, ctx: ContextModel, center: PosHex, n: int) -> (
        Model,
        ContextModel,
    )
        decreases n,
    {
        if n <= 0 {
            (self, ctx)
        } else {
            let before = self.fires_around(ctx, center, n - 1);
            let pos = neighbor(center, dir_of_int(n - 1));
            if before.0.on_board(pos) {
                let fire = before.0.fire_started(pos);
                (fire.0, before.1.merged(fire.1))
            } else {
                before
            }
        }
    }

    /// Poison clouds form on those of the first `n` neighbours of the
    /// tile that are on the board, one after the other.
    pub open spec fn clouds_around(self, ctx: ContextModel, center: PosHex, n: int) -> (
        Model,
        ContextModel,
    )
        decreases n,
    {
        if n <= 0 {
            (self, ctx)
        } else {
            let before = self.clouds_around(ctx, center, n - 1);
            let pos = neighbor(center, dir_of_int(n - 1));
            if before.0.on_board(pos) {
                let cloud = before.0.cloud_formed(pos);
                (cloud.0, before.1.merged(cloud.1))
            } else {
                before
            }
        }
    }

    /// What an explosion of fire does: the exploding entity vanishes,
    /// and fires start on the target tile and on each of its
    /// neighbours on the board.
    #[verifier::opaque]
    pub open spec fn explode_fire_ctx(self, cmd: command::UseAbility) -> (Model, ContextModel) {
        let ctx = ContextModel {
            instant: seq![(cmd.id, seq![EffectModel::Vanish])],
            ..ContextModel::empty()
        };
        let fire = self.fire_started(cmd.pos);
        fire.0.fires_around(ctx.merged(fire.1), cmd.pos, 6)
    }

    /// What an explosion of poison does: the exploding entity vanishes,
    /// and poison clouds form on the target tile and on each of its
    /// neighbours on the board.
    #[verifier::opaque]
    pub open spec fn explode_poison_ctx(self, cmd: command::UseAbility) -> (Model, ContextModel) {
        let ctx = ContextModel {
            instant: seq![(cmd.id, seq![EffectModel::Vanish])],
            ..ContextModel::empty()
        };
        let cloud = self.cloud_formed(cmd.pos);
        cloud.0.clouds_around(ctx.merged(cloud.1), cmd.pos, 6)
    }

    /// What a summon does: on the first free tile next to the target
    /// tile a daemon appears, stunned, of a kind drawn from three. A
    /// caster that is no summoner, or has no free tile next to the
    /// target, summons nothing and draws nothing.
    #[verifier::opaque]
    pub open spec fn summon_ctx(self, cmd: command::UseAbility, rng: SimpleRng) -> (
        Model,
        SimpleRng,
        ContextModel,
    ) {
        if !self.summoner.contains_key(cmd.id.0 as int) {
            (self, rng, ContextModel::empty())
        } else {
            let positions = free_neighbors(
                self,
                cmd.pos,
                self.summoner[cmd.id.0 as int].count as int,
                6,
            );
            if positions.len() == 0 {
                (self, rng, ContextModel::empty())
            } else {
                let kind = summoned_kind(rng.peek_range(0, 3));
                let id = self.next_obj_id;
                (
                    self.allocated(),
                    rng.advanced(),
                    ContextModel {
                        instant: seq![
                            (
                                id,
                                seq![
                                    create_agent_effect(kind, self.player_id, positions[0]),
                                    EffectModel::Stun,
                                ],
                            ),
                        ],
                        moved: seq![id],
                        ..ContextModel::empty()
                    },
                )
            }
        }
    }

    /// What the use of an ability works out, before anything is applied.
    #[verifier::opaque]
    pub open spec fn ability_ctx(self, cmd: command::UseAbility, rng: SimpleRng) -> (
        Model,
        SimpleRng,
        ContextModel,
    ) {
        match cmd.ability {
            Ability::Knockback => (self, rng, self.knockback_ctx(cmd)),
            Ability::Club => (self, rng, self.club_ctx(cmd)),
            Ability::Jump | Ability::LongJump | Ability::Dash => (
                self,
                rng,
                ContextModel { moved: seq![cmd.id], ..ContextModel::empty() },
            ),
            Ability::Rage => (self, rng, ContextModel::empty()),
            Ability::Heal => (self, rng, self.heal_ctx(cmd, 2)),
            Ability::GreatHeal => (self, rng, self.heal_ctx(cmd, 3)),
            Ability::Vanish => (
                self,
                rng,
                ContextModel {
                    instant: seq![(cmd.id, seq![EffectModel::Vanish])],
                    ..ContextModel::empty()
                },
            ),
            Ability::ExplodeFire => (
                self.explode_fire_ctx(cmd).0,
                rng,
                self.explode_fire_ctx(cmd).1,
            ),
            Ability::ExplodePoison => (
                self.explode_poison_ctx(cmd).0,
                rng,
                self.explode_poison_ctx(cmd).1,
            ),
            Ability::ExplodePush => (self, rng, self.explode_push_ctx(cmd)),
            Ability::ExplodeDamage => (self, rng, self.explode_damage_ctx(cmd)),
            Ability::Poison => (self, rng, self.poison_ability_ctx(cmd)),
            Ability::Bomb => (
                self.allocated(),
                rng,
                self.throw_bomb(cmd, "bomb_damage"@, Rounds(1), Ability::ExplodeDamage).1,
            ),
            Ability::BombPush => (
                self.allocated(),
                rng,
                self.throw_bomb(cmd, "bomb_push"@, Rounds(0), Ability::ExplodePush).1,
            ),
            Ability::BombFire => (
                self.allocated(),
                rng,
                self.throw_bomb(cmd, "bomb_fire"@, Rounds(1), Ability::ExplodeFire).1,
            ),
            Ability::BombPoison => (
                self.allocated(),
                rng,
                self.throw_bomb(cmd, "bomb_poison"@, Rounds(1), Ability::ExplodePoison).1,
            ),
            Ability::BombDemonic => (
                self.allocated(),
                rng,
                self.throw_bomb(cmd, "bomb_demonic"@, Rounds(1), Ability::ExplodeDamage).1,
            ),
            Ability::Summon => self.summon_ctx(cmd, rng),
            Ability::Bloodlust => (self, rng, self.bloodlust_ctx(cmd)),
        }
    }

    /// Whether an attack of one entity on another can be resolved: the
    /// attacker is an agent with a strength and a tile, the target has
    /// a strength, and the range of the draw is not empty.
    pub open spec fn can_resolve(self, attacker: Id, target: Id) -> bool {
        &&& self.agent.contains_key(attacker.0 as int)
        &&& self.strength.contains_key(attacker.0 as int)
        &&& self.pos.contains_key(attacker.0 as int)
        &&& self.strength.contains_key(target.0 as int)
        &&& 0 < self.draw_range(attacker, target) <= i32::MAX
    }

    /// The wounds that weigh on an attacker's accuracy: the strength it
    /// has lost, counted from none up to two.
    pub open spec fn wounds_of(self, attacker: Id) -> int {
        let lost = self.strength[attacker.0 as int].base_strength.0
            - self.strength[attacker.0 as int].strength.0;
        if lost > 2 {
            2
        } else if lost < 0 {
            0
        } else {
            lost
        }
    }

    /// The accuracy of an attacker after its wounds.
    pub open spec fn aim_of(self, attacker: Id) -> int {
        self.agent[attacker.0 as int].attack_accuracy.0 - self.wounds_of(attacker)
    }

    /// The number of outcomes of the draw of an attack: the attacker's
    /// aim and one more, or two more against a target of two points of
    /// strength or less.
    pub open spec fn draw_range(self, attacker: Id, target: Id) -> int {
        self.aim_of(attacker) + (if self.strength[target.0 as int].strength.0 > 2 {
            1int
        } else {
            2int
        })
    }

    /// What carrying out a command needs, beyond the rules of the
    /// command: a move needs an agent on a tile with a move or a joker
    /// left; an attack needs an attacker with an attack or a joker
    /// left, and an attacker and a target with what the draw reads; an
    /// agent that uses an ability needs an attack or a joker left.
    pub open spec fn carry_rule(self, cmd: CommandModel) -> Result<(), Error> {
        match cmd {
            CommandModel::MoveTo(id, _) => {
                if !self.agent.contains_key(id.0 as int) || !self.pos.contains_key(id.0 as int) {
                    refuse(Error::BadActorId)
                } else if !(self.agent[id.0 as int].moves.0 > 0 || self.agent[id.0 as int].jokers.0
                    > 0) {
                    refuse(Error::NotEnoughMoves)
                } else {
                    pass()
                }
            },
            CommandModel::Attack(c) => {
                if !self.agent.contains_key(c.attacker_id.0 as int) {
                    refuse(Error::BadActorId)
                } else if !self.agent[c.attacker_id.0 as int].can_attack_now() {
                    refuse(Error::NotEnoughAttacks)
                } else if !self.strength.contains_key(c.target_id.0 as int) {
                    refuse(Error::BadTargetType)
                } else if !self.can_resolve(c.attacker_id, c.target_id) {
                    refuse(Error::BadActorType)
                } else {
                    pass()
                }
            },
            CommandModel::UseAbility(c) => {
                if self.agent.contains_key(c.id.0 as int)
                    && !self.agent[c.id.0 as int].can_attack_now() {
                    refuse(Error::NotEnoughAttacks)
                } else {
                    pass()
                }
            },
            _ => pass(),
        }
    }

    /// The effect of an attack on its target, if it hits, and the
    /// generator after the draw: the damage is what the draw leaves of
    /// the aim, kept between zero and the strength of the attack, and
    /// an attack without damage is a total miss. An attack that cannot
    /// be resolved misses without a draw; no command and no answer to
    /// an attack leads to one.
    #[verifier::opaque]
    pub open spec fn try_attack(self, attacker: Id, target: Id, rng: SimpleRng) -> (
        Option<EffectModel>,
        SimpleRng,
    ) {
        if !self.can_resolve(attacker, target) {
            (None, rng)
        } else {
            let raw = self.aim_of(attacker) - rng.peek_range(0, self.draw_range(attacker, target));
            let damage = damage_of(raw, self.agent[attacker.0 as int].attack_strength.0 as int);
            if damage <= 0 {
                (None, rng.advanced())
            } else {
                let attacker_pos = Some(self.pos[attacker.0 as int].0);
                if self.strength[target.0 as int].strength.0 > damage {
                    (
                        Some(
                            EffectModel::Wound(
                                effect::Wound { damage: Strength(damage as i32), attacker_pos },
                            ),
                        ),
                        rng.advanced(),
                    )
                } else {
                    (Some(EffectModel::Kill(effect::Kill { attacker_pos })), rng.advanced())
                }
            }
        }
    }

    /// What the first `n` passive abilities of an attacker do to the
    /// target of a hit: each poison attack poisons a target that
    /// belongs to a player.
    pub open spec fn on_attack_timed(self, passives: Seq<PassiveAbility>, target: Id, n: int)
        -> Seq<(Id, Seq<Timed>)>
        decreases n,
    {
        if n <= 0 {
            Seq::empty()
        } else {
            let before = self.on_attack_timed(passives, target, n - 1);
            if passives[n - 1] == PassiveAbility::PoisonAttack && self.belongs_to.contains_key(
                target.0 as int,
            ) {
                before.push((target, seq![poison_of(self.belongs_to[target.0 as int].0)]))
            } else {
                before
            }
        }
    }

    /// What the passive abilities of an attacker do to the target of a hit.
    pub open spec fn on_attack_ctx(self, attacker: Id, target: Id) -> ContextModel {
        if self.passive_abilities.contains_key(attacker.0 as int) {
            ContextModel {
                timed: self.on_attack_timed(
                    self.passive_abilities[attacker.0 as int],
                    target,
                    self.passive_abilities[attacker.0 as int].len() as int,
                ),
                ..ContextModel::empty()
            }
        } else {
            ContextModel::empty()
        }
    }
}

fn execute_use_ability_knockback(state: &State, command: &command::UseAbility) -> (ctx:
    ExecuteContext)
    ensures
        ctx@ == state@.knockback_ctx(*command),
        ctx@.tame(),
        ctx@.safe_on(state@),
{
    proof {
        reveal(Model::knockback_ctx);
    }
    let from = command.pos;
    let mut context = ExecuteContext::new();
    let id = state::get_id_by_pos(state, command.pos);
    let strength = PushStrength(Weight::Normal);
    let can_push: bool = match state.parts.blocker.get(id) {
        Some(blocker) => strength.can_push(blocker.weight),
        None => false,
    };
    let mut to = from;
    if can_push {
        if let Some(actor_pos) = state.parts.pos.get(command.id) {
            if distance_hex(actor_pos.0, command.pos) == 1 {
                let dir = Dir::get_dir_from_to(actor_pos.0, command.pos);
                to = Dir::get_neighbor_pos(command.pos, dir);
            }
        }
    }
    if to != from || !state::is_tile_blocked_not_check_inboard(state, to) {
        let effect = Effect::Knockback(effect::Knockback { from, to, strength });
        context.push_instant(id, one_effect(effect));
        context.push_moved(id);
    }
    context.push_actor(id);
    assert(context@ =~= state@.knockback_ctx(*command));
    context
}

fn execute_use_ability_club(state: &State, command: &command::UseAbility) -> (ctx: ExecuteContext)
    ensures
        ctx@ == state@.club_ctx(*command),
        ctx@.tame(),
        ctx@.safe_on(state@),
{
    let mut context = ExecuteContext::new();
    let id = state::get_id_by_pos(state, command.pos);
    if let Some(x) = state.parts.belongs_to.get(id) {
        let owner = x.0;
        let effect = Timed {
            duration: Duration::Rounds(Rounds(1)),
            phase: Phase(owner.0),
            effect: Lasting::Stun,
        };
        context.push_timed(id, one_timed(effect));
        context.push_instant(id, one_effect(Effect::Stun));
    }
    context.push_actor(id);
    assert(context@ =~= state@.club_ctx(*command));
    context
}

fn execute_use_ability_jump(_state: &State, command: &command::UseAbility) -> (ctx: ExecuteContext)
    ensures
        ctx@ == (ContextModel { moved: seq![command.id], ..ContextModel::empty() }),
        ctx@.tame(),
        ctx@.safe_on(_state@),
{
    let mut context = ExecuteContext::new();
    context.push_moved(command.id);
    assert(context@ =~= (ContextModel { moved: seq![command.id], ..ContextModel::empty() }));
    context
}

fn execute_use_ability_long_jump(_state: &State, command: &command::UseAbility) -> (ctx:
    ExecuteContext)
    ensures
        ctx@ == (ContextModel { moved: seq![command.id], ..ContextModel::empty() }),
        ctx@.tame(),
        ctx@.safe_on(_state@),
{
    execute_use_ability_jump(_state, command)
}

fn execute_use_ability_dash(_state: &State, command: &command::UseAbility) -> (ctx: ExecuteContext)
    ensures
        ctx@ == (ContextModel { moved: seq![command.id], ..ContextModel::empty() }),
        ctx@.tame(),
        ctx@.safe_on(_state@),
{
    execute_use_ability_jump(_state, command)
}

fn execute_use_ability_rage(_state: &State, _command: &command::UseAbility) -> (ctx: ExecuteContext)
    ensures
        ctx@ == ContextModel::empty(),
        ctx@.tame(),
        ctx@.safe_on(_state@),
{
    ExecuteContext::new()
}

fn execute_use_ability_heal(state: &State, command: &command::UseAbility, strength: Strength) -> (ctx:
    ExecuteContext)
    requires
        strength.0 >= 0,
    ensures
        ctx@ == state@.heal_ctx(*command, strength.0),
        ctx@.tame(),
        ctx@.safe_on(state@),
{
    let mut context = ExecuteContext::new();
    let id = state::get_id_by_pos(state, command.pos);
    let effect = Effect::Heal(effect::Heal { strength });
    context.push_instant(id, one_effect(effect));
    assert(context@ =~= state@.heal_ctx(*command, strength.0));
    context
}

fn execute_use_ability_vanish(command: &command::UseAbility) -> (ctx: ExecuteContext)
    ensures
        ctx@ == (ContextModel {
            instant: seq![(command.id, seq![EffectModel::Vanish])],
            ..ContextModel::empty()
        }),
        ctx@.tame(),
        forall|m: Model| ctx@.safe_on(m),
{
    let mut context = ExecuteContext::new();
    context.push_instant(command.id, one_effect(Effect::Vanish));
    assert(context@ =~= (ContextModel {
        instant: seq![(command.id, seq![EffectModel::Vanish])],
        ..ContextModel::empty()
    }));
    context
}

fn execute_use_ability_poison(state: &State, command: &command::UseAbility) -> (ctx: ExecuteContext)
    ensures
        ctx@ == state@.poison_ability_ctx(*command),
        ctx@.tame(),
        ctx@.safe_on(state@),
{
    let mut context = ExecuteContext::new();
    let id = state::get_id_by_pos(state, command.pos);
    if let Some(owner) = state.parts.belongs_to.get(id) {
        let effect = Timed {
            duration: Duration::Rounds(Rounds(2)),
            phase: Phase(owner.0.0),
            effect: Lasting::Poison,
        };
        context.push_timed(id, one_timed(effect));
    }
    context.push_actor(id);
    assert(context@ =~= state@.poison_ability_ctx(*command));
    context
}

fn execute_use_ability_bloodlust(state: &State, command: &command::UseAbility) -> (ctx:
    ExecuteContext)
    ensures
        ctx@ == state@.bloodlust_ctx(*command),
        ctx@.tame(),
        ctx@.safe_on(state@),
{
    let mut context = ExecuteContext::new();
    let id = state::get_id_by_pos(state, command.pos);
    if let Some(x) = state.parts.belongs_to.get(id) {
        let effect = Timed {
            duration: Duration::Rounds(Rounds(3)),
            phase: Phase(x.0.0),
            effect: Lasting::Bloodlust,
        };
        context.push_timed(id, one_timed(effect));
    }
    context.push_actor(id);
    assert(context@ =~= state@.bloodlust_ctx(*command));
    context
}

fn execute_use_ability_explode_damage(state: &State, command: &command::UseAbility) -> (ctx:
    ExecuteContext)
    ensures
        ctx@ == state@.explode_damage_ctx(*command),
        ctx@.tame(),
        ctx@.safe_on(state@),
{
    proof {
        reveal(Model::explode_damage_ctx);
    }
    let mut context = ExecuteContext::new();
    if let Some(from) = state.parts.pos.get(command.id) {
        let from = from.0;
        let ids = state::players_agent_ids(state, PlayerId(0));
        let mut i: usize = 0;
        while i < ids.len()
            invariant
                i <= ids@.len(),
                ids@ == state@.agent_ids_of(PlayerId(0)),
                context@ == (ContextModel {
                    instant: state@.damage_hits(from, ids@, i as int),
                    ..ContextModel::empty()
                }),
                context@.tame(),
                context@.safe_on(state@),
                forall|k: int|
                    0 <= k < context@.instant.len() ==> exists|j: int|
                        0 <= j < i && (#[trigger] context@.instant[k]).0 == ids@[j],
            decreases ids@.len() - i,
        {
            let id = ids[i];
            if let Some(pos) = state.parts.pos.get(id) {
                if distance_hex(from, pos.0) <= 1 {
                    let effects = one_effect(wound_or_kill(state, &id, Strength(1)));
                    proof {
                        state::lemma_ids_where(state@, Pick::AgentsOf(PlayerId(0)), ID_LIMIT as int);
                        let entries = context@.instant;
                        assert forall|k: int| 0 <= k < entries.len() implies (
                        #[trigger] entries[k]).0 != id by {
                            let j = choose|j: int| 0 <= j < i && entries[k].0 == ids@[j];
                            assert(ids@[j].0 < ids@[i as int].0);
                        }
                        lemma_push_safe(state@, entries, id, effects_model(effects@));
                    }
                    context.push_instant(id, effects);
                    assert(context@.instant[context@.instant.len() - 1].0 == ids@[i as int]);
                }
            }
            i += 1;
        }
    }
    let vanish = one_effect(Effect::Vanish);
    proof {
        lemma_push_safe(state@, context@.instant, command.id, effects_model(vanish@));
    }
    context.push_instant(command.id, vanish);
    context
}

fn execute_use_ability_explode_push(state: &State, command: &command::UseAbility) -> (ctx:
    ExecuteContext)
    ensures
        ctx@ == state@.explode_push_ctx(*command),
        ctx@.tame(),
        ctx@.safe_on(state@),
{
    proof {
        reveal(Model::explode_push_ctx);
    }
    let mut context = ExecuteContext::new();
    let from = command.pos;
    let ids = state::blocker_ids(state);
    let mut i: usize = 0;
    while i < ids.len()
        invariant
            i <= ids@.len(),
            from == command.pos,
            ids@ == state::ids_where(state@, Pick::Blockers, ID_LIMIT as int),
            context@ == state@.blast_pushes(from, command.id, ids@, i as int),
            context@.tame(),
            context@.safe_on(state@),
        decreases ids@.len() - i,
    {
        let id = ids[i];
        let mut moves: Option<(PosHex, PosHex)> = None;
        if let Some(pos) = state.parts.pos.get(id) {
            if let Some(blocker) = state.parts.blocker.get(id) {
                let pos = pos.0;
                if distance_hex(from, pos) == 1 && command.id.0 != id.0 && PushStrength(
                    Weight::Normal,
                ).can_push(blocker.weight) {
                    let to = Dir::get_dir_pos(from, pos);
                    if state.map.is_inboard(to) && !state::is_tile_blocked_not_check_inboard(
                        state,
                        to,
                    ) {
                        moves = Some((pos, to));
                    }
                }
            }
        }
        if let Some((pos, to)) = moves {
            let effect = Effect::Knockback(
                effect::Knockback { from: pos, to, strength: PushStrength(Weight::Normal) },
            );
            let effects = one_effect(effect);
            proof {
                lemma_push_safe(state@, context@.instant, id, effects_model(effects@));
            }
            context.push_instant(id, effects);
            context.push_moved(id);
        }
        assert(context@ =~= state@.blast_pushes(from, command.id, ids@, i as int + 1));
        i += 1;
    }
    let vanish = one_effect(Effect::Vanish);
    proof {
        lemma_push_safe(state@, context@.instant, command.id, effects_model(vanish@));
    }
    context.push_instant(command.id, vanish);
    context
}

fn throw_bomb(
    state: &mut State,
    command: &command::UseAbility,
    prototype: &ObjType,
    rounds: Rounds,
    ability: Ability,
) -> (ctx: ExecuteContext)
    requires
        known_prototype(prototype@),
    ensures
        final(state)@.same_board(old(state)@),
        final(state)@ == old(state)@.throw_bomb(*command, prototype@, rounds, ability).0,
        ctx@ == old(state)@.throw_bomb(*command, prototype@, rounds, ability).1,
        ctx@.tame(),
        ctx@.safe_on(final(state)@),
        final(state)@ == (Model { next_obj_id: final(state)@.next_obj_id, ..old(state)@ }),
{
    let mut context = ExecuteContext::new();
    let effect_create = effect_create_object(prototype, command.pos);
    let id = state.alloc_id();
    assert(state@ =~= old(state)@.allocated());
    context.push_instant(id, one_effect(effect_create));
    let planned_ability = PlannedAbility { rounds, phase: Phase(state.player_id().0), ability };
    context.push_planned(id, one_planned(planned_ability));
    assert(context@ =~= old(state)@.throw_bomb(*command, prototype@, rounds, ability).1);
    context
}

fn execute_use_ability_bomb_push(state: &mut State, command: &command::UseAbility) -> (ctx:
    ExecuteContext)
    ensures
        final(state)@.same_board(old(state)@),
        final(state)@ == old(state)@.allocated(),
        ctx@ == old(state)@.throw_bomb(*command, "bomb_push"@, Rounds(0), Ability::ExplodePush).1,
        ctx@.tame(),
        ctx@.safe_on(final(state)@),
        final(state)@ == (Model { next_obj_id: final(state)@.next_obj_id, ..old(state)@ }),
{
    throw_bomb(state, command, &ObjType::from("bomb_push"), Rounds(0), Ability::ExplodePush)
}

fn execute_use_ability_bomb_damage(state: &mut State, command: &command::UseAbility) -> (ctx:
    ExecuteContext)
    ensures
        final(state)@.same_board(old(state)@),
        final(state)@ == old(state)@.allocated(),
        ctx@ == old(state)@.throw_bomb(
            *command,
            "bomb_damage"@,
            Rounds(1),
            Ability::ExplodeDamage,
        ).1,
        ctx@.tame(),
        ctx@.safe_on(final(state)@),
        final(state)@ == (Model { next_obj_id: final(state)@.next_obj_id, ..old(state)@ }),
{
    throw_bomb(state, command, &ObjType::from("bomb_damage"), Rounds(1), Ability::ExplodeDamage)
}

fn execute_use_ability_bomb_fire(state: &mut State, command: &command::UseAbility) -> (ctx:
    ExecuteContext)
    ensures
        final(state)@.same_board(old(state)@),
        final(state)@ == old(state)@.allocated(),
        ctx@ == old(state)@.throw_bomb(*command, "bomb_fire"@, Rounds(1), Ability::ExplodeFire).1,
        ctx@.tame(),
        ctx@.safe_on(final(state)@),
        final(state)@ == (Model { next_obj_id: final(state)@.next_obj_id, ..old(state)@ }),
{
    throw_bomb(state, command, &ObjType::from("bomb_fire"), Rounds(1), Ability::ExplodeFire)
}

fn execute_use_ability_bomb_poison(state: &mut State, command: &command::UseAbility) -> (ctx:
    ExecuteContext)
    ensures
        final(state)@.same_board(old(state)@),
        final(state)@ == old(state)@.allocated(),
        ctx@ == old(state)@.throw_bomb(
            *command,
            "bomb_poison"@,
            Rounds(1),
            Ability::ExplodePoison,
        ).1,
        ctx@.tame(),
        ctx@.safe_on(final(state)@),
        final(state)@ == (Model { next_obj_id: final(state)@.next_obj_id, ..old(state)@ }),
{
    throw_bomb(state, command, &ObjType::from("bomb_poison"), Rounds(1), Ability::ExplodePoison)
}

fn execute_use_ability_bomb_demonic(state: &mut State, command: &command::UseAbility) -> (ctx:
    ExecuteContext)
    ensures
        final(state)@.same_board(old(state)@),
        final(state)@ == old(state)@.allocated(),
        ctx@ == old(state)@.throw_bomb(
            *command,
            "bomb_demonic"@,
            Rounds(1),
            Ability::ExplodeDamage,
        ).1,
        ctx@.tame(),
        ctx@.safe_on(final(state)@),
        final(state)@ == (Model { next_obj_id: final(state)@.next_obj_id, ..old(state)@ }),
{
    throw_bomb(state, command, &ObjType::from("bomb_demonic"), Rounds(1), Ability::ExplodeDamage)
}

/// An effect that can be applied as it is: a wound without negative
/// damage, a creation with components that may join a store, or any
/// other effect.
pub open spec fn effect_tame(effect: EffectModel) -> bool {
    match effect {
        EffectModel::Wound(w) => w.damage.0 >= 0,
        EffectModel::Create(c) => kit_ok(c.components),
        _ => true,
    }
}

/// A list of entries whose effects can be applied as they are.
pub open spec fn tame_entries(entries: Seq<(Id, Seq<EffectModel>)>) -> bool {
    forall|i: int, j: int|
        0 <= i < entries.len() && 0 <= j < entries[i].1.len() ==> effect_tame(
            #[trigger] entries[i].1[j],
        )
}

impl ContextModel {
    /// The effects of the context can be applied as they are.
    pub open spec fn tame(self) -> bool {
        tame_entries(self.instant)
    }

    /// The effects of the context are safe for the strengths of the state.
    pub open spec fn safe_on(self, m: Model) -> bool {
        entries_safe(m, self.instant)
    }
}

/// Merging tame entries into tame entries leaves them tame.
pub proof fn lemma_merged_tame(
    a: Seq<(Id, Seq<EffectModel>)>,
    b: Seq<(Id, Seq<EffectModel>)>,
    n: int,
)
    requires
        tame_entries(a),
        tame_entries(b),
        0 <= n <= b.len(),
    ensures
        tame_entries(merged_entries(a, b, n)),
    decreases n,
{
    if n > 0 {
        lemma_merged_tame(a, b, n - 1);
        let before = merged_entries(a, b, n - 1);
        let id = b[n - 1].0;
        let values = b[n - 1].1;
        lemma_slot_in_range(before, id, 0);
        let slot = entry_slot(before, id, 0);
        let after = merged_entry(before, id, values);
        assert forall|i: int, j: int|
            0 <= i < after.len() && 0 <= j < after[i].1.len() implies effect_tame(
            #[trigger] after[i].1[j],
        ) by {
            if slot < before.len() {
                if i == slot {
                    if j < before[slot].1.len() {
                        assert(after[i].1[j] == before[slot].1[j]);
                    } else {
                        assert(after[i].1[j] == values[j - before[slot].1.len()]);
                        assert(effect_tame(b[n - 1].1[j - before[slot].1.len()]));
                    }
                } else {
                    assert(after[i].1[j] == before[i].1[j]);
                }
            } else {
                if i < before.len() {
                    assert(after[i].1[j] == before[i].1[j]);
                } else {
                    assert(after[i].1[j] == values[j]);
                    assert(effect_tame(b[n - 1].1[j]));
                }
            }
        }
    }
}

/// Tame entries stay tame when an entry of tame effects is added.
pub proof fn lemma_push_tame(entries: Seq<(Id, Seq<EffectModel>)>, id: Id, effects: Seq<EffectModel>)
    requires
        tame_entries(entries),
        forall|j: int| 0 <= j < effects.len() ==> effect_tame(#[trigger] effects[j]),
    ensures
        tame_entries(entries.push((id, effects))),
{
    let after = entries.push((id, effects));
    assert forall|i: int, j: int|
        0 <= i < after.len() && 0 <= j < after[i].1.len() implies effect_tame(
        #[trigger] after[i].1[j],
    ) by {
        if i < entries.len() {
            assert(after[i].1[j] == entries[i].1[j]);
        } else {
            assert(after[i].1[j] == effects[j]);
        }
    }
}

/// The agents on a tile.
pub open spec fn agents_at_set(m: Model, pos: PosHex) -> Set<Id> {
    Set::new(|id: Id| m.picks(Pick::AgentsAt(pos), id.0 as int))
}

/// The agents on a tile or on one of its first `n` neighbours.
pub open spec fn agents_near_set(m: Model, center: PosHex, n: int) -> Set<Id> {
    Set::new(
        |id: Id|
            m.picks(Pick::AgentsAt(center), id.0 as int) || exists|d: int|
                0 <= d < n && #[trigger] m.picks(
                    Pick::AgentsAt(neighbor(center, dir_of_int(d))),
                    id.0 as int,
                ),
    )
}

/// The first `n` entities of a list.
pub open spec fn first_ids(ids: Seq<Id>, n: int) -> Set<Id> {
    Set::new(|id: Id| exists|j: int| 0 <= j < n && #[trigger] ids[j] == id)
}

fn start_fire(state: &mut State, pos: PosHex) -> (ctx: ExecuteContext)
    ensures
        final(state)@.same_board(old(state)@),
        final(state)@ == old(state)@.fire_started(pos).0,
        ctx@ == old(state)@.fire_started(pos).1,
        ctx@.tame(),
        ctx@.safe_on(final(state)@),
        final(state)@ == (Model { next_obj_id: final(state)@.next_obj_id, ..old(state)@ }),
        old(state)@.agents_ok() ==> final(state)@.agents_ok(),
        touches_only(ctx@.instant, agents_at_set(old(state)@, pos)),
        distinct_ids(ctx@.instant),
{
    proof {
        reveal(Model::fire_started);
    }
    let vanish = PlannedAbility {
        rounds: Rounds(2),
        phase: Phase(state.player_id().0),
        ability: Ability::Vanish,
    };
    let mut context = ExecuteContext::new();
    if let Some(id) = state::obj_with_passive_ability_at(state, pos, PassiveAbility::Burn) {
        context.push_planned(id, one_planned(vanish));
        assert(context@ =~= old(state)@.fire_started(pos).1);
    } else {
        let effect_create = effect_create_object(&ObjType::from("fire"), pos);
        let id = state.alloc_id();
        assert(state@ =~= old(state)@.allocated());
        context.push_instant(id, one_effect(effect_create));
        context.push_planned(id, one_planned(vanish));
        let ghost base = context@;
        assert(base =~= (ContextModel {
            instant: seq![(id, seq![create_object_effect("fire"@, pos)])],
            planned: seq![(id, seq![vanish_plan(old(state)@.player_id)])],
            ..ContextModel::empty()
        }));
        proof {
            crate::battle::heroes::lemma_prototype_names_differ();
            assert(crate::battle::state::safety::strengthless(
                prototype_model("fire"@).push(ComponentModel::Pos(Pos(pos))).push(
                    ComponentModel::Meta("fire"@),
                ),
            ));
            assert(all_inert(base.instant[0].1));
            assert(touches_only(base.instant, Set::empty()));
            lemma_inert_safe(state@, base.instant);
        }
        let ids = state::agent_ids_at(state, pos);
        let mut i: usize = 0;
        while i < ids.len()
            invariant
                state@.same_board(old(state)@),
                i <= ids@.len(),
                ids@ == state@.agent_ids_on(pos),
                context@ == state@.burns_merged(base, ids@, i as int),
                context@.tame(),
                context@.safe_on(state@),
                touches_only(context@.instant, first_ids(ids@, i as int)),
                distinct_ids(context@.instant),
            decreases ids@.len() - i,
        {
            let burn = try_execute_passive_ability_burn(state, ids[i]);
            proof {
                state::lemma_ids_where(state@, Pick::AgentsAt(pos), ID_LIMIT as int);
                let target = ids@[i as int];
                let seen = first_ids(ids@, i as int);
                let own: Set<Id> = set![target];
                assert(!seen.contains(target)) by {
                    if seen.contains(target) {
                        let j = choose|j: int| 0 <= j < i && #[trigger] ids@[j] == target;
                        assert(ids@[j].0 < ids@[i as int].0);
                    }
                }
                assert(touches_only(burn@.instant, own));
                lemma_merged_safe(
                    state@,
                    context@.instant,
                    burn@.instant,
                    seen,
                    own,
                    burn@.instant.len() as int,
                );
                lemma_merged_distinct(
                    context@.instant,
                    burn@.instant,
                    burn@.instant.len() as int,
                );
                assert forall|id: Id| #[trigger] seen.union(own).contains(id) implies first_ids(
                    ids@,
                    i as int + 1,
                ).contains(id) by {
                    if own.contains(id) {
                        assert(ids@[i as int] == id);
                    } else {
                        let j = choose|j: int| 0 <= j < i && #[trigger] ids@[j] == id;
                        assert(ids@[j] == id);
                    }
                }
                lemma_touches_more(
                    merged_entries(context@.instant, burn@.instant, burn@.instant.len() as int),
                    seen.union(own),
                    first_ids(ids@, i as int + 1),
                );
            }
            context.merge_with(burn);
            i += 1;
        }
        proof {
            state::lemma_ids_where(state@, Pick::AgentsAt(pos), ID_LIMIT as int);
            assert forall|id: Id| #[trigger] first_ids(ids@, ids@.len() as int).contains(
                id,
            ) implies agents_at_set(old(state)@, pos).contains(id) by {
                let j = choose|j: int| 0 <= j < ids@.len() && #[trigger] ids@[j] == id;
                assert(state@.picks(Pick::AgentsAt(pos), ids@[j].0 as int));
            }
            lemma_touches_more(
                context@.instant,
                first_ids(ids@, ids@.len() as int),
                agents_at_set(old(state)@, pos),
            );
        }
    }
    context
}

fn create_poison_cloud(state: &mut State, pos: PosHex) -> (ctx: ExecuteContext)
    ensures
        final(state)@.same_board(old(state)@),
        final(state)@ == old(state)@.cloud_formed(pos).0,
        ctx@ == old(state)@.cloud_formed(pos).1,
        ctx@.tame(),
        ctx@.safe_on(final(state)@),
        final(state)@ == (Model { next_obj_id: final(state)@.next_obj_id, ..old(state)@ }),
        old(state)@.agents_ok() ==> final(state)@.agents_ok(),
        touches_only(ctx@.instant, Set::empty()),
{
    proof {
        reveal(Model::cloud_formed);
    }
    let vanish = PlannedAbility {
        rounds: Rounds(2),
        phase: Phase(state.player_id().0),
        ability: Ability::Vanish,
    };
    let mut context = ExecuteContext::new();
    if let Some(id) = state::obj_with_passive_ability_at(state, pos, PassiveAbility::Poison) {
        context.push_planned(id, one_planned(vanish));
        assert(context@ =~= old(state)@.cloud_formed(pos).1);
    } else {
        let effect_create = effect_create_object(&ObjType::from("poison_cloud"), pos);
        let id = state.alloc_id();
        assert(state@ =~= old(state)@.allocated());
        context.push_instant(id, one_effect(effect_create));
        context.push_planned(id, one_planned(vanish));
        let ghost base = context@;
        assert(base =~= (ContextModel {
            instant: seq![(id, seq![create_object_effect("poison_cloud"@, pos)])],
            planned: seq![(id, seq![vanish_plan(old(state)@.player_id)])],
            ..ContextModel::empty()
        }));
        proof {
            crate::battle::heroes::lemma_prototype_names_differ();
            assert(crate::battle::state::safety::strengthless(
                prototype_model("poison_cloud"@).push(ComponentModel::Pos(Pos(pos))).push(
                    ComponentModel::Meta("poison_cloud"@),
                ),
            ));
            assert(all_inert(base.instant[0].1));
            assert(touches_only(base.instant, Set::empty()));
            lemma_inert_safe(state@, base.instant);
        }
        let ids = state::agent_ids_at(state, pos);
        let mut i: usize = 0;
        while i < ids.len()
            invariant
                state@.same_board(old(state)@),
                i <= ids@.len(),
                ids@ == state@.agent_ids_on(pos),
                context@ == state@.poisons_merged(base, ids@, i as int),
                context@.tame(),
                context@.instant == base.instant,
            decreases ids@.len() - i,
        {
            let poison = try_execute_passive_ability_poison(state, ids[i]);
            assert(poison@.instant.len() == 0);
            context.merge_with(poison);
            i += 1;
        }
    }
    context
}

fn execute_use_ability_explode_fire(state: &mut State, command: &command::UseAbility) -> (ctx:
    ExecuteContext)
    ensures
        final(state)@.same_board(old(state)@),
        final(state)@ == old(state)@.explode_fire_ctx(*command).0,
        ctx@ == old(state)@.explode_fire_ctx(*command).1,
        ctx@.tame(),
        ctx@.safe_on(final(state)@),
        final(state)@ == (Model { next_obj_id: final(state)@.next_obj_id, ..old(state)@ }),
        old(state)@.agents_ok() ==> final(state)@.agents_ok(),
{
    proof {
        reveal(Model::explode_fire_ctx);
    }
    let mut context = ExecuteContext::new();
    context.push_instant(command.id, one_effect(Effect::Vanish));
    assert(context@ =~= (ContextModel {
        instant: seq![(command.id, seq![EffectModel::Vanish])],
        ..ContextModel::empty()
    }));
    let ghost start = state@;
    let fire = start_fire(state, command.pos);
    proof {
        assert(all_inert(context@.instant[0].1));
        assert(touches_only(context@.instant, Set::empty()));
        lemma_inert_safe(state@, context@.instant);
        lemma_merged_safe(
            state@,
            context@.instant,
            fire@.instant,
            Set::empty(),
            agents_at_set(start, command.pos),
            fire@.instant.len() as int,
        );
        assert forall|id: Id| #[trigger] Set::<Id>::empty().union(
            agents_at_set(start, command.pos),
        ).contains(id) implies agents_near_set(start, command.pos, 0).contains(id) by {}
        lemma_touches_more(
            merged_entries(context@.instant, fire@.instant, fire@.instant.len() as int),
            Set::<Id>::empty().union(agents_at_set(start, command.pos)),
            agents_near_set(start, command.pos, 0),
        );
    }
    context.merge_with(fire);
    let ghost first = old(state)@.fire_started(command.pos).0;
    let ghost base = context@;
    let mut n: i32 = 0;
    while n < 6
        invariant
            state@.same_board(old(state)@),
            0 <= n <= 6,
            state@ == first.fires_around(base, command.pos, n as int).0,
            context@ == first.fires_around(base, command.pos, n as int).1,
            context@.tame(),
            old(state)@.agents_ok() ==> state@.agents_ok(),
            state@ == (Model { next_obj_id: state@.next_obj_id, ..start }),
            context@.safe_on(state@),
            touches_only(context@.instant, agents_near_set(start, command.pos, n as int)),
        decreases 6 - n,
    {
        let dir = Dir::from_int(n);
        let pos = Dir::get_neighbor_pos(command.pos, dir);
        if state.map.is_inboard(pos) {
            let ghost before = state@;
            let fire = start_fire(state, pos);
            proof {
                let seen = agents_near_set(start, command.pos, n as int);
                let here = agents_at_set(before, pos);
                lemma_safe_by_strength(before, state@, context@.instant);
                assert forall|id: Id| !(#[trigger] seen.contains(id) && here.contains(id)) by {
                    if seen.contains(id) && here.contains(id) {
                        crate::map::lemma_neighbors_differ(command.pos, dir, dir);
                        if !start.picks(Pick::AgentsAt(command.pos), id.0 as int) {
                            let d = choose|d: int|
                                0 <= d < n && #[trigger] start.picks(
                                    Pick::AgentsAt(neighbor(command.pos, dir_of_int(d))),
                                    id.0 as int,
                                );
                            crate::map::lemma_neighbors_differ(command.pos, dir_of_int(d), dir);
                        }
                    }
                }
                lemma_merged_safe(
                    state@,
                    context@.instant,
                    fire@.instant,
                    seen,
                    here,
                    fire@.instant.len() as int,
                );
                assert forall|id: Id| #[trigger] seen.union(here).contains(
                    id,
                ) implies agents_near_set(start, command.pos, n as int + 1).contains(id) by {
                    if here.contains(id) {
                        assert(start.picks(
                            Pick::AgentsAt(neighbor(command.pos, dir_of_int(n as int))),
                            id.0 as int,
                        ));
                    } else if !start.picks(Pick::AgentsAt(command.pos), id.0 as int) {
                        let d = choose|d: int|
                            0 <= d < n && #[trigger] start.picks(
                                Pick::AgentsAt(neighbor(command.pos, dir_of_int(d))),
                                id.0 as int,
                            );
                        assert(0 <= d < n + 1);
                    }
                }
                lemma_touches_more(
                    merged_entries(context@.instant, fire@.instant, fire@.instant.len() as int),
                    seen.union(here),
                    agents_near_set(start, command.pos, n as int + 1),
                );
            }
            context.merge_with(fire);
        } else {
            proof {
                assert forall|id: Id| #[trigger] agents_near_set(
                    start,
                    command.pos,
                    n as int,
                ).contains(id) implies agents_near_set(start, command.pos, n as int + 1).contains(
                    id,
                ) by {
                    if !start.picks(Pick::AgentsAt(command.pos), id.0 as int) {
                        let d = choose|d: int|
                            0 <= d < n && #[trigger] start.picks(
                                Pick::AgentsAt(neighbor(command.pos, dir_of_int(d))),
                                id.0 as int,
                            );
                        assert(0 <= d < n + 1);
                    }
                }
                lemma_touches_more(
                    context@.instant,
                    agents_near_set(start, command.pos, n as int),
                    agents_near_set(start, command.pos, n as int + 1),
                );
            }
        }
        n += 1;
    }
    context
}

fn execute_use_ability_explode_poison(state: &mut State, command: &command::UseAbility) -> (ctx:
    ExecuteContext)
    ensures
        final(state)@.same_board(old(state)@),
        final(state)@ == old(state)@.explode_poison_ctx(*command).0,
        ctx@ == old(state)@.explode_poison_ctx(*command).1,
        ctx@.tame(),
        ctx@.safe_on(final(state)@),
        final(state)@ == (Model { next_obj_id: final(state)@.next_obj_id, ..old(state)@ }),
        old(state)@.agents_ok() ==> final(state)@.agents_ok(),
{
    proof {
        reveal(Model::explode_poison_ctx);
    }
    let mut context = ExecuteContext::new();
    context.push_instant(command.id, one_effect(Effect::Vanish));
    assert(context@ =~= (ContextModel {
        instant: seq![(command.id, seq![EffectModel::Vanish])],
        ..ContextModel::empty()
    }));
    let ghost start = state@;
    let cloud = create_poison_cloud(state, command.pos);
    proof {
        assert(all_inert(context@.instant[0].1));
        assert(touches_only(context@.instant, Set::empty()));
        lemma_inert_safe(state@, context@.instant);
        lemma_merged_safe(
            state@,
            context@.instant,
            cloud@.instant,
            Set::empty(),
            Set::empty(),
            cloud@.instant.len() as int,
        );
        lemma_touches_more(
            merged_entries(context@.instant, cloud@.instant, cloud@.instant.len() as int),
            Set::<Id>::empty().union(Set::empty()),
            Set::empty(),
        );
    }
    context.merge_with(cloud);
    let ghost first = old(state)@.cloud_formed(command.pos).0;
    let ghost base = context@;
    let mut n: i32 = 0;
    while n < 6
        invariant
            state@.same_board(old(state)@),
            0 <= n <= 6,
            state@ == first.clouds_around(base, command.pos, n as int).0,
            context@ == first.clouds_around(base, command.pos, n as int).1,
            context@.tame(),
            old(state)@.agents_ok() ==> state@.agents_ok(),
            state@ == (Model { next_obj_id: state@.next_obj_id, ..start }),
            context@.safe_on(state@),
            touches_only(context@.instant, Set::empty()),
        decreases 6 - n,
    {
        let dir = Dir::from_int(n);
        let pos = Dir::get_neighbor_pos(command.pos, dir);
        if state.map.is_inboard(pos) {
            let ghost before = state@;
            let cloud = create_poison_cloud(state, pos);
            proof {
                lemma_safe_by_strength(before, state@, context@.instant);
                lemma_merged_safe(
                    state@,
                    context@.instant,
                    cloud@.instant,
                    Set::empty(),
                    Set::empty(),
                    cloud@.instant.len() as int,
                );
                lemma_touches_more(
                    merged_entries(context@.instant, cloud@.instant, cloud@.instant.len() as int),
                    Set::<Id>::empty().union(Set::empty()),
                    Set::empty(),
                );
            }
            context.merge_with(cloud);
        }
        n += 1;
    }
    context
}

fn execute_use_ability_summon(
    state: &mut State,
    command: &command::UseAbility,
    rng: &mut SimpleRng,
) -> (ctx: ExecuteContext)
    ensures
        final(state)@.same_board(old(state)@),
        final(state)@ == old(state)@.summon_ctx(*command, *old(rng)).0,
        *final(rng) == old(state)@.summon_ctx(*command, *old(rng)).1,
        ctx@ == old(state)@.summon_ctx(*command, *old(rng)).2,
        ctx@.tame(),
        ctx@.safe_on(final(state)@),
        final(state)@ == (Model { next_obj_id: final(state)@.next_obj_id, ..old(state)@ }),
        old(state)@.agents_ok() ==> final(state)@.agents_ok(),
{
    proof {
        reveal(Model::summon_ctx);
    }
    let mut context = ExecuteContext::new();
    let max_summoned_count: u32 = match state.parts.summoner.get(command.id) {
        Some(summoner) => summoner.count,
        None => return context,
    };
    let positions = state::free_neighbor_positions(state, command.pos, max_summoned_count as usize);
    if positions.len() == 0 {
        return context;
    }
    let pos = positions[0];
    let i: i32 = rng.gen_range(0, 3);
    let prototype = if i == 0 {
        ObjType::from("imp")
    } else if i == 1 {
        ObjType::from("toxic_imp")
    } else {
        ObjType::from("imp_bomber")
    };
    let effect_create = effect_create_agent(&prototype, state.player_id(), pos);
    let id = state.alloc_id();
    assert(state@ =~= old(state)@.allocated());
    let mut effects = one_effect(effect_create);
    effects.push(Effect::Stun);
    assert(effects@[0]@ == create_agent_effect(prototype@, old(state)@.player_id, pos));
    assert(effects@[1]@ == EffectModel::Stun);
    assert(effects_model(effects@) =~= seq![
        create_agent_effect(prototype@, old(state)@.player_id, pos),
        EffectModel::Stun,
    ]);
    context.push_instant(id, effects);
    context.push_moved(id);
    assert(context@ =~= old(state)@.summon_ctx(*command, *old(rng)).2);
    context
}

fn try_attack(state: &State, attacker_id: Id, target_id: Id, rng: &mut SimpleRng) -> (r: Option<
    Effect,
>)
    requires
        state@.can_resolve(attacker_id, target_id),
    ensures
        (match r {
            Some(e) => Some(e@),
            None => None,
        }) == state@.try_attack(attacker_id, target_id, *old(rng)).0,
        *final(rng) == state@.try_attack(attacker_id, target_id, *old(rng)).1,
        r matches Some(e) ==> (e@ matches EffectModel::Wound(w) ==> w.damage.0 >= 0) && !(e@
            is Create),
        r matches Some(e) ==> crate::battle::state::safety::effect_fits(state@, target_id, e@) && !(
        e@ is Heal),
{
    proof {
        reveal(Model::try_attack);
    }
    let agent_attacker = match state.parts.agent.get(attacker_id) {
        Some(agent) => agent,
        None => return None,
    };
    let attacker_strength = match state.parts.strength.get(attacker_id) {
        Some(strength) => strength,
        None => return None,
    };
    let attacker_pos = match state.parts.pos.get(attacker_id) {
        Some(pos) => Some(pos.0),
        None => return None,
    };
    let target_strength = match state.parts.strength.get(target_id) {
        Some(strength) => strength.strength,
        None => return None,
    };
    let lost: i64 = attacker_strength.base_strength.0 as i64 - attacker_strength.strength.0 as i64;
    let attacker_wounds: i64 = if lost > 2 {
        2
    } else if lost < 0 {
        0
    } else {
        lost
    };
    let k: i64 = agent_attacker.attack_accuracy.0 as i64 - attacker_wounds;
    let upper: i64 = k + if target_strength.0 > 2 {
        1
    } else {
        2
    };
    if upper <= 0 || upper > 0x7fff_ffffi64 {
        return None;
    }
    let r: i32 = rng.gen_range(0, upper as i32);
    let damage_raw: i64 = k - r as i64;
    let capped: i64 = if damage_raw > agent_attacker.attack_strength.0 as i64 {
        agent_attacker.attack_strength.0 as i64
    } else {
        damage_raw
    };
    let damage: i32 = if capped < 0 {
        0
    } else {
        capped as i32
    };
    if damage <= 0 {
        // A hit without damage is a total miss.
        return None;
    }
    let effect = if target_strength.0 > damage {
        Effect::Wound(effect::Wound { damage: Strength(damage), attacker_pos })
    } else {
        Effect::Kill(effect::Kill { attacker_pos })
    };
    Some(effect)
}

fn try_execute_passive_abilities_on_attack(state: &State, attacker_id: Id, target_id: Id) -> (ctx:
    ExecuteContext)
    ensures
        ctx@ == state@.on_attack_ctx(attacker_id, target_id),
        ctx@.tame(),
        ctx@.safe_on(state@),
{
    let mut context = ExecuteContext::new();
    if let Some(passive_abilities) = state.parts.passive_abilities.get(attacker_id) {
        let mut i: usize = 0;
        while i < passive_abilities.0.len()
            invariant
                i <= passive_abilities.0@.len(),
                passive_abilities.0@ == state@.passive_abilities[attacker_id.0 as int],
                context@ == (ContextModel {
                    timed: state@.on_attack_timed(passive_abilities.0@, target_id, i as int),
                    ..ContextModel::empty()
                }),
            decreases passive_abilities.0@.len() - i,
        {
            if let PassiveAbility::PoisonAttack = passive_abilities.0[i] {
                if let Some(owner) = state.parts.belongs_to.get(target_id) {
                    let effect = Timed {
                        duration: Duration::Rounds(Rounds(2)),
                        phase: Phase(owner.0.0),
                        effect: Lasting::Poison,
                    };
                    context.push_timed(target_id, one_timed(effect));
                }
            }
            i += 1;
        }
    }
    context
}

/// The least and the greatest damage an attacker can deal before the
/// draw: its accuracy less its wounds, counted up to three, and that
/// plus the strength of its attack.
pub fn hit_chance(state: &State, attacker_id: Id, _target_id: Id) -> (r: (i32, i32))
    requires
        state.parts.agent.has(attacker_id),
        state.parts.strength.has(attacker_id),
        -0x1000_0000 <= state.parts.agent.at(attacker_id).attack_accuracy.0 <= 0x1000_0000,
        -0x1000_0000 <= state.parts.agent.at(attacker_id).attack_strength.0 <= 0x1000_0000,
        -0x1000_0000 <= state.parts.strength.at(attacker_id).base_strength.0 <= 0x1000_0000,
        -0x1000_0000 <= state.parts.strength.at(attacker_id).strength.0 <= 0x1000_0000,
    ensures
        r.0 == state@.agent[attacker_id.0 as int].attack_accuracy.0 - (if state@.strength[attacker_id.0 as int].base_strength.0
            - state@.strength[attacker_id.0 as int].strength.0 > 3 {
            3
        } else {
            state@.strength[attacker_id.0 as int].base_strength.0
                - state@.strength[attacker_id.0 as int].strength.0
        }),
        r.1 == r.0 + state@.agent[attacker_id.0 as int].attack_strength.0,
{
    let agent_attacker = state.agent(&attacker_id);
    let attack_strength = state.strength(&attacker_id);
    let lost: i32 = attack_strength.base_strength.0 - attack_strength.strength.0;
    let attacker_wounds: i32 = if lost > 3 {
        3
    } else {
        lost
    };
    let k_min: i32 = agent_attacker.attack_accuracy.0 - attacker_wounds;
    let k_max: i32 = k_min + agent_attacker.attack_strength.0;
    (k_min, k_max)
}

/// The event of a passive ability of the entity `id`, with what it
/// does; plans are not part of it.
pub open spec fn passive_event(id: Id, pos: PosHex, ability: PassiveAbility, ctx: ContextModel)
    -> EventModel {
    EventModel {
        active: ActiveModel::UsePassiveAbility(event::UsePassiveAbility { pos, id, ability }),
        actor_ids: ctx.actor_ids,
        instant: ctx.instant,
        timed: ctx.timed,
        planned: Seq::empty(),
    }
}

/// The event of an attack, with what it does.
pub open spec fn attack_event(attack: event::Attack, ctx: ContextModel) -> EventModel {
    EventModel {
        active: ActiveModel::Attack(attack),
        actor_ids: seq![attack.attacker_id],
        instant: ctx.instant,
        timed: ctx.timed,
        planned: ctx.planned,
    }
}

/// The event of the use of an ability, with what it does.
pub open spec fn ability_event(cmd: command::UseAbility, ctx: ContextModel) -> EventModel {
    EventModel {
        active: ActiveModel::UseAbility(
            event::UseAbility { id: cmd.id, pos: cmd.pos, ability: cmd.ability },
        ),
        actor_ids: ctx.actor_ids.push(cmd.id),
        instant: ctx.instant,
        timed: ctx.timed,
        planned: ctx.planned,
    }
}

/// The event of a move of one step to a tile.
pub open spec fn move_event(id: Id, to: PosHex) -> EventModel {
    EventModel {
        active: ActiveModel::MoveTo(id, to, 1),
        actor_ids: seq![id],
        instant: Seq::empty(),
        timed: Seq::empty(),
        planned: Seq::empty(),
    }
}

/// The event of a round of a lasting effect on an entity.
pub open spec fn tick_event(id: Id, effect: Lasting, effects: Seq<EffectModel>) -> EventModel {
    EventModel {
        active: ActiveModel::EffectTick(event::EffectTick { id, effect }),
        actor_ids: seq![id],
        instant: seq![(id, effects)],
        timed: Seq::empty(),
        planned: Seq::empty(),
    }
}

/// The event of the end of a lasting effect on an entity.
pub open spec fn effect_end_event(id: Id, effect: Lasting) -> EventModel {
    EventModel {
        active: ActiveModel::EffectEnd(event::EffectEnd { id, effect }),
        actor_ids: seq![id],
        instant: Seq::empty(),
        timed: Seq::empty(),
        planned: Seq::empty(),
    }
}

/// The event of the end of the battle.
pub open spec fn end_battle_event(result: crate::battle::model::ResultModel) -> EventModel {
    EventModel {
        active: ActiveModel::EndBattle(result),
        actor_ids: Seq::empty(),
        instant: Seq::empty(),
        timed: Seq::empty(),
        planned: Seq::empty(),
    }
}

/// The components of an entity that a command creates: those of its
/// kind, its owner if it has one, its tile and the name of its kind.
pub open spec fn created_kit(owner: Option<PlayerId>, pos: PosHex, name: Seq<char>) -> Seq<
    ComponentModel,
> {
    let kit = prototype_model(name);
    let owned = match owner {
        Some(player) => kit.push(ComponentModel::BelongsTo(BelongsTo(player))),
        None => kit,
    };
    owned.push(ComponentModel::Pos(Pos(pos))).push(ComponentModel::Meta(name))
}

/// The event of the creation of an entity by a command.
pub open spec fn create_event(id: Id, owner: Option<PlayerId>, pos: PosHex, name: Seq<char>)
    -> EventModel {
    EventModel {
        active: ActiveModel::Create,
        actor_ids: seq![id],
        instant: seq![
            (
                id,
                seq![
                    EffectModel::Create(
                        CreateModel {
                            pos,
                            prototype: name,
                            components: created_kit(owner, pos, name),
                            is_teleported: false,
                        },
                    ),
                ],
            ),
        ],
        timed: Seq::empty(),
        planned: Seq::empty(),
    }
}

impl Model {
    /// The player who moves after the one who moves now; after the last
    /// player, the first.
    pub open spec fn following_player(self) -> PlayerId {
        if self.player_id.0 + 1 < self.players_count {
            PlayerId((self.player_id.0 + 1) as i32)
        } else {
            PlayerId(0)
        }
    }

    /// The passive abilities of every entity that has any, entity by
    /// entity in ascending order.
    pub open spec fn passive_snap(self) -> Seq<(Id, Seq<PassiveAbility>)> {
        let ids = state::ids_where(self, Pick::Passive, ID_LIMIT as int);
        Seq::new(ids.len(), |i: int| (ids[i], self.passive_abilities[ids[i].0 as int]))
    }

    /// The lasting effects of every entity that has a list of them,
    /// entity by entity in ascending order.
    pub open spec fn effects_snap(self) -> Seq<(Id, Seq<Timed>)> {
        let ids = state::ids_where(self, Pick::Affected, ID_LIMIT as int);
        Seq::new(ids.len(), |i: int| (ids[i], self.effects[ids[i].0 as int]))
    }

    /// What one passive ability of the entity `id` on the tile does to
    /// the target on that tile: spikes and fire deal a point of damage,
    /// a poison cloud poisons, and the other abilities do nothing here.
    #[verifier::opaque]
    pub open spec fn passive_step(self, id: Id, pos: PosHex, ability: PassiveAbility, target: Id)
        -> Model {
        match ability {
            PassiveAbility::SpikeTrap | PassiveAbility::Burn => self.applied(
                passive_event(id, pos, ability, self.burn_ctx(target)),
            ),
            PassiveAbility::Poison => if self.poison_ctx(target).timed.len() > 0 {
                self.applied(passive_event(id, pos, ability, self.poison_ctx(target)))
            } else {
                self
            },
            _ => self,
        }
    }

    /// What the first `n` passive abilities of a list do to the target.
    pub open spec fn passive_row(
        self,
        id: Id,
        abilities: Seq<PassiveAbility>,
        target: Id,
        pos: PosHex,
        n: int,
    ) -> Model
        decreases n,
    {
        if n <= 0 {
            self
        } else {
            self.passive_row(id, abilities, target, pos, n - 1).passive_step(
                id,
                pos,
                abilities[n - 1],
                target,
            )
        }
    }

    /// What the passive abilities of the first `n` entities of a list do
    /// to the target: those of each entity that still stands on the
    /// target's tile when its turn in the list comes.
    pub open spec fn passive_rows(
        self,
        rows: Seq<(Id, Seq<PassiveAbility>)>,
        target: Id,
        pos: PosHex,
        n: int,
    ) -> Model
        decreases n,
    {
        if n <= 0 {
            self
        } else {
            let m = self.passive_rows(rows, target, pos, n - 1);
            let id = rows[n - 1].0;
            if m.pos.contains_key(id.0 as int) && m.pos[id.0 as int].0 == pos {
                m.passive_row(id, rows[n - 1].1, target, pos, rows[n - 1].1.len() as int)
            } else {
                m
            }
        }
    }

    /// The passive abilities on the tile of the target work on it. The
    /// target must exist and stand on a tile, else nothing happens.
    #[verifier::opaque]
    pub open spec fn passive_tick(self, target: Id) -> Model {
        if self.blocker.contains_key(target.0 as int) && self.pos.contains_key(target.0 as int) {
            self.passive_rows(
                self.passive_snap(),
                target,
                self.pos[target.0 as int].0,
                self.passive_snap().len() as int,
            )
        } else {
            self
        }
    }

    /// The passive abilities work on the first `n` entities of a list,
    /// one after the other.
    pub open spec fn ticks(self, ids: Seq<Id>, n: int) -> Model
        decreases n,
    {
        if n <= 0 {
            self
        } else {
            self.ticks(ids, n - 1).passive_tick(ids[n - 1])
        }
    }

    /// What an attack works out once the draw is made, and how it ends.
    #[verifier::opaque]
    pub open spec fn attack_outcome(self, attacker: Id, target: Id, hit: Option<EffectModel>) -> (
        ContextModel,
        AttackStatus,
    ) {
        match hit {
            Some(EffectModel::Kill(k)) => (
                ContextModel {
                    instant: seq![(target, seq![EffectModel::Kill(k)])],
                    ..ContextModel::empty()
                },
                AttackStatus::Kill,
            ),
            Some(e) => (
                (ContextModel { instant: seq![(target, seq![e])], ..ContextModel::empty() }).merged(
                    self.on_attack_ctx(attacker, target),
                ),
                AttackStatus::Hit,
            ),
            None => (
                if self.pos.contains_key(attacker.0 as int) {
                    ContextModel {
                        instant: seq![
                            (
                                target,
                                seq![
                                    EffectModel::Dodge(
                                        effect::Dodge { attacker_pos: self.pos[attacker.0 as int].0 },
                                    ),
                                ],
                            ),
                        ],
                        ..ContextModel::empty()
                    }
                } else {
                    ContextModel::empty()
                },
                AttackStatus::Miss,
            ),
        }
    }

    /// One attack: the draw, what follows from it, and the event that
    /// applies it and makes the attacker pay. An attacker that is no
    /// agent does not attack at all; no command and no answer to an
    /// attack comes from one.
    #[verifier::opaque]
    pub open spec fn attack_internal(self, attacker: Id, target: Id, mode: AttackMode, rng: SimpleRng)
        -> (Model, SimpleRng, AttackStatus) {
        if !self.agent.contains_key(attacker.0 as int) {
            (self, rng, AttackStatus::Miss)
        } else {
            let drawn = self.try_attack(attacker, target, rng);
            let outcome = self.attack_outcome(attacker, target, drawn.0);
            let attack = event::Attack {
                attacker_id: attacker,
                target_id: target,
                mode,
                weapon_type: self.agent[attacker.0 as int].weapon_type,
            };
            (self.applied(attack_event(attack, outcome.0)), drawn.1, outcome.1)
        }
    }

    /// Whether the agent answers an attack on the target: it has an
    /// attack or a joker left, an owner, stands within its attack
    /// distance of the target, and its attack can be resolved.
    pub open spec fn reacts(self, agent: Id, target: Id) -> bool {
        &&& self.agent.contains_key(agent.0 as int)
        &&& self.agent[agent.0 as int].can_attack_now()
        &&& self.can_resolve(agent, target)
        &&& self.belongs_to.contains_key(agent.0 as int)
        &&& self.pos.contains_key(agent.0 as int)
        &&& self.pos.contains_key(target.0 as int)
        &&& dist(self.pos[agent.0 as int].0, self.pos[target.0 as int].0)
            <= self.agent[agent.0 as int].attack_distance
    }

    /// The first `n` agents of a list answer an attack, one after the
    /// other, until one of them kills the target. Each one that answers
    /// does so in the name of its owner.
    pub open spec fn reactions(self, ids: Seq<Id>, target: Id, rng: SimpleRng, n: int) -> (
        Model,
        SimpleRng,
        AttackStatus,
    )
        decreases n,
    {
        if n <= 0 {
            (self, rng, AttackStatus::Miss)
        } else {
            let before = self.reactions(ids, target, rng, n - 1);
            let agent = ids[n - 1];
            if before.2 == AttackStatus::Kill || !before.0.reacts(agent, target) {
                before
            } else {
                let m = Model { player_id: before.0.belongs_to[agent.0 as int].0, ..before.0 };
                let after = m.attack_internal(agent, target, AttackMode::Reactive, before.1);
                (
                    after.0,
                    after.1,
                    if after.2 != AttackStatus::Miss {
                        after.2
                    } else {
                        before.2
                    },
                )
            }
        }
    }

    /// The agents of the other players answer an attack on the target,
    /// in ascending order of their identifiers; then the owner of the
    /// target is the player who moves. A target without an owner is not
    /// answered for.
    #[verifier::opaque]
    pub open spec fn reaction_attacks(self, target: Id, rng: SimpleRng) -> (
        Model,
        SimpleRng,
        AttackStatus,
    ) {
        if !self.belongs_to.contains_key(target.0 as int) {
            (self, rng, AttackStatus::Miss)
        } else {
            let owner = self.belongs_to[target.0 as int].0;
            let ids = self.enemy_ids_of(owner);
            let after = self.reactions(ids, target, rng, ids.len() as int);
            (Model { player_id: owner, ..after.0 }, after.1, after.2)
        }
    }

    /// An attack command: the attack, and the answers to it on the attacker.
    #[verifier::opaque]
    pub open spec fn attack(self, cmd: command::Attack, rng: SimpleRng) -> (Model, SimpleRng) {
        let first = self.attack_internal(cmd.attacker_id, cmd.target_id, AttackMode::Active, rng);
        let answers = first.0.reaction_attacks(cmd.attacker_id, first.1);
        (answers.0, answers.1)
    }

    /// A move command: the entity moves to the end of the path at the
    /// cost of one move, and the passive abilities there work on it.
    #[verifier::opaque]
    pub open spec fn move_to(self, id: Id, to: PosHex) -> Model {
        self.applied(move_event(id, to)).passive_tick(id)
    }

    /// A create command: an entity of the kind appears under the next
    /// identifier.
    #[verifier::opaque]
    pub open spec fn create(self, owner: Option<PlayerId>, pos: PosHex, name: Seq<char>) -> Model {
        self.allocated().applied(create_event(self.next_obj_id, owner, pos, name))
    }

    /// The use of an ability: what it works out is applied, and the
    /// passive abilities work on every entity it has moved.
    #[verifier::opaque]
    pub open spec fn use_ability(self, cmd: command::UseAbility, rng: SimpleRng) -> (
        Model,
        SimpleRng,
    ) {
        let worked = self.ability_ctx(cmd, rng);
        let applied = worked.0.applied(ability_event(cmd, worked.2));
        (applied.ticks(worked.2.moved, worked.2.moved.len() as int), worked.1)
    }

    /// The first `n` plans of a list are carried out by the entity on
    /// its tile: each plan that has no round left to run, as long as
    /// the entity exists.
    pub open spec fn activations(
        self,
        id: Id,
        pos: PosHex,
        plans: Seq<PlannedAbility>,
        rng: SimpleRng,
        n: int,
    ) -> (Model, SimpleRng)
        decreases n,
    {
        if n <= 0 {
            (self, rng)
        } else {
            let before = self.activations(id, pos, plans, rng, n - 1);
            if plans[n - 1].rounds.0 <= 0 && before.0.blocker.contains_key(id.0 as int) {
                before.0.use_ability(
                    command::UseAbility { ability: plans[n - 1].ability, id, pos },
                    before.1,
                )
            } else {
                before
            }
        }
    }

    /// The first `n` entities of a list carry out their plans, one
    /// after the other; an entity that stands nowhere, or has no plans
    /// any more, carries out none.
    pub open spec fn plans_run(self, ids: Seq<Id>, rng: SimpleRng, n: int) -> (Model, SimpleRng)
        decreases n,
    {
        if n <= 0 {
            (self, rng)
        } else {
            let before = self.plans_run(ids, rng, n - 1);
            let id = ids[n - 1];
            if before.0.pos.contains_key(id.0 as int) && before.0.schedule.contains_key(id.0 as int) {
                before.0.activations(
                    id,
                    before.0.pos[id.0 as int].0,
                    before.0.schedule[id.0 as int],
                    before.1,
                    before.0.schedule[id.0 as int].len() as int,
                )
            } else {
                before
            }
        }
    }

    /// Every entity that has plans carries out those that are due, in
    /// ascending order of the identifiers.
    #[verifier::opaque]
    pub open spec fn planned_abilities(self, rng: SimpleRng) -> (Model, SimpleRng) {
        let ids = state::ids_where(self, Pick::Planning, ID_LIMIT as int);
        self.plans_run(ids, rng, ids.len() as int)
    }

    /// What a round of a lasting effect does to its bearer: poison
    /// deals a point of damage to a bearer with more than one point of
    /// strength, bloodlust gives jokers, a stun does nothing by itself.
    pub open spec fn tick_effects(self, id: Id, effect: Lasting) -> Seq<EffectModel> {
        match effect {
            Lasting::Poison => if self.strength.contains_key(id.0 as int)
                && self.strength[id.0 as int].strength.0 > 1 {
                seq![self.wound_or_kill(id, 1)]
            } else {
                Seq::empty()
            },
            Lasting::Bloodlust => seq![EffectModel::Bloodlust],
            Lasting::Stun => Seq::empty(),
        }
    }

    /// The first `n` lasting effects of a list have their round on the
    /// entity, those of the phase, until the entity is gone. An effect
    /// that is over after its round ends with it and leaves the entity:
    /// one whose rounds have run out, and poison on a bearer that is
    /// down to one point of strength. The second result says whether
    /// the entity is gone.
    pub open spec fn effect_row(self, id: Id, effects: Seq<Timed>, phase: i32, n: int) -> (
        Model,
        bool,
    )
        decreases n,
    {
        if n <= 0 {
            (self, false)
        } else {
            let before = self.effect_row(id, effects, phase, n - 1);
            if before.1 || effects[n - 1].phase.0 != phase {
                before
            } else {
                let m = before.0.applied(
                    tick_event(
                        id,
                        effects[n - 1].effect,
                        before.0.tick_effects(id, effects[n - 1].effect),
                    ),
                );
                if !m.blocker.contains_key(id.0 as int) {
                    (m, true)
                } else if crate::battle::state::apply::over(effects[n - 1], m.is_weak(id)) {
                    (m.applied(effect_end_event(id, effects[n - 1].effect)), false)
                } else {
                    (m, false)
                }
            }
        }
    }

    /// The lasting effects of the first `n` entities of a list have
    /// their round.
    pub open spec fn effect_rows(self, rows: Seq<(Id, Seq<Timed>)>, phase: i32, n: int) -> Model
        decreases n,
    {
        if n <= 0 {
            self
        } else {
            self.effect_rows(rows, phase, n - 1).effect_row(
                rows[n - 1].0,
                rows[n - 1].1,
                phase,
                rows[n - 1].1.len() as int,
            ).0
        }
    }

    /// Every lasting effect of the phase of the player who moves has
    /// its round, entity by entity in ascending order.
    #[verifier::opaque]
    pub open spec fn effects_run(self) -> Model {
        self.effect_rows(self.effects_snap(), self.player_id.0, self.effects_snap().len() as int)
    }

    /// The end of a turn on the first two levels: the agents of the
    /// player who ends it get their reactive attacks, the next player
    /// moves, that player's agents start their turn and their abilities
    /// let a round pass.
    #[verifier::opaque]
    pub open spec fn end_turn_simple(self) -> Model {
        let next = self.following_player();
        let m1 = self.reattack(self.agent_ids_of(self.player_id));
        let m2 = Model { player_id: next, ..m1 };
        m2.status_reset(m1.agent_ids_of(next)).cooldowns_updated(next)
    }

    /// The end of a turn on the third level: as on the first two, and
    /// the plans that are due are dropped and those of the new phase tick.
    #[verifier::opaque]
    pub open spec fn end_turn_planned(self) -> Model {
        let next = self.following_player();
        let m1 = self.reattack(self.agent_ids_of(self.player_id)).planned_pruned();
        let m2 = Model { player_id: next, ..m1 };
        m2.status_reset(m1.agent_ids_of(next)).cooldowns_updated(next).planned_ticked()
    }

    /// The bookkeeping of the end of a turn from the fourth level on:
    /// as on the third, but stunned agents get no reactive attacks and
    /// outdated lasting effects are dropped.
    #[verifier::opaque]
    pub open spec fn end_turn_kept(self) -> Model {
        let next = self.following_player();
        let m1 = self.reattack_with_stun(
            self.agent_ids_of(self.player_id),
        ).planned_pruned().lasting_pruned();
        let m2 = Model { player_id: next, ..m1 };
        m2.status_reset(m1.agent_ids_of(next)).cooldowns_updated(next).planned_ticked()
    }

    /// The start of a round: the passive abilities work on the agents
    /// of the player who moves, and the lasting effects have their round.
    #[verifier::opaque]
    pub open spec fn round_begun(self) -> Model {
        self.ticks(
            self.agent_ids_of(self.player_id),
            self.agent_ids_of(self.player_id).len() as int,
        ).effects_run()
    }

    /// The end of a turn from the fourth level on: the bookkeeping, and
    /// the start of a round when it is the first player who moves again.
    #[verifier::opaque]
    pub open spec fn end_turn_full(self) -> Model {
        let kept = self.end_turn_kept();
        if kept.player_id.0 == 0 {
            kept.round_begun()
        } else {
            kept
        }
    }

    /// The end of a turn, as the level of the battle has it.
    #[verifier::opaque]
    pub open spec fn end_turn(self) -> Model {
        match self.level {
            crate::game::Level::Level0 | crate::game::Level::Level1 => self.end_turn_simple(),
            crate::game::Level::Level2 => self.end_turn_planned(),
            _ => self.end_turn_full(),
        }
    }

    /// The battle is decided for each of the first `n` players who has
    /// no opponent left; the survivors on record are the agents of the
    /// first player. A later decision replaces an earlier one.
    pub open spec fn results(self, n: int) -> Model
        decreases n,
    {
        if n <= 0 {
            self
        } else {
            let m = self.results(n - 1);
            let player = PlayerId((n - 1) as i32);
            if m.enemy_ids_of(player).len() == 0 {
                m.applied(
                    end_battle_event(
                        crate::battle::model::ResultModel {
                            winner_id: player,
                            survivor_types: state::kinds_of(
                                m,
                                m.agent_ids_of(PlayerId(0)),
                                m.agent_ids_of(PlayerId(0)).len() as int,
                            ),
                            level: m.level,
                        },
                    ),
                )
            } else {
                m
            }
        }
    }

    /// What a command does once it is accepted: its own step, then the
    /// plans that are due, then, unless it created an entity, the
    /// decision of the battle.
    #[verifier::opaque]
    pub open spec fn run(self, cmd: CommandModel, rng: SimpleRng) -> (Model, SimpleRng) {
        let stepped = match cmd {
            CommandModel::Create(owner, pos, name) => (self.create(owner, pos, name), rng),
            CommandModel::MoveTo(id, path) => (self.move_to(id, path[path.len() - 1]), rng),
            CommandModel::Attack(c) => self.attack(c, rng),
            CommandModel::EndTurn => (self.end_turn(), rng),
            CommandModel::UseAbility(c) => self.use_ability(c, rng),
        };
        let planned = stepped.0.planned_abilities(stepped.1);
        if cmd is Create {
            planned
        } else {
            (planned.0.results(planned.0.players_count as int), planned.1)
        }
    }

    /// Whether the command is refused. Once the battle has a result,
    /// every command is refused because the battle has ended, whoever
    /// moves. Before that, the first player's commands are checked
    /// before they are carried out, and a command of any player is
    /// refused where its actor lacks what it takes to carry it out: see
    /// `carry_rule`.
    #[verifier::opaque]
    pub open spec fn refusal(self, cmd: CommandModel) -> Option<crate::battle::check::Error> {
        if self.battle_result.is_some() {
            Some(Error::BattleEnded)
        } else {
            let verdict = if self.player_id.0 == 0 {
                crate::battle::check::checked(self, cmd)
            } else {
                pass()
            };
            match verdict {
                Err(e) => Some(e),
                Ok(_) => match self.carry_rule(cmd) {
                    Err(e) => Some(e),
                    Ok(_) => None,
                },
            }
        }
    }
}

fn can_resolve_attack(state: &State, attacker_id: Id, target_id: Id) -> (r: bool)
    ensures
        r == state@.can_resolve(attacker_id, target_id),
{
    let agent_attacker = match state.parts.agent.get(attacker_id) {
        Some(agent) => agent,
        None => return false,
    };
    let attacker_strength = match state.parts.strength.get(attacker_id) {
        Some(strength) => strength,
        None => return false,
    };
    if state.parts.pos.get(attacker_id).is_none() {
        return false;
    }
    let target_strength = match state.parts.strength.get(target_id) {
        Some(strength) => strength.strength,
        None => return false,
    };
    let lost: i64 = attacker_strength.base_strength.0 as i64 - attacker_strength.strength.0 as i64;
    let attacker_wounds: i64 = if lost > 2 {
        2
    } else if lost < 0 {
        0
    } else {
        lost
    };
    let k: i64 = agent_attacker.attack_accuracy.0 as i64 - attacker_wounds;
    let upper: i64 = k + if target_strength.0 > 2 {
        1
    } else {
        2
    };
    0 < upper && upper <= 0x7fff_ffffi64
}

/// Says whether the actor of a command has what it takes to carry the
/// command out: see `Model::carry_rule`.
pub fn check_can_carry(state: &State, command: &Command) -> (r: Result<(), Error>)
    ensures
        r == state@.carry_rule(command@),
{
    match command {
        Command::MoveTo(c) => {
            let agent = match state.parts.agent.get(c.id) {
                Some(agent) => agent,
                None => return Err(Error::BadActorId),
            };
            if state.parts.pos.get(c.id).is_none() {
                return Err(Error::BadActorId);
            }
            if !(agent.moves.0 > 0 || agent.jokers.0 > 0) {
                return Err(Error::NotEnoughMoves);
            }
            Ok(())
        },
        Command::Attack(c) => {
            let agent = match state.parts.agent.get(c.attacker_id) {
                Some(agent) => agent,
                None => return Err(Error::BadActorId),
            };
            if !(agent.attacks.0 > 0 || agent.jokers.0 > 0) {
                return Err(Error::NotEnoughAttacks);
            }
            if state.parts.strength.get(c.target_id).is_none() {
                return Err(Error::BadTargetType);
            }
            if !can_resolve_attack(state, c.attacker_id, c.target_id) {
                return Err(Error::BadActorType);
            }
            Ok(())
        },
        Command::UseAbility(c) => {
            if let Some(agent) = state.parts.agent.get(c.id) {
                if !(agent.attacks.0 > 0 || agent.jokers.0 > 0) {
                    return Err(Error::NotEnoughAttacks);
                }
            }
            Ok(())
        },
        _ => Ok(()),
    }
}

fn do_event(state: &mut State, event: &Event)
    requires
        event@.wounds_ok(),
        payable(old(state)@, event@.active),
    ensures
        final(state)@.same_board(old(state)@),
        final(state)@ == old(state)@.applied(event@),
        old(state)@.agents_ok() && event@.kits_ok() ==> final(state)@.agents_ok(),
        old(state)@.strengths_ok() && entries_safe(old(state)@, event@.instant) ==> final(state)@.strengths_ok(),
{
    state.apply(event);
}

/// An event whose effects are those of a tame context can be applied,
/// and creates nothing that may not join a store.
pub proof fn lemma_tame_event(event: EventModel, ctx: ContextModel)
    requires
        ctx.tame(),
        event.instant == ctx.instant,
    ensures
        event.wounds_ok(),
        event.kits_ok(),
{
    assert forall|i: int, j: int|
        0 <= i < event.instant.len() && 0 <= j < event.instant[i].1.len() implies (
    #[trigger] event.instant[i].1[j] matches EffectModel::Wound(w) ==> w.damage.0 >= 0) by {
        assert(effect_tame(ctx.instant[i].1[j]));
    }
    assert forall|i: int, j: int|
        0 <= i < event.instant.len() && 0 <= j < event.instant[i].1.len() implies (
    #[trigger] event.instant[i].1[j] matches EffectModel::Create(c) ==> kit_ok(c.components)) by {
        assert(effect_tame(ctx.instant[i].1[j]));
    }
}

fn do_passive_ability(
    state: &mut State,
    id: Id,
    target_pos: PosHex,
    ability: PassiveAbility,
    context: ExecuteContext,
)
    requires
        context@.tame(),
        context@.safe_on(old(state)@),
    ensures
        old(state)@.strengths_ok() ==> final(state)@.strengths_ok(),
        final(state)@.same_board(old(state)@),
        final(state)@ == old(state)@.applied(passive_event(id, target_pos, ability, context@)),
        old(state)@.agents_ok() ==> final(state)@.agents_ok(),
{
    let active_event = ActiveEvent::UsePassiveAbility(
        event::UsePassiveAbility { pos: target_pos, id, ability },
    );
    let event = Event {
        active_event,
        actor_ids: context.actor_ids,
        instant_effects: context.instant_effects,
        timed_effects: context.timed_effects,
        scheduled_abilities: Vec::new(),
    };
    proof {
        assert(event@ =~= passive_event(id, target_pos, ability, context@));
        lemma_tame_event(event@, context@);
    }
    do_event(state, &event);
}

fn passive_snapshot(state: &State) -> (snap: Vec<(Id, Vec<PassiveAbility>)>)
    ensures
        raw_entries(snap@) == state@.passive_snap(),
{
    let ids = state::passive_ids(state);
    let mut snap: Vec<(Id, Vec<PassiveAbility>)> = Vec::new();
    let mut i: usize = 0;
    proof {
        state::lemma_ids_where(state@, Pick::Passive, ID_LIMIT as int);
    }
    while i < ids.len()
        invariant
            i <= ids@.len(),
            ids@ == state::ids_where(state@, Pick::Passive, ID_LIMIT as int),
            forall|k: int|
                0 <= k < ids@.len() ==> state@.picks(Pick::Passive, (#[trigger] ids@[k]).0 as int),
            snap@.len() == i,
            raw_entries(snap@) == state@.passive_snap().subrange(0, i as int),
        decreases ids@.len() - i,
    {
        let id = ids[i];
        assert(state@.picks(Pick::Passive, ids@[i as int].0 as int));
        let row: Vec<PassiveAbility> = match state.parts.passive_abilities.get(id) {
            Some(list) => copy_vec(&list.0),
            None => Vec::new(),
        };
        snap.push((id, row));
        assert(raw_entries(snap@) =~= state@.passive_snap().subrange(0, i as int + 1));
        i += 1;
    }
    assert(raw_entries(snap@) =~= state@.passive_snap());
    snap
}

fn effects_snapshot(state: &State) -> (snap: Vec<(Id, Vec<Timed>)>)
    ensures
        raw_entries(snap@) == state@.effects_snap(),
{
    let ids = state::affected_ids(state);
    let mut snap: Vec<(Id, Vec<Timed>)> = Vec::new();
    let mut i: usize = 0;
    proof {
        state::lemma_ids_where(state@, Pick::Affected, ID_LIMIT as int);
    }
    while i < ids.len()
        invariant
            i <= ids@.len(),
            ids@ == state::ids_where(state@, Pick::Affected, ID_LIMIT as int),
            forall|k: int|
                0 <= k < ids@.len() ==> state@.picks(Pick::Affected, (#[trigger] ids@[k]).0 as int),
            snap@.len() == i,
            raw_entries(snap@) == state@.effects_snap().subrange(0, i as int),
        decreases ids@.len() - i,
    {
        let id = ids[i];
        assert(state@.picks(Pick::Affected, ids@[i as int].0 as int));
        let row: Vec<Timed> = match state.parts.effects.get(id) {
            Some(list) => copy_vec(&list.0),
            None => Vec::new(),
        };
        snap.push((id, row));
        assert(raw_entries(snap@) =~= state@.effects_snap().subrange(0, i as int + 1));
        i += 1;
    }
    assert(raw_entries(snap@) =~= state@.effects_snap());
    snap
}

fn try_execute_passive_abilities_on_move(state: &mut State, target_id: Id)
    ensures
        old(state)@.strengths_ok() ==> final(state)@.strengths_ok(),
        final(state)@.same_board(old(state)@),
        final(state)@ == old(state)@.passive_tick(target_id),
        old(state)@.agents_ok() ==> final(state)@.agents_ok(),
{
    try_execute_passive_abilities_tick(state, target_id)
}

fn try_execute_passive_abilities_tick(state: &mut State, target_id: Id)
    ensures
        old(state)@.strengths_ok() ==> final(state)@.strengths_ok(),
        final(state)@.same_board(old(state)@),
        final(state)@ == old(state)@.passive_tick(target_id),
        old(state)@.agents_ok() ==> final(state)@.agents_ok(),
{
    proof {
        reveal(Model::passive_tick);
    }
    if !state.parts.is_exist(&target_id) {
        return ;
    }
    let target_pos = match state.parts.pos.get(target_id) {
        Some(pos) => pos.0,
        None => return ,
    };
    let snap = passive_snapshot(state);
    let ghost rows = raw_entries(snap@);
    let mut i: usize = 0;
    while i < snap.len()
        invariant
            old(state)@.strengths_ok() ==> state@.strengths_ok(),
            state@.same_board(old(state)@),
            i <= snap@.len(),
            rows == raw_entries(snap@),
            state@ == old(state)@.passive_rows(rows, target_id, target_pos, i as int),
            old(state)@.agents_ok() ==> state@.agents_ok(),
        decreases snap@.len() - i,
    {
        let id = snap[i].0;
        let here: bool = match state.parts.pos.get(id) {
            Some(pos) => pos.0 == target_pos,
            None => false,
        };
        assert(rows[i as int] == (snap@[i as int].0, snap@[i as int].1@));
        if here {
            let ghost at_row = state@;
            let abilities = &snap[i].1;
            let mut j: usize = 0;
            while j < abilities.len()
                invariant
                    old(state)@.strengths_ok() ==> state@.strengths_ok(),
                    state@.same_board(old(state)@),
                    j <= abilities@.len(),
                    state@ == at_row.passive_row(id, abilities@, target_id, target_pos, j as int),
                    old(state)@.agents_ok() ==> state@.agents_ok(),
                decreases abilities@.len() - j,
            {
                let ability = abilities[j];
                proof {
                    reveal(Model::passive_step);
                }
                match ability {
                    PassiveAbility::SpikeTrap => {
                        let context = try_execute_passive_ability_spike_trap(state, target_id);
                        do_passive_ability(state, id, target_pos, ability, context);
                    },
                    PassiveAbility::Burn => {
                        let context = try_execute_passive_ability_burn(state, target_id);
                        do_passive_ability(state, id, target_pos, ability, context);
                    },
                    PassiveAbility::Poison => {
                        let context = try_execute_passive_ability_poison(state, target_id);
                        if !context.timed_effects.is_empty() {
                            do_passive_ability(state, id, target_pos, ability, context);
                        }
                    },
                    PassiveAbility::HeavyImpact
                    | PassiveAbility::PoisonAttack
                    | PassiveAbility::Regenerate
                    | PassiveAbility::SpawnPoisonCloudOnDeath => {},
                }
                j += 1;
            }
        }
        i += 1;
    }
}

fn execute_attack_internal(
    state: &mut State,
    command: &command::Attack,
    mode: AttackMode,
    rng: &mut SimpleRng,
) -> (status: AttackStatus)
    requires
        old(state)@.agent.contains_key(command.attacker_id.0 as int),
        old(state)@.agent[command.attacker_id.0 as int].can_attack_now(),
        old(state)@.can_resolve(command.attacker_id, command.target_id),
    ensures
        old(state)@.strengths_ok() ==> final(state)@.strengths_ok(),
        final(state)@.same_board(old(state)@),
        (final(state)@, *final(rng), status) == old(state)@.attack_internal(
            command.attacker_id,
            command.target_id,
            mode,
            *old(rng),
        ),
        old(state)@.agents_ok() ==> final(state)@.agents_ok(),
{
    proof {
        reveal(Model::attack_outcome);
        reveal(Model::attack_internal);
    }
    let attacker_id = command.attacker_id;
    let target_id = command.target_id;
    let weapon_type = match state.parts.agent.get(attacker_id) {
        Some(agent) => agent.weapon_type,
        None => return AttackStatus::Miss,
    };
    let event_attack = event::Attack { attacker_id, target_id, mode, weapon_type };
    let mut context = ExecuteContext::new();
    let status = match try_attack(state, attacker_id, target_id, rng) {
        Some(effect) => {
            let is_kill: bool = match &effect {
                Effect::Kill(_) => true,
                _ => false,
            };
            context.push_instant(target_id, one_effect(effect));
            assert(context@.tame());
            if is_kill {
                AttackStatus::Kill
            } else {
                let c = try_execute_passive_abilities_on_attack(state, attacker_id, target_id);
                context.merge_with(c);
                AttackStatus::Hit
            }
        },
        None => {
            if let Some(attacker_pos) = state.parts.pos.get(attacker_id) {
                let dodge = Effect::Dodge(effect::Dodge { attacker_pos: attacker_pos.0 });
                context.push_instant(target_id, one_effect(dodge));
            }
            AttackStatus::Miss
        },
    };
    assert(context@ =~= old(state)@.attack_outcome(
        attacker_id,
        target_id,
        old(state)@.try_attack(attacker_id, target_id, *old(rng)).0,
    ).0);
    assert(context@.instant.len() <= 1);
    assert(context@.safe_on(state@)) by {
        if context@.instant.len() == 1 {
            assert(context@.instant[0].1.len() == 1);
        }
    }
    let mut actor_ids: Vec<Id> = Vec::new();
    actor_ids.push(attacker_id);
    let event = Event {
        active_event: ActiveEvent::Attack(event_attack),
        actor_ids,
        instant_effects: context.instant_effects,
        timed_effects: context.timed_effects,
        scheduled_abilities: context.scheduled_abilities,
    };
    proof {
        assert(event@ =~= attack_event(event_attack, context@));
        lemma_tame_event(event@, context@);
    }
    do_event(state, &event);
    status
}

fn try_execute_reaction_attacks(state: &mut State, target_id: Id, rng: &mut SimpleRng) -> (status:
    AttackStatus)
    ensures
        old(state)@.strengths_ok() ==> final(state)@.strengths_ok(),
        final(state)@.same_board(old(state)@),
        (final(state)@, *final(rng), status) == old(state)@.reaction_attacks(target_id, *old(rng)),
        old(state)@.agents_ok() ==> final(state)@.agents_ok(),
{
    proof {
        reveal(Model::reaction_attacks);
    }
    let mut status = AttackStatus::Miss;
    let target_owner = match state.parts.belongs_to.get(target_id) {
        Some(belongs_to) => belongs_to.0,
        None => return status,
    };
    let ids = state::enemy_agent_ids(state, target_owner);
    let mut i: usize = 0;
    while i < ids.len()
        invariant
            old(state)@.strengths_ok() ==> state@.strengths_ok(),
            state@.same_board(old(state)@),
            i <= ids@.len(),
            (state@, *rng, status) == old(state)@.reactions(ids@, target_id, *old(rng), i as int),
            old(state)@.agents_ok() ==> state@.agents_ok(),
        decreases ids@.len() - i,
    {
        let obj_id = ids[i];
        let mut answers: Option<PlayerId> = None;
        if status != AttackStatus::Kill {
            if let Some(a) = state.parts.agent.get(obj_id) {
                if (a.attacks.0 > 0 || a.jokers.0 > 0) && can_resolve_attack(
                    state,
                    obj_id,
                    target_id,
                ) {
                    if let Some(from) = state.parts.pos.get(obj_id) {
                        if let Some(to) = state.parts.pos.get(target_id) {
                            if distance_hex(from.0, to.0) <= a.attack_distance {
                                if let Some(owner) = state.parts.belongs_to.get(obj_id) {
                                    answers = Some(owner.0);
                                }
                            }
                        }
                    }
                }
            }
        }
        if let Some(this_agent_owner) = answers {
            state.set_player_id(this_agent_owner);
            let command_attack = command::Attack { attacker_id: obj_id, target_id };
            let this_attack_status = execute_attack_internal(
                state,
                &command_attack,
                AttackMode::Reactive,
                rng,
            );
            if this_attack_status != AttackStatus::Miss {
                status = this_attack_status;
            }
        }
        i += 1;
    }
    state.set_player_id(target_owner);
    status
}

fn execute_attack(state: &mut State, command: &command::Attack, rng: &mut SimpleRng)
    requires
        old(state)@.agent.contains_key(command.attacker_id.0 as int),
        old(state)@.agent[command.attacker_id.0 as int].can_attack_now(),
        old(state)@.can_resolve(command.attacker_id, command.target_id),
    ensures
        old(state)@.strengths_ok() ==> final(state)@.strengths_ok(),
        final(state)@.same_board(old(state)@),
        (final(state)@, *final(rng)) == old(state)@.attack(*command, *old(rng)),
        old(state)@.agents_ok() ==> final(state)@.agents_ok(),
{
    proof {
        reveal(Model::attack);
    }
    let _ = execute_attack_internal(state, command, AttackMode::Active, rng);
    let _ = try_execute_reaction_attacks(state, command.attacker_id, rng);
}

fn do_move(state: &mut State, id: Id, cost: Option<Moves>, path: Path)
    requires
        payable(
            old(state)@,
            ActiveModel::MoveTo(
                id,
                path.end(),
                match cost {
                    Some(c) => c.0,
                    None => 0,
                },
            ),
        ),
    ensures
        old(state)@.strengths_ok() ==> final(state)@.strengths_ok(),
        final(state)@.same_board(old(state)@),
        final(state)@ == old(state)@.applied(
            EventModel {
                active: ActiveModel::MoveTo(
                    id,
                    path.end(),
                    match cost {
                        Some(c) => c.0,
                        None => 0,
                    },
                ),
                actor_ids: seq![id],
                instant: Seq::empty(),
                timed: Seq::empty(),
                planned: Seq::empty(),
            },
        ),
        old(state)@.agents_ok() ==> final(state)@.agents_ok(),
{
    let cost = match cost {
        Some(c) => c,
        None => Moves(0),
    };
    let ghost to = path.end();
    let active_event = ActiveEvent::MoveTo(event::MoveTo { path, cost, id });
    let mut actor_ids: Vec<Id> = Vec::new();
    actor_ids.push(id);
    let event = Event {
        active_event,
        actor_ids,
        instant_effects: Vec::new(),
        timed_effects: Vec::new(),
        scheduled_abilities: Vec::new(),
    };
    assert(event@ =~= (EventModel {
        active: ActiveModel::MoveTo(id, to, cost.0),
        actor_ids: seq![id],
        instant: Seq::empty(),
        timed: Seq::empty(),
        planned: Seq::empty(),
    }));
    do_event(state, &event);
}

fn execute_move_to(state: &mut State, command: &command::MoveTo, _rng: &mut SimpleRng)
    requires
        old(state)@.agent.contains_key(command.id.0 as int),
        old(state)@.pos.contains_key(command.id.0 as int),
        old(state)@.agent[command.id.0 as int].moves.0 > 0 || old(state)@.agent[command.id.0 as int].jokers.0
            > 0,
    ensures
        old(state)@.strengths_ok() ==> final(state)@.strengths_ok(),
        final(state)@.same_board(old(state)@),
        final(state)@ == old(state)@.move_to(command.id, command.path.end()),
        *final(_rng) == *old(_rng),
        old(state)@.agents_ok() ==> final(state)@.agents_ok(),
{
    proof {
        reveal(Model::move_to);
    }
    let id = command.id;
    let mut tiles: Vec<PosHex> = Vec::new();
    tiles.push(command.path.from());
    tiles.push(command.path.to());
    let path = Path::new(tiles);
    do_move(state, id, Some(Moves(1)), path);
    try_execute_passive_abilities_on_move(state, id);
}

fn execute_create(state: &mut State, command: &command::Create)
    requires
        known_prototype(command.prototype@),
    ensures
        old(state)@.strengths_ok() ==> final(state)@.strengths_ok(),
        final(state)@.same_board(old(state)@),
        final(state)@ == old(state)@.create(command.owner, command.pos, command.prototype@),
        old(state)@.agents_ok() ==> final(state)@.agents_ok(),
{
    proof {
        reveal(Model::create);
    }
    let mut components = prototype_for(command.prototype.0.as_str());
    if let Some(player_id) = command.owner {
        components.push(Component::BelongsTo(BelongsTo(player_id)));
    }
    components.push(Component::Pos(Pos(command.pos)));
    components.push(Component::Meta(Meta { name: command.prototype.clone() }));
    assert(kit_model(components@) =~= created_kit(
        command.owner,
        command.pos,
        command.prototype@,
    ));
    let id = state.alloc_id();
    assert(state@ =~= old(state)@.allocated());
    let effect_create = Effect::Create(
        effect::Create {
            pos: command.pos,
            prototype: command.prototype.clone(),
            components,
            is_teleported: false,
        },
    );
    let mut instant_effects: Vec<(Id, Vec<Effect>)> = Vec::new();
    instant_effects.push((id, one_effect(effect_create)));
    let mut actor_ids: Vec<Id> = Vec::new();
    actor_ids.push(id);
    let event = Event {
        active_event: ActiveEvent::Create,
        actor_ids,
        instant_effects,
        timed_effects: Vec::new(),
        scheduled_abilities: Vec::new(),
    };
    proof {
        assert(event@.instant =~= create_event(
            id,
            command.owner,
            command.pos,
            command.prototype@,
        ).instant);
        assert(event@ =~= create_event(id, command.owner, command.pos, command.prototype@));
    }
    do_event(state, &event);
}

fn ability_context(state: &mut State, command: &command::UseAbility, rng: &mut SimpleRng) -> (ctx:
    ExecuteContext)
    ensures
        final(state)@.same_board(old(state)@),
        (final(state)@, *final(rng), ctx@) == old(state)@.ability_ctx(*command, *old(rng)),
        ctx@.tame(),
        ctx@.safe_on(final(state)@),
        final(state)@ == (Model { next_obj_id: final(state)@.next_obj_id, ..old(state)@ }),
        old(state)@.agents_ok() ==> final(state)@.agents_ok(),
{
    proof {
        reveal(Model::ability_ctx);
    }
    match command.ability {
        Ability::Knockback => execute_use_ability_knockback(state, command),
        Ability::Club => execute_use_ability_club(state, command),
        Ability::Jump => execute_use_ability_jump(state, command),
        Ability::LongJump => execute_use_ability_long_jump(state, command),
        Ability::Dash => execute_use_ability_dash(state, command),
        Ability::Rage => execute_use_ability_rage(state, command),
        Ability::Heal => execute_use_ability_heal(state, command, Strength(2)),
        Ability::GreatHeal => execute_use_ability_heal(state, command, Strength(3)),
        Ability::Vanish => execute_use_ability_vanish(command),
        Ability::ExplodeFire => execute_use_ability_explode_fire(state, command),
        Ability::ExplodePoison => execute_use_ability_explode_poison(state, command),
        Ability::ExplodePush => execute_use_ability_explode_push(state, command),
        Ability::ExplodeDamage => execute_use_ability_explode_damage(state, command),
        Ability::Poison => execute_use_ability_poison(state, command),
        Ability::Bomb => execute_use_ability_bomb_damage(state, command),
        Ability::BombPush => execute_use_ability_bomb_push(state, command),
        Ability::BombFire => execute_use_ability_bomb_fire(state, command),
        Ability::BombPoison => execute_use_ability_bomb_poison(state, command),
        Ability::BombDemonic => execute_use_ability_bomb_demonic(state, command),
        Ability::Summon => execute_use_ability_summon(state, command, rng),
        Ability::Bloodlust => execute_use_ability_bloodlust(state, command),
    }
}

fn execute_use_ability(state: &mut State, command: &command::UseAbility, rng: &mut SimpleRng)
    ensures
        old(state)@.strengths_ok() ==> final(state)@.strengths_ok(),
        final(state)@.same_board(old(state)@),
        (final(state)@, *final(rng)) == old(state)@.use_ability(*command, *old(rng)),
        old(state)@.agents_ok() ==> final(state)@.agents_ok(),
{
    proof {
        reveal(Model::use_ability);
    }
    let mut context = ability_context(state, command, rng);
    let ghost worked = context@;
    context.push_actor(command.id);
    let active_event = ActiveEvent::UseAbility(
        event::UseAbility { id: command.id, pos: command.pos, ability: command.ability },
    );
    let moved = context.moved_actor_ids;
    let event = Event {
        active_event,
        actor_ids: context.actor_ids,
        instant_effects: context.instant_effects,
        timed_effects: context.timed_effects,
        scheduled_abilities: context.scheduled_abilities,
    };
    proof {
        assert(event@ =~= ability_event(*command, worked));
        lemma_tame_event(event@, worked);
    }
    do_event(state, &event);
    let ghost applied = state@;
    let mut i: usize = 0;
    while i < moved.len()
        invariant
            old(state)@.strengths_ok() ==> state@.strengths_ok(),
            state@.same_board(old(state)@),
            i <= moved@.len(),
            state@ == applied.ticks(moved@, i as int),
            old(state)@.agents_ok() ==> state@.agents_ok(),
        decreases moved@.len() - i,
    {
        try_execute_passive_abilities_on_move(state, moved[i]);
        i += 1;
    }
}

fn execute_planned_abilities(state: &mut State, rng: &mut SimpleRng)
    ensures
        old(state)@.strengths_ok() ==> final(state)@.strengths_ok(),
        final(state)@.same_board(old(state)@),
        (final(state)@, *final(rng)) == old(state)@.planned_abilities(*old(rng)),
        old(state)@.agents_ok() ==> final(state)@.agents_ok(),
{
    proof {
        reveal(Model::planned_abilities);
    }
    let ids = state::planning_ids(state);
    let mut i: usize = 0;
    while i < ids.len()
        invariant
            old(state)@.strengths_ok() ==> state@.strengths_ok(),
            state@.same_board(old(state)@),
            i <= ids@.len(),
            (state@, *rng) == old(state)@.plans_run(ids@, *old(rng), i as int),
            old(state)@.agents_ok() ==> state@.agents_ok(),
        decreases ids@.len() - i,
    {
        let obj_id = ids[i];
        let mut due: Option<(PosHex, Vec<PlannedAbility>)> = None;
        if let Some(pos) = state.parts.pos.get(obj_id) {
            if let Some(schedule) = state.parts.schedule.get(obj_id) {
                due = Some((pos.0, copy_vec(&schedule.planned)));
            }
        }
        if let Some((pos, plans)) = due {
            let ghost at_entity = state@;
            let ghost at_rng = *rng;
            let mut j: usize = 0;
            while j < plans.len()
                invariant
                    old(state)@.strengths_ok() ==> state@.strengths_ok(),
                    state@.same_board(old(state)@),
                    j <= plans@.len(),
                    (state@, *rng) == at_entity.activations(obj_id, pos, plans@, at_rng, j as int),
                    old(state)@.agents_ok() ==> state@.agents_ok(),
                decreases plans@.len() - j,
            {
                let planned = plans[j];
                if planned.rounds.0 <= 0 && state.parts.is_exist(&obj_id) {
                    let c = command::UseAbility { ability: planned.ability, id: obj_id, pos };
                    execute_use_ability(state, &c, rng);
                }
                j += 1;
            }
        }
        i += 1;
    }
}

/// Every lasting effect of the phase of the player who moves has its
/// round, entity by entity in ascending order: see `Model::effects_run`.
pub fn execute_effects(state: &mut State)
    ensures
        old(state)@.strengths_ok() ==> final(state)@.strengths_ok(),
        final(state)@.same_board(old(state)@),
        final(state)@ == old(state)@.effects_run(),
        old(state)@.agents_ok() ==> final(state)@.agents_ok(),
{
    proof {
        reveal(Model::effects_run);
    }
    let phase: i32 = state.player_id().0;
    let snap = effects_snapshot(state);
    let ghost rows = raw_entries(snap@);
    let mut i: usize = 0;
    while i < snap.len()
        invariant
            old(state)@.strengths_ok() ==> state@.strengths_ok(),
            state@.same_board(old(state)@),
            i <= snap@.len(),
            rows == raw_entries(snap@),
            state@ == old(state)@.effect_rows(rows, phase, i as int),
            old(state)@.agents_ok() ==> state@.agents_ok(),
        decreases snap@.len() - i,
    {
        let id = snap[i].0;
        let effects = &snap[i].1;
        assert(rows[i as int] == (snap@[i as int].0, snap@[i as int].1@));
        let ghost at_row = state@;
        let mut gone: bool = false;
        let mut j: usize = 0;
        while j < effects.len()
            invariant
                old(state)@.strengths_ok() ==> state@.strengths_ok(),
                state@.same_board(old(state)@),
                j <= effects@.len(),
                (state@, gone) == at_row.effect_row(id, effects@, phase, j as int),
                old(state)@.agents_ok() ==> state@.agents_ok(),
            decreases effects@.len() - j,
        {
            let effect = effects[j];
            if !gone && effect.phase.0 == phase {
                let mut target_effects: Vec<Effect> = Vec::new();
                match effect.effect {
                    Lasting::Poison => {
                        let strong: bool = match state.parts.strength.get(id) {
                            Some(strength) => strength.strength.0 > 1,
                            None => false,
                        };
                        if strong {
                            target_effects.push(wound_or_kill(state, &id, Strength(1)));
                        }
                    },
                    Lasting::Bloodlust => target_effects.push(Effect::Bloodlust),
                    Lasting::Stun => {},
                }
                assert(effects_model(target_effects@) =~= state@.tick_effects(id, effect.effect));
                let mut instant_effects: Vec<(Id, Vec<Effect>)> = Vec::new();
                instant_effects.push((id, target_effects));
                let mut actor_ids: Vec<Id> = Vec::new();
                actor_ids.push(id);
                let event = Event {
                    active_event: ActiveEvent::EffectTick(
                        event::EffectTick { id, effect: effect.effect },
                    ),
                    actor_ids,
                    instant_effects,
                    timed_effects: Vec::new(),
                    scheduled_abilities: Vec::new(),
                };
                proof {
                    let want = tick_event(id, effect.effect, state@.tick_effects(id, effect.effect));
                    assert(event@.instant =~= want.instant);
                    assert(event@ =~= want);
                    assert(event@.wounds_ok());
                    assert(event@.kits_ok());
                }
                do_event(state, &event);
                if !state.parts.is_exist(&id) {
                    gone = true;
                } else if state::is_lasting_effect_over(state, &id, &effect) {
                    let mut actor_ids: Vec<Id> = Vec::new();
                    actor_ids.push(id);
                    let event = Event {
                        active_event: ActiveEvent::EffectEnd(
                            event::EffectEnd { id, effect: effect.effect },
                        ),
                        actor_ids,
                        instant_effects: Vec::new(),
                        timed_effects: Vec::new(),
                        scheduled_abilities: Vec::new(),
                    };
                    proof {
                        let want = effect_end_event(id, effect.effect);
                        assert(event@.instant =~= want.instant);
                        assert(event@.timed =~= want.timed);
                        assert(event@.planned =~= want.planned);
                        assert(event@ =~= want);
                        assert(event@.wounds_ok());
                        assert(event@.kits_ok());
                        assert(entries_safe(state@, event@.instant));
                    }
                    do_event(state, &event);
                }
            }
            j += 1;
        }
        i += 1;
    }
}

fn end_turn_simple(state: &mut State)
    ensures
        old(state)@.strengths_ok() ==> final(state)@.strengths_ok(),
        final(state)@.same_board(old(state)@),
        final(state)@ == old(state)@.end_turn_simple(),
        old(state)@.agents_ok() ==> final(state)@.agents_ok(),
{
    proof {
        reveal(Model::end_turn_simple);
    }
    let ids = state::players_agent_ids(state, state.player_id());
    crate::battle::state::apply::update_reattack(state, ids.as_slice());
    let player_id_new = state.next_player_id();
    let ids = state::players_agent_ids(state, player_id_new);
    state.set_player_id(player_id_new);
    crate::battle::state::apply::reset_status(state, ids.as_slice());
    crate::battle::state::apply::update_cooldowns(state, player_id_new);
}

fn end_turn_planned(state: &mut State)
    ensures
        old(state)@.strengths_ok() ==> final(state)@.strengths_ok(),
        final(state)@.same_board(old(state)@),
        final(state)@ == old(state)@.end_turn_planned(),
        old(state)@.agents_ok() ==> final(state)@.agents_ok(),
{
    proof {
        reveal(Model::end_turn_planned);
    }
    let ids = state::players_agent_ids(state, state.player_id());
    crate::battle::state::apply::update_reattack(state, ids.as_slice());
    crate::battle::state::apply::remove_outdated_planned_abilities(state);
    let player_id_new = state.next_player_id();
    let ids = state::players_agent_ids(state, player_id_new);
    state.set_player_id(player_id_new);
    crate::battle::state::apply::reset_status(state, ids.as_slice());
    crate::battle::state::apply::update_cooldowns(state, player_id_new);
    crate::battle::state::apply::tick_planned_abilities(state);
}

fn end_turn_kept(state: &mut State)
    ensures
        old(state)@.strengths_ok() ==> final(state)@.strengths_ok(),
        final(state)@.same_board(old(state)@),
        final(state)@ == old(state)@.end_turn_kept(),
        old(state)@.agents_ok() ==> final(state)@.agents_ok(),
{
    proof {
        reveal(Model::end_turn_kept);
    }
    let ids = state::players_agent_ids(state, state.player_id());
    crate::battle::state::apply::update_reattack_with_stun(state, ids.as_slice());
    crate::battle::state::apply::remove_outdated_planned_abilities(state);
    crate::battle::state::apply::remove_outdated_lasting_effect(state);
    let player_id_new = state.next_player_id();
    let ids = state::players_agent_ids(state, player_id_new);
    state.set_player_id(player_id_new);
    crate::battle::state::apply::reset_status(state, ids.as_slice());
    crate::battle::state::apply::update_cooldowns(state, player_id_new);
    crate::battle::state::apply::tick_planned_abilities(state);
}

fn begin_round(state: &mut State)
    ensures
        old(state)@.strengths_ok() ==> final(state)@.strengths_ok(),
        final(state)@.same_board(old(state)@),
        final(state)@ == old(state)@.round_begun(),
        old(state)@.agents_ok() ==> final(state)@.agents_ok(),
{
    proof {
        reveal(Model::round_begun);
    }
    let ids = state::players_agent_ids(state, state.player_id());
    let mut i: usize = 0;
    while i < ids.len()
        invariant
            old(state)@.strengths_ok() ==> state@.strengths_ok(),
            state@.same_board(old(state)@),
            i <= ids@.len(),
            state@ == old(state)@.ticks(ids@, i as int),
            old(state)@.agents_ok() ==> state@.agents_ok(),
        decreases ids@.len() - i,
    {
        try_execute_passive_abilities_tick(state, ids[i]);
        i += 1;
    }
    execute_effects(state);
}

fn execute_end_turn(state: &mut State, _command: &command::EndTurn)
    ensures
        old(state)@.strengths_ok() ==> final(state)@.strengths_ok(),
        final(state)@.same_board(old(state)@),
        final(state)@ == old(state)@.end_turn(),
        old(state)@.agents_ok() ==> final(state)@.agents_ok(),
{
    proof {
        reveal(Model::end_turn);
        reveal(Model::end_turn_full);
    }
    match state.level {
        crate::game::Level::Level0 | crate::game::Level::Level1 => {
            end_turn_simple(state);
        },
        crate::game::Level::Level2 => {
            end_turn_planned(state);
        },
        crate::game::Level::Level3 | crate::game::Level::Level4 | crate::game::Level::Level5 => {
            end_turn_kept(state);
            if state.player_id().0 == 0 {
                begin_round(state);
            }
        },
    }
}

fn decide_battle(state: &mut State)
    ensures
        old(state)@.strengths_ok() ==> final(state)@.strengths_ok(),
        final(state)@.same_board(old(state)@),
        final(state)@ == old(state)@.results(old(state)@.players_count as int),
        old(state)@.agents_ok() ==> final(state)@.agents_ok(),
{
    let count: i32 = state.players_count();
    let mut i: i32 = 0;
    while i < count
        invariant
            old(state)@.strengths_ok() ==> state@.strengths_ok(),
            state@.same_board(old(state)@),
            0 <= i <= count || count < 0,
            count < 0 ==> i == 0,
            state@ == old(state)@.results(i as int),
            old(state)@.agents_ok() ==> state@.agents_ok(),
        decreases count - i,
    {
        let player_id = PlayerId(i);
        if state::enemy_agent_count(state, player_id) == 0 {
            let result = BattleResult {
                winner_id: player_id,
                survivor_types: state::players_agent_types(state, PlayerId(0)),
                level: state.level,
            };
            let ghost want = end_battle_event(result@);
            let event = Event {
                active_event: ActiveEvent::EndBattle(event::EndBattle { result }),
                actor_ids: Vec::new(),
                instant_effects: Vec::new(),
                timed_effects: Vec::new(),
                scheduled_abilities: Vec::new(),
            };
            proof {
                assert(event@ =~= want);
                assert(want.active->EndBattle_0.survivor_types =~= state::kinds_of(
                    state@,
                    state@.agent_ids_of(PlayerId(0)),
                    state@.agent_ids_of(PlayerId(0)).len() as int,
                ));
            }
            do_event(state, &event);
        }
        i += 1;
    }
}

/// The event of a regeneration: the entity heals by one point.
pub open spec fn regen_event(id: Id, pos: PosHex) -> EventModel {
    EventModel {
        active: ActiveModel::UsePassiveAbility(
            event::UsePassiveAbility { id, pos, ability: PassiveAbility::Regenerate },
        ),
        actor_ids: seq![id],
        instant: seq![(id, seq![EffectModel::Heal(effect::Heal { strength: Strength(1) })])],
        timed: Seq::empty(),
        planned: Seq::empty(),
    }
}

/// The event of the end or of the start of a turn, with the agents it concerns.
pub open spec fn turn_event(active: ActiveModel, actor_ids: Seq<Id>) -> EventModel {
    EventModel {
        active,
        actor_ids,
        instant: Seq::empty(),
        timed: Seq::empty(),
        planned: Seq::empty(),
    }
}

impl Model {
    /// Whether the entity regenerates now: it stands on a tile and has
    /// less strength than its base.
    pub open spec fn regenerates(self, id: Id) -> bool {
        &&& self.pos.contains_key(id.0 as int)
        &&& self.strength.contains_key(id.0 as int)
        &&& self.strength[id.0 as int].strength.0 < self.strength[id.0 as int].base_strength.0
    }

    /// The entity heals for each regeneration among the first `n` of
    /// its passive abilities, as long as it has strength to regain.
    pub open spec fn regen_row(self, id: Id, abilities: Seq<PassiveAbility>, n: int) -> Model
        decreases n,
    {
        if n <= 0 {
            self
        } else {
            let m = self.regen_row(id, abilities, n - 1);
            if abilities[n - 1] == PassiveAbility::Regenerate && m.regenerates(id) {
                m.applied(regen_event(id, m.pos[id.0 as int].0))
            } else {
                m
            }
        }
    }

    /// The first `n` entities of a list regenerate: those that exist
    /// and belong to the player who moves.
    pub open spec fn regen_rows(self, rows: Seq<(Id, Seq<PassiveAbility>)>, n: int) -> Model
        decreases n,
    {
        if n <= 0 {
            self
        } else {
            let m = self.regen_rows(rows, n - 1);
            let id = rows[n - 1].0;
            if m.blocker.contains_key(id.0 as int) && m.owned_by(id.0 as int, m.player_id) {
                m.regen_row(id, rows[n - 1].1, rows[n - 1].1.len() as int)
            } else {
                m
            }
        }
    }

    /// The start of a turn for the passive abilities: those on the
    /// tiles of the agents of the player who moves work on these
    /// agents, and the entities of that player that regenerate heal.
    #[verifier::opaque]
    pub open spec fn passives_on_begin_turn(self) -> Model {
        let ticked = self.ticks(
            self.agent_ids_of(self.player_id),
            self.agent_ids_of(self.player_id).len() as int,
        );
        ticked.regen_rows(ticked.passive_snap(), ticked.passive_snap().len() as int)
    }
}

/// The passive abilities at the start of a turn: see
/// `Model::passives_on_begin_turn`.
pub fn try_execute_passive_abilities_on_begin_turn(state: &mut State)
    ensures
        old(state)@.strengths_ok() ==> final(state)@.strengths_ok(),
        final(state)@.same_board(old(state)@),
        final(state)@ == old(state)@.passives_on_begin_turn(),
        old(state)@.agents_ok() ==> final(state)@.agents_ok(),
{
    proof {
        reveal(Model::passives_on_begin_turn);
    }
    let ids = state::players_agent_ids(state, state.player_id());
    let mut i: usize = 0;
    while i < ids.len()
        invariant
            old(state)@.strengths_ok() ==> state@.strengths_ok(),
            state@.same_board(old(state)@),
            i <= ids@.len(),
            state@ == old(state)@.ticks(ids@, i as int),
            old(state)@.agents_ok() ==> state@.agents_ok(),
        decreases ids@.len() - i,
    {
        try_execute_passive_abilities_tick(state, ids[i]);
        i += 1;
    }
    let ghost ticked = state@;
    let snap = passive_snapshot(state);
    let ghost rows = raw_entries(snap@);
    let mut i: usize = 0;
    while i < snap.len()
        invariant
            old(state)@.strengths_ok() ==> state@.strengths_ok(),
            state@.same_board(old(state)@),
            i <= snap@.len(),
            rows == raw_entries(snap@),
            state@ == ticked.regen_rows(rows, i as int),
            old(state)@.agents_ok() ==> state@.agents_ok(),
        decreases snap@.len() - i,
    {
        let id = snap[i].0;
        assert(rows[i as int] == (snap@[i as int].0, snap@[i as int].1@));
        let own: bool = state.parts.is_exist(&id) && match state.parts.belongs_to.get(id) {
            Some(owner) => owner.0 == state.player_id(),
            None => false,
        };
        if own {
            let ghost at_row = state@;
            let abilities = &snap[i].1;
            let mut j: usize = 0;
            while j < abilities.len()
                invariant
                    old(state)@.strengths_ok() ==> state@.strengths_ok(),
                    state@.same_board(old(state)@),
                    j <= abilities@.len(),
                    state@ == at_row.regen_row(id, abilities@, j as int),
                    old(state)@.agents_ok() ==> state@.agents_ok(),
                decreases abilities@.len() - j,
            {
                if let PassiveAbility::Regenerate = abilities[j] {
                    let mut heals: Option<PosHex> = None;
                    if let Some(pos) = state.parts.pos.get(id) {
                        if let Some(strength) = state.parts.strength.get(id) {
                            if strength.strength.0 < strength.base_strength.0 {
                                heals = Some(pos.0);
                            }
                        }
                    }
                    if let Some(pos) = heals {
                        let heal = Effect::Heal(effect::Heal { strength: Strength(1) });
                        let mut instant_effects: Vec<(Id, Vec<Effect>)> = Vec::new();
                        instant_effects.push((id, one_effect(heal)));
                        let mut actor_ids: Vec<Id> = Vec::new();
                        actor_ids.push(id);
                        let event = Event {
                            active_event: ActiveEvent::UsePassiveAbility(
                                event::UsePassiveAbility {
                                    id,
                                    pos,
                                    ability: PassiveAbility::Regenerate,
                                },
                            ),
                            actor_ids,
                            instant_effects,
                            timed_effects: Vec::new(),
                            scheduled_abilities: Vec::new(),
                        };
                        proof {
                            assert(event@.instant =~= regen_event(id, pos).instant);
                            assert(event@ =~= regen_event(id, pos));
                            assert(event@.wounds_ok());
                            assert(event@.kits_ok());
                        }
                        do_event(state, &event);
                    }
                }
                j += 1;
            }
        }
        i += 1;
    }
}

/// The event of the end of the turn of the player who moves is applied.
pub fn execute_event_end_turn(state: &mut State)
    ensures
        old(state)@.strengths_ok() ==> final(state)@.strengths_ok(),
        final(state)@.same_board(old(state)@),
        final(state)@ == old(state)@.applied(
            turn_event(
                ActiveModel::EndTurn(old(state)@.player_id),
                old(state)@.agent_ids_of(old(state)@.player_id),
            ),
        ),
        old(state)@.agents_ok() ==> final(state)@.agents_ok(),
{
    let player_id_old = state.player_id();
    let actor_ids = state::players_agent_ids(state, player_id_old);
    let event = Event {
        active_event: ActiveEvent::EndTurn(event::EndTurn { player_id: player_id_old }),
        actor_ids,
        instant_effects: Vec::new(),
        timed_effects: Vec::new(),
        scheduled_abilities: Vec::new(),
    };
    assert(event@ =~= turn_event(
        ActiveModel::EndTurn(old(state)@.player_id),
        old(state)@.agent_ids_of(old(state)@.player_id),
    ));
    do_event(state, &event);
}

/// The event of the start of the turn of the next player is applied.
pub fn execute_event_begin_turn(state: &mut State)
    ensures
        old(state)@.strengths_ok() ==> final(state)@.strengths_ok(),
        final(state)@.same_board(old(state)@),
        final(state)@ == old(state)@.applied(
            turn_event(
                ActiveModel::BeginTurn(old(state)@.following_player()),
                old(state)@.agent_ids_of(old(state)@.following_player()),
            ),
        ),
        old(state)@.agents_ok() ==> final(state)@.agents_ok(),
{
    let player_id_new = state.next_player_id();
    let actor_ids = state::players_agent_ids(state, player_id_new);
    let event = Event {
        active_event: ActiveEvent::BeginTurn(event::BeginTurn { player_id: player_id_new }),
        actor_ids,
        instant_effects: Vec::new(),
        timed_effects: Vec::new(),
        scheduled_abilities: Vec::new(),
    };
    assert(event@ =~= turn_event(
        ActiveModel::BeginTurn(old(state)@.following_player()),
        old(state)@.agent_ids_of(old(state)@.following_player()),
    ));
    do_event(state, &event);
}

/// Carries out a command. Once the battle has a result, no command is
/// accepted any more. The commands of the first player are checked
/// first, and no player's command is accepted whose actor cannot pay
/// for it. A command that is refused changes nothing. An accepted
/// command does what `Model::run` says: its own step, the plans that
/// are due, and the decision of the battle.
pub fn execute(state: &mut State, command: &Command, rng: &mut SimpleRng) -> (r: Result<(), Error>)
    requires
        command matches Command::Create(c) ==> known_prototype(c.prototype@),
    ensures
        old(state)@.battle_result.is_some() ==> r == Err::<(), Error>(Error::BattleEnded)
            && *final(state) == *old(state) && *final(rng) == *old(rng),
        old(state)@.strengths_ok() ==> final(state)@.strengths_ok(),
        final(state)@.same_board(old(state)@),
        old(state)@.refusal(command@) matches Some(e) ==> r == Err::<(), Error>(e) && *final(state)
            == *old(state) && *final(rng) == *old(rng),
        old(state)@.refusal(command@).is_none() ==> r.is_ok() && (final(state)@, *final(rng))
            == old(state)@.run(command@, *old(rng)),
        old(state)@.agents_ok() ==> final(state)@.agents_ok(),
{
    proof {
        reveal(Model::run);
        reveal(Model::refusal);
    }
    if state.battle_result().is_some() {
        return Err(Error::BattleEnded);
    }
    if state.player_id().0 == 0 {
        check(state, command)?
    }
    check_can_carry(state, command)?;
    match command {
        Command::Create(command) => execute_create(state, command),
        Command::MoveTo(command) => execute_move_to(state, command, rng),
        Command::Attack(command) => execute_attack(state, command, rng),
        Command::EndTurn(command) => execute_end_turn(state, command),
        Command::UseAbility(command) => execute_use_ability(state, command, rng),
    }
    execute_planned_abilities(state, rng);
    match command {
        Command::Create(_) => {},
        _ => {
            decide_battle(state);
        },
    }
    Ok(())
}

} // verus!
