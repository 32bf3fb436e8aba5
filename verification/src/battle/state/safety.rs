//! Why strength stays within its bounds: which events are safe to
//! apply to a state whose strengths are in order, and the proof that
//! applying them leaves the strengths in order.

use vstd::prelude::*;

use crate::battle::model::kit_ok;
use crate::battle::model::ComponentModel;
use crate::battle::component::PlannedAbility;
use crate::battle::effect::Timed;
use crate::battle::execute::entry_slot;
use crate::battle::execute::lemma_slot_in_range;
use crate::battle::execute::merged_entries;
use crate::battle::execute::merged_entry;
use crate::battle::model::ActiveModel;
use crate::battle::model::EffectModel;
use crate::battle::model::EventModel;
use crate::battle::model::Model;
use crate::battle::Id;

verus! {

/// Whether a list of components holds no strength.
pub open spec fn strengthless(kit: Seq<ComponentModel>) -> bool {
    forall|i: int| 0 <= i < kit.len() ==> !((#[trigger] kit[i]) is Strength)
}

/// An effect that leaves the strength of its entity as it is, or takes
/// the entity away: anything but a wound, a heal, and the creation of
/// an entity with a strength.
pub open spec fn inert(effect: EffectModel) -> bool {
    match effect {
        EffectModel::Wound(_) => false,
        EffectModel::Heal(_) => false,
        EffectModel::Create(c) => strengthless(c.components),
        _ => true,
    }
}

/// Whether every effect of the list is inert.
pub open spec fn all_inert(effects: Seq<EffectModel>) -> bool {
    forall|j: int| 0 <= j < effects.len() ==> inert(#[trigger] effects[j])
}

/// Whether the list holds a wound.
pub open spec fn has_wound(effects: Seq<EffectModel>) -> bool {
    exists|j: int| 0 <= j < effects.len() && (#[trigger] effects[j]) is Wound
}

/// Whether an effect can fall on the entity as the state has it: a
/// wound is not negative and takes less than the strength on record,
/// a heal is not negative, and an entity is created with components
/// that may join a store.
pub open spec fn effect_fits(m: Model, id: Id, effect: EffectModel) -> bool {
    match effect {
        EffectModel::Wound(w) => w.damage.0 >= 0 && (m.strength.contains_key(id.0 as int)
            ==> m.strength[id.0 as int].strength.0 > w.damage.0),
        EffectModel::Heal(h) => h.strength.0 >= 0,
        EffectModel::Create(c) => kit_ok(c.components),
        _ => true,
    }
}

/// Whether a list of effects is safe for the entity: each effect fits
/// the strength that the state has on record, and a wound comes before
/// anything else that touches the strength.
pub open spec fn entry_safe(m: Model, id: Id, effects: Seq<EffectModel>) -> bool {
    forall|j: int|
        0 <= j < effects.len() ==> effect_fits(m, id, #[trigger] effects[j]) && (effects[j] is Wound
            ==> forall|k: int| 0 <= k < j ==> inert(#[trigger] effects[k]))
}

/// Whether the effects of an event are safe for a state: every entry
/// is safe for its entity, and an entity that is wounded has nothing
/// but inert effects in the entries before.
pub open spec fn entries_safe(m: Model, entries: Seq<(Id, Seq<EffectModel>)>) -> bool {
    &&& forall|i: int| 0 <= i < entries.len() ==> entry_safe(m, (#[trigger] entries[i]).0, entries[i].1)
    &&& forall|i: int, k: int|
        0 <= k < i < entries.len() && has_wound((#[trigger] entries[i]).1) && (
        #[trigger] entries[k]).0 == entries[i].0 ==> all_inert(entries[k].1)
}

/// Whether the second state has the strength of the entity as the
/// first one has it, or has none for it.
pub open spec fn strength_kept(before: Model, after: Model, id: Id) -> bool {
    after.strength.contains_key(id.0 as int) ==> before.strength.contains_key(id.0 as int)
        && after.strength[id.0 as int] == before.strength[id.0 as int]
}

/// Components given to one entity leave the strength of every other
/// entity alone; given to an entity without a strength among them,
/// they leave that entity's strength alone, too; and components that
/// may join a store leave the strengths in order.
pub proof fn lemma_components(m: Model, id: Id, kit: Seq<ComponentModel>, n: int)
    requires
        0 <= n <= kit.len(),
    ensures
        forall|k: int|
            k != id.0 ==> m.with_components(id, kit, n).strength.contains_key(k)
                == m.strength.contains_key(k) && (#[trigger] m.strength.contains_key(k)
                ==> m.with_components(id, kit, n).strength[k] == m.strength[k]),
        strengthless(kit) ==> m.with_components(id, kit, n).strength == m.strength,
        m.strengths_ok() && kit_ok(kit) ==> m.with_components(id, kit, n).strengths_ok(),
    decreases n,
{
    reveal(Model::with_component);
    if n > 0 {
        lemma_components(m, id, kit, n - 1);
        let before = m.with_components(id, kit, n - 1);
        assert(kit_ok(kit) ==> kit[n - 1].wf());
        assert(strengthless(kit) ==> !(kit[n - 1] is Strength));
    }
}

/// An effect on one entity leaves the strength of every other entity alone.
pub proof fn lemma_instant_elsewhere(m: Model, id: Id, effect: EffectModel, other: Id)
    requires
        other.0 != id.0,
    ensures
        m.instant(id, effect).strength.contains_key(other.0 as int) == m.strength.contains_key(
            other.0 as int,
        ),
        m.strength.contains_key(other.0 as int) ==> m.instant(id, effect).strength[other.0 as int]
            == m.strength[other.0 as int],
{
    reveal(Model::instant);
    if let EffectModel::Create(c) = effect {
        lemma_components(m, id, c.components, c.components.len() as int);
    }
}

/// An inert effect leaves the strength of its entity alone or takes it away.
pub proof fn lemma_instant_inert(m: Model, id: Id, effect: EffectModel)
    requires
        inert(effect),
    ensures
        strength_kept(m, m.instant(id, effect), id),
{
    reveal(Model::instant);
    if let EffectModel::Create(c) = effect {
        lemma_components(m, id, c.components, c.components.len() as int);
    }
}

/// An effect that fits leaves the strengths in order.
pub proof fn lemma_instant_fits(m: Model, id: Id, effect: EffectModel)
    requires
        m.strengths_ok(),
        effect_fits(m, id, effect),
    ensures
        m.instant(id, effect).strengths_ok(),
{
    reveal(Model::instant);
    if let EffectModel::Create(c) = effect {
        lemma_components(m, id, c.components, c.components.len() as int);
    }
}

/// The effects of one entry, safe for the state `base` that the
/// entity's strength still comes from, leave the strengths in order;
/// they leave the strength of every other entity alone, and that of
/// their own entity, too, if all of them are inert.
pub proof fn lemma_instants(m: Model, base: Model, id: Id, effects: Seq<EffectModel>, n: int)
    requires
        0 <= n <= effects.len(),
        m.strengths_ok(),
        entry_safe(base, id, effects),
        has_wound(effects) ==> strength_kept(base, m, id),
    ensures
        m.instants(id, effects, n).strengths_ok(),
        forall|other: Id|
            other.0 != id.0 ==> (#[trigger] m.instants(id, effects, n).strength.contains_key(
                other.0 as int,
            )) == m.strength.contains_key(other.0 as int) && (m.strength.contains_key(
                other.0 as int,
            ) ==> m.instants(id, effects, n).strength[other.0 as int] == m.strength[other.0 as int]),
        (forall|k: int| 0 <= k < n ==> inert(#[trigger] effects[k])) ==> strength_kept(
            m,
            m.instants(id, effects, n),
            id,
        ),
    decreases n,
{
    if n > 0 {
        lemma_instants(m, base, id, effects, n - 1);
        let before = m.instants(id, effects, n - 1);
        let effect = effects[n - 1];
        assert(effect_fits(base, id, effect));
        if effect is Wound {
            assert(has_wound(effects));
            assert(forall|k: int| 0 <= k < n - 1 ==> inert(#[trigger] effects[k]));
            assert(strength_kept(m, before, id));
            assert(effect_fits(before, id, effect));
        } else {
            assert(effect_fits(before, id, effect));
        }
        lemma_instant_fits(before, id, effect);
        assert forall|other: Id| other.0 != id.0 implies (#[trigger] m.instants(
            id,
            effects,
            n,
        ).strength.contains_key(other.0 as int)) == m.strength.contains_key(other.0 as int) && (
        m.strength.contains_key(other.0 as int) ==> m.instants(
            id,
            effects,
            n,
        ).strength[other.0 as int] == m.strength[other.0 as int]) by {
            lemma_instant_elsewhere(before, id, effect, other);
            assert(before.strength.contains_key(other.0 as int) == m.strength.contains_key(
                other.0 as int,
            ));
        }
        if forall|k: int| 0 <= k < n ==> inert(#[trigger] effects[k]) {
            assert(inert(effects[n - 1]));
            lemma_instant_inert(before, id, effect);
        }
    }
}

/// The effects of an event that are safe for a state leave its
/// strengths in order.
pub proof fn lemma_all_instants(m: Model, entries: Seq<(Id, Seq<EffectModel>)>, n: int)
    requires
        0 <= n <= entries.len(),
        m.strengths_ok(),
        entries_safe(m, entries),
    ensures
        m.all_instants(entries, n).strengths_ok(),
        forall|i: int|
            n <= i < entries.len() && has_wound((#[trigger] entries[i]).1) ==> strength_kept(
                m,
                m.all_instants(entries, n),
                entries[i].0,
            ),
    decreases n,
{
    if n > 0 {
        lemma_all_instants(m, entries, n - 1);
        let before = m.all_instants(entries, n - 1);
        let id = entries[n - 1].0;
        let effects = entries[n - 1].1;
        assert(entry_safe(m, id, effects));
        if has_wound(effects) {
            assert(strength_kept(m, before, entries[n - 1].0));
        }
        lemma_instants(before, m, id, effects, effects.len() as int);
        let after = before.instants(id, effects, effects.len() as int);
        assert forall|i: int|
            n <= i < entries.len() && has_wound((#[trigger] entries[i]).1) implies strength_kept(
            m,
            after,
            entries[i].0,
        ) by {
            assert(strength_kept(m, before, entries[i].0));
            if entries[i].0.0 == id.0 {
                assert(entries[n - 1].0 == entries[i].0);
                assert(all_inert(entries[n - 1].1));
                assert(strength_kept(before, after, id));
            } else {
                assert(after.strength.contains_key(entries[i].0.0 as int)
                    == before.strength.contains_key(entries[i].0.0 as int));
            }
        }
    }
}

/// What an active event does leaves every strength as it is.
pub proof fn lemma_active_keeps_strength(m: Model, active: ActiveModel)
    ensures
        m.active_applied(active).strength == m.strength,
{
    reveal(Model::active_applied);
    reveal(Model::ability_used);
    reveal(Model::turn_ended);
    reveal(Model::turn_begun);
}

/// Lasting effects that begin leave every strength as it is.
pub proof fn lemma_timeds_keep_strength(m: Model, entries: Seq<(Id, Seq<Timed>)>, n: int)
    ensures
        m.all_timeds(entries, n).strength == m.strength,
    decreases n,
{
    if n > 0 {
        lemma_timeds_keep_strength(m, entries, n - 1);
        lemma_timed_row_keeps_strength(
            m.all_timeds(entries, n - 1),
            entries[n - 1].0,
            entries[n - 1].1,
            entries[n - 1].1.len() as int,
        );
    }
}

proof fn lemma_timed_row_keeps_strength(m: Model, id: Id, effects: Seq<Timed>, n: int)
    ensures
        m.timeds(id, effects, n).strength == m.strength,
    decreases n,
{
    if n > 0 {
        lemma_timed_row_keeps_strength(m, id, effects, n - 1);
    }
}

/// Abilities that are planned leave every strength as it is.
pub proof fn lemma_planneds_keep_strength(
    m: Model,
    entries: Seq<(Id, Seq<PlannedAbility>)>,
    n: int,
)
    ensures
        m.all_planneds(entries, n).strength == m.strength,
    decreases n,
{
    if n > 0 {
        lemma_planneds_keep_strength(m, entries, n - 1);
        lemma_planned_row_keeps_strength(
            m.all_planneds(entries, n - 1),
            entries[n - 1].0,
            entries[n - 1].1,
            entries[n - 1].1.len() as int,
        );
    }
}

proof fn lemma_planned_row_keeps_strength(m: Model, id: Id, abilities: Seq<PlannedAbility>, n: int)
    ensures
        m.planneds(id, abilities, n).strength == m.strength,
    decreases n,
{
    if n > 0 {
        lemma_planned_row_keeps_strength(m, id, abilities, n - 1);
    }
}

/// Safety looks at nothing but the strengths of a state.
pub proof fn lemma_safe_by_strength(a: Model, b: Model, entries: Seq<(Id, Seq<EffectModel>)>)
    requires
        a.strength == b.strength,
        entries_safe(a, entries),
    ensures
        entries_safe(b, entries),
{
    assert forall|i: int| 0 <= i < entries.len() implies entry_safe(
        b,
        (#[trigger] entries[i]).0,
        entries[i].1,
    ) by {
        assert(entry_safe(a, entries[i].0, entries[i].1));
        assert forall|j: int| 0 <= j < entries[i].1.len() implies effect_fits(
            b,
            entries[i].0,
            #[trigger] entries[i].1[j],
        ) by {
            assert(effect_fits(a, entries[i].0, entries[i].1[j]));
        }
    }
}

/// An event whose effects are safe for a state whose strengths are in
/// order leaves them in order.
pub proof fn lemma_applied_safe(m: Model, event: EventModel)
    requires
        m.strengths_ok(),
        entries_safe(m, event.instant),
    ensures
        m.applied(event).strengths_ok(),
{
    reveal(Model::applied);
    let active = m.active_applied(event.active);
    lemma_active_keeps_strength(m, event.active);
    lemma_safe_by_strength(m, active, event.instant);
    lemma_all_instants(active, event.instant, event.instant.len() as int);
    let instant = active.all_instants(event.instant, event.instant.len() as int);
    lemma_timeds_keep_strength(instant, event.timed, event.timed.len() as int);
    let timed = instant.all_timeds(event.timed, event.timed.len() as int);
    lemma_planneds_keep_strength(timed, event.planned, event.planned.len() as int);
}

/// Whether every entry that is not all inert is for an entity that `touched` takes.
pub open spec fn touches_only(entries: Seq<(Id, Seq<EffectModel>)>, touched: Set<Id>) -> bool {
    forall|i: int|
        0 <= i < entries.len() && !all_inert((#[trigger] entries[i]).1) ==> touched.contains(
            entries[i].0,
        )
}

/// Safe entries stay safe when an entry is added that is safe for its
/// entity, if the entity is wounded only where no earlier entry for it
/// holds anything but inert effects.
pub proof fn lemma_push_safe(
    m: Model,
    entries: Seq<(Id, Seq<EffectModel>)>,
    id: Id,
    effects: Seq<EffectModel>,
)
    requires
        entries_safe(m, entries),
        entry_safe(m, id, effects),
        has_wound(effects) ==> forall|k: int|
            0 <= k < entries.len() && (#[trigger] entries[k]).0 == id ==> all_inert(entries[k].1),
    ensures
        entries_safe(m, entries.push((id, effects))),
{
    let after = entries.push((id, effects));
    assert forall|i: int| 0 <= i < after.len() implies entry_safe(
        m,
        (#[trigger] after[i]).0,
        after[i].1,
    ) by {
        if i < entries.len() {
            assert(after[i] == entries[i]);
        }
    }
    assert forall|i: int, k: int|
        0 <= k < i < after.len() && has_wound((#[trigger] after[i]).1) && (#[trigger] after[k]).0
            == after[i].0 implies all_inert(after[k].1) by {
        assert(after[k] == entries[k]);
        if i < entries.len() {
            assert(after[i] == entries[i]);
        }
    }
}

/// A list with a wound is not all inert.
pub proof fn lemma_wound_not_inert(effects: Seq<EffectModel>)
    requires
        has_wound(effects),
    ensures
        !all_inert(effects),
{
    let w = choose|w: int| 0 <= w < effects.len() && (#[trigger] effects[w]) is Wound;
    assert(!inert(effects[w]));
}

/// Merging one entry into safe entries leaves them safe, if effects
/// that are not all inert are merged only where the entries hold
/// nothing but inert effects for their entity.
pub proof fn lemma_merged_entry_safe(
    m: Model,
    entries: Seq<(Id, Seq<EffectModel>)>,
    id: Id,
    effects: Seq<EffectModel>,
)
    requires
        entries_safe(m, entries),
        entry_safe(m, id, effects),
        !all_inert(effects) ==> forall|k: int|
            0 <= k < entries.len() && (#[trigger] entries[k]).0 == id ==> all_inert(entries[k].1),
    ensures
        entries_safe(m, merged_entry(entries, id, effects)),
{
    lemma_slot_in_range(entries, id, 0);
    let slot = entry_slot(entries, id, 0);
    let after = merged_entry(entries, id, effects);
    if has_wound(effects) {
        lemma_wound_not_inert(effects);
    }
    if slot < entries.len() {
        let joined = entries[slot].1 + effects;
        assert(after[slot] == (id, joined));
        assert(entry_safe(m, id, entries[slot].1));
        assert forall|j: int| 0 <= j < joined.len() implies effect_fits(m, id, #[trigger] joined[j])
            && (joined[j] is Wound ==> forall|k: int| 0 <= k < j ==> inert(
            #[trigger] joined[k],
        )) by {
            if j < entries[slot].1.len() {
                assert(joined[j] == entries[slot].1[j]);
                if joined[j] is Wound {
                    assert forall|k: int| 0 <= k < j implies inert(#[trigger] joined[k]) by {
                        assert(joined[k] == entries[slot].1[k]);
                    }
                }
            } else {
                let at = j - entries[slot].1.len();
                assert(joined[j] == effects[at]);
                assert(effect_fits(m, id, effects[at]));
                if joined[j] is Wound {
                    assert(has_wound(effects));
                    assert(all_inert(entries[slot].1));
                    assert forall|k: int| 0 <= k < j implies inert(#[trigger] joined[k]) by {
                        if k < entries[slot].1.len() {
                            assert(joined[k] == entries[slot].1[k]);
                        } else {
                            assert(joined[k] == effects[k - entries[slot].1.len()]);
                        }
                    }
                }
            }
        }
        assert forall|i: int| 0 <= i < after.len() implies entry_safe(
            m,
            (#[trigger] after[i]).0,
            after[i].1,
        ) by {
            if i != slot {
                assert(after[i] == entries[i]);
            }
        }
        assert forall|i: int, k: int|
            0 <= k < i < after.len() && has_wound((#[trigger] after[i]).1) && (
            #[trigger] after[k]).0 == after[i].0 implies all_inert(after[k].1) by {
            if i == slot {
                assert(after[k] == entries[k]);
                lemma_first_slot(entries, id, 0, k);
            } else {
                assert(after[i] == entries[i]);
                if k == slot {
                    assert(entries[slot].0 == entries[i].0);
                    assert(all_inert(entries[slot].1));
                    lemma_wound_not_inert(entries[i].1);
                    assert(all_inert(effects));
                    assert forall|j: int| 0 <= j < joined.len() implies inert(
                        #[trigger] joined[j],
                    ) by {
                        if j < entries[slot].1.len() {
                            assert(joined[j] == entries[slot].1[j]);
                        } else {
                            assert(joined[j] == effects[j - entries[slot].1.len()]);
                        }
                    }
                } else {
                    assert(after[k] == entries[k]);
                }
            }
        }
    } else {
        lemma_no_slot(entries, id, 0);
        lemma_push_safe(m, entries, id, effects);
    }
}

/// Merging safe entries into safe entries leaves them safe, if the
/// entries that are merged in hold effects that are not inert only for
/// entities for which the others hold nothing but inert effects.
pub proof fn lemma_merged_safe(
    m: Model,
    a: Seq<(Id, Seq<EffectModel>)>,
    b: Seq<(Id, Seq<EffectModel>)>,
    touched_a: Set<Id>,
    touched_b: Set<Id>,
    n: int,
)
    requires
        0 <= n <= b.len(),
        entries_safe(m, a),
        entries_safe(m, b),
        touches_only(a, touched_a),
        touches_only(b, touched_b),
        forall|i: int, k: int|
            0 <= k < i < b.len() && (#[trigger] b[k]).0 == (#[trigger] b[i]).0 ==> all_inert(b[i].1)
                || all_inert(b[k].1),
        forall|id: Id| !(#[trigger] touched_a.contains(id) && touched_b.contains(id)),
    ensures
        entries_safe(m, merged_entries(a, b, n)),
        touches_only(merged_entries(a, b, n), touched_a.union(touched_b)),
        forall|k: int|
            0 <= k < merged_entries(a, b, n).len() && !all_inert(
                (#[trigger] merged_entries(a, b, n)[k]).1,
            ) && touched_b.contains(merged_entries(a, b, n)[k].0) ==> exists|i: int|
                0 <= i < n && (#[trigger] b[i]).0 == merged_entries(a, b, n)[k].0 && !all_inert(
                    b[i].1,
                ),
    decreases n,
{
    if n > 0 {
        lemma_merged_safe(m, a, b, touched_a, touched_b, n - 1);
        let before = merged_entries(a, b, n - 1);
        let id = b[n - 1].0;
        let effects = b[n - 1].1;
        assert(entry_safe(m, id, effects));
        if !all_inert(effects) {
            assert(touched_b.contains(id));
            assert forall|k: int| 0 <= k < before.len() && (#[trigger] before[k]).0
                == id implies all_inert(before[k].1) by {
                if !all_inert(before[k].1) {
                    let i = choose|i: int|
                        0 <= i < n - 1 && (#[trigger] b[i]).0 == id && !all_inert(b[i].1);
                    assert(b[i].0 == b[n - 1].0);
                }
            }
        }
        lemma_merged_entry_safe(m, before, id, effects);
        lemma_slot_in_range(before, id, 0);
        let slot = entry_slot(before, id, 0);
        let after = merged_entry(before, id, effects);
        assert forall|k: int| 0 <= k < after.len() && !all_inert((#[trigger] after[k]).1) implies (
        touched_a.union(touched_b).contains(after[k].0)) by {
            if slot < before.len() {
                if k == slot {
                    let joined = before[slot].1 + effects;
                    if all_inert(before[slot].1) && all_inert(effects) {
                        assert forall|j: int| 0 <= j < joined.len() implies inert(
                            #[trigger] joined[j],
                        ) by {
                            if j < before[slot].1.len() {
                                assert(joined[j] == before[slot].1[j]);
                            } else {
                                assert(joined[j] == effects[j - before[slot].1.len()]);
                            }
                        }
                    }
                } else {
                    assert(after[k] == before[k]);
                }
            } else {
                if k < before.len() {
                    assert(after[k] == before[k]);
                }
            }
        }
        assert forall|k: int|
            0 <= k < after.len() && !all_inert((#[trigger] after[k]).1) && touched_b.contains(
                after[k].0,
            ) implies exists|i: int|
            0 <= i < n && (#[trigger] b[i]).0 == after[k].0 && !all_inert(b[i].1) by {
            let x = after[k].0;
            if slot < before.len() && k == slot {
                if !all_inert(effects) {
                    assert(b[n - 1].0 == x && !all_inert(b[n - 1].1));
                } else {
                    let joined = before[slot].1 + effects;
                    if all_inert(before[slot].1) {
                        assert forall|j: int| 0 <= j < joined.len() implies inert(
                            #[trigger] joined[j],
                        ) by {
                            if j < before[slot].1.len() {
                                assert(joined[j] == before[slot].1[j]);
                            } else {
                                assert(joined[j] == effects[j - before[slot].1.len()]);
                            }
                        }
                    }
                    assert(before[slot].0 == x && !all_inert(before[slot].1));
                    let i = choose|i: int|
                        0 <= i < n - 1 && (#[trigger] b[i]).0 == x && !all_inert(b[i].1);
                    assert(0 <= i < n);
                }
            } else if k < before.len() {
                assert(after[k] == before[k]);
                let i = choose|i: int|
                    0 <= i < n - 1 && (#[trigger] b[i]).0 == x && !all_inert(b[i].1);
                assert(0 <= i < n);
            } else {
                assert(after[k] == (id, effects));
                assert(b[n - 1].0 == x && !all_inert(b[n - 1].1));
            }
        }
    } else {
        assert forall|k: int|
            0 <= k < a.len() && !all_inert((#[trigger] a[k]).1) && touched_b.contains(
                a[k].0,
            ) implies exists|i: int|
            0 <= i < n && (#[trigger] b[i]).0 == a[k].0 && !all_inert(b[i].1) by {
            assert(touched_a.contains(a[k].0));
        }
    }
}

/// Whether no two entries are for the same entity.
pub open spec fn distinct_ids<T>(entries: Seq<(Id, Seq<T>)>) -> bool {
    forall|i: int, k: int|
        0 <= k < i < entries.len() ==> (#[trigger] entries[k]).0 != (#[trigger] entries[i]).0
}

/// Merging keeps the entries of different entities apart.
pub proof fn lemma_merged_distinct<T>(a: Seq<(Id, Seq<T>)>, b: Seq<(Id, Seq<T>)>, n: int)
    requires
        0 <= n <= b.len(),
        distinct_ids(a),
    ensures
        distinct_ids(merged_entries(a, b, n)),
    decreases n,
{
    if n > 0 {
        lemma_merged_distinct(a, b, n - 1);
        let before = merged_entries(a, b, n - 1);
        let id = b[n - 1].0;
        lemma_slot_in_range(before, id, 0);
        let slot = entry_slot(before, id, 0);
        let after = merged_entry(before, id, b[n - 1].1);
        if slot >= before.len() {
            lemma_no_slot(before, id, 0);
        }
        assert forall|i: int, k: int| 0 <= k < i < after.len() implies (#[trigger] after[k]).0 != (
        #[trigger] after[i]).0 by {
            if slot < before.len() {
                assert(after[k].0 == before[k].0);
                assert(after[i].0 == before[i].0);
            } else {
                assert(after[k] == before[k]);
                if i < before.len() {
                    assert(after[i] == before[i]);
                }
            }
        }
    }
}

/// Entries that hold nothing but inert effects are safe for any state.
pub proof fn lemma_inert_safe(m: Model, entries: Seq<(Id, Seq<EffectModel>)>)
    requires
        touches_only(entries, Set::empty()),
        forall|i: int, j: int|
            0 <= i < entries.len() && 0 <= j < entries[i].1.len() ==> (
            #[trigger] entries[i].1[j] matches EffectModel::Create(c) ==> kit_ok(c.components)),
    ensures
        entries_safe(m, entries),
{
    assert forall|i: int| 0 <= i < entries.len() implies entry_safe(
        m,
        (#[trigger] entries[i]).0,
        entries[i].1,
    ) by {
        assert(all_inert(entries[i].1));
        assert forall|j: int| 0 <= j < entries[i].1.len() implies effect_fits(
            m,
            entries[i].0,
            #[trigger] entries[i].1[j],
        ) && (entries[i].1[j] is Wound ==> forall|k: int|
            0 <= k < j ==> inert(#[trigger] entries[i].1[k])) by {
            assert(inert(entries[i].1[j]));
        }
    }
    assert forall|i: int, k: int|
        0 <= k < i < entries.len() && has_wound((#[trigger] entries[i]).1) && (
        #[trigger] entries[k]).0 == entries[i].0 implies all_inert(entries[k].1) by {
        assert(all_inert(entries[k].1));
    }
}

/// Entries that touch only some entities touch only those of any
/// larger set.
pub proof fn lemma_touches_more(entries: Seq<(Id, Seq<EffectModel>)>, small: Set<Id>, large: Set<Id>)
    requires
        touches_only(entries, small),
        forall|id: Id| #[trigger] small.contains(id) ==> large.contains(id),
    ensures
        touches_only(entries, large),
{
}

/// No entry before the slot of an entity is for that entity.
pub proof fn lemma_first_slot<T>(entries: Seq<(Id, Seq<T>)>, id: Id, from: int, at: int)
    requires
        0 <= from <= at < entries.len(),
        entries[at].0 == id,
    ensures
        from <= entry_slot(entries, id, from) <= at,
    decreases entries.len() - from,
{
    if entries[from].0 != id {
        lemma_first_slot(entries, id, from + 1, at);
    }
}

/// Where an entity has no slot, no entry is for it.
pub proof fn lemma_no_slot<T>(entries: Seq<(Id, Seq<T>)>, id: Id, from: int)
    requires
        0 <= from,
        entry_slot(entries, id, from) >= entries.len(),
    ensures
        forall|k: int| from <= k < entries.len() ==> (#[trigger] entries[k]).0 != id,
    decreases entries.len() - from,
{
    if from < entries.len() {
        lemma_no_slot(entries, id, from + 1);
    }
}

} // verus!
