//! Laws of the battle: what holds of every state and of every command,
//! proved from the contracts of the functions that change states.
//!
//! That a refused command changes nothing, that the counters of the
//! agents stay at zero or above and that every strength stays within
//! its bounds is stated where it happens: by `execute` and by `apply`;
//! the lemmas on strengths are in `state::safety`.

use vstd::prelude::*;

use crate::battle::ability::RechargeableAbility;
use crate::battle::ability::Status;
use crate::battle::capped_sum;
use crate::battle::command::CommandModel;
use crate::battle::component::Agent;
use crate::battle::ability::PassiveAbility;
use crate::battle::component::PlannedAbility;
use crate::battle::effect::Timed;
use crate::battle::execute::passive_event;
use crate::battle::execute::tick_event;
use crate::battle::model::ActiveModel;
use crate::battle::model::EffectModel;
use crate::battle::model::EventModel;
use crate::battle::model::Model;
use crate::map::PosHex;
use crate::battle::state::apply::agents_after;
use crate::battle::state::apply::recharged;
use crate::battle::state::ids_where;
use crate::battle::state::lemma_ids_where;
use crate::battle::state::rows_in_range;
use crate::battle::state::Pick;
use crate::battle::table::ID_LIMIT;
use crate::battle::Id;
use crate::battle::PlayerId;
use crate::game::Level;
use crate::utils::SimpleRng;

verus! {

/// The state after the first `n` commands of a list, each carried out
/// unless it is refused, and the generator after them.
pub open spec fn replayed(m: Model, rng: SimpleRng, commands: Seq<CommandModel>, n: int) -> (
    Model,
    SimpleRng,
)
    decreases n,
{
    if n <= 0 {
        (m, rng)
    } else {
        let before = replayed(m, rng, commands, n - 1);
        if before.0.refusal(commands[n - 1]).is_some() {
            before
        } else {
            before.0.run(commands[n - 1], before.1)
        }
    }
}

/// A battle is determined by where it starts: the same state, the same
/// seed and the same commands give the same refusals, the same final
/// state and the same battle result.
pub proof fn lemma_replay_is_determined(
    first: Model,
    second: Model,
    first_rng: SimpleRng,
    second_rng: SimpleRng,
    commands: Seq<CommandModel>,
    n: int,
)
    requires
        first == second,
        first_rng == second_rng,
    ensures
        replayed(first, first_rng, commands, n) == replayed(second, second_rng, commands, n),
        replayed(first, first_rng, commands, n).0.battle_result == replayed(
            second,
            second_rng,
            commands,
            n,
        ).0.battle_result,
        0 < n <= commands.len() ==> replayed(first, first_rng, commands, n - 1).0.refusal(
            commands[n - 1],
        ) == replayed(second, second_rng, commands, n - 1).0.refusal(commands[n - 1]),
{
}

/// Once the battle has a result, every command is refused because the
/// battle has ended, whoever moves.
pub proof fn lemma_decided_battle_refuses(m: Model, command: CommandModel)
    requires
        m.battle_result.is_some(),
    ensures
        m.refusal(command) == Some(crate::battle::check::Error::BattleEnded),
{
    reveal(Model::refusal);
}

/// A round that passes never lengthens the cooldown of an ability: a
/// running cooldown loses exactly one round, and an ability that is
/// ready stays ready.
pub proof fn lemma_round_never_lengthens_cooldowns(list: Seq<RechargeableAbility>, i: int)
    requires
        0 <= i < list.len(),
        list[i].status.wf(),
    ensures
        recharged(list).len() == list.len(),
        recharged(list)[i].ability == list[i].ability,
        recharged(list)[i].status.wf(),
        recharged(list)[i].status.rounds_left() <= list[i].status.rounds_left(),
        list[i].status is Cooldown ==> recharged(list)[i].status.rounds_left()
            == list[i].status.rounds_left() - 1,
        list[i].status is Ready ==> recharged(list)[i].status is Ready,
{
}

/// What a walk over a list of agents in ascending order makes of each
/// agent: those on the list are changed once, the others not at all.
pub proof fn lemma_agents_after(
    before: Map<int, Agent>,
    ids: Seq<Id>,
    change: spec_fn(Id, Agent) -> Agent,
    n: int,
)
    requires
        0 <= n <= ids.len(),
        forall|i: int, j: int| 0 <= i < j < ids.len() ==> (#[trigger] ids[i]).0 < (#[trigger] ids[j]).0,
    ensures
        agents_after(before, ids, change, n).dom() == before.dom(),
        forall|k: int| #[trigger]
            before.contains_key(k) ==> agents_after(before, ids, change, n)[k] == (if exists|j: int|
                0 <= j < n && (#[trigger] ids[j]).0 == k {
                change(Id(k as i32), before[k])
            } else {
                before[k]
            }),
    decreases n,
{
    if n > 0 {
        lemma_agents_after(before, ids, change, n - 1);
        let m = agents_after(before, ids, change, n - 1);
        let id = ids[n - 1];
        let after = agents_after(before, ids, change, n);
        assert(after.dom() =~= before.dom());
        assert forall|k: int| #[trigger] before.contains_key(k) implies after[k] == (if exists|
            j: int,
        |
            0 <= j < n && (#[trigger] ids[j]).0 == k {
            change(Id(k as i32), before[k])
        } else {
            before[k]
        }) by {
            if k == id.0 {
                assert(ids[n - 1].0 == k);
                assert(!exists|j: int| 0 <= j < n - 1 && (#[trigger] ids[j]).0 == k) by {
                    if exists|j: int| 0 <= j < n - 1 && (#[trigger] ids[j]).0 == k {
                        let j = choose|j: int| 0 <= j < n - 1 && (#[trigger] ids[j]).0 == k;
                        assert(ids[j].0 < ids[n - 1].0);
                    }
                }
                assert(id == Id(k as i32));
            } else {
                if exists|j: int| 0 <= j < n && (#[trigger] ids[j]).0 == k {
                    let j = choose|j: int| 0 <= j < n && (#[trigger] ids[j]).0 == k;
                    assert(j < n - 1);
                }
            }
        }
    }
}

/// What a walk over the agents of a player makes of each agent: the
/// agents of the player are changed once, the others not at all.
pub proof fn lemma_agents_of_changed(
    m: Model,
    player: PlayerId,
    before: Map<int, Agent>,
    change: spec_fn(Id, Agent) -> Agent,
)
    requires
        before.dom() == m.agent.dom(),
        rows_in_range(m),
    ensures
        agents_after(
            before,
            m.agent_ids_of(player),
            change,
            m.agent_ids_of(player).len() as int,
        ).dom() == before.dom(),
        forall|k: int| #[trigger]
            before.contains_key(k) ==> agents_after(
                before,
                m.agent_ids_of(player),
                change,
                m.agent_ids_of(player).len() as int,
            )[k] == (if m.owned_by(k, player) {
                change(Id(k as i32), before[k])
            } else {
                before[k]
            }),
{
    let ids = m.agent_ids_of(player);
    lemma_ids_where(m, Pick::AgentsOf(player), ID_LIMIT as int);
    lemma_agents_after(before, ids, change, ids.len() as int);
    let after = agents_after(before, ids, change, ids.len() as int);
    assert forall|k: int| #[trigger] before.contains_key(k) implies after[k] == (if m.owned_by(
        k,
        player,
    ) {
        change(Id(k as i32), before[k])
    } else {
        before[k]
    }) by {
        if exists|j: int| 0 <= j < ids.len() && (#[trigger] ids[j]).0 == k {
            let j = choose|j: int| 0 <= j < ids.len() && (#[trigger] ids[j]).0 == k;
            assert(m.picks(Pick::AgentsOf(player), ids[j].0 as int));
        } else {
            if m.owned_by(k, player) {
                assert(m.agent.contains_key(k));
                assert(m.picks(Pick::AgentsOf(player), k));
                assert(ids.contains(Id(k as i32)));
                let j = choose|j: int| 0 <= j < ids.len() && ids[j] == Id(k as i32);
                assert(ids[j].0 == k);
            }
        }
    }
}

/// The agent as the bookkeeping of the end of a turn leaves it, seen
/// from the state `m` before: an agent of the player who ends the turn
/// gets its reactive attacks (or loses its attacks, where stuns count
/// and it is stunned), and an agent of the next player starts its turn.
pub open spec fn kept_agent(m: Model, k: int, stuns_count: bool) -> Agent {
    let agent = m.agent[k];
    if m.owned_by(k, m.player_id) {
        if stuns_count && m.is_stunned(Id(k as i32)) {
            crate::battle::state::apply::disarmed(agent)
        } else {
            crate::battle::state::apply::replenished(agent)
        }
    } else {
        agent
    }
}

/// The agents after the bookkeeping of the end of a turn, where the
/// lasting effects the agents start their turn under are those of `at_reset`.
pub open spec fn turned_agent(m: Model, at_reset: Model, k: int, stuns_count: bool) -> Agent {
    let agent = kept_agent(m, k, stuns_count);
    if m.owned_by(k, m.following_player()) {
        if at_reset.is_stunned(Id(k as i32)) {
            agent.stunned()
        } else {
            agent.refreshed()
        }
    } else {
        agent
    }
}

/// The end of a turn on the first three levels leaves every agent as
/// `turned_agent` says, and passes the turn to the next player.
pub proof fn lemma_end_turn_agents(m: Model)
    requires
        rows_in_range(m),
        m.level == Level::Level0 || m.level == Level::Level1 || m.level == Level::Level2,
    ensures
        m.end_turn().agent.dom() == m.agent.dom(),
        forall|k: int| #[trigger]
            m.agent.contains_key(k) ==> m.end_turn().agent[k] == turned_agent(m, m, k, false),
        m.end_turn().player_id == m.following_player(),
        m.end_turn().players_count == m.players_count,
        m.end_turn().level == m.level,
        m.end_turn().belongs_to == m.belongs_to,
        m.end_turn().effects == m.effects,
        rows_in_range(m.end_turn()),
{
    reveal(Model::end_turn);
    reveal(Model::end_turn_simple);
    reveal(Model::end_turn_planned);
    let next = m.following_player();
    let replenish = |id: Id, agent: Agent| crate::battle::state::apply::replenished(agent);
    lemma_agents_of_changed(m, m.player_id, m.agent, replenish);
    let m1 = m.reattack(m.agent_ids_of(m.player_id));
    let m1p = if m.level == Level::Level2 {
        m1.planned_pruned()
    } else {
        m1
    };
    let m2 = Model { player_id: next, ..m1p };
    let reset = |id: Id, agent: Agent|
        if m2.is_stunned(id) {
            agent.stunned()
        } else {
            agent.refreshed()
        };
    assert(m1p.agent_ids_of(next) == ids_where(m1p, Pick::AgentsOf(next), ID_LIMIT as int));
    lemma_agents_of_changed(m1p, next, m2.agent, reset);
    assert forall|k: int| #[trigger] m.agent.contains_key(k) implies m.end_turn().agent[k]
        == turned_agent(m, m, k, false) by {
        assert(m1.agent.contains_key(k));
        assert(m1p.owned_by(k, next) == m.owned_by(k, next));
        assert(m2.is_stunned(Id(k as i32)) == m.is_stunned(Id(k as i32)));
    }
}

} // verus!

verus! {

/// Whether the second state has no agent that the first has not, and
/// gives no agent more attacks than the first, nor other counters to
/// start a turn with.
pub open spec fn attacks_not_raised(before: Model, after: Model) -> bool {
    forall|k: int| #[trigger]
        after.agent.contains_key(k) ==> before.agent.contains_key(k) && after.agent[k].attacks.0
            <= before.agent[k].attacks.0 && after.agent[k].base_attacks
            == before.agent[k].base_attacks && after.agent[k].reactive_attacks
            == before.agent[k].reactive_attacks
}

/// Whether an event is one of a passive ability or of a round or the
/// end of a lasting effect, and creates no entity.
pub open spec fn calm(event: EventModel) -> bool {
    &&& event.active is UsePassiveAbility || event.active is EffectTick || event.active is EffectEnd
    &&& forall|i: int, j: int|
        0 <= i < event.instant.len() && 0 <= j < event.instant[i].1.len() ==> !(
        #[trigger] event.instant[i].1[j] is Create)
}

proof fn lemma_instants_calm(m: Model, id: Id, effects: Seq<EffectModel>, n: int)
    requires
        0 <= n <= effects.len(),
        m.agents_ok(),
        forall|j: int| 0 <= j < effects.len() ==> !(#[trigger] effects[j] is Create),
    ensures
        rows_in_range(m) ==> rows_in_range(m.instants(id, effects, n)),
        m.instants(id, effects, n).agents_ok(),
        attacks_not_raised(m, m.instants(id, effects, n)),
        m.instants(id, effects, n).belongs_to.dom().subset_of(m.belongs_to.dom()),
        forall|k: int| #[trigger]
            m.instants(id, effects, n).belongs_to.contains_key(k) ==> m.instants(
                id,
                effects,
                n,
            ).belongs_to[k] == m.belongs_to[k],
        m.instants(id, effects, n).player_id == m.player_id,
        m.instants(id, effects, n).players_count == m.players_count,
        m.instants(id, effects, n).level == m.level,
        forall|k: int| #[trigger]
            m.instants(id, effects, n).abilities.contains_key(k) ==> m.abilities.contains_key(k)
                && m.instants(id, effects, n).abilities[k] == m.abilities[k],
    decreases n,
{
    reveal(Model::instant);
    if n > 0 {
        lemma_instants_calm(m, id, effects, n - 1);
        assert(!(effects[n - 1] is Create));
    }
}

proof fn lemma_all_instants_calm(m: Model, entries: Seq<(Id, Seq<EffectModel>)>, n: int)
    requires
        0 <= n <= entries.len(),
        m.agents_ok(),
        forall|i: int, j: int|
            0 <= i < entries.len() && 0 <= j < entries[i].1.len() ==> !(
            #[trigger] entries[i].1[j] is Create),
    ensures
        rows_in_range(m) ==> rows_in_range(m.all_instants(entries, n)),
        m.all_instants(entries, n).agents_ok(),
        attacks_not_raised(m, m.all_instants(entries, n)),
        m.all_instants(entries, n).belongs_to.dom().subset_of(m.belongs_to.dom()),
        forall|k: int| #[trigger]
            m.all_instants(entries, n).belongs_to.contains_key(k) ==> m.all_instants(
                entries,
                n,
            ).belongs_to[k] == m.belongs_to[k],
        m.all_instants(entries, n).player_id == m.player_id,
        m.all_instants(entries, n).players_count == m.players_count,
        m.all_instants(entries, n).level == m.level,
        forall|k: int| #[trigger]
            m.all_instants(entries, n).abilities.contains_key(k) ==> m.abilities.contains_key(k)
                && m.all_instants(entries, n).abilities[k] == m.abilities[k],
    decreases n,
{
    if n > 0 {
        lemma_all_instants_calm(m, entries, n - 1);
        let before = m.all_instants(entries, n - 1);
        assert forall|j: int| 0 <= j < entries[n - 1].1.len() implies !(
        #[trigger] entries[n - 1].1[j] is Create) by {}
        lemma_instants_calm(before, entries[n - 1].0, entries[n - 1].1, entries[n - 1].1.len() as int);
    }
}

proof fn lemma_timeds_keep_agents(m: Model, entries: Seq<(Id, Seq<Timed>)>, n: int)
    ensures
        rows_in_range(m) ==> rows_in_range(m.all_timeds(entries, n)),
        m.all_timeds(entries, n).agent == m.agent,
        m.all_timeds(entries, n).belongs_to == m.belongs_to,
        m.all_timeds(entries, n).player_id == m.player_id,
        m.all_timeds(entries, n).players_count == m.players_count,
        m.all_timeds(entries, n).level == m.level,
        m.all_timeds(entries, n).abilities == m.abilities,
    decreases n,
{
    if n > 0 {
        lemma_timeds_keep_agents(m, entries, n - 1);
        lemma_timed_row_keeps_agents(
            m.all_timeds(entries, n - 1),
            entries[n - 1].0,
            entries[n - 1].1,
            entries[n - 1].1.len() as int,
        );
    }
}

proof fn lemma_timed_row_keeps_agents(m: Model, id: Id, effects: Seq<Timed>, n: int)
    ensures
        rows_in_range(m) ==> rows_in_range(m.timeds(id, effects, n)),
        m.timeds(id, effects, n).agent == m.agent,
        m.timeds(id, effects, n).belongs_to == m.belongs_to,
        m.timeds(id, effects, n).player_id == m.player_id,
        m.timeds(id, effects, n).players_count == m.players_count,
        m.timeds(id, effects, n).level == m.level,
        m.timeds(id, effects, n).abilities == m.abilities,
    decreases n,
{
    if n > 0 {
        lemma_timed_row_keeps_agents(m, id, effects, n - 1);
    }
}

proof fn lemma_planneds_keep_agents(m: Model, entries: Seq<(Id, Seq<PlannedAbility>)>, n: int)
    ensures
        rows_in_range(m) ==> rows_in_range(m.all_planneds(entries, n)),
        m.all_planneds(entries, n).agent == m.agent,
        m.all_planneds(entries, n).belongs_to == m.belongs_to,
        m.all_planneds(entries, n).player_id == m.player_id,
        m.all_planneds(entries, n).players_count == m.players_count,
        m.all_planneds(entries, n).level == m.level,
        m.all_planneds(entries, n).abilities == m.abilities,
    decreases n,
{
    if n > 0 {
        lemma_planneds_keep_agents(m, entries, n - 1);
        lemma_planned_row_keeps_agents(
            m.all_planneds(entries, n - 1),
            entries[n - 1].0,
            entries[n - 1].1,
            entries[n - 1].1.len() as int,
        );
    }
}

proof fn lemma_planned_row_keeps_agents(m: Model, id: Id, abilities: Seq<PlannedAbility>, n: int)
    ensures
        rows_in_range(m) ==> rows_in_range(m.planneds(id, abilities, n)),
        m.planneds(id, abilities, n).agent == m.agent,
        m.planneds(id, abilities, n).belongs_to == m.belongs_to,
        m.planneds(id, abilities, n).player_id == m.player_id,
        m.planneds(id, abilities, n).players_count == m.players_count,
        m.planneds(id, abilities, n).level == m.level,
        m.planneds(id, abilities, n).abilities == m.abilities,
    decreases n,
{
    if n > 0 {
        lemma_planned_row_keeps_agents(m, id, abilities, n - 1);
    }
}

/// What holds between a state and a later one in which no agent has
/// gained attacks: see `attacks_not_raised`; in the later state the
/// counters are in order, every entity is owned as in the first, and
/// the rows are in range if they were.
pub open spec fn calmly_later(before: Model, after: Model) -> bool {
    &&& after.agents_ok()
    &&& after.player_id == before.player_id
    &&& after.players_count == before.players_count
    &&& after.level == before.level
    &&& forall|k: int| #[trigger]
        after.abilities.contains_key(k) ==> before.abilities.contains_key(k) && after.abilities[k]
            == before.abilities[k]
    &&& attacks_not_raised(before, after)
    &&& forall|k: int| #[trigger]
        after.belongs_to.contains_key(k) ==> before.belongs_to.contains_key(k)
            && after.belongs_to[k] == before.belongs_to[k]
    &&& rows_in_range(before) ==> rows_in_range(after)
}

/// An event that is calm gives no agent more attacks.
pub proof fn lemma_applied_calm(m: Model, event: EventModel)
    requires
        m.agents_ok(),
        calm(event),
    ensures
        calmly_later(m, m.applied(event)),
{
    reveal(Model::applied);
    reveal(Model::active_applied);
    let active = m.active_applied(event.active);
    assert(calmly_later(m, active));
    lemma_all_instants_calm(active, event.instant, event.instant.len() as int);
    let instant = active.all_instants(event.instant, event.instant.len() as int);
    lemma_timeds_keep_agents(instant, event.timed, event.timed.len() as int);
    let timed = instant.all_timeds(event.timed, event.timed.len() as int);
    lemma_planneds_keep_agents(timed, event.planned, event.planned.len() as int);
}

proof fn lemma_passive_row_calm(
    m: Model,
    id: Id,
    abilities: Seq<PassiveAbility>,
    target: Id,
    pos: PosHex,
    n: int,
)
    requires
        0 <= n <= abilities.len(),
        m.agents_ok(),
    ensures
        calmly_later(m, m.passive_row(id, abilities, target, pos, n)),
    decreases n,
{
    reveal(Model::passive_step);
    if n > 0 {
        lemma_passive_row_calm(m, id, abilities, target, pos, n - 1);
        let before = m.passive_row(id, abilities, target, pos, n - 1);
        let ability = abilities[n - 1];
        if ability == PassiveAbility::SpikeTrap || ability == PassiveAbility::Burn {
            lemma_applied_calm(before, passive_event(id, pos, ability, before.burn_ctx(target)));
        } else if ability == PassiveAbility::Poison {
            lemma_applied_calm(before, passive_event(id, pos, ability, before.poison_ctx(target)));
        }
    }
}

proof fn lemma_passive_rows_calm(
    m: Model,
    rows: Seq<(Id, Seq<PassiveAbility>)>,
    target: Id,
    pos: PosHex,
    n: int,
)
    requires
        0 <= n <= rows.len(),
        m.agents_ok(),
    ensures
        calmly_later(m, m.passive_rows(rows, target, pos, n)),
    decreases n,
{
    if n > 0 {
        lemma_passive_rows_calm(m, rows, target, pos, n - 1);
        let before = m.passive_rows(rows, target, pos, n - 1);
        lemma_passive_row_calm(
            before,
            rows[n - 1].0,
            rows[n - 1].1,
            target,
            pos,
            rows[n - 1].1.len() as int,
        );
    }
}

proof fn lemma_ticks_calm(m: Model, ids: Seq<Id>, n: int)
    requires
        0 <= n <= ids.len(),
        m.agents_ok(),
    ensures
        calmly_later(m, m.ticks(ids, n)),
    decreases n,
{
    reveal(Model::passive_tick);
    if n > 0 {
        lemma_ticks_calm(m, ids, n - 1);
        let before = m.ticks(ids, n - 1);
        let target = ids[n - 1];
        if before.blocker.contains_key(target.0 as int) && before.pos.contains_key(target.0 as int) {
            lemma_passive_rows_calm(
                before,
                before.passive_snap(),
                target,
                before.pos[target.0 as int].0,
                before.passive_snap().len() as int,
            );
        }
    }
}

proof fn lemma_effect_row_calm(m: Model, id: Id, effects: Seq<Timed>, phase: i32, n: int)
    requires
        0 <= n <= effects.len(),
        m.agents_ok(),
    ensures
        calmly_later(m, m.effect_row(id, effects, phase, n).0),
    decreases n,
{
    if n > 0 {
        lemma_effect_row_calm(m, id, effects, phase, n - 1);
        let before = m.effect_row(id, effects, phase, n - 1);
        if !(before.1 || effects[n - 1].phase.0 != phase) {
            let tick = tick_event(
                id,
                effects[n - 1].effect,
                before.0.tick_effects(id, effects[n - 1].effect),
            );
            lemma_applied_calm(before.0, tick);
            lemma_applied_calm(
                before.0.applied(tick),
                crate::battle::execute::effect_end_event(id, effects[n - 1].effect),
            );
        }
    }
}

proof fn lemma_effect_rows_calm(m: Model, rows: Seq<(Id, Seq<Timed>)>, phase: i32, n: int)
    requires
        0 <= n <= rows.len(),
        m.agents_ok(),
    ensures
        calmly_later(m, m.effect_rows(rows, phase, n)),
    decreases n,
{
    if n > 0 {
        lemma_effect_rows_calm(m, rows, phase, n - 1);
        lemma_effect_row_calm(
            m.effect_rows(rows, phase, n - 1),
            rows[n - 1].0,
            rows[n - 1].1,
            phase,
            rows[n - 1].1.len() as int,
        );
    }
}

/// The start of a round gives no agent more attacks.
pub proof fn lemma_round_begun_calm(m: Model)
    requires
        m.agents_ok(),
    ensures
        calmly_later(m, m.round_begun()),
{
    reveal(Model::round_begun);
    reveal(Model::effects_run);
    let ids = m.agent_ids_of(m.player_id);
    lemma_ticks_calm(m, ids, ids.len() as int);
    let ticked = m.ticks(ids, ids.len() as int);
    lemma_effect_rows_calm(
        ticked,
        ticked.effects_snap(),
        ticked.player_id.0,
        ticked.effects_snap().len() as int,
    );
}

/// The bookkeeping of the end of a turn from the fourth level on
/// leaves every agent as `turned_agent` says, with the stuns that hold
/// after the outdated lasting effects were dropped, and passes the
/// turn to the next player.
pub proof fn lemma_end_turn_kept_agents(m: Model)
    requires
        rows_in_range(m),
    ensures
        m.end_turn_kept().agent.dom() == m.agent.dom(),
        forall|k: int| #[trigger]
            m.agent.contains_key(k) ==> m.end_turn_kept().agent[k] == turned_agent(
                m,
                m.lasting_pruned(),
                k,
                true,
            ),
        m.end_turn_kept().player_id == m.following_player(),
        m.end_turn_kept().players_count == m.players_count,
        m.end_turn_kept().level == m.level,
        m.end_turn_kept().belongs_to == m.belongs_to,
        rows_in_range(m.end_turn_kept()),
{
    reveal(Model::end_turn_kept);
    let next = m.following_player();
    let replenish = |id: Id, agent: Agent|
        if m.is_stunned(id) {
            crate::battle::state::apply::disarmed(agent)
        } else {
            crate::battle::state::apply::replenished(agent)
        };
    lemma_agents_of_changed(m, m.player_id, m.agent, replenish);
    let m1 = m.reattack_with_stun(m.agent_ids_of(m.player_id)).planned_pruned().lasting_pruned();
    let m2 = Model { player_id: next, ..m1 };
    let reset = |id: Id, agent: Agent|
        if m2.is_stunned(id) {
            agent.stunned()
        } else {
            agent.refreshed()
        };
    assert(m1.agent_ids_of(next) == ids_where(m1, Pick::AgentsOf(next), ID_LIMIT as int));
    lemma_agents_of_changed(m1, next, m2.agent, reset);
    assert forall|k: int| #[trigger] m.agent.contains_key(k) implies m.end_turn_kept().agent[k]
        == turned_agent(m, m.lasting_pruned(), k, true) by {
        assert(m1.agent.contains_key(k));
        assert(m1.owned_by(k, next) == m.owned_by(k, next));
        assert(m2.effects == m.lasting_pruned().effects);
        assert(m2.is_stunned(Id(k as i32)) == m.lasting_pruned().is_stunned(Id(k as i32)));
    }
}

/// The end of a turn leaves the counters of the agents in order and
/// the rows in range, and passes the turn to the next player.
pub proof fn lemma_end_turn_ok(m: Model)
    requires
        rows_in_range(m),
        m.agents_ok(),
    ensures
        m.end_turn().agents_ok(),
        m.end_turn().player_id == m.following_player(),
        m.end_turn().players_count == m.players_count,
        m.end_turn().level == m.level,
        rows_in_range(m.end_turn()),
{
    reveal(Model::end_turn);
    reveal(Model::end_turn_full);
    if m.level == Level::Level0 || m.level == Level::Level1 || m.level == Level::Level2 {
        lemma_end_turn_agents(m);
        assert forall|j: int| #[trigger] m.end_turn().agent.contains_key(j) implies m.end_turn().agent[j].wf() by {
            assert(m.agent.contains_key(j));
            assert(m.agent[j].wf());
        }
    } else {
        lemma_end_turn_kept_agents(m);
        let kept = m.end_turn_kept();
        assert forall|j: int| #[trigger] kept.agent.contains_key(j) implies kept.agent[j].wf() by {
            assert(m.agent.contains_key(j));
            assert(m.agent[j].wf());
        }
        if kept.player_id.0 == 0 {
            lemma_round_begun_calm(kept);
        }
    }
}

/// The end of a turn leaves the agents that are still there with no
/// more attacks than `turned_agent` gives them, on every level.
pub proof fn lemma_end_turn_bounds(m: Model, k: int)
    requires
        rows_in_range(m),
        m.agents_ok(),
        m.end_turn().agent.contains_key(k),
    ensures
        m.agent.contains_key(k),
        m.end_turn().agent[k].base_attacks == m.agent[k].base_attacks,
        m.end_turn().agent[k].reactive_attacks == m.agent[k].reactive_attacks,
        m.end_turn().agent[k].attacks.0 <= (if m.owned_by(k, m.following_player()) {
            m.agent[k].base_attacks.0
        } else if m.owned_by(k, m.player_id) {
            capped_sum(m.agent[k].attacks.0, m.agent[k].reactive_attacks.0)
        } else {
            m.agent[k].attacks.0
        }),
        m.end_turn().belongs_to.contains_key(k) ==> m.belongs_to.contains_key(k)
            && m.end_turn().belongs_to[k] == m.belongs_to[k],
{
    reveal(Model::end_turn);
    reveal(Model::end_turn_full);
    if m.level == Level::Level0 || m.level == Level::Level1 || m.level == Level::Level2 {
        lemma_end_turn_agents(m);
        assert(m.agent[k].wf());
    } else {
        lemma_end_turn_kept_agents(m);
        let kept = m.end_turn_kept();
        assert forall|j: int| #[trigger] kept.agent.contains_key(j) implies kept.agent[j].wf() by {
            assert(m.agent.contains_key(j));
            assert(m.agent[j].wf());
        }
        if kept.player_id.0 == 0 {
            lemma_round_begun_calm(kept);
        }
        assert(m.agent.contains_key(k));
        assert(m.agent[k].wf());
    }
}

/// Ending the turn twice in a row, in a battle of two players on any
/// level, leaves no agent of a player with more attacks than those it
/// starts a turn with and one replenishment of reactive attacks on top.
pub proof fn lemma_end_turn_twice(m: Model, k: int)
    requires
        rows_in_range(m),
        m.agents_ok(),
        m.players_count == 2,
        m.player_id.0 == 0 || m.player_id.0 == 1,
        m.end_turn().end_turn().agent.contains_key(k),
        m.end_turn().end_turn().belongs_to.contains_key(k),
        m.end_turn().end_turn().belongs_to[k].0.0 == 0 || m.end_turn().end_turn().belongs_to[k].0.0
            == 1,
    ensures
        m.agent.contains_key(k),
        m.end_turn().end_turn().agent[k].attacks.0 <= capped_sum(
            m.agent[k].base_attacks.0,
            m.agent[k].reactive_attacks.0,
        ),
        m.end_turn().end_turn().player_id == m.player_id,
{
    let m1 = m.end_turn();
    lemma_end_turn_ok(m);
    lemma_end_turn_ok(m1);
    lemma_end_turn_bounds(m1, k);
    lemma_end_turn_bounds(m, k);
    assert(m.agent[k].wf());
}

/// The decision of a battle changes nothing but the result on record.
pub proof fn lemma_results_keep(m: Model, n: int)
    ensures
        m.results(n) == (Model { battle_result: m.results(n).battle_result, ..m }),
    decreases n,
{
    reveal(Model::applied);
    reveal(Model::active_applied);
    if n > 0 {
        lemma_results_keep(m, n - 1);
        let before = m.results(n - 1);
        let player = PlayerId((n - 1) as i32);
        if before.enemy_ids_of(player).len() == 0 {
            let event = crate::battle::execute::end_battle_event(
                crate::battle::model::ResultModel {
                    winner_id: player,
                    survivor_types: crate::battle::state::kinds_of(
                        before,
                        before.agent_ids_of(PlayerId(0)),
                        before.agent_ids_of(PlayerId(0)).len() as int,
                    ),
                    level: before.level,
                },
            );
            let active = before.active_applied(event.active);
            assert(active.all_instants(event.instant, 0) == active);
            assert(active.all_timeds(event.timed, 0) == active);
            assert(active.all_planneds(event.planned, 0) == active);
        }
    }
}

/// Whether the plans that are due in a state give no agent attacks
/// when they are carried out, and leave the turn and the owners as
/// they are. A plan gives attacks where an agent has rage planned.
pub open spec fn plans_quiet(m: Model, rng: SimpleRng) -> bool {
    let after = m.planned_abilities(rng).0;
    &&& attacks_not_raised(m, after)
    &&& after.player_id == m.player_id
    &&& after.players_count == m.players_count
    &&& forall|k: int| #[trigger]
        after.belongs_to.contains_key(k) ==> m.belongs_to.contains_key(k) && after.belongs_to[k]
            == m.belongs_to[k]
}

/// Two commands to end the turn, carried out one after the other in a
/// battle of two players, leave no agent of a player with more
/// attacks than those it starts a turn with and one replenishment of
/// reactive attacks on top, unless a plan that is carried out in
/// between gives attacks.
pub proof fn lemma_end_turn_commands_twice(m: Model, rng: SimpleRng, k: int)
    requires
        rows_in_range(m),
        m.agents_ok(),
        m.players_count == 2,
        m.player_id.0 == 0 || m.player_id.0 == 1,
        m.refusal(CommandModel::EndTurn).is_none(),
        plans_quiet(m.end_turn(), rng),
        rows_in_range(m.run(CommandModel::EndTurn, rng).0),
        m.run(CommandModel::EndTurn, rng).0.agents_ok(),
        m.run(CommandModel::EndTurn, rng).0.refusal(CommandModel::EndTurn).is_none(),
        plans_quiet(
            m.run(CommandModel::EndTurn, rng).0.end_turn(),
            m.run(CommandModel::EndTurn, rng).1,
        ),
        twice_ended(m, rng).agent.contains_key(k),
        twice_ended(m, rng).belongs_to.contains_key(k),
        twice_ended(m, rng).belongs_to[k].0.0 == 0 || twice_ended(m, rng).belongs_to[k].0.0 == 1,
    ensures
        m.agent.contains_key(k),
        twice_ended(m, rng).agent[k].attacks.0 <= capped_sum(
            m.agent[k].base_attacks.0,
            m.agent[k].reactive_attacks.0,
        ),
{
    reveal(Model::run);
    let ended_first = m.end_turn();
    let plans_first = ended_first.planned_abilities(rng);
    let first = m.run(CommandModel::EndTurn, rng);
    lemma_results_keep(plans_first.0, plans_first.0.players_count as int);
    assert(first.0.agent == plans_first.0.agent);
    assert(first.0.belongs_to == plans_first.0.belongs_to);
    let m1 = first.0;
    let ended_second = m1.end_turn();
    let plans_second = ended_second.planned_abilities(first.1);
    lemma_results_keep(plans_second.0, plans_second.0.players_count as int);
    let m2 = twice_ended(m, rng);
    assert(m2.agent == plans_second.0.agent);
    assert(m2.belongs_to == plans_second.0.belongs_to);
    lemma_end_turn_ok(m);
    lemma_end_turn_ok(m1);
    assert(ended_second.agent.contains_key(k));
    lemma_end_turn_bounds(m1, k);
    assert(plans_first.0.agent.contains_key(k));
    assert(ended_first.agent.contains_key(k));
    lemma_end_turn_bounds(m, k);
    assert(m.agent[k].wf());
}

/// The state after two commands to end the turn, carried out one after
/// the other.
pub open spec fn twice_ended(m: Model, rng: SimpleRng) -> Model {
    let first = m.run(CommandModel::EndTurn, rng);
    first.0.run(CommandModel::EndTurn, first.1).0
}

/// Whether no ability of the second state has more rounds of cooldown
/// left than it has in the first, and none is another ability.
pub open spec fn cooldowns_not_raised(before: Model, after: Model) -> bool {
    forall|k: int, i: int|
        after.abilities.contains_key(k) && 0 <= i < after.abilities[k].len() ==> {
            &&& before.abilities.contains_key(k)
            &&& before.abilities[k].len() == after.abilities[k].len()
            &&& (#[trigger] after.abilities[k][i]).ability == before.abilities[k][i].ability
            &&& after.abilities[k][i].status.rounds_left()
                <= before.abilities[k][i].status.rounds_left()
        }
}

proof fn lemma_abilities_after(before: Map<int, Seq<RechargeableAbility>>, ids: Seq<Id>, n: int)
    requires
        0 <= n <= ids.len(),
    ensures
        crate::battle::state::apply::abilities_after(before, ids, n).dom() == before.dom(),
        forall|k: int, i: int|
            before.contains_key(k) && 0 <= i < crate::battle::state::apply::abilities_after(
                before,
                ids,
                n,
            )[k].len() ==> {
                &&& before[k].len() == crate::battle::state::apply::abilities_after(
                    before,
                    ids,
                    n,
                )[k].len()
                &&& (#[trigger] crate::battle::state::apply::abilities_after(
                    before,
                    ids,
                    n,
                )[k][i]).ability == before[k][i].ability
                &&& crate::battle::state::apply::abilities_after(
                    before,
                    ids,
                    n,
                )[k][i].status.rounds_left() <= before[k][i].status.rounds_left()
            },
    decreases n,
{
    if n > 0 {
        lemma_abilities_after(before, ids, n - 1);
        let m = crate::battle::state::apply::abilities_after(before, ids, n - 1);
        let after = crate::battle::state::apply::abilities_after(before, ids, n);
        assert(after.dom() =~= before.dom());
        assert forall|k: int, i: int| before.contains_key(k) && 0 <= i < after[k].len() implies {
            &&& before[k].len() == after[k].len()
            &&& (#[trigger] after[k][i]).ability == before[k][i].ability
            &&& after[k][i].status.rounds_left() <= before[k][i].status.rounds_left()
        } by {
            assert(m.contains_key(k));
            if k == ids[n - 1].0 {
                assert(after[k] == recharged(m[k]));
                assert(m[k][i].ability == before[k][i].ability);
            } else {
                assert(after[k] == m[k]);
                assert(m[k][i].ability == before[k][i].ability);
            }
        }
    }
}

/// Whether an event is no use of an ability and creates no entity.
pub open spec fn uses_no_ability(event: EventModel) -> bool {
    &&& !(event.active is UseAbility)
    &&& forall|i: int, j: int|
        0 <= i < event.instant.len() && 0 <= j < event.instant[i].1.len() ==> !(
        #[trigger] event.instant[i].1[j] is Create)
}

proof fn lemma_instants_keep_abilities(m: Model, id: Id, effects: Seq<EffectModel>, n: int)
    requires
        0 <= n <= effects.len(),
        forall|j: int| 0 <= j < effects.len() ==> !(#[trigger] effects[j] is Create),
    ensures
        forall|k: int| #[trigger]
            m.instants(id, effects, n).abilities.contains_key(k) ==> m.abilities.contains_key(k)
                && m.instants(id, effects, n).abilities[k] == m.abilities[k],
    decreases n,
{
    reveal(Model::instant);
    if n > 0 {
        lemma_instants_keep_abilities(m, id, effects, n - 1);
        assert(!(effects[n - 1] is Create));
    }
}

proof fn lemma_all_instants_keep_abilities(
    m: Model,
    entries: Seq<(Id, Seq<EffectModel>)>,
    n: int,
)
    requires
        0 <= n <= entries.len(),
        forall|i: int, j: int|
            0 <= i < entries.len() && 0 <= j < entries[i].1.len() ==> !(
            #[trigger] entries[i].1[j] is Create),
    ensures
        forall|k: int| #[trigger]
            m.all_instants(entries, n).abilities.contains_key(k) ==> m.abilities.contains_key(k)
                && m.all_instants(entries, n).abilities[k] == m.abilities[k],
    decreases n,
{
    if n > 0 {
        lemma_all_instants_keep_abilities(m, entries, n - 1);
        let before = m.all_instants(entries, n - 1);
        assert forall|j: int| 0 <= j < entries[n - 1].1.len() implies !(
        #[trigger] entries[n - 1].1[j] is Create) by {}
        lemma_instants_keep_abilities(
            before,
            entries[n - 1].0,
            entries[n - 1].1,
            entries[n - 1].1.len() as int,
        );
    }
}

/// An event that is no use of an ability and creates no entity never
/// lengthens a cooldown: the abilities that are still there after it
/// have the rounds left that they had, or fewer.
pub proof fn lemma_event_never_lengthens_cooldowns(m: Model, event: EventModel)
    requires
        uses_no_ability(event),
    ensures
        cooldowns_not_raised(m, m.applied(event)),
{
    reveal(Model::applied);
    reveal(Model::active_applied);
    reveal(Model::turn_ended);
    reveal(Model::turn_begun);
    let active = m.active_applied(event.active);
    if let ActiveModel::BeginTurn(player) = event.active {
        let m1 = (Model { player_id: player, ..m }).durations_updated().moves_reset(
            player,
        ).lasting_applied();
        let ids = m1.agent_ids_of(player);
        assert(m1.abilities == m.abilities);
        lemma_abilities_after(m1.abilities, ids, ids.len() as int);
    }
    assert(cooldowns_not_raised(m, active));
    lemma_all_instants_keep_abilities(active, event.instant, event.instant.len() as int);
    let instant = active.all_instants(event.instant, event.instant.len() as int);
    lemma_timeds_keep_agents(instant, event.timed, event.timed.len() as int);
    let timed = instant.all_timeds(event.timed, event.timed.len() as int);
    lemma_planneds_keep_agents(timed, event.planned, event.planned.len() as int);
}

/// Cooldowns that are not raised from a first state to a second, nor
/// from the second to a third, are not raised from the first to the
/// third.
pub proof fn lemma_cooldowns_chain(a: Model, b: Model, c: Model)
    requires
        cooldowns_not_raised(a, b),
        cooldowns_not_raised(b, c),
    ensures
        cooldowns_not_raised(a, c),
{
    assert forall|k: int, i: int|
        c.abilities.contains_key(k) && 0 <= i < c.abilities[k].len() implies {
        &&& a.abilities.contains_key(k)
        &&& a.abilities[k].len() == c.abilities[k].len()
        &&& (#[trigger] c.abilities[k][i]).ability == a.abilities[k][i].ability
        &&& c.abilities[k][i].status.rounds_left() <= a.abilities[k][i].status.rounds_left()
    } by {
        assert(b.abilities[k][i].ability == c.abilities[k][i].ability);
        assert(a.abilities[k][i].ability == b.abilities[k][i].ability);
    }
}

/// One attack never lengthens a cooldown.
pub proof fn lemma_attack_keeps_cooldowns(
    m: Model,
    attacker: Id,
    target: Id,
    mode: crate::battle::event::AttackMode,
    rng: SimpleRng,
)
    ensures
        cooldowns_not_raised(m, m.attack_internal(attacker, target, mode, rng).0),
{
    reveal(Model::attack_internal);
    reveal(Model::attack_outcome);
    reveal(Model::try_attack);
    if m.agent.contains_key(attacker.0 as int) {
        let drawn = m.try_attack(attacker, target, rng);
        let outcome = m.attack_outcome(attacker, target, drawn.0);
        let attack = crate::battle::event::Attack {
            attacker_id: attacker,
            target_id: target,
            mode,
            weapon_type: m.agent[attacker.0 as int].weapon_type,
        };
        let event = crate::battle::execute::attack_event(attack, outcome.0);
        assert(m.on_attack_ctx(attacker, target).instant.len() == 0);
        assert forall|i: int, j: int|
            0 <= i < event.instant.len() && 0 <= j < event.instant[i].1.len() implies !(
        #[trigger] event.instant[i].1[j] is Create) by {}
        lemma_event_never_lengthens_cooldowns(m, event);
    }
}

/// The answers to an attack never lengthen a cooldown.
pub proof fn lemma_reactions_keep_cooldowns(
    m: Model,
    ids: Seq<Id>,
    target: Id,
    rng: SimpleRng,
    n: int,
)
    ensures
        cooldowns_not_raised(m, m.reactions(ids, target, rng, n).0),
    decreases n,
{
    if n > 0 {
        lemma_reactions_keep_cooldowns(m, ids, target, rng, n - 1);
        let before = m.reactions(ids, target, rng, n - 1);
        let agent = ids[n - 1];
        if !(before.2 == crate::battle::execute::AttackStatus::Kill || !before.0.reacts(
            agent,
            target,
        )) {
            let turned = Model { player_id: before.0.belongs_to[agent.0 as int].0, ..before.0 };
            lemma_attack_keeps_cooldowns(
                turned,
                agent,
                target,
                crate::battle::event::AttackMode::Reactive,
                before.1,
            );
            let after = turned.attack_internal(
                agent,
                target,
                crate::battle::event::AttackMode::Reactive,
                before.1,
            );
            assert(cooldowns_not_raised(before.0, after.0));
            lemma_cooldowns_chain(m, before.0, after.0);
        }
    }
}

/// The step of a command that neither uses an ability nor creates
/// an entity: a move, an attack or the end of a turn.
pub open spec fn own_step(m: Model, cmd: CommandModel, rng: SimpleRng) -> (Model, SimpleRng) {
    match cmd {
        CommandModel::MoveTo(id, path) => (m.move_to(id, path[path.len() - 1]), rng),
        CommandModel::Attack(c) => m.attack(c, rng),
        _ => (m.end_turn(), rng),
    }
}

/// A command to move, to attack or to end the turn never lengthens a
/// cooldown by its own step.
pub proof fn lemma_own_step_keeps_cooldowns(m: Model, cmd: CommandModel, rng: SimpleRng)
    requires
        m.agents_ok(),
        cmd is MoveTo || cmd is Attack || cmd is EndTurn,
    ensures
        cooldowns_not_raised(m, own_step(m, cmd, rng).0),
{
    match cmd {
        CommandModel::MoveTo(id, path) => {
            reveal(Model::move_to);
            reveal(Model::passive_tick);
            reveal(Model::applied);
            reveal(Model::active_applied);
            let to = path[path.len() - 1];
            let event = crate::battle::execute::move_event(id, to);
            lemma_event_never_lengthens_cooldowns(m, event);
            let moved = m.applied(event);
            let active = m.active_applied(event.active);
            assert(active.all_instants(event.instant, 0) == active);
            assert(active.all_timeds(event.timed, 0) == active);
            assert(active.all_planneds(event.planned, 0) == active);
            assert(moved == active);
            assert(moved.agents_ok()) by {
                assert forall|j: int| #[trigger] moved.agent.contains_key(j) implies moved.agent[j].wf() by {
                    assert(m.agent.contains_key(j));
                    assert(m.agent[j].wf());
                }
            }
            if moved.blocker.contains_key(id.0 as int) && moved.pos.contains_key(id.0 as int) {
                lemma_passive_rows_calm(
                    moved,
                    moved.passive_snap(),
                    id,
                    moved.pos[id.0 as int].0,
                    moved.passive_snap().len() as int,
                );
            }
            let ticked = moved.passive_tick(id);
            assert(cooldowns_not_raised(moved, ticked));
            lemma_cooldowns_chain(m, moved, ticked);
        },
        CommandModel::Attack(c) => {
            reveal(Model::attack);
            reveal(Model::reaction_attacks);
            lemma_attack_keeps_cooldowns(
                m,
                c.attacker_id,
                c.target_id,
                crate::battle::event::AttackMode::Active,
                rng,
            );
            let first = m.attack_internal(
                c.attacker_id,
                c.target_id,
                crate::battle::event::AttackMode::Active,
                rng,
            );
            if first.0.belongs_to.contains_key(c.attacker_id.0 as int) {
                let owner = first.0.belongs_to[c.attacker_id.0 as int].0;
                let ids = first.0.enemy_ids_of(owner);
                lemma_reactions_keep_cooldowns(
                    first.0,
                    ids,
                    c.attacker_id,
                    first.1,
                    ids.len() as int,
                );
                let after = first.0.reactions(ids, c.attacker_id, first.1, ids.len() as int);
                let answered = Model { player_id: owner, ..after.0 };
                assert(cooldowns_not_raised(after.0, answered));
                lemma_cooldowns_chain(first.0, after.0, answered);
                lemma_cooldowns_chain(m, first.0, answered);
            }
        },
        _ => {
            lemma_end_turn_never_lengthens_cooldowns(m);
        },
    }
}

/// A command to move, to attack or to end the turn that is carried
/// out never lengthens a cooldown, unless a plan that is carried out
/// after its own step uses an ability or creates an entity: the
/// abilities that are still there afterwards have the rounds left that
/// they had, or fewer.
pub proof fn lemma_command_never_lengthens_cooldowns(m: Model, cmd: CommandModel, rng: SimpleRng)
    requires
        m.agents_ok(),
        cmd is MoveTo || cmd is Attack || cmd is EndTurn,
        m.refusal(cmd).is_none(),
        cooldowns_not_raised(
            own_step(m, cmd, rng).0,
            own_step(m, cmd, rng).0.planned_abilities(own_step(m, cmd, rng).1).0,
        ),
    ensures
        cooldowns_not_raised(m, m.run(cmd, rng).0),
{
    reveal(Model::run);
    lemma_own_step_keeps_cooldowns(m, cmd, rng);
    let stepped = own_step(m, cmd, rng);
    let planned = stepped.0.planned_abilities(stepped.1);
    lemma_results_keep(planned.0, planned.0.players_count as int);
    let decided = planned.0.results(planned.0.players_count as int);
    assert(cooldowns_not_raised(planned.0, decided));
    lemma_cooldowns_chain(m, stepped.0, planned.0);
    lemma_cooldowns_chain(m, planned.0, decided);
}

/// The end of a turn never lengthens a cooldown: on every level, the
/// abilities that are still there have the rounds left that they had,
/// or fewer. Only the use of an ability sets a cooldown.
pub proof fn lemma_end_turn_never_lengthens_cooldowns(m: Model)
    requires
        m.agents_ok(),
    ensures
        cooldowns_not_raised(m, m.end_turn()),
{
    reveal(Model::end_turn);
    reveal(Model::end_turn_full);
    reveal(Model::end_turn_simple);
    reveal(Model::end_turn_planned);
    reveal(Model::end_turn_kept);
    let next = m.following_player();
    if m.level == Level::Level0 || m.level == Level::Level1 {
        let m1 = m.reattack(m.agent_ids_of(m.player_id));
        let m2 = Model { player_id: next, ..m1 };
        let m3 = m2.status_reset(m1.agent_ids_of(next));
        let ids = m3.agent_ids_of(next);
        lemma_abilities_after(m3.abilities, ids, ids.len() as int);
        assert(m3.abilities == m.abilities);
    } else if m.level == Level::Level2 {
        let m1 = m.reattack(m.agent_ids_of(m.player_id)).planned_pruned();
        let m2 = Model { player_id: next, ..m1 };
        let m3 = m2.status_reset(m1.agent_ids_of(next));
        let ids = m3.agent_ids_of(next);
        lemma_abilities_after(m3.abilities, ids, ids.len() as int);
        assert(m3.abilities == m.abilities);
    } else {
        let m1 = m.reattack_with_stun(m.agent_ids_of(m.player_id)).planned_pruned().lasting_pruned();
        let m2 = Model { player_id: next, ..m1 };
        let m3 = m2.status_reset(m1.agent_ids_of(next));
        let ids = m3.agent_ids_of(next);
        lemma_abilities_after(m3.abilities, ids, ids.len() as int);
        assert(m3.abilities == m.abilities);
        let kept = m.end_turn_kept();
        assert(kept.abilities == crate::battle::state::apply::abilities_after(
            m.abilities,
            ids,
            ids.len() as int,
        ));
        assert(cooldowns_not_raised(m, kept));
        if kept.player_id.0 == 0 {
            lemma_kept_ok(m);
            lemma_round_begun_calm(kept);
        }
    }
}

/// The bookkeeping of the end of a turn leaves the counters of the
/// agents in order.
pub proof fn lemma_kept_ok(m: Model)
    requires
        m.agents_ok(),
    ensures
        m.end_turn_kept().agents_ok(),
{
    reveal(Model::end_turn_kept);
    let change1 = |id: Id, agent: Agent|
        if m.is_stunned(id) {
            crate::battle::state::apply::disarmed(agent)
        } else {
            crate::battle::state::apply::replenished(agent)
        };
    let ids1 = m.agent_ids_of(m.player_id);
    lemma_agents_after_ok(m.agent, ids1, change1, ids1.len() as int);
    let m1 = m.reattack_with_stun(ids1).planned_pruned().lasting_pruned();
    let next = m.following_player();
    let m2 = Model { player_id: next, ..m1 };
    let change2 = |id: Id, agent: Agent|
        if m2.is_stunned(id) {
            agent.stunned()
        } else {
            agent.refreshed()
        };
    let ids2 = m1.agent_ids_of(next);
    lemma_agents_after_ok(m2.agent, ids2, change2, ids2.len() as int);
}

proof fn lemma_agents_after_ok(
    before: Map<int, Agent>,
    ids: Seq<Id>,
    change: spec_fn(Id, Agent) -> Agent,
    n: int,
)
    requires
        0 <= n <= ids.len(),
        forall|k: int| #[trigger] before.contains_key(k) ==> before[k].wf(),
        crate::battle::state::apply::keeps_counters(change),
    ensures
        forall|k: int| #[trigger]
            agents_after(before, ids, change, n).contains_key(k) ==> agents_after(
                before,
                ids,
                change,
                n,
            )[k].wf(),
    decreases n,
{
    if n > 0 {
        lemma_agents_after_ok(before, ids, change, n - 1);
        let m = agents_after(before, ids, change, n - 1);
        let id = ids[n - 1];
        if m.contains_key(id.0 as int) {
            assert(m[id.0 as int].wf());
            assert(change(id, m[id.0 as int]).wf());
        }
    }
}

} // verus!
