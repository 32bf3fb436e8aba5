//! The one place where a battle's state changes: every event, effect
//! and piece of turn bookkeeping is applied here, step by step. Each
//! step is total: where the entity it names lacks the component it
//! speaks of, that part of the step changes nothing.

use vstd::prelude::*;

use crate::battle::ability::base_cooldown_rounds;
use crate::battle::ability::Ability;
use crate::battle::ability::RechargeableAbility;
use crate::battle::ability::Status;
use crate::battle::add_capped;
use crate::battle::capped_sum;
use crate::battle::component::Abilities;
use crate::battle::component::Agent;
use crate::battle::component::Component;
use crate::battle::component::Effects;
use crate::battle::component::Parts;
use crate::battle::component::PlannedAbility;
use crate::battle::component::Pos;
use crate::battle::component::Schedule;
use crate::battle::component::Strength;
use crate::battle::component::Summoner;
use crate::battle::effect;
use crate::battle::effect::Duration;
use crate::battle::effect::Effect;
use crate::battle::effect::Lasting;
use crate::battle::effect::Timed;
use crate::battle::event;
use crate::battle::event::ActiveEvent;
use crate::battle::event::Event;
use crate::battle::model::effects_model;
use crate::battle::model::kit_model;
use crate::battle::model::kit_ok;
use crate::battle::model::ActiveModel;
use crate::battle::model::ComponentModel;
use crate::battle::model::EffectModel;
use crate::battle::model::EventModel;
use crate::battle::model::Model;
use crate::battle::state;
use crate::battle::state::safety::entries_safe;
use crate::battle::state::safety::lemma_applied_safe;
use crate::battle::state::State;
use crate::battle::table::Table;
use crate::battle::table::ID_LIMIT;
use crate::battle::Attacks;
use crate::battle::Id;
use crate::battle::Jokers;
use crate::battle::Moves;
use crate::battle::Phase;
use crate::battle::PlayerId;
use crate::battle::Rounds;
use crate::map::PosHex;

verus! {

/// A counter after `cost` was taken from it: never below zero, never
/// above the largest `i32`.
pub open spec fn spent(counter: i32, cost: i32) -> i32 {
    if counter - cost < 0 {
        0
    } else if counter - cost > i32::MAX {
        i32::MAX
    } else {
        (counter - cost) as i32
    }
}

fn spend(counter: i32, cost: i32) -> (r: i32)
    ensures
        r == spent(counter, cost),
{
    let wide: i64 = counter as i64 - cost as i64;
    if wide < 0 {
        0
    } else if wide > 0x7fff_ffffi64 {
        0x7fff_ffffi32
    } else {
        wide as i32
    }
}

/// What is left of a value after `cost` was taken from it, kept within `i32`.
pub open spec fn lowered(value: i32, cost: i32) -> i32 {
    if value - cost < i32::MIN {
        i32::MIN
    } else if value - cost > i32::MAX {
        i32::MAX
    } else {
        (value - cost) as i32
    }
}

fn lower(value: i32, cost: i32) -> (r: i32)
    ensures
        r == lowered(value, cost),
{
    let wide: i64 = value as i64 - cost as i64;
    if wide < -0x8000_0000i64 {
        -0x8000_0000i32
    } else if wide > 0x7fff_ffffi64 {
        0x7fff_ffffi32
    } else {
        wide as i32
    }
}

/// Whether the state can pay for what the active event of an event
/// takes: a move is paid from the moves of an agent on a tile that has
/// moves, else from its jokers, and neither counter may fall below
/// zero; an attack is paid by an agent that has an attack or a joker
/// left. The other events take nothing that could be missing.
pub open spec fn payable(m: Model, active: ActiveModel) -> bool {
    match active {
        ActiveModel::MoveTo(id, _, cost) => {
            &&& m.agent.contains_key(id.0 as int)
            &&& m.pos.contains_key(id.0 as int)
            &&& if m.agent[id.0 as int].moves.0 > 0 {
                cost <= m.agent[id.0 as int].moves.0
            } else {
                cost <= m.agent[id.0 as int].jokers.0
            }
        },
        ActiveModel::Attack(ev) => {
            &&& m.agent.contains_key(ev.attacker_id.0 as int)
            &&& m.agent[ev.attacker_id.0 as int].can_attack_now()
        },
        _ => true,
    }
}

/// An agent that has paid for a move: from its moves while it has any,
/// else from its jokers.
pub open spec fn paid_move(agent: Agent, cost: i32) -> Agent {
    if agent.moves.0 > 0 {
        Agent { moves: Moves(spent(agent.moves.0, cost)), ..agent }
    } else {
        Agent { jokers: Jokers(spent(agent.jokers.0, cost)), ..agent }
    }
}

/// An agent that has paid one attack, or one joker if it had no attack.
pub open spec fn paid_attack(agent: Agent) -> Agent {
    if agent.attacks.0 > 0 {
        Agent { attacks: Attacks(spent(agent.attacks.0, 1)), ..agent }
    } else {
        Agent { jokers: Jokers(spent(agent.jokers.0, 1)), ..agent }
    }
}

/// An agent that has paid for the use of an ability: one attack, or
/// one joker if it had no attack; an agent that has neither pays nothing.
pub open spec fn paid_ability(agent: Agent) -> Agent {
    if agent.attacks.0 > 0 {
        Agent { attacks: Attacks(spent(agent.attacks.0, 1)), ..agent }
    } else if agent.jokers.0 > 0 {
        Agent { jokers: Jokers(spent(agent.jokers.0, 1)), ..agent }
    } else {
        agent
    }
}

/// The agent with its reactive attacks added to its attacks.
pub open spec fn replenished(agent: Agent) -> Agent {
    Agent { attacks: Attacks(capped_sum(agent.attacks.0, agent.reactive_attacks.0)), ..agent }
}

/// The agent without attacks.
pub open spec fn disarmed(agent: Agent) -> Agent {
    Agent { attacks: Attacks(0), ..agent }
}

/// The agent with `n` attacks more.
pub open spec fn armed(agent: Agent, n: i32) -> Agent {
    Agent { attacks: Attacks(capped_sum(agent.attacks.0, n)), ..agent }
}

/// The agent with three jokers more.
pub open spec fn blooded(agent: Agent) -> Agent {
    Agent { jokers: Jokers(capped_sum(agent.jokers.0, 3)), ..agent }
}

/// The agent after a wound: one attack less, if it had any.
pub open spec fn shaken(agent: Agent) -> Agent {
    Agent { attacks: Attacks(spent(agent.attacks.0, 1)), ..agent }
}

/// A strength after a heal of `amount` points: no more than the base.
pub open spec fn healed(strength: Strength, amount: i32) -> Strength {
    if capped_sum(strength.strength.0, amount) > strength.base_strength.0 {
        Strength { strength: strength.base_strength, ..strength }
    } else {
        Strength {
            strength: crate::battle::Strength(capped_sum(strength.strength.0, amount)),
            ..strength
        }
    }
}

/// A strength after a wound of `damage` points.
pub open spec fn wounded(strength: Strength, damage: i32) -> Strength {
    Strength { strength: crate::battle::Strength(lowered(strength.strength.0, damage)), ..strength }
}

/// Whether the list holds a lasting effect of the kind.
pub open spec fn holds_lasting(list: Seq<Timed>, kind: Lasting) -> bool {
    exists|i: int| 0 <= i < list.len() && (#[trigger] list[i]).effect == kind
}

/// The place of the first entry at or after `from` whose effect is of
/// the kind, or the length of the list if there is none.
pub open spec fn timed_slot(list: Seq<Timed>, kind: Lasting, from: int) -> int
    decreases list.len() - from,
{
    if from < 0 || from >= list.len() {
        list.len() as int
    } else if list[from].effect == kind {
        from
    } else {
        timed_slot(list, kind, from + 1)
    }
}

/// The list with the lasting effect put in: in the place of the first
/// entry of its kind, or at the end if the list has none of that kind.
pub open spec fn put_timed(list: Seq<Timed>, timed: Timed) -> Seq<Timed> {
    let slot = timed_slot(list, timed.effect, 0);
    if slot < list.len() {
        list.update(slot, timed)
    } else {
        list.push(timed)
    }
}

/// The place of the first entry at or after `from` that plans the
/// ability, or the length of the list if there is none.
pub open spec fn planned_slot(list: Seq<PlannedAbility>, ability: Ability, from: int) -> int
    decreases list.len() - from,
{
    if from < 0 || from >= list.len() {
        list.len() as int
    } else if list[from].ability == ability {
        from
    } else {
        planned_slot(list, ability, from + 1)
    }
}

/// The list with the planned ability put in: in the place of the first
/// entry for that ability, or at the end if the list has none for it.
pub open spec fn put_planned(list: Seq<PlannedAbility>, planned: PlannedAbility) -> Seq<
    PlannedAbility,
> {
    let slot = planned_slot(list, planned.ability, 0);
    if slot < list.len() {
        list.update(slot, planned)
    } else {
        list.push(planned)
    }
}

/// The abilities after one of them was used: every entry for it rests
/// for the rounds its kind rests.
pub open spec fn cooled(list: Seq<RechargeableAbility>, ability: Ability) -> Seq<
    RechargeableAbility,
> {
    Seq::new(
        list.len(),
        |i: int|
            if list[i].ability == ability {
                RechargeableAbility {
                    status: Status::Cooldown(Rounds(base_cooldown_rounds(ability) as i32)),
                    ..list[i]
                }
            } else {
                list[i]
            },
    )
}

/// The abilities one round later.
pub open spec fn recharged(list: Seq<RechargeableAbility>) -> Seq<RechargeableAbility> {
    Seq::new(
        list.len(),
        |i: int| RechargeableAbility { status: list[i].status.updated(), ..list[i] },
    )
}

/// The first `n` planned abilities that still have rounds to run.
pub open spec fn running(list: Seq<PlannedAbility>, n: int) -> Seq<PlannedAbility>
    decreases n,
{
    if n <= 0 {
        Seq::empty()
    } else if list[n - 1].rounds.0 > 0 {
        running(list, n - 1).push(list[n - 1])
    } else {
        running(list, n - 1)
    }
}

/// The planned abilities after a turn of the phase: those of the phase
/// have a round less to run.
pub open spec fn ticked(list: Seq<PlannedAbility>, phase: Phase) -> Seq<PlannedAbility> {
    Seq::new(
        list.len(),
        |i: int|
            if list[i].phase == phase {
                PlannedAbility { rounds: list[i].rounds.decreased(), ..list[i] }
            } else {
                list[i]
            },
    )
}

/// A lasting effect after a turn of the phase: one of the phase that
/// counts rounds has a round less. A count that has come to zero stays
/// there.
pub open spec fn aged_one(timed: Timed, phase: Phase) -> Timed {
    if timed.phase == phase {
        match timed.duration {
            Duration::Rounds(rounds) => if rounds.0 == 0 {
                timed
            } else {
                Timed { duration: Duration::Rounds(rounds.decreased()), ..timed }
            },
            Duration::Forever => timed,
        }
    } else {
        timed
    }
}

/// The lasting effects after a turn of the phase.
pub open spec fn aged(list: Seq<Timed>, phase: Phase) -> Seq<Timed> {
    Seq::new(list.len(), |i: int| aged_one(list[i], phase))
}

/// Whether a lasting effect on a bearer is over: its rounds have run
/// out, or it is poison and its bearer is `weak`, that is down to one
/// point of strength.
pub open spec fn over(timed: Timed, weak: bool) -> bool {
    (timed.effect == Lasting::Poison && weak) || timed.duration == Duration::Rounds(Rounds(0))
}

/// Whether a lasting effect stays when the outdated ones are dropped:
/// it does unless it is over.
pub open spec fn stays(timed: Timed, weak: bool) -> bool {
    !over(timed, weak)
}

/// The first `n` lasting effects of a list without those of a kind.
pub open spec fn without_lasting(list: Seq<Timed>, kind: Lasting, n: int) -> Seq<Timed>
    decreases n,
{
    if n <= 0 {
        Seq::empty()
    } else if list[n - 1].effect == kind {
        without_lasting(list, kind, n - 1)
    } else {
        without_lasting(list, kind, n - 1).push(list[n - 1])
    }
}

/// Those of the first `n` lasting effects that stay.
pub open spec fn staying(list: Seq<Timed>, weak: bool, n: int) -> Seq<Timed>
    decreases n,
{
    if n <= 0 {
        Seq::empty()
    } else if stays(list[n - 1], weak) {
        staying(list, weak, n - 1).push(list[n - 1])
    } else {
        staying(list, weak, n - 1)
    }
}

/// The agents after each agent on the list, one after the other, was
/// changed by `change`. An identifier on the list that names no agent
/// changes nothing.
pub open spec fn agents_after(
    before: Map<int, Agent>,
    ids: Seq<Id>,
    change: spec_fn(Id, Agent) -> Agent,
    n: int,
) -> Map<int, Agent>
    decreases n,
{
    if n <= 0 {
        before
    } else {
        let m = agents_after(before, ids, change, n - 1);
        let id = ids[n - 1];
        if m.contains_key(id.0 as int) {
            m.insert(id.0 as int, change(id, m[id.0 as int]))
        } else {
            m
        }
    }
}

/// The abilities after those of each entity on the list, one after the
/// other, have let a round pass.
pub open spec fn abilities_after(
    before: Map<int, Seq<RechargeableAbility>>,
    ids: Seq<Id>,
    n: int,
) -> Map<int, Seq<RechargeableAbility>>
    decreases n,
{
    if n <= 0 {
        before
    } else {
        let m = abilities_after(before, ids, n - 1);
        let id = ids[n - 1];
        if m.contains_key(id.0 as int) {
            m.insert(id.0 as int, recharged(m[id.0 as int]))
        } else {
            m
        }
    }
}

/// Whether an identifier can have rows in the store.
pub open spec fn storable(id: Id) -> bool {
    0 <= id.0 < ID_LIMIT
}

impl Model {
    /// Whether the entity is stunned.
    pub open spec fn is_stunned(self, id: Id) -> bool {
        self.effects.contains_key(id.0 as int) && holds_lasting(
            self.effects[id.0 as int],
            Lasting::Stun,
        )
    }

    /// Whether the entity is down to one point of strength or less.
    pub open spec fn is_weak(self, id: Id) -> bool {
        self.strength.contains_key(id.0 as int) && self.strength[id.0 as int].strength.0 <= 1
    }

    /// The lasting effect of the kind ends on the entity: it leaves the
    /// list of the entity's effects.
    pub open spec fn effect_ended(self, id: Id, kind: Lasting) -> Model {
        if self.effects.contains_key(id.0 as int) {
            Model {
                effects: self.effects.insert(
                    id.0 as int,
                    without_lasting(
                        self.effects[id.0 as int],
                        kind,
                        self.effects[id.0 as int].len() as int,
                    ),
                ),
                ..self
            }
        } else {
            self
        }
    }

    /// The entity is moved to `to`, and the agent pays the cost of the move.
    pub open spec fn moved(self, id: Id, to: PosHex, cost: i32) -> Model {
        self.with_pos(id, to).with_agent(id, paid_move(self.agent[id.0 as int], cost))
    }

    /// The attacker pays for its attack.
    pub open spec fn attack_paid(self, id: Id) -> Model {
        self.with_agent(id, paid_attack(self.agent[id.0 as int]))
    }

    /// The agent loses what is left of its turn.
    pub open spec fn stun(self, id: Id) -> Model {
        self.with_agent(id, self.agent[id.0 as int].stunned())
    }

    /// The agent gains three jokers.
    pub open spec fn bloodlust(self, id: Id) -> Model {
        self.with_agent(id, blooded(self.agent[id.0 as int]))
    }

    /// The entity is pushed from one tile to another; a push that leads
    /// nowhere changes nothing.
    pub open spec fn pushed(self, id: Id, from: PosHex, to: PosHex) -> Model {
        if to == from {
            self
        } else {
            self.with_pos(id, to)
        }
    }

    /// The entity regains strength, up to its base, and loses every
    /// lasting effect.
    pub open spec fn heal(self, id: Id, amount: i32) -> Model {
        let m = self.with_strength(id, healed(self.strength[id.0 as int], amount));
        if m.effects.contains_key(id.0 as int) {
            Model { effects: m.effects.insert(id.0 as int, Seq::empty()), ..m }
        } else {
            m
        }
    }

    /// The entity loses `damage` points of strength, and one attack if
    /// it is an agent that has any left.
    pub open spec fn wound(self, id: Id, damage: i32) -> Model {
        self.with_strength(id, wounded(self.strength[id.0 as int], damage)).with_agent(
            id,
            shaken(self.agent[id.0 as int]),
        )
    }

    /// The entity gets the component, in place of the one of that kind
    /// it had. An identifier that cannot be stored gets no component.
    #[verifier::opaque]
    pub open spec fn with_component(self, id: Id, component: ComponentModel) -> Model {
        if !storable(id) {
            self
        } else {
            match component {
                ComponentModel::Pos(c) => Model { pos: self.pos.insert(id.0 as int, c), ..self },
                ComponentModel::Strength(c) => Model {
                    strength: self.strength.insert(id.0 as int, c),
                    ..self
                },
                ComponentModel::Meta(c) => Model { meta: self.meta.insert(id.0 as int, c), ..self },
                ComponentModel::BelongsTo(c) => Model {
                    belongs_to: self.belongs_to.insert(id.0 as int, c),
                    ..self
                },
                ComponentModel::Agent(c) => Model {
                    agent: self.agent.insert(id.0 as int, c),
                    ..self
                },
                ComponentModel::Blocker(c) => Model {
                    blocker: self.blocker.insert(id.0 as int, c),
                    ..self
                },
                ComponentModel::Abilities(c) => Model {
                    abilities: self.abilities.insert(id.0 as int, c),
                    ..self
                },
                ComponentModel::PassiveAbilities(c) => Model {
                    passive_abilities: self.passive_abilities.insert(id.0 as int, c),
                    ..self
                },
                ComponentModel::Effects(c) => Model {
                    effects: self.effects.insert(id.0 as int, c),
                    ..self
                },
                ComponentModel::Schedule(c) => Model {
                    schedule: self.schedule.insert(id.0 as int, c),
                    ..self
                },
                ComponentModel::Summoner(c) => Model {
                    summoner: self.summoner.insert(id.0 as int, c),
                    ..self
                },
            }
        }
    }

    /// The entity gets the first `n` components of the list, one after
    /// the other.
    pub open spec fn with_components(self, id: Id, kit: Seq<ComponentModel>, n: int) -> Model
        decreases n,
    {
        if n <= 0 {
            self
        } else {
            self.with_components(id, kit, n - 1).with_component(id, kit[n - 1])
        }
    }

    /// The lasting effect begins on the entity: see `put_timed`.
    pub open spec fn with_timed(self, id: Id, timed: Timed) -> Model {
        if !storable(id) {
            self
        } else {
            let list = if self.effects.contains_key(id.0 as int) {
                self.effects[id.0 as int]
            } else {
                Seq::empty()
            };
            Model { effects: self.effects.insert(id.0 as int, put_timed(list, timed)), ..self }
        }
    }

    /// The ability is planned for the entity: see `put_planned`.
    pub open spec fn with_planned(self, id: Id, planned: PlannedAbility) -> Model {
        if !storable(id) {
            self
        } else {
            let list = if self.schedule.contains_key(id.0 as int) {
                self.schedule[id.0 as int]
            } else {
                Seq::empty()
            };
            Model { schedule: self.schedule.insert(id.0 as int, put_planned(list, planned)), ..self }
        }
    }

    /// The entity has used the ability on `pos`: the ability rests, the
    /// agent pays for it, and what the ability does to its user is done:
    /// a jump or a dash moves it to `pos`, rage gives it three attacks,
    /// a summon counts.
    #[verifier::opaque]
    pub open spec fn ability_used(self, id: Id, pos: PosHex, ability: Ability) -> Model {
        let m1 = if self.abilities.contains_key(id.0 as int) {
            Model {
                abilities: self.abilities.insert(
                    id.0 as int,
                    cooled(self.abilities[id.0 as int], ability),
                ),
                ..self
            }
        } else {
            self
        };
        let m2 = m1.with_agent(id, paid_ability(m1.agent[id.0 as int]));
        match ability {
            Ability::Jump | Ability::LongJump | Ability::Dash => m2.with_pos(id, pos),
            Ability::Rage => m2.with_agent(id, armed(m2.agent[id.0 as int], 3)),
            Ability::Summon => if m2.summoner.contains_key(id.0 as int) {
                Model {
                    summoner: m2.summoner.insert(
                        id.0 as int,
                        Summoner {
                            count: if m2.summoner[id.0 as int].count < u32::MAX {
                                (m2.summoner[id.0 as int].count + 1) as u32
                            } else {
                                u32::MAX
                            },
                        },
                    ),
                    ..m2
                }
            } else {
                m2
            },
            _ => m2,
        }
    }

    /// Each agent on the list is changed by `change`, one after the other.
    pub open spec fn agents_changed(self, ids: Seq<Id>, change: spec_fn(Id, Agent) -> Agent) -> Model {
        Model { agent: agents_after(self.agent, ids, change, ids.len() as int), ..self }
    }

    /// Each agent on the list gets its reactive attacks on top of its attacks.
    pub open spec fn reattack(self, ids: Seq<Id>) -> Model {
        self.agents_changed(ids, |id: Id, agent: Agent| replenished(agent))
    }

    /// Each agent on the list gets its reactive attacks on top of its
    /// attacks, unless it is stunned: then it loses its attacks.
    pub open spec fn reattack_with_stun(self, ids: Seq<Id>) -> Model {
        self.agents_changed(
            ids,
            |id: Id, agent: Agent|
                if self.is_stunned(id) {
                    disarmed(agent)
                } else {
                    replenished(agent)
                },
        )
    }

    /// Each agent on the list starts its turn: with the counters it
    /// starts every turn with, or with none if it is stunned.
    pub open spec fn status_reset(self, ids: Seq<Id>) -> Model {
        self.agents_changed(
            ids,
            |id: Id, agent: Agent|
                if self.is_stunned(id) {
                    agent.stunned()
                } else {
                    agent.refreshed()
                },
        )
    }

    /// Every agent of the player starts its turn with the counters it
    /// starts every turn with.
    pub open spec fn moves_reset(self, player: PlayerId) -> Model {
        self.agents_changed(self.agent_ids_of(player), |id: Id, agent: Agent| agent.refreshed())
    }

    /// Every stunned agent of the player who moves loses what is left of its turn.
    pub open spec fn lasting_applied(self) -> Model {
        self.agents_changed(
            self.agent_ids_of(self.player_id),
            |id: Id, agent: Agent|
                if self.is_stunned(id) {
                    agent.stunned()
                } else {
                    agent
                },
        )
    }

    /// The abilities of every agent of the player let a round pass.
    pub open spec fn cooldowns_updated(self, player: PlayerId) -> Model {
        Model {
            abilities: abilities_after(
                self.abilities,
                self.agent_ids_of(player),
                self.agent_ids_of(player).len() as int,
            ),
            ..self
        }
    }

    /// Every planned ability that has no round left to run is dropped.
    pub open spec fn planned_pruned(self) -> Model {
        Model {
            schedule: Map::new(
                |k: int| self.schedule.contains_key(k),
                |k: int| running(self.schedule[k], self.schedule[k].len() as int),
            ),
            ..self
        }
    }

    /// Every planned ability of the phase of the player who moves has a
    /// round less to run.
    pub open spec fn planned_ticked(self) -> Model {
        Model {
            schedule: Map::new(
                |k: int| self.schedule.contains_key(k),
                |k: int| ticked(self.schedule[k], Phase(self.player_id.0)),
            ),
            ..self
        }
    }

    /// Every lasting effect of the phase of the player who moves has a
    /// round less.
    pub open spec fn durations_updated(self) -> Model {
        Model {
            effects: Map::new(
                |k: int| self.effects.contains_key(k),
                |k: int| aged(self.effects[k], Phase(self.player_id.0)),
            ),
            ..self
        }
    }

    /// The lasting effects that are over are dropped (those whose rounds
    /// have run out, and poison where its bearer is down to one point
    /// of strength) and those that stay and belong to the phase of the
    /// player who moves have a round less.
    pub open spec fn lasting_pruned(self) -> Model {
        Model {
            effects: Map::new(
                |k: int| self.effects.contains_key(k),
                |k: int|
                    aged(
                        staying(
                            self.effects[k],
                            self.is_weak(Id(k as i32)),
                            self.effects[k].len() as int,
                        ),
                        Phase(self.player_id.0),
                    ),
            ),
            ..self
        }
    }
}

fn set_agent(state: &mut State, id: Id, agent: Agent)
    ensures
        final(state)@.same_board(old(state)@),
        final(state)@ == old(state)@.with_agent(id, agent),
        final(state).same_setting(old(state)),
        final(state).parts == (Parts { agent: final(state).parts.agent, ..old(state).parts }),
{
    if state.parts.agent.contains(id) {
        state.parts.agent.insert(id, agent);
    }
    assert(state@ =~= old(state)@.with_agent(id, agent));
}

fn set_pos(state: &mut State, id: Id, pos: PosHex)
    ensures
        final(state)@.same_board(old(state)@),
        final(state)@ == old(state)@.with_pos(id, pos),
{
    if state.parts.pos.contains(id) {
        state.parts.pos.insert(id, Pos(pos));
    }
    assert(state@ =~= old(state)@.with_pos(id, pos));
}

fn set_strength(state: &mut State, id: Id, strength: Strength)
    ensures
        final(state)@.same_board(old(state)@),
        final(state)@ == old(state)@.with_strength(id, strength),
{
    if state.parts.strength.contains(id) {
        state.parts.strength.insert(id, strength);
    }
    assert(state@ =~= old(state)@.with_strength(id, strength));
}

/// The entity is moved to the end of the path, and the agent pays the
/// cost of the move.
fn apply_event_move_to(state: &mut State, event: &event::MoveTo)
    requires
        payable(old(state)@, ActiveModel::MoveTo(event.id, event.path.end(), event.cost.0)),
    ensures
        final(state)@.same_board(old(state)@),
        final(state)@ == old(state)@.moved(event.id, event.path.end(), event.cost.0),
{
    let paid: Option<Agent> = match state.parts.agent.get(event.id) {
        Some(agent) => {
            let mut agent: Agent = *agent;
            if agent.moves.0 > 0 {
                agent.moves.0 = spend(agent.moves.0, event.cost.0);
            } else {
                agent.jokers.0 = spend(agent.jokers.0, event.cost.0);
            }
            Some(agent)
        },
        None => None,
    };
    set_pos(state, event.id, event.path.to());
    if let Some(agent) = paid {
        set_agent(state, event.id, agent);
    }
}

/// The attacker pays for its attack: an agent that has an attack or a
/// joker left.
pub fn apply_event_attack(state: &mut State, attacker_id: &Id)
    requires
        old(state).parts.agent.has(*attacker_id),
        old(state).parts.agent.at(*attacker_id).can_attack_now(),
    ensures
        final(state)@.same_board(old(state)@),
        final(state)@ == old(state)@.attack_paid(*attacker_id),
{
    if let Some(agent) = state.parts.agent.get(*attacker_id) {
        let mut agent: Agent = *agent;
        if agent.attacks.0 > 0 {
            agent.attacks.0 = spend(agent.attacks.0, 1);
        } else {
            agent.jokers.0 = spend(agent.jokers.0, 1);
        }
        set_agent(state, *attacker_id, agent);
    }
}

/// Whether the list holds a lasting effect of the kind.
pub fn has_lasting_effect(list: &Vec<Timed>, kind: Lasting) -> (r: bool)
    ensures
        r == holds_lasting(list@, kind),
{
    let mut i: usize = 0;
    while i < list.len()
        invariant
            i <= list@.len(),
            forall|j: int| 0 <= j < i ==> (#[trigger] list@[j]).effect != kind,
        decreases list@.len() - i,
    {
        if list[i].effect == kind {
            return true;
        }
        i += 1;
    }
    false
}

fn stunned(state: &State, id: Id) -> (r: bool)
    ensures
        r == state@.is_stunned(id),
{
    match state.parts.effects.get(id) {
        Some(effects) => has_lasting_effect(&effects.0, Lasting::Stun),
        None => false,
    }
}

/// A change that keeps the counters of an agent from being negative.
pub open spec fn keeps_counters(change: spec_fn(Id, Agent) -> Agent) -> bool {
    forall|id: Id, agent: Agent| agent.wf() ==> (#[trigger] change(id, agent)).wf()
}

/// Each agent on the list gets its reactive attacks on top of its attacks.
pub fn update_reattack(state: &mut State, ids: &[Id])
    ensures
        final(state)@.same_board(old(state)@),
        final(state)@ == old(state)@.reattack(ids@),
        old(state)@.agents_ok() ==> final(state)@.agents_ok(),
{
    let ghost change = |id: Id, agent: Agent| replenished(agent);
    let mut i: usize = 0;
    while i < ids.len()
        invariant
            state@.same_board(old(state)@),
            i <= ids@.len(),
            change == (|id: Id, agent: Agent| replenished(agent)),
            state@ == (Model {
                agent: agents_after(old(state)@.agent, ids@, change, i as int),
                ..old(state)@
            }),
            old(state)@.agents_ok() ==> state@.agents_ok(),
        decreases ids@.len() - i,
    {
        let id = ids[i];
        if let Some(agent) = state.parts.agent.get(id) {
            let mut agent: Agent = *agent;
            agent.attacks.0 = add_capped(agent.attacks.0, agent.reactive_attacks.0);
            set_agent(state, id, agent);
        }
        i += 1;
    }
}

/// Each agent on the list gets its reactive attacks on top of its
/// attacks, unless it is stunned: then it loses its attacks.
pub fn update_reattack_with_stun(state: &mut State, ids: &[Id])
    ensures
        final(state)@.same_board(old(state)@),
        final(state)@ == old(state)@.reattack_with_stun(ids@),
        old(state)@.agents_ok() ==> final(state)@.agents_ok(),
{
    let ghost before = state@;
    let ghost change = |id: Id, agent: Agent|
        if before.is_stunned(id) {
            disarmed(agent)
        } else {
            replenished(agent)
        };
    let mut i: usize = 0;
    while i < ids.len()
        invariant
            state@.same_board(old(state)@),
            i <= ids@.len(),
            before == old(state)@,
            change == (|id: Id, agent: Agent|
                if before.is_stunned(id) {
                    disarmed(agent)
                } else {
                    replenished(agent)
                }),
            state@ == (Model { agent: agents_after(before.agent, ids@, change, i as int), ..before }),
            old(state)@.agents_ok() ==> state@.agents_ok(),
        decreases ids@.len() - i,
    {
        let id = ids[i];
        let is_stun = stunned(state, id);
        if let Some(agent) = state.parts.agent.get(id) {
            let mut agent: Agent = *agent;
            if is_stun {
                agent.attacks.0 = 0;
            } else {
                agent.attacks.0 = add_capped(agent.attacks.0, agent.reactive_attacks.0);
            }
            set_agent(state, id, agent);
        }
        i += 1;
    }
}

/// Each agent on the list starts its turn: with the counters it starts
/// every turn with, or with none if it is stunned.
pub fn reset_status(state: &mut State, ids: &[Id])
    ensures
        final(state)@.same_board(old(state)@),
        final(state)@ == old(state)@.status_reset(ids@),
        old(state)@.agents_ok() ==> final(state)@.agents_ok(),
{
    let ghost before = state@;
    let ghost change = |id: Id, agent: Agent|
        if before.is_stunned(id) {
            agent.stunned()
        } else {
            agent.refreshed()
        };
    let mut i: usize = 0;
    while i < ids.len()
        invariant
            state@.same_board(old(state)@),
            i <= ids@.len(),
            before == old(state)@,
            change == (|id: Id, agent: Agent|
                if before.is_stunned(id) {
                    agent.stunned()
                } else {
                    agent.refreshed()
                }),
            state@ == (Model { agent: agents_after(before.agent, ids@, change, i as int), ..before }),
            old(state)@.agents_ok() ==> state@.agents_ok(),
        decreases ids@.len() - i,
    {
        let id = ids[i];
        let is_stun = stunned(state, id);
        if let Some(agent) = state.parts.agent.get(id) {
            let mut agent: Agent = *agent;
            if is_stun {
                agent.moves.0 = 0;
                agent.attacks.0 = 0;
                agent.jokers.0 = 0;
            } else {
                agent.moves = agent.base_moves;
                agent.attacks = agent.base_attacks;
                agent.jokers = agent.base_jokers;
            }
            set_agent(state, id, agent);
        }
        i += 1;
    }
}

/// Every agent of the player starts its turn with the counters it
/// starts every turn with.
pub fn reset_moves_and_attacks(state: &mut State, player_id: PlayerId)
    ensures
        final(state)@.same_board(old(state)@),
        final(state)@ == old(state)@.moves_reset(player_id),
        old(state)@.agents_ok() ==> final(state)@.agents_ok(),
{
    let ids = state::players_agent_ids(state, player_id);
    let ghost before = state@;
    let ghost change = |id: Id, agent: Agent| agent.refreshed();
    let mut i: usize = 0;
    while i < ids.len()
        invariant
            state@.same_board(old(state)@),
            i <= ids@.len(),
            before == old(state)@,
            ids@ == before.agent_ids_of(player_id),
            change == (|id: Id, agent: Agent| agent.refreshed()),
            state@ == (Model { agent: agents_after(before.agent, ids@, change, i as int), ..before }),
            old(state)@.agents_ok() ==> state@.agents_ok(),
        decreases ids@.len() - i,
    {
        let id = ids[i];
        if let Some(agent) = state.parts.agent.get(id) {
            let mut agent: Agent = *agent;
            agent.moves = agent.base_moves;
            agent.attacks = agent.base_attacks;
            agent.jokers = agent.base_jokers;
            set_agent(state, id, agent);
        }
        i += 1;
    }
}

fn apply_lasting_effect_stun(state: &mut State, id: &Id)
    ensures
        final(state)@.same_board(old(state)@),
        final(state)@ == old(state)@.stun(*id),
{
    apply_effect_stun(state, id)
}

/// Every stunned agent of the player who moves loses what is left of its turn.
fn apply_lasting_effects(state: &mut State)
    ensures
        final(state)@.same_board(old(state)@),
        final(state)@ == old(state)@.lasting_applied(),
        old(state)@.agents_ok() ==> final(state)@.agents_ok(),
{
    let ids = state::players_agent_ids(state, state.player_id());
    let ghost before = state@;
    let ghost change = |id: Id, agent: Agent|
        if before.is_stunned(id) {
            agent.stunned()
        } else {
            agent
        };
    let mut i: usize = 0;
    while i < ids.len()
        invariant
            state@.same_board(old(state)@),
            i <= ids@.len(),
            before == old(state)@,
            ids@ == before.agent_ids_of(before.player_id),
            change == (|id: Id, agent: Agent|
                if before.is_stunned(id) {
                    agent.stunned()
                } else {
                    agent
                }),
            state@ == (Model { agent: agents_after(before.agent, ids@, change, i as int), ..before }),
            old(state)@.agents_ok() ==> state@.agents_ok(),
        decreases ids@.len() - i,
    {
        let id = ids[i];
        if stunned(state, id) {
            apply_lasting_effect_stun(state, &id);
        }
        assert(state@.agent =~= agents_after(before.agent, ids@, change, i as int + 1));
        i += 1;
    }
}

/// The agent loses what is left of its turn.
pub fn apply_effect_stun(state: &mut State, id: &Id)
    ensures
        final(state)@.same_board(old(state)@),
        final(state)@ == old(state)@.stun(*id),
{
    if let Some(agent) = state.parts.agent.get(*id) {
        let mut agent: Agent = *agent;
        agent.moves.0 = 0;
        agent.attacks.0 = 0;
        agent.jokers.0 = 0;
        set_agent(state, *id, agent);
    }
}

/// The agent gains three jokers.
fn apply_effect_bloodlust(state: &mut State, id: &Id)
    ensures
        final(state)@.same_board(old(state)@),
        final(state)@ == old(state)@.bloodlust(*id),
{
    if let Some(agent) = state.parts.agent.get(*id) {
        let mut agent: Agent = *agent;
        agent.jokers.0 = add_capped(agent.jokers.0, 3);
        set_agent(state, *id, agent);
    }
}

/// The entity is pushed to another tile. A push that leads nowhere
/// changes nothing.
fn apply_effect_knockback(state: &mut State, id: &Id, effect: &effect::Knockback)
    ensures
        final(state)@.same_board(old(state)@),
        final(state)@ == old(state)@.pushed(*id, effect.from, effect.to),
{
    if effect.to == effect.from {
        return ;
    }
    set_pos(state, *id, effect.to);
}

/// The entity flies to another tile. A flight that leads nowhere
/// changes nothing.
fn apply_effect_fly_off(state: &mut State, id: &Id, effect: &effect::FlyOff)
    ensures
        final(state)@.same_board(old(state)@),
        final(state)@ == old(state)@.pushed(*id, effect.from, effect.to),
{
    if effect.to == effect.from {
        return ;
    }
    set_pos(state, *id, effect.to);
}

/// The entity is thrown to another tile.
fn apply_effect_throw(state: &mut State, id: &Id, effect: &effect::Throw)
    ensures
        final(state)@.same_board(old(state)@),
        final(state)@ == old(state)@.with_pos(*id, effect.to),
{
    set_pos(state, *id, effect.to);
}

/// The entity regains strength, up to its base, and loses every
/// lasting effect.
fn apply_effect_heal(state: &mut State, id: &Id, effect: &effect::Heal)
    ensures
        final(state)@.same_board(old(state)@),
        final(state)@ == old(state)@.heal(*id, effect.strength.0),
{
    if let Some(component) = state.parts.strength.get(*id) {
        let mut component: Strength = *component;
        component.strength.0 = add_capped(component.strength.0, effect.strength.0);
        if component.strength.0 > component.base_strength.0 {
            component.strength = component.base_strength;
        }
        set_strength(state, *id, component);
    }
    if state.parts.effects.contains(*id) {
        state.parts.effects.insert(*id, Effects(Vec::new()));
    }
    assert(state@ =~= old(state)@.heal(*id, effect.strength.0));
}

/// The entity loses `damage` points of strength, and one attack if it
/// is an agent that has any left.
pub fn apply_effect_wound(state: &mut State, id: &Id, damage: i32)
    requires
        damage >= 0,
    ensures
        final(state)@.same_board(old(state)@),
        final(state)@ == old(state)@.wound(*id, damage),
{
    if let Some(component) = state.parts.strength.get(*id) {
        let mut component: Strength = *component;
        component.strength.0 = lower(component.strength.0, damage);
        set_strength(state, *id, component);
    }
    if let Some(agent) = state.parts.agent.get(*id) {
        let mut agent: Agent = *agent;
        agent.attacks.0 = spend(agent.attacks.0, 1);
        set_agent(state, *id, agent);
    }
}

/// The entity leaves the battle: dead.
fn apply_effect_kill(state: &mut State, id: &Id)
    ensures
        final(state)@.same_board(old(state)@),
        final(state)@ == old(state)@.without(*id),
{
    state.parts.remove(id);
    assert(state@ =~= old(state)@.without(*id));
}

/// The entity leaves the battle: gone.
fn apply_effect_vanish(state: &mut State, id: &Id)
    ensures
        final(state)@.same_board(old(state)@),
        final(state)@ == old(state)@.without(*id),
{
    state.parts.remove(id);
    assert(state@ =~= old(state)@.without(*id));
}

fn add_component(state: &mut State, id: Id, component: &Component)
    ensures
        final(state)@.same_board(old(state)@),
        final(state)@ == old(state)@.with_component(id, component@),
{
    proof {
        reveal(Model::with_component);
    }
    match component {
        Component::Pos(c) => {
            state.parts.pos.insert(id, *c);
        },
        Component::Strength(c) => {
            state.parts.strength.insert(id, *c);
        },
        Component::Meta(c) => {
            state.parts.meta.insert(id, c.clone());
        },
        Component::BelongsTo(c) => {
            state.parts.belongs_to.insert(id, *c);
        },
        Component::Agent(c) => {
            state.parts.agent.insert(id, *c);
        },
        Component::Blocker(c) => {
            state.parts.blocker.insert(id, *c);
        },
        Component::Abilities(c) => {
            state.parts.abilities.insert(id, c.clone());
        },
        Component::PassiveAbilities(c) => {
            state.parts.passive_abilities.insert(id, c.clone());
        },
        Component::Effects(c) => {
            state.parts.effects.insert(id, c.clone());
        },
        Component::Schedule(c) => {
            state.parts.schedule.insert(id, c.clone());
        },
        Component::Summoner(c) => {
            state.parts.summoner.insert(id, *c);
        },
    }
    assert(state@ =~= old(state)@.with_component(id, component@));
}

/// The entity gets the components of the list, one after the other,
/// each in place of the one of its kind that the entity had.
pub fn add_components(state: &mut State, id: &Id, components: &[Component])
    ensures
        final(state)@.same_board(old(state)@),
        final(state)@ == old(state)@.with_components(
            *id,
            kit_model(components@),
            components@.len() as int,
        ),
        old(state)@.agents_ok() && kit_ok(kit_model(components@)) ==> final(state)@.agents_ok(),
        old(state)@.strengths_ok() && kit_ok(kit_model(components@)) ==> final(state)@.strengths_ok(),
{
    proof {
        reveal(Model::with_component);
    }
    let mut i: usize = 0;
    while i < components.len()
        invariant
            state@.same_board(old(state)@),
            i <= components@.len(),
            state@ == old(state)@.with_components(*id, kit_model(components@), i as int),
            old(state)@.agents_ok() && kit_ok(kit_model(components@)) ==> state@.agents_ok(),
            old(state)@.strengths_ok() && kit_ok(kit_model(components@)) ==> state@.strengths_ok(),
        decreases components@.len() - i,
    {
        proof {
            reveal(Model::with_component);
        }
        add_component(state, *id, &components[i]);
        i += 1;
    }
}

fn apply_effect_create(state: &mut State, id: &Id, effect: &effect::Create)
    ensures
        final(state)@.same_board(old(state)@),
        final(state)@ == old(state)@.with_components(
            *id,
            kit_model(effect.components@),
            effect.components@.len() as int,
        ),
        old(state)@.agents_ok() && kit_ok(kit_model(effect.components@)) ==> final(state)@.agents_ok(),
        old(state)@.strengths_ok() && kit_ok(kit_model(effect.components@)) ==> final(state)@.strengths_ok(),
{
    add_components(state, id, effect.components.as_slice());
}

/// Puts the lasting effect into the list: see `put_timed`.
fn put_timed_into(list: &mut Vec<Timed>, timed: Timed)
    ensures
        final(list)@ == put_timed(old(list)@, timed),
{
    let mut i: usize = 0;
    while i < list.len()
        invariant
            i <= list@.len(),
            list@ == old(list)@,
            timed_slot(list@, timed.effect, 0) == timed_slot(list@, timed.effect, i as int),
        decreases list@.len() - i,
    {
        if list[i].effect == timed.effect {
            list.set(i, timed);
            return ;
        }
        i += 1;
    }
    list.push(timed);
}

/// Puts the planned ability into the list: see `put_planned`.
fn put_planned_into(list: &mut Vec<PlannedAbility>, planned: PlannedAbility)
    ensures
        final(list)@ == put_planned(old(list)@, planned),
{
    let mut i: usize = 0;
    while i < list.len()
        invariant
            i <= list@.len(),
            list@ == old(list)@,
            planned_slot(list@, planned.ability, 0) == planned_slot(
                list@,
                planned.ability,
                i as int,
            ),
        decreases list@.len() - i,
    {
        if list[i].ability == planned.ability {
            list.set(i, planned);
            return ;
        }
        i += 1;
    }
    list.push(planned);
}

/// The ability is planned for the entity: in place of a plan for the
/// same ability, if the entity has one, else as a further plan.
pub fn apply_scheduled_ability(state: &mut State, id: &Id, planned_ability: &PlannedAbility)
    ensures
        final(state)@.same_board(old(state)@),
        final(state)@ == old(state)@.with_planned(*id, *planned_ability),
{
    let mut row: Schedule = match state.parts.schedule.remove(*id) {
        Some(row) => row,
        None => Schedule::default(),
    };
    put_planned_into(&mut row.planned, *planned_ability);
    state.parts.schedule.insert(*id, row);
    assert(state@ =~= old(state)@.with_planned(*id, *planned_ability));
}

/// The lasting effect begins on the entity: in place of an effect of
/// the same kind, if the entity is under one, else as a further effect.
pub fn apply_effect_timed(state: &mut State, id: &Id, timed_effect: &Timed)
    ensures
        final(state)@.same_board(old(state)@),
        final(state)@ == old(state)@.with_timed(*id, *timed_effect),
{
    let mut row: Effects = match state.parts.effects.remove(*id) {
        Some(row) => row,
        None => Effects(Vec::new()),
    };
    put_timed_into(&mut row.0, *timed_effect);
    state.parts.effects.insert(*id, row);
    assert(state@ =~= old(state)@.with_timed(*id, *timed_effect));
}

fn cool_list(list: &Vec<RechargeableAbility>, ability: Ability) -> (r: Vec<RechargeableAbility>)
    ensures
        r@ == cooled(list@, ability),
{
    let mut r: Vec<RechargeableAbility> = Vec::new();
    let mut i: usize = 0;
    while i < list.len()
        invariant
            i <= list@.len(),
            r@.len() == i,
            forall|j: int| 0 <= j < i ==> r@[j] == cooled(list@, ability)[j],
        decreases list@.len() - i,
    {
        let mut entry: RechargeableAbility = list[i];
        if entry.ability == ability {
            entry.status = Status::Cooldown(entry.ability.base_cooldown());
        }
        r.push(entry);
        i += 1;
    }
    assert(r@ =~= cooled(list@, ability));
    r
}

fn recharge_list(list: &Vec<RechargeableAbility>) -> (r: Vec<RechargeableAbility>)
    ensures
        r@ == recharged(list@),
{
    let mut r: Vec<RechargeableAbility> = Vec::new();
    let mut i: usize = 0;
    while i < list.len()
        invariant
            i <= list@.len(),
            r@.len() == i,
            forall|j: int| 0 <= j < i ==> r@[j] == recharged(list@)[j],
        decreases list@.len() - i,
    {
        let mut entry: RechargeableAbility = list[i];
        entry.status.update();
        r.push(entry);
        i += 1;
    }
    assert(r@ =~= recharged(list@));
    r
}

fn retain_running(list: &Vec<PlannedAbility>) -> (r: Vec<PlannedAbility>)
    ensures
        r@ == running(list@, list@.len() as int),
{
    let mut r: Vec<PlannedAbility> = Vec::new();
    let mut i: usize = 0;
    while i < list.len()
        invariant
            i <= list@.len(),
            r@ == running(list@, i as int),
        decreases list@.len() - i,
    {
        if list[i].rounds.0 > 0 {
            r.push(list[i]);
        }
        i += 1;
    }
    r
}

fn tick_list(list: &Vec<PlannedAbility>, phase: Phase) -> (r: Vec<PlannedAbility>)
    ensures
        r@ == ticked(list@, phase),
{
    let mut r: Vec<PlannedAbility> = Vec::new();
    let mut i: usize = 0;
    while i < list.len()
        invariant
            i <= list@.len(),
            r@.len() == i,
            forall|j: int| 0 <= j < i ==> r@[j] == ticked(list@, phase)[j],
        decreases list@.len() - i,
    {
        let mut entry: PlannedAbility = list[i];
        if entry.phase == phase {
            entry.rounds.decrease();
        }
        r.push(entry);
        i += 1;
    }
    assert(r@ =~= ticked(list@, phase));
    r
}

fn age_list(list: &Vec<Timed>, phase: Phase) -> (r: Vec<Timed>)
    ensures
        r@ == aged(list@, phase),
{
    let mut r: Vec<Timed> = Vec::new();
    let mut i: usize = 0;
    while i < list.len()
        invariant
            i <= list@.len(),
            r@.len() == i,
            forall|j: int| 0 <= j < i ==> r@[j] == aged(list@, phase)[j],
        decreases list@.len() - i,
    {
        let mut entry: Timed = list[i];
        if entry.phase == phase {
            if let Duration::Rounds(rounds) = entry.duration {
                let mut rounds: Rounds = rounds;
                if !rounds.is_zero() {
                    rounds.decrease();
                }
                entry.duration = Duration::Rounds(rounds);
            }
        }
        r.push(entry);
        i += 1;
    }
    assert(r@ =~= aged(list@, phase));
    r
}

fn retain_staying(list: &Vec<Timed>, weak: bool) -> (r: Vec<Timed>)
    ensures
        r@ == staying(list@, weak, list@.len() as int),
{
    let mut r: Vec<Timed> = Vec::new();
    let mut i: usize = 0;
    while i < list.len()
        invariant
            i <= list@.len(),
            r@ == staying(list@, weak, i as int),
        decreases list@.len() - i,
    {
        let entry: Timed = list[i];
        let poisoned: bool = match entry.effect {
            Lasting::Poison => true,
            _ => false,
        };
        let keep: bool = !(poisoned && weak) && !entry.duration.is_over();
        if keep {
            r.push(entry);
        }
        i += 1;
    }
    r
}

/// The entity has used the ability on a tile: see `Model::ability_used`.
pub fn apply_event_use_ability(state: &mut State, event: &event::UseAbility)
    ensures
        final(state)@.same_board(old(state)@),
        final(state)@ == old(state)@.ability_used(event.id, event.pos, event.ability),
        old(state)@.agents_ok() ==> final(state)@.agents_ok(),
{
    proof {
        reveal(Model::ability_used);
    }
    let id = event.id;
    if let Some(abilities) = state.parts.abilities.get(id) {
        let list = cool_list(&abilities.0, event.ability);
        state.parts.abilities.insert(id, Abilities(list));
    }
    assert(state@ =~= (if old(state)@.abilities.contains_key(id.0 as int) {
        Model {
            abilities: old(state)@.abilities.insert(
                id.0 as int,
                cooled(old(state)@.abilities[id.0 as int], event.ability),
            ),
            ..old(state)@
        }
    } else {
        old(state)@
    }));
    if let Some(agent) = state.parts.agent.get(id) {
        let mut agent: Agent = *agent;
        if agent.attacks.0 > 0 {
            agent.attacks.0 = spend(agent.attacks.0, 1);
        } else if agent.jokers.0 > 0 {
            agent.jokers.0 = spend(agent.jokers.0, 1);
        }
        set_agent(state, id, agent);
    }
    match event.ability {
        Ability::Jump | Ability::LongJump | Ability::Dash => {
            set_pos(state, id, event.pos);
        },
        Ability::Rage => {
            if let Some(agent) = state.parts.agent.get(id) {
                let mut agent: Agent = *agent;
                agent.attacks.0 = add_capped(agent.attacks.0, 3);
                set_agent(state, id, agent);
            }
        },
        Ability::Summon => {
            if let Some(summoner) = state.parts.summoner.get(id) {
                let mut summoner: Summoner = *summoner;
                if summoner.count < u32::MAX {
                    summoner.count += 1;
                }
                state.parts.summoner.insert(id, summoner);
            }
            assert(state@ =~= old(state)@.ability_used(event.id, event.pos, event.ability));
        },
        _ => {},
    }
}

impl Model {
    /// The agent `k` at the end of a turn of `player`: an agent of that
    /// player gets its reactive attacks on top of its attacks, and a
    /// stunned agent, whoever owns it, loses its attacks.
    pub open spec fn ended_agent(self, k: int, player: PlayerId) -> Agent {
        let agent = if self.owned_by(k, player) {
            replenished(self.agent[k])
        } else {
            self.agent[k]
        };
        if self.is_stunned(Id(k as i32)) {
            disarmed(agent)
        } else {
            agent
        }
    }

    /// The lasting effects that are over are dropped: those whose
    /// rounds have run out, and poison where its bearer is down to one
    /// point of strength.
    pub open spec fn spent_pruned(self) -> Model {
        Model {
            effects: Map::new(
                |k: int| self.effects.contains_key(k),
                |k: int|
                    staying(
                        self.effects[k],
                        self.is_weak(Id(k as i32)),
                        self.effects[k].len() as int,
                    ),
            ),
            ..self
        }
    }

    /// The turn of `player` ends: every agent is left as `ended_agent`
    /// says, every planned ability without rounds to run is dropped, and
    /// so is every lasting effect that has run out.
    #[verifier::opaque]
    pub open spec fn turn_ended(self, player: PlayerId) -> Model {
        (Model {
            agent: Map::new(
                |k: int| self.agent.contains_key(k),
                |k: int| self.ended_agent(k, player),
            ),
            ..self
        }).planned_pruned().spent_pruned()
    }

    /// The turn of `player` begins: it is that player who moves, the
    /// lasting effects of the phase lose a round, the player's agents
    /// get the counters they start a turn with, those of them that are
    /// stunned lose them again, the abilities of the player's agents
    /// let a round pass, and the planned abilities of the phase have a
    /// round less to run.
    #[verifier::opaque]
    pub open spec fn turn_begun(self, player: PlayerId) -> Model {
        (Model { player_id: player, ..self }).durations_updated().moves_reset(
            player,
        ).lasting_applied().cooldowns_updated(player).planned_ticked()
    }

    /// What the active event of an event does to the state.
    #[verifier::opaque]
    pub open spec fn active_applied(self, active: ActiveModel) -> Model {
        match active {
            ActiveModel::MoveTo(id, to, cost) => self.moved(id, to, cost),
            ActiveModel::Attack(ev) => self.attack_paid(ev.attacker_id),
            ActiveModel::EndTurn(player) => self.turn_ended(player),
            ActiveModel::EndBattle(result) => Model { battle_result: Some(result), ..self },
            ActiveModel::BeginTurn(player) => self.turn_begun(player),
            ActiveModel::UseAbility(ev) => self.ability_used(ev.id, ev.pos, ev.ability),
            ActiveModel::EffectEnd(ev) => self.effect_ended(ev.id, ev.effect),
            _ => self,
        }
    }

    /// What an instant effect does to the entity it falls on.
    #[verifier::opaque]
    pub open spec fn instant(self, id: Id, effect: EffectModel) -> Model {
        match effect {
            EffectModel::Create(e) => self.with_components(
                id,
                e.components,
                e.components.len() as int,
            ),
            EffectModel::Kill(_) => self.without(id),
            EffectModel::Vanish => self.without(id),
            EffectModel::Stun => self.stun(id),
            EffectModel::Heal(e) => self.heal(id, e.strength.0),
            EffectModel::Wound(e) => self.wound(id, e.damage.0),
            EffectModel::Knockback(e) => self.pushed(id, e.from, e.to),
            EffectModel::FlyOff(e) => self.pushed(id, e.from, e.to),
            EffectModel::Throw(e) => self.with_pos(id, e.to),
            EffectModel::Bloodlust => self.bloodlust(id),
            EffectModel::Dodge(_) => self,
        }
    }

    /// The first `n` instant effects of a list fall on the entity, one
    /// after the other.
    pub open spec fn instants(self, id: Id, effects: Seq<EffectModel>, n: int) -> Model
        decreases n,
    {
        if n <= 0 {
            self
        } else {
            self.instants(id, effects, n - 1).instant(id, effects[n - 1])
        }
    }

    /// The instant effects of the first `n` entries fall on their
    /// entities, entry after entry.
    pub open spec fn all_instants(self, entries: Seq<(Id, Seq<EffectModel>)>, n: int) -> Model
        decreases n,
    {
        if n <= 0 {
            self
        } else {
            self.all_instants(entries, n - 1).instants(
                entries[n - 1].0,
                entries[n - 1].1,
                entries[n - 1].1.len() as int,
            )
        }
    }

    /// The first `n` lasting effects of a list begin on the entity.
    pub open spec fn timeds(self, id: Id, effects: Seq<Timed>, n: int) -> Model
        decreases n,
    {
        if n <= 0 {
            self
        } else {
            self.timeds(id, effects, n - 1).with_timed(id, effects[n - 1])
        }
    }

    /// The lasting effects of the first `n` entries begin on their entities.
    pub open spec fn all_timeds(self, entries: Seq<(Id, Seq<Timed>)>, n: int) -> Model
        decreases n,
    {
        if n <= 0 {
            self
        } else {
            self.all_timeds(entries, n - 1).timeds(
                entries[n - 1].0,
                entries[n - 1].1,
                entries[n - 1].1.len() as int,
            )
        }
    }

    /// The first `n` abilities of a list are planned for the entity.
    pub open spec fn planneds(self, id: Id, abilities: Seq<PlannedAbility>, n: int) -> Model
        decreases n,
    {
        if n <= 0 {
            self
        } else {
            self.planneds(id, abilities, n - 1).with_planned(id, abilities[n - 1])
        }
    }

    /// The abilities of the first `n` entries are planned for their entities.
    pub open spec fn all_planneds(self, entries: Seq<(Id, Seq<PlannedAbility>)>, n: int) -> Model
        decreases n,
    {
        if n <= 0 {
            self
        } else {
            self.all_planneds(entries, n - 1).planneds(
                entries[n - 1].0,
                entries[n - 1].1,
                entries[n - 1].1.len() as int,
            )
        }
    }

    /// The state after an event: first what the active event does, then
    /// every instant effect, then every lasting effect, then every
    /// planned ability, each list in its order.
    #[verifier::opaque]
    pub open spec fn applied(self, event: EventModel) -> Model {
        self.active_applied(event.active).all_instants(
            event.instant,
            event.instant.len() as int,
        ).all_timeds(event.timed, event.timed.len() as int).all_planneds(
            event.planned,
            event.planned.len() as int,
        )
    }
}

/// Every planned ability that has no round left to run is dropped.
pub fn remove_outdated_planned_abilities(state: &mut State)
    ensures
        final(state)@.same_board(old(state)@),
        final(state)@ == old(state)@.planned_pruned(),
{
    let ghost before = state@;
    let n: i32 = state.parts.schedule.bound();
    let mut i: i32 = 0;
    while i < n
        invariant
            state@.same_board(old(state)@),
            0 <= i <= n,
            before == old(state)@,
            forall|k: int| #[trigger] before.schedule.contains_key(k) ==> 0 <= k < n,
            state@ == (Model {
                schedule: Map::new(
                    |k: int| before.schedule.contains_key(k),
                    |k: int|
                        if k < i {
                            running(before.schedule[k], before.schedule[k].len() as int)
                        } else {
                            before.schedule[k]
                        },
                ),
                ..before
            }),
        decreases n - i,
    {
        let ghost prev = state@;
        proof {
            assert(prev.schedule.contains_key(i as int) == before.schedule.contains_key(i as int));
            if prev.schedule.contains_key(i as int) {
                assert(prev.schedule[i as int] == before.schedule[i as int]);
                assert(state.parts.schedule@[i as int]@ == prev.schedule[i as int]);
            }
        }
        if let Some(row) = state.parts.schedule.get(Id(i)) {
            let list = retain_running(&row.planned);
            state.parts.schedule.insert(Id(i), Schedule { planned: list });
        }
        let ghost want = Map::new(
            |k: int| before.schedule.contains_key(k),
            |k: int|
                if k < i + 1 {
                    running(before.schedule[k], before.schedule[k].len() as int)
                } else {
                    before.schedule[k]
                },
        );
        assert forall|k: int| state@.schedule.contains_key(k) == want.contains_key(k) by {
            assert(prev.schedule.contains_key(k) == before.schedule.contains_key(k));
        }
        assert forall|k: int| #[trigger] state@.schedule.contains_key(k) implies state@.schedule[k] == want[k] by {
            assert(prev.schedule.contains_key(k));
            if k != i {
                assert(state@.schedule[k] == prev.schedule[k]);
            } else {
                assert(state@.schedule[k] == running(before.schedule[k], before.schedule[k].len() as int));
            }
        }
        assert(state@.schedule =~= want);
        assert(state@ =~= (Model { schedule: state@.schedule, ..before }));
        i += 1;
    }
    assert(state@.schedule =~= before.planned_pruned().schedule);
}

/// Every planned ability of the phase of the player who moves has a
/// round less to run.
pub fn tick_planned_abilities(state: &mut State)
    ensures
        final(state)@.same_board(old(state)@),
        final(state)@ == old(state)@.planned_ticked(),
{
    let ghost before = state@;
    let phase = Phase(state.player_id().0);
    let n: i32 = state.parts.schedule.bound();
    let mut i: i32 = 0;
    while i < n
        invariant
            state@.same_board(old(state)@),
            0 <= i <= n,
            before == old(state)@,
            phase == Phase(before.player_id.0),
            forall|k: int| #[trigger] before.schedule.contains_key(k) ==> 0 <= k < n,
            state@ == (Model {
                schedule: Map::new(
                    |k: int| before.schedule.contains_key(k),
                    |k: int|
                        if k < i {
                            ticked(before.schedule[k], phase)
                        } else {
                            before.schedule[k]
                        },
                ),
                ..before
            }),
        decreases n - i,
    {
        let ghost prev = state@;
        proof {
            assert(prev.schedule.contains_key(i as int) == before.schedule.contains_key(i as int));
            if prev.schedule.contains_key(i as int) {
                assert(prev.schedule[i as int] == before.schedule[i as int]);
                assert(state.parts.schedule@[i as int]@ == prev.schedule[i as int]);
            }
        }
        if let Some(row) = state.parts.schedule.get(Id(i)) {
            let list = tick_list(&row.planned, phase);
            state.parts.schedule.insert(Id(i), Schedule { planned: list });
        }
        let ghost want = Map::new(
            |k: int| before.schedule.contains_key(k),
            |k: int|
                if k < i + 1 {
                    ticked(before.schedule[k], phase)
                } else {
                    before.schedule[k]
                },
        );
        assert forall|k: int| state@.schedule.contains_key(k) == want.contains_key(k) by {
            assert(prev.schedule.contains_key(k) == before.schedule.contains_key(k));
        }
        assert forall|k: int| #[trigger] state@.schedule.contains_key(k) implies state@.schedule[k]
            == want[k] by {
            assert(prev.schedule.contains_key(k));
            if k != i {
                assert(state@.schedule[k] == prev.schedule[k]);
            } else {
                assert(state@.schedule[k] == ticked(before.schedule[k], phase));
            }
        }
        assert(state@.schedule =~= want);
        assert(state@ =~= (Model { schedule: state@.schedule, ..before }));
        i += 1;
    }
    assert(state@.schedule =~= before.planned_ticked().schedule);
}

/// Every lasting effect of the phase of the player who moves has a
/// round less.
fn update_lasting_effects_duration(state: &mut State)
    ensures
        final(state)@.same_board(old(state)@),
        final(state)@ == old(state)@.durations_updated(),
{
    let ghost before = state@;
    let phase = Phase(state.player_id().0);
    let n: i32 = state.parts.effects.bound();
    let mut i: i32 = 0;
    while i < n
        invariant
            state@.same_board(old(state)@),
            0 <= i <= n,
            before == old(state)@,
            phase == Phase(before.player_id.0),
            forall|k: int| #[trigger] before.effects.contains_key(k) ==> 0 <= k < n,
            state@ == (Model {
                effects: Map::new(
                    |k: int| before.effects.contains_key(k),
                    |k: int|
                        if k < i {
                            aged(before.effects[k], phase)
                        } else {
                            before.effects[k]
                        },
                ),
                ..before
            }),
        decreases n - i,
    {
        let ghost prev = state@;
        proof {
            assert(prev.effects.contains_key(i as int) == before.effects.contains_key(i as int));
            if prev.effects.contains_key(i as int) {
                assert(prev.effects[i as int] == before.effects[i as int]);
                assert(state.parts.effects@[i as int]@ == prev.effects[i as int]);
            }
        }
        if let Some(row) = state.parts.effects.get(Id(i)) {
            let list = age_list(&row.0, phase);
            state.parts.effects.insert(Id(i), Effects(list));
        }
        let ghost want = Map::new(
            |k: int| before.effects.contains_key(k),
            |k: int|
                if k < i + 1 {
                    aged(before.effects[k], phase)
                } else {
                    before.effects[k]
                },
        );
        assert forall|k: int| state@.effects.contains_key(k) == want.contains_key(k) by {
            assert(prev.effects.contains_key(k) == before.effects.contains_key(k));
        }
        assert forall|k: int| #[trigger] state@.effects.contains_key(k) implies state@.effects[k]
            == want[k] by {
            assert(prev.effects.contains_key(k));
            if k != i {
                assert(state@.effects[k] == prev.effects[k]);
            } else {
                assert(state@.effects[k] == aged(before.effects[k], phase));
            }
        }
        assert(state@.effects =~= want);
        assert(state@ =~= (Model { effects: state@.effects, ..before }));
        i += 1;
    }
    assert(state@.effects =~= before.durations_updated().effects);
}

/// The outdated lasting effects are dropped, and those that stay and
/// belong to the phase of the player who moves have a round less: see
/// `Model::lasting_pruned`.
pub fn remove_outdated_lasting_effect(state: &mut State)
    ensures
        final(state)@.same_board(old(state)@),
        final(state)@ == old(state)@.lasting_pruned(),
{
    let ghost before = state@;
    let phase = Phase(state.player_id().0);
    let n: i32 = state.parts.effects.bound();
    let mut i: i32 = 0;
    while i < n
        invariant
            state@.same_board(old(state)@),
            0 <= i <= n,
            before == old(state)@,
            phase == Phase(before.player_id.0),
            forall|k: int| #[trigger] before.effects.contains_key(k) ==> 0 <= k < n,
            state@ == (Model {
                effects: Map::new(
                    |k: int| before.effects.contains_key(k),
                    |k: int|
                        if k < i {
                            aged(
                                staying(
                                    before.effects[k],
                                    before.is_weak(Id(k as i32)),
                                    before.effects[k].len() as int,
                                ),
                                phase,
                            )
                        } else {
                            before.effects[k]
                        },
                ),
                ..before
            }),
        decreases n - i,
    {
        let weak: bool = match state.parts.strength.get(Id(i)) {
            Some(strength) => strength.strength.0 <= 1,
            None => false,
        };
        let ghost prev = state@;
        proof {
            assert(prev.effects.contains_key(i as int) == before.effects.contains_key(i as int));
            if prev.effects.contains_key(i as int) {
                assert(prev.effects[i as int] == before.effects[i as int]);
                assert(state.parts.effects@[i as int]@ == prev.effects[i as int]);
            }
        }
        if let Some(row) = state.parts.effects.get(Id(i)) {
            let kept = retain_staying(&row.0, weak);
            let list = age_list(&kept, phase);
            state.parts.effects.insert(Id(i), Effects(list));
        }
        let ghost want = Map::new(
            |k: int| before.effects.contains_key(k),
            |k: int|
                if k < i + 1 {
                    aged(
                        staying(
                            before.effects[k],
                            before.is_weak(Id(k as i32)),
                            before.effects[k].len() as int,
                        ),
                        phase,
                    )
                } else {
                    before.effects[k]
                },
        );
        assert forall|k: int| state@.effects.contains_key(k) == want.contains_key(k) by {
            assert(prev.effects.contains_key(k) == before.effects.contains_key(k));
        }
        assert forall|k: int| #[trigger] state@.effects.contains_key(k) implies state@.effects[k]
            == want[k] by {
            assert(prev.effects.contains_key(k));
            if k != i {
                assert(state@.effects[k] == prev.effects[k]);
            } else {
                assert(state@.effects[k] == aged(
                        staying(
                            before.effects[k],
                            before.is_weak(Id(k as i32)),
                            before.effects[k].len() as int,
                        ),
                        phase,
                    ));
            }
        }
        assert(state@.effects =~= want);
        assert(state@ =~= (Model { effects: state@.effects, ..before }));
        i += 1;
    }
    assert(state@.effects =~= before.lasting_pruned().effects);
}

fn prune_spent_effects(state: &mut State)
    ensures
        final(state)@.same_board(old(state)@),
        final(state)@ == old(state)@.spent_pruned(),
{
    let ghost before = state@;
    let n: i32 = state.parts.effects.bound();
    let mut i: i32 = 0;
    while i < n
        invariant
            state@.same_board(old(state)@),
            0 <= i <= n,
            before == old(state)@,
            forall|k: int| #[trigger] before.effects.contains_key(k) ==> 0 <= k < n,
            state@ == (Model {
                effects: Map::new(
                    |k: int| before.effects.contains_key(k),
                    |k: int|
                        if k < i {
                            staying(
                                before.effects[k],
                                before.is_weak(Id(k as i32)),
                                before.effects[k].len() as int,
                            )
                        } else {
                            before.effects[k]
                        },
                ),
                ..before
            }),
        decreases n - i,
    {
        let spent: bool = match state.parts.strength.get(Id(i)) {
            Some(strength) => strength.strength.0 <= 1,
            None => false,
        };
        let ghost prev = state@;
        proof {
            assert(prev.effects.contains_key(i as int) == before.effects.contains_key(i as int));
            if prev.effects.contains_key(i as int) {
                assert(prev.effects[i as int] == before.effects[i as int]);
                assert(state.parts.effects@[i as int]@ == prev.effects[i as int]);
            }
        }
        if let Some(row) = state.parts.effects.get(Id(i)) {
            let kept = retain_staying(&row.0, spent);
            state.parts.effects.insert(Id(i), Effects(kept));
        }
        let ghost want = Map::new(
            |k: int| before.effects.contains_key(k),
            |k: int|
                if k < i + 1 {
                    staying(
                        before.effects[k],
                        before.is_weak(Id(k as i32)),
                        before.effects[k].len() as int,
                    )
                } else {
                    before.effects[k]
                },
        );
        assert forall|k: int| state@.effects.contains_key(k) == want.contains_key(k) by {
            assert(prev.effects.contains_key(k) == before.effects.contains_key(k));
        }
        assert forall|k: int| #[trigger] state@.effects.contains_key(k) implies state@.effects[k]
            == want[k] by {
            assert(prev.effects.contains_key(k));
            if k != i {
                assert(state@.effects[k] == prev.effects[k]);
            } else {
                assert(state@.effects[k] == staying(
                        before.effects[k],
                        before.is_weak(Id(k as i32)),
                        before.effects[k].len() as int,
                    ));
            }
        }
        assert(state@.effects =~= want);
        assert(state@ =~= (Model { effects: state@.effects, ..before }));
        i += 1;
    }
    assert(state@.effects =~= before.spent_pruned().effects);
}

fn update_cooldowns_for_object(state: &mut State, id: &Id)
    ensures
        final(state)@.same_board(old(state)@),
        final(state)@ == (if old(state)@.abilities.contains_key(id.0 as int) {
            Model {
                abilities: old(state)@.abilities.insert(
                    id.0 as int,
                    recharged(old(state)@.abilities[id.0 as int]),
                ),
                ..old(state)@
            }
        } else {
            old(state)@
        }),
{
    if let Some(abilities) = state.parts.abilities.get(*id) {
        let list = recharge_list(&abilities.0);
        state.parts.abilities.insert(*id, Abilities(list));
    }
    assert(state@ =~= (if old(state)@.abilities.contains_key(id.0 as int) {
        Model {
            abilities: old(state)@.abilities.insert(
                id.0 as int,
                recharged(old(state)@.abilities[id.0 as int]),
            ),
            ..old(state)@
        }
    } else {
        old(state)@
    }));
}

/// The abilities of every agent of the player let a round pass.
pub fn update_cooldowns(state: &mut State, player_id: PlayerId)
    ensures
        final(state)@.same_board(old(state)@),
        final(state)@ == old(state)@.cooldowns_updated(player_id),
{
    let ghost before = state@;
    let ids = state::players_agent_ids(state, player_id);
    let mut i: usize = 0;
    while i < ids.len()
        invariant
            state@.same_board(old(state)@),
            i <= ids@.len(),
            before == old(state)@,
            ids@ == before.agent_ids_of(player_id),
            state@ == (Model {
                abilities: abilities_after(before.abilities, ids@, i as int),
                ..before
            }),
        decreases ids@.len() - i,
    {
        update_cooldowns_for_object(state, &ids[i]);
        i += 1;
    }
}

/// The turn of the player ends: see `Model::turn_ended`.
pub fn apply_event_end_turn(state: &mut State, this_player: PlayerId)
    ensures
        final(state)@.same_board(old(state)@),
        final(state)@ == old(state)@.turn_ended(this_player),
        old(state)@.agents_ok() ==> final(state)@.agents_ok(),
{
    proof {
        reveal(Model::turn_ended);
    }
    let ghost before = state@;
    let n: i32 = state.parts.agent.bound();
    let mut i: i32 = 0;
    while i < n
        invariant
            state@.same_board(old(state)@),
            0 <= i <= n,
            before == old(state)@,
            forall|k: int| #[trigger] before.agent.contains_key(k) ==> 0 <= k < n,
            state@ == (Model {
                agent: Map::new(
                    |k: int| before.agent.contains_key(k),
                    |k: int|
                        if k < i {
                            before.ended_agent(k, this_player)
                        } else {
                            before.agent[k]
                        },
                ),
                ..before
            }),
        decreases n - i,
    {
        let id = Id(i);
        let is_stun = stunned(state, id);
        let is_own: bool = match state.parts.belongs_to.get(id) {
            Some(owner) => owner.0 == this_player,
            None => false,
        };
        if let Some(agent) = state.parts.agent.get(id) {
            let mut agent: Agent = *agent;
            if is_own {
                agent.attacks.0 = add_capped(agent.attacks.0, agent.reactive_attacks.0);
            }
            if is_stun {
                agent.attacks.0 = 0;
            }
            set_agent(state, id, agent);
        }
        assert(state@.agent =~= Map::new(
            |k: int| before.agent.contains_key(k),
            |k: int|
                if k < i + 1 {
                    before.ended_agent(k, this_player)
                } else {
                    before.agent[k]
                },
        ));
        assert(state@ =~= (Model { agent: state@.agent, ..before }));
        i += 1;
    }
    assert(state@.agent =~= Map::new(
        |k: int| before.agent.contains_key(k),
        |k: int| before.ended_agent(k, this_player),
    ));
    assert(state@ =~= (Model { agent: state@.agent, ..before }));
    remove_outdated_planned_abilities(state);
    prune_spent_effects(state);
}

fn apply_event_end_battle(state: &mut State, event: &event::EndBattle)
    ensures
        final(state)@.same_board(old(state)@),
        final(state)@ == (Model { battle_result: Some(event.result@), ..old(state)@ }),
{
    state.set_battle_result(event.result.clone());
}

fn apply_event_begin_turn(state: &mut State, event: &event::BeginTurn)
    ensures
        final(state)@.same_board(old(state)@),
        final(state)@ == old(state)@.turn_begun(event.player_id),
        old(state)@.agents_ok() ==> final(state)@.agents_ok(),
{
    proof {
        reveal(Model::turn_begun);
    }
    state.set_player_id(event.player_id);
    update_lasting_effects_duration(state);
    reset_moves_and_attacks(state, event.player_id);
    apply_lasting_effects(state);
    update_cooldowns(state, event.player_id);
    tick_planned_abilities(state);
}

fn drop_lasting(list: &Vec<Timed>, kind: Lasting) -> (r: Vec<Timed>)
    ensures
        r@ == without_lasting(list@, kind, list@.len() as int),
{
    let mut r: Vec<Timed> = Vec::new();
    let mut i: usize = 0;
    while i < list.len()
        invariant
            i <= list@.len(),
            r@ == without_lasting(list@, kind, i as int),
        decreases list@.len() - i,
    {
        let entry: Timed = list[i];
        if !(entry.effect == kind) {
            r.push(entry);
        }
        i += 1;
    }
    r
}

/// The lasting effect ends on the entity: see `Model::effect_ended`.
fn apply_event_effect_end(state: &mut State, event: &crate::battle::event::EffectEnd)
    ensures
        final(state)@.same_board(old(state)@),
        final(state)@ == old(state)@.effect_ended(event.id, event.effect),
        old(state)@.agents_ok() ==> final(state)@.agents_ok(),
{
    if let Some(row) = state.parts.effects.get(event.id) {
        let kept = drop_lasting(&row.0, event.effect);
        state.parts.effects.insert(event.id, Effects(kept));
        assert(state@ =~= old(state)@.effect_ended(event.id, event.effect));
    }
}

fn apply_event(state: &mut State, event: &Event)
    requires
        payable(old(state)@, event.active_event@),
    ensures
        final(state)@.same_board(old(state)@),
        final(state)@ == old(state)@.active_applied(event.active_event@),
        old(state)@.agents_ok() ==> final(state)@.agents_ok(),
{
    proof {
        reveal(Model::active_applied);
    }
    match &event.active_event {
        ActiveEvent::Create => {},
        ActiveEvent::MoveTo(ev) => apply_event_move_to(state, ev),
        ActiveEvent::Attack(ev) => apply_event_attack(state, &ev.attacker_id),
        ActiveEvent::EndTurn(ev) => apply_event_end_turn(state, ev.player_id),
        ActiveEvent::EndBattle(ev) => apply_event_end_battle(state, ev),
        ActiveEvent::BeginTurn(ev) => apply_event_begin_turn(state, ev),
        ActiveEvent::UseAbility(ev) => apply_event_use_ability(state, ev),
        ActiveEvent::EffectEnd(ev) => apply_event_effect_end(state, ev),
        ActiveEvent::UsePassiveAbility(_) | ActiveEvent::EffectTick(_) => {},
    }
}

fn apply_effect_instant(state: &mut State, id: &Id, effect: &Effect)
    requires
        effect@ matches EffectModel::Wound(w) ==> w.damage.0 >= 0,
    ensures
        final(state)@.same_board(old(state)@),
        final(state)@ == old(state)@.instant(*id, effect@),
        old(state)@.agents_ok() && (effect@ matches EffectModel::Create(c) ==> kit_ok(c.components))
            ==> final(state)@.agents_ok(),
{
    proof {
        reveal(Model::instant);
    }
    match effect {
        Effect::Create(effect) => apply_effect_create(state, id, effect),
        Effect::Kill(_) => apply_effect_kill(state, id),
        Effect::Vanish => apply_effect_vanish(state, id),
        Effect::Stun => apply_effect_stun(state, id),
        Effect::Heal(effect) => apply_effect_heal(state, id, effect),
        Effect::Wound(effect) => apply_effect_wound(state, id, effect.damage.0),
        Effect::Knockback(effect) => apply_effect_knockback(state, id, effect),
        Effect::FlyOff(effect) => apply_effect_fly_off(state, id, effect),
        Effect::Throw(effect) => apply_effect_throw(state, id, effect),
        Effect::Bloodlust => apply_effect_bloodlust(state, id),
        Effect::Dodge(_) => {},
    }
}

/// Applies an event to the state: what its active event does, then
/// its instant effects, its lasting effects and its planned abilities,
/// each in the order of its list. The state must be able to pay for
/// the event, and no wound of the event has negative damage.
pub fn apply(state: &mut State, event: &Event)
    requires
        event@.wounds_ok(),
        payable(old(state)@, event@.active),
    ensures
        final(state)@.same_board(old(state)@),
        final(state)@ == old(state)@.applied(event@),
        old(state)@.agents_ok() && event@.kits_ok() ==> final(state)@.agents_ok(),
        old(state)@.strengths_ok() && entries_safe(old(state)@, event@.instant) ==> final(state)@.strengths_ok(),
{
    proof {
        if state@.strengths_ok() && entries_safe(state@, event@.instant) {
            lemma_applied_safe(state@, event@);
        }
    }
    proof {
        reveal(Model::applied);
    }
    apply_event(state, event);
    let ghost after_active = state@;
    let ghost ev = event@;
    let mut i: usize = 0;
    while i < event.instant_effects.len()
        invariant
            state@.same_board(old(state)@),
            i <= event.instant_effects@.len(),
            ev == event@,
            ev.wounds_ok(),
            state@ == after_active.all_instants(ev.instant, i as int),
            old(state)@.agents_ok() && ev.kits_ok() ==> state@.agents_ok(),
        decreases event.instant_effects@.len() - i,
    {
        let ghost at_entry = state@;
        let obj_id = event.instant_effects[i].0;
        let effects = &event.instant_effects[i].1;
        let mut j: usize = 0;
        while j < effects.len()
            invariant
                state@.same_board(old(state)@),
                j <= effects@.len(),
                i < event.instant_effects@.len(),
                ev == event@,
                ev.wounds_ok(),
                obj_id == ev.instant[i as int].0,
                effects_model(effects@) == ev.instant[i as int].1,
                state@ == at_entry.instants(obj_id, ev.instant[i as int].1, j as int),
                old(state)@.agents_ok() && ev.kits_ok() ==> state@.agents_ok(),
            decreases effects@.len() - j,
        {
            assert(effects@[j as int]@ == ev.instant[i as int].1[j as int]);
            apply_effect_instant(state, &obj_id, &effects[j]);
            j += 1;
        }
        i += 1;
    }
    let ghost after_instant = state@;
    let mut i: usize = 0;
    while i < event.timed_effects.len()
        invariant
            state@.same_board(old(state)@),
            i <= event.timed_effects@.len(),
            ev == event@,
            state@ == after_instant.all_timeds(ev.timed, i as int),
            old(state)@.agents_ok() && ev.kits_ok() ==> state@.agents_ok(),
        decreases event.timed_effects@.len() - i,
    {
        let ghost at_entry = state@;
        let obj_id = event.timed_effects[i].0;
        let effects = &event.timed_effects[i].1;
        let mut j: usize = 0;
        while j < effects.len()
            invariant
                state@.same_board(old(state)@),
                j <= effects@.len(),
                state@ == at_entry.timeds(obj_id, effects@, j as int),
                old(state)@.agents_ok() && ev.kits_ok() ==> state@.agents_ok(),
            decreases effects@.len() - j,
        {
            apply_effect_timed(state, &obj_id, &effects[j]);
            j += 1;
        }
        i += 1;
    }
    let ghost after_timed = state@;
    let mut i: usize = 0;
    while i < event.scheduled_abilities.len()
        invariant
            state@.same_board(old(state)@),
            i <= event.scheduled_abilities@.len(),
            ev == event@,
            state@ == after_timed.all_planneds(ev.planned, i as int),
            old(state)@.agents_ok() && ev.kits_ok() ==> state@.agents_ok(),
        decreases event.scheduled_abilities@.len() - i,
    {
        let ghost at_entry = state@;
        let obj_id = event.scheduled_abilities[i].0;
        let abilities = &event.scheduled_abilities[i].1;
        let mut j: usize = 0;
        while j < abilities.len()
            invariant
                state@.same_board(old(state)@),
                j <= abilities@.len(),
                state@ == at_entry.planneds(obj_id, abilities@, j as int),
                old(state)@.agents_ok() && ev.kits_ok() ==> state@.agents_ok(),
            decreases abilities@.len() - j,
        {
            apply_scheduled_ability(state, &obj_id, &abilities[j]);
            j += 1;
        }
        i += 1;
    }
}

} // verus!
