//! The campaign: a chain of battles, the squad that fights them, and
//! what the player may do with the renown it earns between two battles.

use vstd::prelude::*;

use crate::battle::add_capped;
use crate::battle::capped_sum;
use crate::battle::component::ObjType;
use crate::battle::scenario::Scenario;
use crate::battle::state::names_of;
use crate::battle::state::BattleResult;
use crate::battle::PlayerId;

verus! {

#[derive(Clone, Copy, Debug, PartialEq, Eq, Structural)]
pub enum Mode {
    /// Recruiting/upgrading fighters or starting a new battle.
    PreparingForBattle,
    /// Campaign is finished, the player have won.
    Won,
    /// Campaign is finished, the player have lost.
    Failed,
}

#[derive(Clone, Copy, Debug, PartialEq, Eq, Structural)]
pub struct Renown(pub i32);

/// An award that is given to the player after the successful battle.
#[derive(Clone, Debug)]
pub struct Award {
    pub recruits: Vec<ObjType>,
    pub renown: Renown,
}

#[derive(Clone, Debug, PartialEq)]
pub enum Action {
    Recruit { agent_type: ObjType },
    Upgrade { from: ObjType, to: ObjType },
}

/// What an action says.
pub enum ActionModel {
    Recruit(Seq<char>),
    Upgrade(Seq<char>, Seq<char>),
}

impl View for Action {
    type V = ActionModel;

    open spec fn view(&self) -> ActionModel {
        match *self {
            Action::Recruit { agent_type } => ActionModel::Recruit(agent_type@),
            Action::Upgrade { from, to } => ActionModel::Upgrade(from@, to@),
        }
    }
}

impl Action {
    /// Whether two actions say the same.
    pub fn same(&self, other: &Action) -> (r: bool)
        ensures
            r == (self@ == other@),
    {
        match (self, other) {
            (Action::Recruit { agent_type: a }, Action::Recruit { agent_type: b }) => a.same(b),
            (Action::Upgrade { from: a, to: b }, Action::Upgrade { from: c, to: d }) => a.same(c)
                && b.same(d),
            _ => false,
        }
    }
}

/// What a list of actions says.
pub open spec fn actions_of(actions: Seq<Action>) -> Seq<ActionModel> {
    Seq::new(actions.len(), |i: int| actions[i]@)
}

#[derive(Clone, Debug)]
pub struct CampaignNode {
    pub scenario: Scenario,
    pub award: Award,
}

/// The plan of a campaign: the squad it starts with and its battles.
#[derive(Clone, Debug)]
pub struct Plan {
    pub initial_agents: Vec<ObjType>,
    pub nodes: Vec<CampaignNode>,
}

/// What a kind of agent costs and what it can be upgraded to.
#[derive(Clone, Debug)]
pub struct AgentInfo {
    pub cost: Renown,
    pub upgrades: Vec<ObjType>,
}

/// The place of the first name at or after `from` that equals
/// `name`, or the length of the list if there is none.
pub open spec fn name_slot(list: Seq<Seq<char>>, name: Seq<char>, from: int) -> int
    decreases list.len() - from,
{
    if from < 0 || from >= list.len() {
        list.len() as int
    } else if list[from] == name {
        from
    } else {
        name_slot(list, name, from + 1)
    }
}

/// The list without the first entry that equals `name`.
pub open spec fn without_name(list: Seq<Seq<char>>, name: Seq<char>) -> Seq<Seq<char>> {
    if name_slot(list, name, 0) < list.len() {
        list.remove(name_slot(list, name, 0))
    } else {
        list
    }
}

/// The agents that a battle has cost: the squad without the first `n`
/// survivors, each taken out once where the squad has it.
pub open spec fn lost(squad: Seq<Seq<char>>, survivors: Seq<Seq<char>>, n: int) -> Seq<Seq<char>>
    decreases n,
{
    if n <= 0 {
        squad
    } else {
        without_name(lost(squad, survivors, n - 1), survivors[n - 1])
    }
}

/// The place of the first action at or after `from` that equals
/// `action`, or the length of the list if there is none.
pub open spec fn action_slot(list: Seq<ActionModel>, action: ActionModel, from: int) -> int
    decreases list.len() - from,
{
    if from < 0 || from >= list.len() {
        list.len() as int
    } else if list[from] == action {
        from
    } else {
        action_slot(list, action, from + 1)
    }
}

/// The place of the first kind at or after `from` that has the name,
/// or the length of the list if there is none.
pub open spec fn info_slot(info: Seq<(ObjType, AgentInfo)>, name: Seq<char>, from: int) -> int
    decreases info.len() - from,
{
    if from < 0 || from >= info.len() {
        info.len() as int
    } else if info[from].0@ == name {
        from
    } else {
        info_slot(info, name, from + 1)
    }
}

/// Whether the kind is on record.
pub open spec fn known(info: Seq<(ObjType, AgentInfo)>, name: Seq<char>) -> bool {
    info_slot(info, name, 0) < info.len()
}

/// The cost of a kind that is on record.
pub open spec fn cost_of_kind(info: Seq<(ObjType, AgentInfo)>, name: Seq<char>) -> int {
    info[info_slot(info, name, 0)].1.cost.0 as int
}

/// The offers to recruit each kind of an award, in its order.
pub open spec fn recruit_offers(recruits: Seq<ObjType>) -> Seq<ActionModel> {
    Seq::new(recruits.len(), |i: int| ActionModel::Recruit(recruits[i]@))
}

/// The offers to upgrade a kind to each of the kinds it can become, in
/// their order.
pub open spec fn upgrade_offers(from: Seq<char>, to: Seq<ObjType>) -> Seq<ActionModel> {
    Seq::new(to.len(), |i: int| ActionModel::Upgrade(from, to[i]@))
}

/// Whether no agent before the one at `g` is of its kind.
pub open spec fn first_of_its_kind(squad: Seq<Seq<char>>, g: int) -> bool {
    forall|j: int| 0 <= j < g ==> squad[j] != squad[g]
}

/// The upgrades on offer for the first `n` agents of a squad: those of
/// each kind on record, once for each kind, where the squad first has
/// it.
pub open spec fn squad_offers(
    info: Seq<(ObjType, AgentInfo)>,
    squad: Seq<Seq<char>>,
    n: int,
) -> Seq<ActionModel>
    decreases n,
{
    if n <= 0 {
        Seq::empty()
    } else if first_of_its_kind(squad, n - 1) && known(info, squad[n - 1]) {
        squad_offers(info, squad, n - 1) + upgrade_offers(
            squad[n - 1],
            info[info_slot(info, squad[n - 1], 0)].1.upgrades@,
        )
    } else {
        squad_offers(info, squad, n - 1)
    }
}

/// What is on offer after a battle that was won and was not the last:
/// the recruits of its award, and after any battle but the first the
/// upgrades of the squad.
pub open spec fn offers_after(
    info: Seq<(ObjType, AgentInfo)>,
    recruits: Seq<ObjType>,
    squad: Seq<Seq<char>>,
    first_battle: bool,
) -> Seq<ActionModel> {
    if first_battle {
        recruit_offers(recruits)
    } else {
        recruit_offers(recruits) + squad_offers(info, squad, squad.len() as int)
    }
}

fn remove_name(vec: &mut Vec<ObjType>, e: &ObjType) -> (found: bool)
    ensures
        names_of(final(vec)@) == without_name(names_of(old(vec)@), e@),
        found == (name_slot(names_of(old(vec)@), e@, 0) < old(vec)@.len()),
{
    let mut i: usize = 0;
    while i < vec.len()
        invariant
            i <= vec@.len(),
            vec@ == old(vec)@,
            name_slot(names_of(vec@), e@, 0) == name_slot(names_of(vec@), e@, i as int),
        decreases vec@.len() - i,
    {
        assert(names_of(vec@)[i as int] == vec@[i as int]@);
        if vec[i].same(e) {
            let _ = vec.remove(i);
            assert(names_of(vec@) =~= names_of(old(vec)@).remove(i as int));
            return true;
        }
        i += 1;
    }
    false
}

fn contains_name(vec: &Vec<ObjType>, e: &ObjType) -> (found: bool)
    ensures
        found == names_of(vec@).contains(e@),
{
    let mut i: usize = 0;
    while i < vec.len()
        invariant
            i <= vec@.len(),
            forall|j: int| 0 <= j < i ==> names_of(vec@)[j] != e@,
        decreases vec@.len() - i,
    {
        if vec[i].same(e) {
            assert(names_of(vec@)[i as int] == e@);
            return true;
        }
        i += 1;
    }
    false
}

fn copy_names(list: &Vec<ObjType>) -> (copy: Vec<ObjType>)
    ensures
        names_of(copy@) == names_of(list@),
{
    let mut copy: Vec<ObjType> = Vec::new();
    let mut k: usize = 0;
    while k < list.len()
        invariant
            k <= list@.len(),
            copy@.len() == k,
            forall|j: int| 0 <= j < k ==> (#[trigger] copy@[j])@ == list@[j]@,
        decreases list@.len() - k,
    {
        copy.push(list[k].clone());
        k += 1;
    }
    assert(names_of(copy@) =~= names_of(list@));
    copy
}

fn casualties(initial_agents: &Vec<ObjType>, survivors: &Vec<ObjType>) -> (agents: Vec<ObjType>)
    ensures
        names_of(agents@) == lost(
            names_of(initial_agents@),
            names_of(survivors@),
            survivors@.len() as int,
        ),
{
    let mut agents = copy_names(initial_agents);
    let mut i: usize = 0;
    while i < survivors.len()
        invariant
            i <= survivors@.len(),
            names_of(agents@) == lost(names_of(initial_agents@), names_of(survivors@), i as int),
        decreases survivors@.len() - i,
    {
        assert(names_of(survivors@)[i as int] == survivors@[i as int]@);
        let _ = remove_name(&mut agents, &survivors[i]);
        i += 1;
    }
    agents
}

fn find_info(info: &Vec<(ObjType, AgentInfo)>, name: &ObjType) -> (r: Option<usize>)
    ensures
        match r {
            Some(i) => i == info_slot(info@, name@, 0) && i < info@.len(),
            None => !known(info@, name@),
        },
{
    let mut i: usize = 0;
    while i < info.len()
        invariant
            i <= info@.len(),
            info_slot(info@, name@, 0) == info_slot(info@, name@, i as int),
        decreases info@.len() - i,
    {
        if info[i].0.same(name) {
            return Some(i);
        }
        i += 1;
    }
    None
}

/// The state of a campaign.
#[derive(Clone, Debug)]
pub struct State {
    pub scenarios: Vec<CampaignNode>,
    pub current_scenario_index: i32,
    pub mode: Mode,
    pub agents: Vec<ObjType>,
    pub last_battle_casualties: Vec<ObjType>,
    pub agent_info: Vec<(ObjType, AgentInfo)>,
    pub actions: Vec<Action>,
    pub renown: Renown,
}

impl State {
    /// The campaign has battles, and the one it has come to is one of them.
    pub open spec fn wf(&self) -> bool {
        0 <= self.current_scenario_index < self.scenarios@.len() <= i32::MAX
    }

    /// The cost of an action whose kinds are on record: a recruit costs
    /// its kind and one renown for every agent of the squad, an
    /// upgrade the difference between the two kinds.
    pub open spec fn cost(&self, action: ActionModel) -> int {
        match action {
            ActionModel::Recruit(kind) => cost_of_kind(self.agent_info@, kind)
                + self.agents@.len(),
            ActionModel::Upgrade(from, to) => cost_of_kind(self.agent_info@, to) - cost_of_kind(
                self.agent_info@,
                from,
            ),
        }
    }

    /// Whether the kinds of an action are on record.
    pub open spec fn priced(&self, action: ActionModel) -> bool {
        match action {
            ActionModel::Recruit(kind) => known(self.agent_info@, kind),
            ActionModel::Upgrade(from, to) => known(self.agent_info@, from) && known(
                self.agent_info@,
                to,
            ),
        }
    }

    /// A campaign at its first battle, with the squad of the plan and
    /// no renown.
    pub fn new(plan: Plan, agent_info: Vec<(ObjType, AgentInfo)>) -> (state: State)
        requires
            0 < plan.nodes@.len() <= i32::MAX,
        ensures
            state.wf(),
            state.current_scenario_index == 0,
            state.scenarios == plan.nodes,
            state.mode == Mode::PreparingForBattle,
            state.agents == plan.initial_agents,
            state.last_battle_casualties@.len() == 0,
            state.actions@.len() == 0,
            state.agent_info == agent_info,
            state.renown == Renown(0),
    {
        State {
            current_scenario_index: 0,
            scenarios: plan.nodes,
            mode: Mode::PreparingForBattle,
            agents: plan.initial_agents,
            last_battle_casualties: Vec::new(),
            actions: Vec::new(),
            agent_info,
            renown: Renown(0),
        }
    }

    pub fn mode(&self) -> (mode: Mode)
        ensures
            mode == self.mode,
    {
        self.mode
    }

    pub fn last_battle_casualties(&self) -> (agents: &[ObjType])
        ensures
            agents@ == self.last_battle_casualties@,
    {
        self.last_battle_casualties.as_slice()
    }

    /// The scenario of the battle the campaign has come to.
    pub fn scenario(&self) -> (scenario: &Scenario)
        requires
            self.wf(),
        ensures
            *scenario == self.scenarios@[self.current_scenario_index as int].scenario,
    {
        let i: usize = self.current_scenario_index as usize;
        &self.scenarios[i].scenario
    }

    pub fn current_scenario_index(&self) -> (i: i32)
        ensures
            i == self.current_scenario_index,
    {
        self.current_scenario_index
    }

    /// The number of battles of the campaign, as far as an `i32` counts.
    pub fn scenarios_count(&self) -> (n: i32)
        ensures
            n == (if self.scenarios@.len() > i32::MAX {
                i32::MAX as int
            } else {
                self.scenarios@.len() as int
            }),
    {
        if self.scenarios.len() > 0x7fff_ffff {
            0x7fff_ffff
        } else {
            self.scenarios.len() as i32
        }
    }

    pub fn agents(&self) -> (agents: &[ObjType])
        ensures
            agents@ == self.agents@,
    {
        self.agents.as_slice()
    }

    pub fn renown(&self) -> (renown: Renown)
        ensures
            renown == self.renown,
    {
        self.renown
    }

    pub fn available_actions(&self) -> (actions: &[Action])
        ensures
            actions@ == self.actions@,
    {
        self.actions.as_slice()
    }

    /// The cost of an action whose kinds are on record, kept within `i32`.
    pub fn action_cost(&self, action: &Action) -> (cost: Renown)
        requires
            self.priced(action@),
            self.agents@.len() <= i32::MAX,
        ensures
            match action@ {
                ActionModel::Recruit(kind) => cost.0 == capped_sum(
                    cost_of_kind(self.agent_info@, kind) as i32,
                    self.agents@.len() as i32,
                ),
                ActionModel::Upgrade(from, to) => cost.0 == capped_sum(
                    cost_of_kind(self.agent_info@, to) as i32,
                    capped_sum(0, (-cost_of_kind(self.agent_info@, from)) as i32),
                ) || cost_of_kind(self.agent_info@, from) == i32::MIN,
            },
            i32::MIN < self.cost(action@) <= i32::MAX && !(action@ matches ActionModel::Upgrade(
                from,
                _,
            ) && cost_of_kind(self.agent_info@, from) == i32::MIN) ==> cost.0 == self.cost(action@),
    {
        match action {
            Action::Recruit { agent_type } => {
                let squad_size_penalty: i32 = self.agents.len() as i32;
                let at = find_info(&self.agent_info, agent_type).unwrap();
                let agent_cost = self.agent_info[at].1.cost;
                Renown(add_capped(agent_cost.0, squad_size_penalty))
            },
            Action::Upgrade { from, to } => {
                let at_from = find_info(&self.agent_info, from).unwrap();
                let at_to = find_info(&self.agent_info, to).unwrap();
                let cost_from = self.agent_info[at_from].1.cost;
                let cost_to = self.agent_info[at_to].1.cost;
                if cost_from.0 == i32::MIN {
                    Renown(i32::MAX)
                } else {
                    Renown(add_capped(cost_to.0, add_capped(0, -cost_from.0)))
                }
            },
        }
    }

    /// Spends renown on one of the actions on offer: the action leaves
    /// the offer and the renown pays its cost. A recruit joins the end
    /// of the squad. An upgrade takes the old kind out where it first
    /// stands and adds the new kind at the end.
    pub fn execute_action(&mut self, action: Action)
        requires
            old(self).mode == Mode::PreparingForBattle,
            action_slot(actions_of(old(self).actions@), action@, 0) < old(self).actions@.len(),
            old(self).priced(action@),
            old(self).agents@.len() < i32::MAX,
            i32::MIN < old(self).cost(action@) <= old(self).renown.0,
            old(self).renown.0 - old(self).cost(action@) <= i32::MAX,
            action@ matches ActionModel::Upgrade(from, _) ==> names_of(old(self).agents@).contains(
                from,
            ) && cost_of_kind(old(self).agent_info@, from) != i32::MIN,
        ensures
            final(self).mode == old(self).mode,
            final(self).scenarios == old(self).scenarios,
            final(self).current_scenario_index == old(self).current_scenario_index,
            final(self).agent_info == old(self).agent_info,
            final(self).last_battle_casualties == old(self).last_battle_casualties,
            actions_of(final(self).actions@) == actions_of(old(self).actions@).remove(
                action_slot(actions_of(old(self).actions@), action@, 0),
            ),
            final(self).renown.0 == old(self).renown.0 - old(self).cost(action@),
            match action@ {
                ActionModel::Recruit(kind) => names_of(final(self).agents@) == names_of(
                    old(self).agents@,
                ).push(kind),
                ActionModel::Upgrade(from, to) => names_of(final(self).agents@) == without_name(
                    names_of(old(self).agents@),
                    from,
                ).push(to),
            },
    {
        let mut i: usize = 0;
        let mut taken: bool = false;
        while i < self.actions.len() && !taken
            invariant
                i <= self.actions@.len(),
                self.mode == old(self).mode,
                self.scenarios == old(self).scenarios,
                self.current_scenario_index == old(self).current_scenario_index,
                self.agent_info == old(self).agent_info,
                self.last_battle_casualties == old(self).last_battle_casualties,
                self.agents == old(self).agents,
                self.renown == old(self).renown,
                !taken ==> self.actions@ == old(self).actions@ && action_slot(
                    actions_of(self.actions@),
                    action@,
                    0,
                ) == action_slot(actions_of(self.actions@), action@, i as int),
                taken ==> actions_of(self.actions@) == actions_of(old(self).actions@).remove(
                    action_slot(actions_of(old(self).actions@), action@, 0),
                ),
            decreases self.actions@.len() - i + (if taken { 0int } else { 1int }),
        {
            assert(actions_of(self.actions@)[i as int] == self.actions@[i as int]@);
            if self.actions[i].same(&action) {
                let _ = self.actions.remove(i);
                assert(actions_of(self.actions@) =~= actions_of(old(self).actions@).remove(
                    i as int,
                ));
                taken = true;
            } else {
                i += 1;
            }
        }
        let cost = self.action_cost(&action);
        self.renown.0 -= cost.0;
        match action {
            Action::Recruit { agent_type } => {
                self.agents.push(agent_type);
                assert(names_of(self.agents@) =~= names_of(old(self).agents@).push(agent_type@));
            },
            Action::Upgrade { from, to } => {
                let ghost before = self.agents@;
                let _ = remove_name(&mut self.agents, &from);
                let ghost removed = self.agents@;
                self.agents.push(to);
                assert(names_of(self.agents@) =~= names_of(removed).push(to@));
            },
        }
    }

    /// Whether a battle result can be reported: the campaign is
    /// between two battles, a winning squad has survivors, and every
    /// survivor is of a kind that the squad has.
    pub open spec fn accepts(&self, result: &BattleResult) -> bool {
        &&& self.mode == Mode::PreparingForBattle
        &&& !(result.winner_id == PlayerId(0) && result.survivor_types@.len() == 0)
        &&& forall|i: int|
            0 <= i < result.survivor_types@.len() ==> names_of(self.agents@).contains(
                #[trigger] names_of(result.survivor_types@)[i],
            )
    }

    /// Takes the result of the battle the campaign has come to. A
    /// result that cannot be accepted changes nothing. A lost battle
    /// fails the campaign. After a battle that is won the survivors are
    /// the squad and the others the casualties; the last battle wins
    /// the campaign, and any other gives its award and leads on to the
    /// next battle.
    pub fn report_battle_results(&mut self, result: &BattleResult) -> (r: Result<(), ()>)
        requires
            old(self).accepts(result) && result.winner_id == PlayerId(0) ==> old(self).wf(),
        ensures
            r.is_ok() == old(self).accepts(result),
            !old(self).accepts(result) ==> *final(self) == *old(self),
            old(self).accepts(result) && result.winner_id != PlayerId(0) ==> *final(self) == (State {
                mode: Mode::Failed,
                ..*old(self)
            }),
            old(self).accepts(result) && result.winner_id == PlayerId(0) ==> {
                &&& final(self).scenarios == old(self).scenarios
                &&& final(self).agent_info == old(self).agent_info
                &&& names_of(final(self).agents@) == names_of(result.survivor_types@)
                &&& names_of(final(self).last_battle_casualties@) == lost(
                    names_of(old(self).agents@),
                    names_of(result.survivor_types@),
                    result.survivor_types@.len() as int,
                )
                &&& if old(self).current_scenario_index + 1 >= old(self).scenarios@.len() {
                    &&& final(self).mode == Mode::Won
                    &&& final(self).current_scenario_index == old(self).current_scenario_index
                    &&& final(self).renown == old(self).renown
                    &&& final(self).actions@.len() == 0
                } else {
                    &&& final(self).mode == Mode::PreparingForBattle
                    &&& final(self).current_scenario_index == old(self).current_scenario_index + 1
                    &&& final(self).renown.0 == capped_sum(
                        old(self).renown.0,
                        old(self).scenarios@[old(self).current_scenario_index as int].award.renown.0,
                    )
                    &&& actions_of(final(self).actions@) == offers_after(
                        old(self).agent_info@,
                        old(self).scenarios@[old(self).current_scenario_index as int].award.recruits@,
                        names_of(result.survivor_types@),
                        old(self).current_scenario_index == 0,
                    )
                    &&& final(self).wf()
                }
            },
    {
        if !matches!(self.mode, Mode::PreparingForBattle) {
            return Err(());
        }
        if result.winner_id.0 == 0 && result.survivor_types.len() == 0 {
            // You can't win with no survivors.
            return Err(());
        }
        let mut s: usize = 0;
        while s < result.survivor_types.len()
            invariant
                s <= result.survivor_types@.len(),
                *self == *old(self),
                forall|i: int|
                    0 <= i < s ==> names_of(self.agents@).contains(
                        #[trigger] names_of(result.survivor_types@)[i],
                    ),
            decreases result.survivor_types@.len() - s,
        {
            assert(names_of(result.survivor_types@)[s as int] == result.survivor_types@[s as int]@);
            if !contains_name(&self.agents, &result.survivor_types[s]) {
                // This agent isn't a survivor.
                return Err(());
            }
            s += 1;
        }
        if result.winner_id.0 != 0 {
            self.mode = Mode::Failed;
            return Ok(());
        }
        self.actions.clear();
        self.last_battle_casualties = casualties(&self.agents, &result.survivor_types);
        let squad = copy_names(&result.survivor_types);
        let ghost squad_view = squad@;
        self.agents = squad;
        if (self.current_scenario_index as usize) + 1 >= self.scenarios.len() {
            self.mode = Mode::Won;
        } else {
            let i: usize = self.current_scenario_index as usize;
            self.renown.0 = add_capped(self.renown.0, self.scenarios[i].award.renown.0);
            let mut a: usize = 0;
            while a < self.scenarios[i].award.recruits.len()
                invariant
                    i < self.scenarios@.len(),
                    i + 1 < self.scenarios@.len() <= i32::MAX,
                    i == old(self).current_scenario_index,
                    self.scenarios == old(self).scenarios,
                    self.agent_info == old(self).agent_info,
                    self.agents@ == squad_view,
                    self.renown.0 == capped_sum(
                        old(self).renown.0,
                        old(self).scenarios@[i as int].award.renown.0,
                    ),
                    self.current_scenario_index == old(self).current_scenario_index,
                    names_of(self.last_battle_casualties@) == lost(
                        names_of(old(self).agents@),
                        names_of(result.survivor_types@),
                        result.survivor_types@.len() as int,
                    ),
                    a <= self.scenarios@[i as int].award.recruits@.len(),
                    actions_of(self.actions@) =~= recruit_offers(
                        self.scenarios@[i as int].award.recruits@,
                    ).take(a as int),
                decreases self.scenarios@[i as int].award.recruits@.len() - a,
            {
                let ghost offered = actions_of(self.actions@);
                let action = Action::Recruit {
                    agent_type: self.scenarios[i].award.recruits[a].clone(),
                };
                self.actions.push(action);
                assert(actions_of(self.actions@) =~= offered.push(action@));
                a += 1;
            }
            let ghost recruited = recruit_offers(self.scenarios@[i as int].award.recruits@);
            let ghost names = names_of(squad_view);
            assert(actions_of(self.actions@) =~= recruited);
            if self.current_scenario_index != 0 {
                let mut seen: Vec<ObjType> = Vec::new();
                let mut g: usize = 0;
                while g < self.agents.len()
                    invariant
                        i + 1 < self.scenarios@.len() <= i32::MAX,
                        i == old(self).current_scenario_index,
                        self.scenarios == old(self).scenarios,
                        self.agent_info == old(self).agent_info,
                        self.agents@ == squad_view,
                        self.renown.0 == capped_sum(
                            old(self).renown.0,
                            old(self).scenarios@[i as int].award.renown.0,
                        ),
                        self.current_scenario_index == old(self).current_scenario_index,
                        names_of(self.last_battle_casualties@) == lost(
                            names_of(old(self).agents@),
                            names_of(result.survivor_types@),
                            result.survivor_types@.len() as int,
                        ),
                        g <= self.agents@.len(),
                        names == names_of(squad_view),
                        recruited == recruit_offers(self.scenarios@[i as int].award.recruits@),
                        forall|j: int| 0 <= j < g ==> names_of(seen@).contains(#[trigger] names[j]),
                        forall|k: int|
                            0 <= k < seen@.len() ==> exists|j: int|
                                0 <= j < g && names[j] == #[trigger] names_of(seen@)[k],
                        actions_of(self.actions@) =~= recruited + squad_offers(
                            self.agent_info@,
                            names,
                            g as int,
                        ),
                    decreases self.agents@.len() - g,
                {
                    assert(names[g as int] == self.agents@[g as int]@);
                    if !contains_name(&seen, &self.agents[g]) {
                        assert(first_of_its_kind(names, g as int));
                        let ghost before = recruited + squad_offers(
                            self.agent_info@,
                            names,
                            g as int,
                        );
                        if let Some(at) = find_info(&self.agent_info, &self.agents[g]) {
                            let mut u: usize = 0;
                            while u < self.agent_info[at].1.upgrades.len()
                                invariant
                                    i + 1 < self.scenarios@.len() <= i32::MAX,
                                    i == old(self).current_scenario_index,
                                    at < self.agent_info@.len(),
                                    g < self.agents@.len(),
                                    self.scenarios == old(self).scenarios,
                                    self.agent_info == old(self).agent_info,
                                    self.agents@ == squad_view,
                                    self.renown.0 == capped_sum(
                                        old(self).renown.0,
                                        old(self).scenarios@[i as int].award.renown.0,
                                    ),
                                    self.current_scenario_index == old(self).current_scenario_index,
                                    names_of(self.last_battle_casualties@) == lost(
                                        names_of(old(self).agents@),
                                        names_of(result.survivor_types@),
                                        result.survivor_types@.len() as int,
                                    ),
                                    u <= self.agent_info@[at as int].1.upgrades@.len(),
                                    names.len() == self.agents@.len(),
                                    names[g as int] == self.agents@[g as int]@,
                                    actions_of(self.actions@) =~= before + upgrade_offers(
                                        names[g as int],
                                        self.agent_info@[at as int].1.upgrades@,
                                    ).take(u as int),
                                decreases self.agent_info@[at as int].1.upgrades@.len() - u,
                            {
                                let ghost offered = actions_of(self.actions@);
                                let from = self.agents[g].clone();
                                let to = self.agent_info[at].1.upgrades[u].clone();
                                let action = Action::Upgrade { from, to };
                                self.actions.push(action);
                                assert(actions_of(self.actions@) =~= offered.push(action@));
                                u += 1;
                            }
                            assert(upgrade_offers(
                                names[g as int],
                                self.agent_info@[at as int].1.upgrades@,
                            ).take(u as int) =~= upgrade_offers(
                                names[g as int],
                                self.agent_info@[at as int].1.upgrades@,
                            ));
                        }
                        let ghost seen_before = names_of(seen@);
                        seen.push(self.agents[g].clone());
                        assert(names_of(seen@) =~= seen_before.push(names[g as int]));
                        proof {
                            assert forall|j: int| 0 <= j < g + 1 implies names_of(seen@).contains(
                                #[trigger] names[j],
                            ) by {
                                if j < g {
                                    let k = choose|k: int|
                                        0 <= k < seen_before.len() && seen_before[k] == names[j];
                                    assert(names_of(seen@)[k] == names[j]);
                                } else {
                                    assert(names_of(seen@)[seen_before.len() as int] == names[j]);
                                }
                            }
                        }
                    } else {
                        proof {
                            let k = choose|k: int|
                                0 <= k < seen@.len() && names_of(seen@)[k] == names[g as int];
                            let j = choose|j: int| 0 <= j < g && names[j] == names_of(seen@)[k];
                            assert(names[j] == names[g as int]);
                            assert(!first_of_its_kind(names, g as int));
                        }
                    }
                    g += 1;
                }
                assert(names =~= names_of(result.survivor_types@));
            }
            self.current_scenario_index += 1;
            self.mode = Mode::PreparingForBattle;
        }
        Ok(())
    }
}

} // verus!
