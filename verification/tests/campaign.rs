use battle::battle::component::ObjType;
use battle::battle::scenario::Scenario;
use battle::battle::state::BattleResult;
use battle::battle::PlayerId;
use battle::campaign::Action;
use battle::campaign::AgentInfo;
use battle::campaign::Award;
use battle::campaign::CampaignNode;
use battle::campaign::Mode;
use battle::campaign::Plan;
use battle::campaign::Renown;
use battle::campaign::State;
use battle::game::Level;

fn kind(name: &str) -> ObjType {
    ObjType::from(name)
}

fn node(recruits: &[&str], renown: i32) -> CampaignNode {
    CampaignNode {
        scenario: Scenario::default(),
        award: Award {
            recruits: recruits.iter().map(|name| kind(name)).collect(),
            renown: Renown(renown),
        },
    }
}

fn campaign() -> State {
    let plan = Plan {
        initial_agents: vec![kind("swordsman"), kind("spearman"), kind("swordsman")],
        nodes: vec![
            node(&["hammerman"], 10),
            node(&["alchemist", "healer"], 7),
            node(&[], 0),
        ],
    };
    let info = vec![
        (
            kind("swordsman"),
            AgentInfo {
                cost: Renown(10),
                upgrades: vec![kind("elite_swordsman"), kind("heavy_swordsman")],
            },
        ),
        (
            kind("spearman"),
            AgentInfo {
                cost: Renown(11),
                upgrades: vec![kind("elite_spearman")],
            },
        ),
        (kind("hammerman"), AgentInfo { cost: Renown(4), upgrades: vec![] }),
        (kind("elite_swordsman"), AgentInfo { cost: Renown(15), upgrades: vec![] }),
        (kind("heavy_swordsman"), AgentInfo { cost: Renown(14), upgrades: vec![] }),
        (kind("elite_spearman"), AgentInfo { cost: Renown(15), upgrades: vec![] }),
        (kind("alchemist"), AgentInfo { cost: Renown(12), upgrades: vec![] }),
        (kind("healer"), AgentInfo { cost: Renown(13), upgrades: vec![] }),
    ];
    State::new(plan, info)
}

fn won(survivors: &[&str]) -> BattleResult {
    BattleResult {
        winner_id: PlayerId(0),
        survivor_types: survivors.iter().map(|name| kind(name)).collect(),
        level: Level::Level0,
    }
}

#[test]
fn campaign_starts_before_its_first_battle() {
    let state = campaign();
    assert_eq!(state.mode(), Mode::PreparingForBattle);
    assert_eq!(state.current_scenario_index(), 0);
    assert_eq!(state.scenarios_count(), 3);
    assert_eq!(state.renown(), Renown(0));
    assert_eq!(state.agents().len(), 3);
    assert!(state.available_actions().is_empty());
    assert!(state.last_battle_casualties().is_empty());
    assert_eq!(state.scenario(), &Scenario::default());
}

#[test]
fn a_won_battle_gives_its_award() {
    let mut state = campaign();
    assert_eq!(state.report_battle_results(&won(&["swordsman", "spearman"])), Ok(()));
    assert_eq!(state.mode(), Mode::PreparingForBattle);
    assert_eq!(state.current_scenario_index(), 1);
    assert_eq!(state.renown(), Renown(10));
    assert_eq!(state.agents(), &[kind("swordsman"), kind("spearman")]);
    assert_eq!(state.last_battle_casualties(), &[kind("swordsman")]);
    assert_eq!(
        state.available_actions(),
        &[Action::Recruit { agent_type: kind("hammerman") }]
    );
}

#[test]
fn later_battles_offer_upgrades() {
    let mut state = campaign();
    assert_eq!(state.report_battle_results(&won(&["swordsman", "swordsman"])), Ok(()));
    assert_eq!(state.report_battle_results(&won(&["swordsman", "swordsman"])), Ok(()));
    assert_eq!(state.current_scenario_index(), 2);
    assert_eq!(state.renown(), Renown(17));
    assert!(state.last_battle_casualties().is_empty());
    assert_eq!(
        state.available_actions(),
        &[
            Action::Recruit { agent_type: kind("alchemist") },
            Action::Recruit { agent_type: kind("healer") },
            Action::Upgrade { from: kind("swordsman"), to: kind("elite_swordsman") },
            Action::Upgrade { from: kind("swordsman"), to: kind("heavy_swordsman") },
        ]
    );
    assert_eq!(state.report_battle_results(&won(&["swordsman"])), Ok(()));
    assert_eq!(state.mode(), Mode::Won);
    assert_eq!(state.current_scenario_index(), 2);
    assert_eq!(state.report_battle_results(&won(&["swordsman"])), Err(()));
}

#[test]
fn results_that_cannot_be() {
    let mut state = campaign();
    assert_eq!(state.report_battle_results(&won(&[])), Err(()));
    assert_eq!(state.report_battle_results(&won(&["healer"])), Err(()));
    assert_eq!(state.mode(), Mode::PreparingForBattle);
    assert_eq!(state.agents().len(), 3);
    let lost = BattleResult {
        winner_id: PlayerId(1),
        survivor_types: vec![],
        level: Level::Level0,
    };
    assert_eq!(state.report_battle_results(&lost), Ok(()));
    assert_eq!(state.mode(), Mode::Failed);
    assert_eq!(state.report_battle_results(&lost), Err(()));
}

#[test]
fn actions_cost_renown() {
    let mut state = campaign();
    assert_eq!(state.report_battle_results(&won(&["swordsman", "spearman"])), Ok(()));
    assert_eq!(state.report_battle_results(&won(&["swordsman", "spearman"])), Ok(()));
    let recruit = Action::Recruit { agent_type: kind("alchemist") };
    let upgrade = Action::Upgrade { from: kind("spearman"), to: kind("elite_spearman") };
    // the kind and one renown for each of the two agents of the squad
    assert_eq!(state.action_cost(&recruit), Renown(14));
    assert_eq!(state.action_cost(&upgrade), Renown(4));
    assert_eq!(state.renown(), Renown(17));
    state.execute_action(upgrade.clone());
    assert_eq!(state.renown(), Renown(13));
    assert_eq!(state.agents(), &[kind("swordsman"), kind("elite_spearman")]);
    assert!(!state.available_actions().contains(&upgrade));
    assert!(state.available_actions().contains(&recruit));
    assert!(recruit.same(&recruit.clone()));
    assert!(!recruit.same(&upgrade));
}
