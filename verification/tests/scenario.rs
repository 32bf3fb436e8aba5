use battle::battle::component::ObjType;
use battle::battle::scenario::middle_range;
use battle::battle::scenario::random_free_pos;
use battle::battle::scenario::random_pos;
use battle::battle::scenario::Error;
use battle::battle::scenario::Line;
use battle::battle::scenario::Object;
use battle::battle::scenario::ObjectsGroup;
use battle::battle::scenario::Scenario;
use battle::battle::state::is_tile_plain_and_completely_free;
use battle::battle::PlayerId;
use battle::game::state_level1;
use battle::game::Level;
use battle::map::PosHex;
use battle::utils::SimpleRng;

#[test]
fn test_middle_range() {
    assert_eq!(middle_range(0, 3), (1, 2));
    assert_eq!(middle_range(0, 4), (1, 3));
    assert_eq!(middle_range(0, 5), (1, 3));
    assert_eq!(middle_range(0, 6), (2, 4));
    assert_eq!(middle_range(0, 7), (2, 4));
    assert_eq!(middle_range(0, 8), (2, 6));
    assert_eq!(middle_range(0, 9), (2, 6));
    assert_eq!(middle_range(0, 10), (3, 7));
}

#[test]
fn lines() {
    assert_eq!(Line::Front.to_range(6), (3, 7));
    assert_eq!(Line::Middle.to_range(6), (2, 4));
    assert_eq!(Line::Back.to_range(6), (0, 3));
    assert_eq!(Line::Any.to_range(6), (0, 7));
    assert_eq!(Line::Back.get_range(3), (0, 1));
    assert_eq!(Line::Middle.get_range(3), (1, 2));
    assert_eq!(Line::Front.get_range(3), (1, 4));
    assert_eq!(Line::Any.get_range(3), (0, 4));
    assert_eq!(Line::Front.get_range(4), (2, 5));
    assert_eq!(Line::Middle.get_range(5), (1, 3));
    assert_eq!(Line::Front.get_range(5), (2, 6));
}

fn group(owner: i32) -> ObjectsGroup {
    ObjectsGroup {
        owner: Some(PlayerId(owner)),
        typename: ObjType::from("imp"),
        line: Some(Line::Front),
        count: 1,
    }
}

#[test]
fn scenario_check_passes() {
    let mut scenario = Scenario::default();
    scenario.randomized_objects.push(group(0));
    scenario.randomized_objects.push(group(1));
    assert_eq!(scenario.check(), Ok(()));
}

#[test]
fn scenario_check_players_count() {
    let mut scenario = Scenario::default();
    scenario.players_count = 3;
    assert_eq!(scenario.check(), Err(Error::UnsupportedPlayersCount(3)));
}

#[test]
fn scenario_check_small_map() {
    let mut scenario = Scenario::default();
    scenario.map_radius = 2;
    assert_eq!(scenario.check(), Err(Error::MapIsTooSmall));
}

#[test]
fn scenario_check_first_object_outside() {
    let mut scenario = Scenario::default();
    scenario.randomized_objects.push(group(0));
    scenario.randomized_objects.push(group(1));
    scenario.objects.push(Object {
        owner: None,
        typename: ObjType::from("boulder"),
        pos: PosHex::new(5, 0),
    });
    scenario.objects.push(Object {
        owner: None,
        typename: ObjType::from("boulder"),
        pos: PosHex::new(6, 0),
    });
    scenario.objects.push(Object {
        owner: None,
        typename: ObjType::from("boulder"),
        pos: PosHex::new(0, 7),
    });
    assert_eq!(scenario.check(), Err(Error::PosOutsideOfMap(PosHex::new(6, 0))));
}

#[test]
fn scenario_check_agents() {
    let mut scenario = Scenario::default();
    assert!(matches!(scenario.check(), Err(Error::NoPlayerAgents)));
    scenario.objects.push(Object {
        owner: Some(PlayerId(0)),
        typename: ObjType::from("swordsman"),
        pos: PosHex::new(0, 0),
    });
    assert!(matches!(scenario.check(), Err(Error::NoEnemyAgents)));
    scenario.randomized_objects.push(group(1));
    assert_eq!(scenario.check(), Ok(()));
}

#[test]
fn level_scenarios_lack_player_agents() {
    assert_eq!(Level::Level2.scenario().check(), Err(Error::NoPlayerAgents));
}

#[test]
fn random_positions_are_free() {
    let state = state_level1();
    let mut rng = SimpleRng::seed_from_u32(7);
    for _ in 0..20 {
        let pos = random_free_pos(&state, &mut rng).unwrap();
        assert!(is_tile_plain_and_completely_free(&state, pos));
    }
    let mut rng = SimpleRng::seed_from_u32(7);
    for _ in 0..20 {
        let pos = random_pos(&state, Some(PlayerId(0)), Some(Line::Back), &mut rng).unwrap();
        // the back line of the first player is the column at the left edge
        assert_eq!(pos.q, -3);
        assert!(state.map().is_inboard(pos));
    }
}

#[test]
fn random_position_first_draw() {
    let state = state_level1();
    let mut rng = SimpleRng::seed_from_u32(0);
    // draws 1 and 22695478: 1 % 6 - 3 = -2 and 22695478 % 6 - 3 = 1
    assert_eq!(random_free_pos(&state, &mut rng), Some(PosHex::new(-2, 1)));
}
