use battle::battle::component::ObjType;
use battle::battle::heroes::Hero;
use battle::battle::heroes::HeroObject;
use battle::battle::scenario::Line;
use battle::battle::state::players_agent_ids;
use battle::battle::state::State;
use battle::battle::Id;
use battle::battle::PlayerId;
use battle::game::state_level0;
use battle::game::state_level1;
use battle::game::state_level2;
use battle::game::state_level3;
use battle::game::state_level4;
use battle::game::state_level5;
use battle::game::Level;
use battle::map::PosHex;
use battle::utils::SimpleRng;

#[test]
fn test_level_0() {
    let level = Level::Level0;
    let mut rng = SimpleRng::seed_from_u32(0);
    let state = State::new(level.scenario(), level, &mut rng);
    println!("{:?}", state.parts().pos);
    assert_eq!(state_level0(), state);
}

#[test]
fn test_level_1() {
    let level = Level::Level1;
    let mut rng = SimpleRng::seed_from_u32(0);
    let state = State::new(level.scenario(), level, &mut rng);
    println!("{:?}", state.parts().pos);
    assert_eq!(state_level1(), state);
}

#[test]
fn test_level_2() {
    let level = Level::Level2;
    let mut rng = SimpleRng::seed_from_u32(0);
    let state = State::new(level.scenario(), level, &mut rng);
    println!("{:?}", state.parts().pos);
    assert_eq!(state_level2(), state);
}

#[test]
fn test_level_3() {
    let level = Level::Level3;
    let mut rng = SimpleRng::seed_from_u32(0);
    let state = State::new(level.scenario(), level, &mut rng);
    println!("{:?}", state.parts().pos);
    assert_eq!(state_level3(), state);
}

#[test]
fn test_level_4() {
    let level = Level::Level4;
    let mut rng = SimpleRng::seed_from_u32(0);
    let state = State::new(level.scenario(), level, &mut rng);
    println!("{:?}", state.parts().pos);
    assert_eq!(state_level4(), state);
}

#[test]
fn test_level_5() {
    let level = Level::Level5;
    let mut rng = SimpleRng::seed_from_u32(0);
    let state = State::new(level.scenario(), level, &mut rng);
    println!("{:?}", state.parts().pos);
    assert_eq!(state_level5(), state);
}

#[test]
fn level_state_is_the_state_of_its_function() {
    assert_eq!(Level::Level0.state(), state_level0());
    assert_eq!(Level::Level3.state(), state_level3());
    assert_eq!(Level::Level5.state(), state_level5());
    assert_ne!(Level::Level1.state(), state_level2());
}

#[test]
fn level_from_index() {
    assert_eq!(Level::from_index(0), Level::Level0);
    assert_eq!(Level::from_index(3), Level::Level3);
    assert_eq!(Level::from_index(5), Level::Level5);
}

#[test]
fn level_five_has_seven_opponents() {
    let state = state_level5();
    assert_eq!(
        players_agent_ids(&state, PlayerId(1)),
        vec![Id(0), Id(1), Id(2), Id(3), Id(4), Id(5), Id(6)]
    );
    assert!(players_agent_ids(&state, PlayerId(0)).is_empty());
    assert_eq!(state.pos(&Id(6)).0, PosHex::new(3, -1));
    assert_eq!(state.meta(&Id(6)).name, ObjType::from("imp_summoner"));
    assert_eq!(state.meta(&Id(4)).name, ObjType::from("toxic_imp"));
    assert_eq!(state.strength(&Id(6)).strength.0, 7);
    assert_eq!(state.parts().summoner.get(Id(6)).unwrap().count, 2);
    assert_eq!(state.parts().next_obj_id, Id(7));
    assert_eq!(state.player_id(), PlayerId(0));
    assert_eq!(state.players_count(), 2);
    assert!(state.battle_result().is_none());
}

#[test]
fn level_scenarios() {
    let scenario = Level::Level4.scenario();
    assert_eq!(scenario.map_radius, 3);
    assert_eq!(scenario.players_count, 2);
    assert_eq!(scenario.rocky_tiles_count, 0);
    assert_eq!(scenario.randomized_objects.len(), 3);
    assert_eq!(scenario.randomized_objects[0].typename, ObjType::from("imp"));
    assert_eq!(scenario.randomized_objects[0].count, 3);
    assert_eq!(scenario.randomized_objects[0].line, Some(Line::Front));
    assert_eq!(scenario.randomized_objects[2].typename, ObjType::from("toxic_imp"));
    assert_eq!(scenario.randomized_objects[2].count, 2);
    assert_eq!(scenario.randomized_objects[2].line, Some(Line::Middle));
    assert_eq!(scenario.randomized_objects[2].owner, Some(PlayerId(1)));
    assert!(scenario.objects.is_empty());
    assert_eq!(Level::Level0.scenario().randomized_objects[0].count, 1);
    assert_eq!(Level::Level5.scenario().randomized_objects.len(), 4);
}

#[test]
fn lent_heroes() {
    assert_eq!(Level::Level0.fake_heros(), vec![HeroObject::new(Hero::Spearman, 1)]);
    assert_eq!(
        Level::Level3.fake_heros(),
        vec![
            HeroObject::new(Hero::HeavySpearman, 1),
            HeroObject::new(Hero::EliteSwordsman, 1),
            HeroObject::new(Hero::Hammerman, 1),
        ]
    );
    assert_eq!(
        Level::Level4.fake_heros(),
        vec![
            HeroObject::new(Hero::Alchemist, 1),
            HeroObject::new(Hero::Swordsman, 1),
            HeroObject::new(Hero::EliteSpearman, 1),
        ]
    );
}

#[test]
fn heroes_are_placed_on_their_side() {
    let level = Level::Level1;
    let mut rng = SimpleRng::seed_from_u32(0);
    let mut state = level.state();
    state.create_heroes(&level.fake_heros(), &mut rng);
    let heroes = players_agent_ids(&state, PlayerId(0));
    assert_eq!(heroes, vec![Id(3), Id(4)]);
    for id in heroes {
        assert!(state.pos(&id).0.q <= 0);
        assert!(state.map().is_inboard(state.pos(&id).0));
    }
    assert_eq!(state.meta(&Id(3)).name, ObjType::from("spearman"));
    assert_eq!(state.meta(&Id(4)).name, ObjType::from("swordsman"));
    assert_eq!(state.player_id(), PlayerId(0));
}

fn line_name(line: Line) -> &'static str {
    match line {
        Line::Any => "Any",
        Line::Front => "Front",
        Line::Middle => "Middle",
        Line::Back => "Back",
    }
}

#[test]
fn level_scenarios_read_as_their_texts() {
    let texts = [
        r#"{"map_radius":3,"players_count":2,"rocky_tiles_count":0,"tiles":{},"randomized_objects":[{"owner":1,"typename":"imp","line":"Front","count":1}],"objects":[]}"#,
        r#"{"map_radius":3,"players_count":2,"rocky_tiles_count":0,"tiles":{},"randomized_objects":[{"owner":1,"typename":"imp","line":"Front","count":3}],"objects":[]}"#,
        r#"{"map_radius":3,"players_count":2,"rocky_tiles_count":0,"tiles":{},"randomized_objects":[{"owner":1,"typename":"imp","line":"Front","count":3},{"owner":1,"typename":"imp_bomber","line":"Back","count":1}],"objects":[]}"#,
        r#"{"map_radius":3,"players_count":2,"rocky_tiles_count":0,"tiles":{},"randomized_objects":[{"owner":1,"typename":"imp","line":"Front","count":3},{"owner":1,"typename":"imp_bomber","line":"Back","count":1},{"owner":1,"typename":"toxic_imp","line":"Middle","count":1}],"objects":[]}"#,
        r#"{"map_radius":3,"players_count":2,"rocky_tiles_count":0,"tiles":{},"randomized_objects":[{"owner":1,"typename":"imp","line":"Front","count":3},{"owner":1,"typename":"imp_bomber","line":"Back","count":1},{"owner":1,"typename":"toxic_imp","line":"Middle","count":2}],"objects":[]}"#,
        r#"{"map_radius":3,"players_count":2,"rocky_tiles_count":0,"tiles":{},"randomized_objects":[{"owner":1,"typename":"imp","line":"Front","count":3},{"owner":1,"typename":"imp_bomber","line":"Back","count":1},{"owner":1,"typename":"toxic_imp","line":"Middle","count":2},{"owner":1,"typename":"imp_summoner","line":"Back","count":1}],"objects":[]}"#,
    ];
    for (index, text) in texts.iter().enumerate() {
        let scenario = Level::from_index(index as i32).scenario();
        let value: serde_json::Value = serde_json::from_str(text).unwrap();
        assert_eq!(value["map_radius"].as_i64(), Some(scenario.map_radius as i64));
        assert_eq!(value["players_count"].as_i64(), Some(scenario.players_count as i64));
        assert_eq!(
            value["rocky_tiles_count"].as_i64(),
            Some(scenario.rocky_tiles_count as i64)
        );
        assert_eq!(value["tiles"].as_object().unwrap().len(), scenario.tiles.len());
        assert_eq!(value["objects"].as_array().unwrap().len(), scenario.objects.len());
        let groups = value["randomized_objects"].as_array().unwrap();
        assert_eq!(groups.len(), scenario.randomized_objects.len());
        for (group, made) in groups.iter().zip(scenario.randomized_objects.iter()) {
            assert_eq!(group["owner"].as_i64(), made.owner.map(|owner| owner.0 as i64));
            assert_eq!(group["typename"].as_str(), Some(made.typename.0.as_str()));
            assert_eq!(group["line"].as_str(), made.line.map(line_name));
            assert_eq!(group["count"].as_i64(), Some(made.count as i64));
        }
    }
}
