use battle::battle::ability::Ability;
use battle::battle::ai::does_agent_have_ability;
use battle::battle::ai::Ai;
use battle::battle::command;
use battle::battle::command::Command;
use battle::battle::component::ObjType;
use battle::battle::component::Parts;
use battle::battle::execute::execute;
use battle::battle::movement::tile_cost;
use battle::battle::movement::Path;
use battle::battle::state::apply::apply_effect_stun;
use battle::battle::state::BattleResult;
use battle::battle::state::State;
use battle::battle::Id;
use battle::battle::MovePoints;
use battle::battle::PlayerId;
use battle::battle::TileType;
use battle::game::play;
use battle::game::Input;
use battle::game::Level;
use battle::map::HexMap;
use battle::map::PosHex;
use battle::utils::SimpleRng;

fn battle(level: Level) -> State {
    State {
        parts: Parts::new(),
        map: HexMap::new(3),
        players_count: 2,
        player_id: PlayerId(0),
        battle_result: None,
        level,
    }
}

fn create(state: &mut State, owner: Option<i32>, q: i32, r: i32, name: &str) -> Id {
    let id = state.parts().next_obj_id;
    let mut rng = SimpleRng::seed_from_u32(0);
    let command = Command::Create(command::Create {
        owner: owner.map(PlayerId),
        pos: PosHex::new(q, r),
        prototype: ObjType::from(name),
    });
    assert_eq!(execute(state, &command, &mut rng), Ok(()));
    id
}

fn opponent(state: &State) -> Ai {
    let mut ai = Ai::new(PlayerId(1));
    ai.update_obj_ids(state);
    ai
}

#[test]
fn asks_the_agents_of_its_player() {
    let mut state = battle(Level::Level3);
    let _hero = create(&mut state, Some(0), -3, 0, "swordsman");
    let a = create(&mut state, Some(1), 3, 0, "imp");
    let b = create(&mut state, Some(1), 3, -1, "imp");
    let ai = opponent(&state);
    assert_eq!(ai.id, PlayerId(1));
    assert_eq!(ai.obj_ids, vec![a, b]);
    assert!(Ai::new(PlayerId(0)).obj_ids.is_empty());
}

#[test]
fn attacks_what_it_can_reach() {
    let mut state = battle(Level::Level3);
    let hero = create(&mut state, Some(0), 0, 0, "swordsman");
    let imp = create(&mut state, Some(1), 1, 0, "imp");
    state.player_id = PlayerId(1);
    let mut ai = opponent(&state);
    assert_eq!(
        ai.command(&state),
        Some(Command::Attack(command::Attack {
            attacker_id: imp,
            target_id: hero,
        }))
    );
    assert!(ai.obj_ids.is_empty());
    assert_eq!(ai.command(&state), Some(Command::EndTurn(command::EndTurn)));
}

#[test]
fn moves_closer_when_nothing_is_in_reach() {
    let mut state = battle(Level::Level3);
    let _hero = create(&mut state, Some(0), -3, 0, "swordsman");
    let imp = create(&mut state, Some(1), 3, 0, "imp");
    state.player_id = PlayerId(1);
    let mut ai = opponent(&state);
    assert_eq!(
        ai.try_to_move(&state, imp),
        Some(Command::MoveTo(command::MoveTo {
            id: imp,
            path: Path::new(vec![PosHex::new(3, 0), PosHex::new(1, 0)]),
        }))
    );
    assert_eq!(
        ai.command(&state),
        Some(Command::MoveTo(command::MoveTo {
            id: imp,
            path: Path::new(vec![PosHex::new(3, 0), PosHex::new(1, 0)]),
        }))
    );
    apply_effect_stun(&mut state, &imp);
    ai.update_obj_ids(&state);
    assert_eq!(ai.try_to_move(&state, imp), None);
    assert_eq!(ai.command(&state), Some(Command::EndTurn(command::EndTurn)));
}

#[test]
fn summons_first() {
    let mut state = battle(Level::Level5);
    let _hero = create(&mut state, Some(0), 0, 0, "swordsman");
    let summoner = create(&mut state, Some(1), 1, 0, "imp_summoner");
    state.player_id = PlayerId(1);
    let mut ai = opponent(&state);
    assert_eq!(
        ai.command(&state),
        Some(Command::UseAbility(command::UseAbility {
            id: summoner,
            pos: PosHex::new(1, 0),
            ability: Ability::Summon,
        }))
    );
    assert!(does_agent_have_ability(&state, summoner, &Ability::Bloodlust));
    assert!(!does_agent_have_ability(&state, summoner, &Ability::Rage));
}

#[test]
fn bomber_throws_next_to_an_enemy() {
    let mut state = battle(Level::Level3);
    let _hero = create(&mut state, Some(0), 0, 0, "swordsman");
    let bomber = create(&mut state, Some(1), 3, 0, "imp_bomber");
    state.player_id = PlayerId(1);
    let mut ai = opponent(&state);
    // the first neighbour of the hero, to the south east, is within three
    // tiles of the bomber
    assert_eq!(
        ai.command(&state),
        Some(Command::UseAbility(command::UseAbility {
            id: bomber,
            pos: PosHex::new(1, 0),
            ability: Ability::BombDemonic,
        }))
    );
}

#[test]
fn says_nothing_once_the_battle_is_decided() {
    let mut state = battle(Level::Level3);
    let _imp = create(&mut state, Some(1), 1, 0, "imp");
    state.battle_result = Some(BattleResult {
        winner_id: PlayerId(1),
        survivor_types: vec![],
        level: Level::Level3,
    });
    let mut ai = opponent(&state);
    assert_eq!(ai.command(&state), None);
    assert_eq!(ai.obj_ids.len(), 1);
}

#[test]
fn path_costs_what_its_tiles_cost() {
    let mut state = battle(Level::Level3);
    state.map.set_tile(PosHex::new(1, 0), TileType::Rocks);
    let path = Path::new(vec![
        PosHex::new(0, 0),
        PosHex::new(1, 0),
        PosHex::new(2, 0),
        PosHex::new(2, 1),
    ]);
    assert_eq!(path.from(), PosHex::new(0, 0));
    assert_eq!(path.to(), PosHex::new(2, 1));
    assert_eq!(path.tiles().len(), 4);
    assert_eq!(path.cost_for(&state, Id(0)), MovePoints(5));
    assert_eq!(
        tile_cost(&state, Id(0), PosHex::new(0, 0), PosHex::new(1, 0)),
        MovePoints(3)
    );
    assert_eq!(Path::new(vec![PosHex::new(0, 0)]).cost_for(&state, Id(0)), MovePoints(0));
}

fn end_turns(rounds: usize) -> Vec<Vec<Command>> {
    (0..rounds).map(|_| Vec::new()).collect()
}

#[test]
fn a_battle_is_played_to_its_result() {
    let input = Input {
        level: Level::Level0,
        commands: end_turns(10),
        heroes: Level::Level0.fake_heros(),
    };
    let first = play(&input);
    let second = play(&input);
    assert_eq!(first, second);
    assert!(first.is_ok());
    if let Ok(Some(result)) = first {
        assert_eq!(result.level, Level::Level0);
        assert!(result.winner_id == PlayerId(0) || result.winner_id == PlayerId(1));
    }
}

#[test]
fn a_refused_command_stops_the_battle() {
    let input = Input {
        level: Level::Level1,
        commands: vec![vec![Command::Attack(command::Attack {
            attacker_id: Id(3),
            target_id: Id(3),
        })]],
        heroes: Level::Level1.fake_heros(),
    };
    assert_eq!(play(&input), Err(battle::battle::check::Error::BadTargetId));
}

#[test]
fn no_rounds_no_result() {
    let input = Input {
        level: Level::Level2,
        commands: vec![],
        heroes: Level::Level2.fake_heros(),
    };
    assert_eq!(play(&input), Ok(None));
}
