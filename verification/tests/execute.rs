use battle::battle::ability::Ability;
use battle::battle::ability::Status;
use battle::battle::check::Error;
use battle::battle::command;
use battle::battle::command::Command;
use battle::battle::component::ObjType;
use battle::battle::component::Parts;
use battle::battle::effect;
use battle::battle::effect::Duration;
use battle::battle::effect::Effect;
use battle::battle::effect::Lasting;
use battle::battle::effect::Timed;
use battle::battle::execute::execute;
use battle::battle::execute::execute_effects;
use battle::battle::execute::hit_chance;
use battle::battle::execute::ExecuteContext;
use battle::battle::movement::Path;
use battle::battle::state::apply::apply_effect_timed;
use battle::battle::state::apply::apply_effect_wound;
use battle::battle::state::apply::remove_outdated_lasting_effect;
use battle::battle::state::is_lasting_effect_over;
use battle::battle::state::State;
use battle::battle::Id;
use battle::battle::Phase;
use battle::battle::PlayerId;
use battle::battle::Rounds;
use battle::battle::TileType;
use battle::game::Level;
use battle::map::HexMap;
use battle::map::PosHex;
use battle::utils::SimpleRng;

fn empty_context() -> ExecuteContext {
    ExecuteContext::default()
}

#[test]
fn test_merge_with_vector() {
    let mut context1 = ExecuteContext {
        actor_ids: vec![Id(0), Id(1)],
        ..Default::default()
    };
    let context2 = ExecuteContext {
        actor_ids: vec![Id(2), Id(3)],
        ..Default::default()
    };
    let context_expected = ExecuteContext {
        actor_ids: vec![Id(0), Id(1), Id(2), Id(3)],
        ..Default::default()
    };
    context1.merge_with(context2);
    assert_eq!(context_expected, context1);
}

#[test]
fn test_merge_with_hashmap() {
    let mut instant_effects1 = Vec::new();
    let attacker_pos = PosHex { q: 0, r: 0 };
    let effect_kill: Effect = Effect::Kill(effect::Kill {
        attacker_pos: Some(attacker_pos),
    });
    instant_effects1.push((Id(0), vec![effect_kill.clone(), Effect::Stun]));
    let mut context1 = ExecuteContext {
        instant_effects: instant_effects1,
        ..Default::default()
    };
    let effect_dodge = effect::Dodge { attacker_pos };
    let instant_effects2 = vec![(Id(0), vec![Effect::Vanish, Effect::Dodge(effect_dodge.clone())])];
    let context2 = ExecuteContext {
        instant_effects: instant_effects2,
        ..Default::default()
    };
    let instant_effects_expected = vec![(
        Id(0),
        vec![
            effect_kill,
            Effect::Stun,
            Effect::Vanish,
            Effect::Dodge(effect_dodge),
        ],
    )];
    let context_expected = ExecuteContext {
        instant_effects: instant_effects_expected,
        ..Default::default()
    };
    context1.merge_with(context2);
    assert_eq!(context_expected, context1);
}

#[test]
fn merge_keeps_entities_apart() {
    let poison = Timed {
        duration: Duration::Rounds(Rounds(2)),
        phase: Phase(1),
        effect: Lasting::Poison,
    };
    let mut context1 = empty_context();
    context1.timed_effects.push((Id(4), vec![poison]));
    context1.moved_actor_ids.push(Id(4));
    let mut context2 = empty_context();
    context2.timed_effects.push((Id(5), vec![poison]));
    context2.timed_effects.push((Id(4), vec![poison]));
    context2.moved_actor_ids.push(Id(5));
    context1.merge_with(context2);
    assert_eq!(
        context1.timed_effects,
        vec![(Id(4), vec![poison, poison]), (Id(5), vec![poison])]
    );
    assert_eq!(context1.moved_actor_ids, vec![Id(4), Id(5)]);
    assert!(context1.instant_effects.is_empty());
}

fn battle(level: Level) -> State {
    State {
        parts: Parts::new(),
        map: HexMap::new(3),
        players_count: 2,
        player_id: PlayerId(0),
        battle_result: None,
        level,
    }
}

fn create(state: &mut State, owner: Option<i32>, q: i32, r: i32, name: &str) -> Id {
    let id = state.parts().next_obj_id;
    let mut rng = SimpleRng::seed_from_u32(0);
    let command = Command::Create(command::Create {
        owner: owner.map(PlayerId),
        pos: PosHex::new(q, r),
        prototype: ObjType::from(name),
    });
    assert_eq!(execute(state, &command, &mut rng), Ok(()));
    id
}

fn end_turn(state: &mut State, rng: &mut SimpleRng) {
    assert_eq!(execute(state, &Command::EndTurn(command::EndTurn), rng), Ok(()));
}

fn use_ability(id: Id, q: i32, r: i32, ability: Ability) -> Command {
    Command::UseAbility(command::UseAbility {
        id,
        pos: PosHex::new(q, r),
        ability,
    })
}

fn counters_and_strengths_hold(state: &State) {
    for k in 0..state.parts().next_obj_id.0 {
        let id = Id(k);
        if let Some(agent) = state.parts().agent.get(id) {
            assert!(agent.moves.0 >= 0);
            assert!(agent.attacks.0 >= 0);
            assert!(agent.jokers.0 >= 0);
        }
        if let Some(strength) = state.parts().strength.get(id) {
            assert!(0 < strength.strength.0);
            assert!(strength.strength.0 <= strength.base_strength.0);
        }
    }
}

#[test]
fn create_puts_an_entity_on_the_board() {
    let mut state = battle(Level::Level3);
    let id = create(&mut state, Some(0), 0, 0, "swordsman");
    assert_eq!(id, Id(0));
    assert_eq!(state.parts().next_obj_id, Id(1));
    assert!(state.parts().is_exist(&id));
    assert_eq!(state.pos(&id).0, PosHex::new(0, 0));
    assert_eq!(state.meta(&id).name, ObjType::from("swordsman"));
    assert_eq!(state.belongs_to(&id).0, PlayerId(0));
    assert_eq!(state.strength(&id).strength.0, 3);
    assert_eq!(state.strength(&id).base_strength.0, 3);
    assert_eq!(state.agent(&id).attack_accuracy.0, 4);
    assert!(state.battle_result().is_none());
    let boulder = create(&mut state, None, 1, 1, "boulder");
    assert!(state.parts().is_exist(&boulder));
    assert!(state.parts().belongs_to.get(boulder).is_none());
    assert!(state.parts().agent.get(boulder).is_none());
}

#[test]
fn rejected_command_changes_nothing() {
    let mut state = battle(Level::Level3);
    let hero = create(&mut state, Some(0), 0, 0, "swordsman");
    let imp = create(&mut state, Some(1), 3, 0, "imp");
    let before = state.clone();
    let mut rng = SimpleRng::seed_from_u32(9);
    let rng_before = rng;
    let too_far = Command::Attack(command::Attack {
        attacker_id: hero,
        target_id: imp,
    });
    assert_eq!(execute(&mut state, &too_far, &mut rng), Err(Error::DistanceIsTooBig));
    assert_eq!(state, before);
    assert_eq!(rng, rng_before);
    let blocked = Command::Create(command::Create {
        owner: Some(PlayerId(0)),
        pos: PosHex::new(3, 0),
        prototype: ObjType::from("imp"),
    });
    assert_eq!(execute(&mut state, &blocked, &mut rng), Err(Error::TileIsBlocked));
    assert_eq!(state, before);
    let enemy = Command::MoveTo(command::MoveTo {
        id: imp,
        path: Path::new(vec![PosHex::new(3, 0), PosHex::new(2, 0)]),
    });
    assert_eq!(execute(&mut state, &enemy, &mut rng), Err(Error::CanNotCommandEnemyAgents));
    assert_eq!(state, before);
    assert_eq!(rng, rng_before);
}

fn skirmish(state: &mut State, rng: &mut SimpleRng) {
    let hero = create(state, Some(0), 0, 0, "swordsman");
    let spear = create(state, Some(0), -1, 0, "spearman");
    let imp = create(state, Some(1), 1, 0, "imp");
    let toxic = create(state, Some(1), 1, -1, "toxic_imp");
    let commands = vec![
        Command::Attack(command::Attack { attacker_id: hero, target_id: imp }),
        Command::Attack(command::Attack { attacker_id: spear, target_id: imp }),
        Command::EndTurn(command::EndTurn),
        Command::Attack(command::Attack { attacker_id: toxic, target_id: hero }),
        Command::Attack(command::Attack { attacker_id: imp, target_id: hero }),
        Command::EndTurn(command::EndTurn),
        Command::MoveTo(command::MoveTo {
            id: hero,
            path: Path::new(vec![PosHex::new(0, 0), PosHex::new(0, 1)]),
        }),
        Command::EndTurn(command::EndTurn),
        Command::EndTurn(command::EndTurn),
        Command::Attack(command::Attack { attacker_id: spear, target_id: toxic }),
        Command::EndTurn(command::EndTurn),
    ];
    for command in &commands {
        let _ = execute(state, command, rng);
        counters_and_strengths_hold(state);
    }
}

#[test]
fn replay_gives_the_same_battle() {
    let mut first = battle(Level::Level5);
    let mut first_rng = SimpleRng::seed_from_u32(77);
    skirmish(&mut first, &mut first_rng);
    let mut second = battle(Level::Level5);
    let mut second_rng = SimpleRng::seed_from_u32(77);
    skirmish(&mut second, &mut second_rng);
    assert_eq!(first, second);
    assert_eq!(first_rng, second_rng);
    assert_eq!(first.battle_result(), second.battle_result());
}

#[test]
fn counters_and_strengths_stay_in_bounds() {
    for seed in 0..40 {
        let mut state = battle(Level::Level4);
        let mut rng = SimpleRng::seed_from_u32(seed);
        skirmish(&mut state, &mut rng);
        counters_and_strengths_hold(&state);
    }
}

#[test]
fn attack_deterministic_miss() {
    let mut state = battle(Level::Level0);
    let target = create(&mut state, Some(0), 0, 0, "swordsman");
    let attacker = create(&mut state, Some(1), 1, 0, "imp");
    assert_eq!(state.agent(&attacker).attack_accuracy.0, 3);
    assert_eq!(state.agent(&attacker).attack_strength.0, 1);
    assert_eq!(state.strength(&target).strength.0, 3);
    state.player_id = PlayerId(1);
    // The first draw from seed 2 is 45390955, and 45390955 % 4 = 3: the
    // draw takes the whole accuracy of 3, and the attack misses.
    let mut rng = SimpleRng::seed_from_u32(2);
    let command = Command::Attack(command::Attack {
        attacker_id: attacker,
        target_id: target,
    });
    assert_eq!(execute(&mut state, &command, &mut rng), Ok(()));
    assert_eq!(state.strength(&target).strength.0, 3);
    assert_eq!(state.agent(&attacker).attacks.0, 0);
    // The target answers: the second draw is 4289395752, and
    // 4289395752 % 5 = 2 leaves 4 - 2 = 2, capped by the strength 1 of
    // the attack.
    assert_eq!(state.strength(&attacker).strength.0, 2);
    assert_eq!(state.agent(&target).attacks.0, 0);
    assert_eq!(state.player_id(), PlayerId(1));
    assert!(state.battle_result().is_none());
}

#[test]
fn lethal_wound_kills() {
    let mut state = battle(Level::Level3);
    let hero = create(&mut state, Some(0), 0, 0, "swordsman");
    let imp = create(&mut state, Some(1), 1, 0, "toxic_imp");
    apply_effect_wound(&mut state, &imp, 1);
    assert_eq!(state.strength(&imp).strength.0, 1);
    // The draw from seed 0 is 1, and 1 % 6 = 1 leaves 4 - 1 = 3.
    let mut rng = SimpleRng::seed_from_u32(0);
    let command = Command::Attack(command::Attack {
        attacker_id: hero,
        target_id: imp,
    });
    assert_eq!(execute(&mut state, &command, &mut rng), Ok(()));
    assert!(!state.parts().is_exist(&imp));
    assert!(state.parts().strength.get(imp).is_none());
    assert!(state.parts().pos.get(imp).is_none());
    assert!(state.parts().agent.get(imp).is_none());
    assert!(state.parts().meta.get(imp).is_none());
    assert!(state.parts().belongs_to.get(imp).is_none());
    assert_eq!(state.agent(&hero).attacks.0, 0);
}

#[test]
fn poison_floor() {
    let mut state = battle(Level::Level3);
    let hero = create(&mut state, Some(0), 0, 0, "swordsman");
    let _imp = create(&mut state, Some(1), 3, 0, "imp");
    apply_effect_wound(&mut state, &hero, 1);
    assert_eq!(state.strength(&hero).strength.0, 2);
    let poison = Timed {
        duration: Duration::Rounds(Rounds(2)),
        phase: Phase(0),
        effect: Lasting::Poison,
    };
    apply_effect_timed(&mut state, &hero, &poison);
    assert!(!is_lasting_effect_over(&state, &hero, &poison));
    execute_effects(&mut state);
    assert_eq!(state.strength(&hero).strength.0, 1);
    assert!(state.parts().is_exist(&hero));
    // the poison ends with this round, though it had rounds left
    assert!(state.parts().effects.get(hero).unwrap().0.is_empty());
    assert!(is_lasting_effect_over(&state, &hero, &poison));
    // a further round takes nothing more
    execute_effects(&mut state);
    assert_eq!(state.strength(&hero).strength.0, 1);
    assert!(state.parts().is_exist(&hero));
}

#[test]
fn poison_stays_on_a_strong_bearer() {
    let mut state = battle(Level::Level3);
    let hero = create(&mut state, Some(0), 0, 0, "swordsman");
    let _imp = create(&mut state, Some(1), 3, 0, "imp");
    let poison = Timed {
        duration: Duration::Rounds(Rounds(2)),
        phase: Phase(0),
        effect: Lasting::Poison,
    };
    let stun = Timed {
        duration: Duration::Rounds(Rounds(0)),
        phase: Phase(0),
        effect: Lasting::Stun,
    };
    let bloodlust = Timed {
        duration: Duration::Rounds(Rounds(1)),
        phase: Phase(1),
        effect: Lasting::Bloodlust,
    };
    apply_effect_timed(&mut state, &hero, &poison);
    apply_effect_timed(&mut state, &hero, &stun);
    apply_effect_timed(&mut state, &hero, &bloodlust);
    execute_effects(&mut state);
    // poison took a point and stays, the stun without rounds ends, and
    // the bloodlust of the other phase has no round now
    assert_eq!(state.strength(&hero).strength.0, 2);
    assert_eq!(state.agent(&hero).jokers.0, 0);
    assert_eq!(state.parts().effects.get(hero).unwrap().0, vec![poison, bloodlust]);
}

#[test]
fn effects_that_are_over_are_dropped() {
    let mut state = battle(Level::Level3);
    let hero = create(&mut state, Some(0), 0, 0, "swordsman");
    let weak = create(&mut state, Some(0), -1, 0, "swordsman");
    let _imp = create(&mut state, Some(1), 3, 0, "imp");
    apply_effect_wound(&mut state, &weak, 2);
    let timed = |rounds: i32, phase: i32, effect: Lasting| Timed {
        duration: Duration::Rounds(Rounds(rounds)),
        phase: Phase(phase),
        effect,
    };
    // poison without rounds on a strong bearer, poison with rounds on a
    // weak one
    apply_effect_timed(&mut state, &hero, &timed(0, 0, Lasting::Poison));
    apply_effect_timed(&mut state, &hero, &timed(2, 0, Lasting::Stun));
    apply_effect_timed(&mut state, &hero, &timed(3, 1, Lasting::Bloodlust));
    apply_effect_timed(&mut state, &weak, &timed(2, 0, Lasting::Poison));
    apply_effect_timed(&mut state, &weak, &timed(0, 1, Lasting::Stun));
    apply_effect_timed(&mut state, &weak, &timed(1, 0, Lasting::Bloodlust));
    let mut ended = state.clone();
    remove_outdated_lasting_effect(&mut state);
    assert_eq!(
        state.parts().effects.get(hero).unwrap().0,
        vec![timed(1, 0, Lasting::Stun), timed(3, 1, Lasting::Bloodlust)]
    );
    assert_eq!(
        state.parts().effects.get(weak).unwrap().0,
        vec![timed(0, 0, Lasting::Bloodlust)]
    );
    // the end of a turn drops the same effects and counts nothing down
    battle::battle::state::apply::apply_event_end_turn(&mut ended, PlayerId(0));
    assert_eq!(
        ended.parts().effects.get(hero).unwrap().0,
        vec![timed(2, 0, Lasting::Stun), timed(3, 1, Lasting::Bloodlust)]
    );
    assert_eq!(
        ended.parts().effects.get(weak).unwrap().0,
        vec![timed(1, 0, Lasting::Bloodlust)]
    );
}

#[test]
fn an_attack_without_strength_is_a_total_miss() {
    for seed in 0..40 {
        let mut state = battle(Level::Level3);
        let hero = create(&mut state, Some(0), 0, 0, "swordsman");
        let toxic = create(&mut state, Some(1), 1, 0, "toxic_imp");
        state.player_id = PlayerId(1);
        let before = state.clone();
        let mut rng = SimpleRng::seed_from_u32(seed);
        let command = Command::Attack(command::Attack {
            attacker_id: toxic,
            target_id: hero,
        });
        assert_eq!(execute(&mut state, &command, &mut rng), Ok(()));
        // the attack is paid for and hurts nobody
        assert_eq!(state.strength(&hero), before.strength(&hero));
        assert!(state.parts().effects.get(hero).is_none());
        if state.parts().is_exist(&toxic) {
            assert_eq!(state.agent(&toxic).attacks.0, 0);
        }
    }
}

#[test]
fn nothing_is_carried_out_once_the_battle_is_decided() {
    let mut state = battle(Level::Level3);
    let hero = create(&mut state, Some(0), 0, 0, "swordsman");
    let imp = create(&mut state, Some(1), 1, 0, "imp");
    state.battle_result = Some(battle::battle::state::BattleResult {
        winner_id: PlayerId(0),
        survivor_types: vec![ObjType::from("swordsman")],
        level: Level::Level3,
    });
    for player in [0, 1] {
        state.player_id = PlayerId(player);
        let frozen = state.clone();
        let mut rng = SimpleRng::seed_from_u32(5);
        let commands = vec![
            Command::EndTurn(command::EndTurn),
            Command::Attack(command::Attack { attacker_id: imp, target_id: hero }),
            Command::MoveTo(command::MoveTo {
                id: imp,
                path: Path::new(vec![PosHex::new(1, 0), PosHex::new(2, 0)]),
            }),
            use_ability(imp, 1, 0, Ability::Rage),
            Command::Create(command::Create {
                owner: None,
                pos: PosHex::new(2, 0),
                prototype: ObjType::from("boulder"),
            }),
        ];
        for command in &commands {
            assert_eq!(execute(&mut state, command, &mut rng), Err(Error::BattleEnded));
            assert_eq!(state, frozen);
            assert_eq!(rng, SimpleRng::seed_from_u32(5));
        }
    }
}

#[test]
fn club_stuns_for_the_next_turn() {
    let mut state = battle(Level::Level3);
    let hammer = create(&mut state, Some(0), 0, 0, "hammerman");
    let imp = create(&mut state, Some(1), 1, 0, "imp");
    let mut rng = SimpleRng::seed_from_u32(0);
    assert_eq!(
        execute(&mut state, &use_ability(hammer, 1, 0, Ability::Club), &mut rng),
        Ok(())
    );
    let stun = Timed {
        duration: Duration::Rounds(Rounds(1)),
        phase: Phase(1),
        effect: Lasting::Stun,
    };
    assert_eq!(state.parts().effects.get(imp).unwrap().0, vec![stun]);
    assert_eq!(state.agent(&imp).moves.0, 0);
    assert_eq!(state.agent(&imp).attacks.0, 0);
    assert_eq!(state.agent(&imp).jokers.0, 0);
    assert_eq!(
        state.abilities(&hammer).0[0].status,
        Status::Cooldown(Rounds(2))
    );
    end_turn(&mut state, &mut rng);
    assert_eq!(state.player_id(), PlayerId(1));
    // the imp starts its turn stunned: nothing of its base counters
    assert_eq!(state.agent(&imp).base_moves.0, 1);
    assert_eq!(state.agent(&imp).base_attacks.0, 1);
    assert_eq!(state.agent(&imp).moves.0, 0);
    assert_eq!(state.agent(&imp).attacks.0, 0);
    assert_eq!(state.agent(&imp).jokers.0, 0);
}

#[test]
fn win_condition() {
    let mut state = battle(Level::Level2);
    let hero = create(&mut state, Some(0), 0, 0, "swordsman");
    let imp = create(&mut state, Some(1), 1, 0, "toxic_imp");
    apply_effect_wound(&mut state, &imp, 1);
    assert!(state.battle_result().is_none());
    let mut rng = SimpleRng::seed_from_u32(0);
    let command = Command::Attack(command::Attack {
        attacker_id: hero,
        target_id: imp,
    });
    assert_eq!(execute(&mut state, &command, &mut rng), Ok(()));
    let result = state.battle_result().clone().unwrap();
    assert_eq!(result.winner_id, PlayerId(0));
    assert_eq!(result.survivor_types, vec![ObjType::from("swordsman")]);
    assert_eq!(result.level, Level::Level2);
    let frozen = state.clone();
    let path = Path::new(vec![PosHex::new(0, 0), PosHex::new(0, 1)]);
    let commands = vec![
        Command::MoveTo(command::MoveTo { id: hero, path }),
        Command::EndTurn(command::EndTurn),
        Command::Attack(command::Attack { attacker_id: hero, target_id: imp }),
        use_ability(hero, 0, 0, Ability::Rage),
        Command::Create(command::Create {
            owner: None,
            pos: PosHex::new(2, 0),
            prototype: ObjType::from("boulder"),
        }),
    ];
    for command in &commands {
        assert_eq!(execute(&mut state, command, &mut rng), Err(Error::BattleEnded));
        assert_eq!(state, frozen);
    }
}

#[test]
fn move_costs_a_move_then_a_joker() {
    let mut state = battle(Level::Level0);
    let hero = create(&mut state, Some(0), 0, 0, "swordsman");
    let _imp = create(&mut state, Some(1), 3, 0, "imp");
    let mut rng = SimpleRng::seed_from_u32(0);
    let step = Command::MoveTo(command::MoveTo {
        id: hero,
        path: Path::new(vec![PosHex::new(0, 0), PosHex::new(1, 0)]),
    });
    assert_eq!(state.agent(&hero).moves.0, 1);
    assert_eq!(execute(&mut state, &step, &mut rng), Ok(()));
    assert_eq!(state.pos(&hero).0, PosHex::new(1, 0));
    assert_eq!(state.agent(&hero).moves.0, 0);
    assert_eq!(state.agent(&hero).jokers.0, 0);
    assert_eq!(execute(&mut state, &step, &mut rng), Err(Error::NotEnoughMoves));
    let spear = create(&mut state, Some(0), -1, 0, "spearman");
    let hop = Command::MoveTo(command::MoveTo {
        id: spear,
        path: Path::new(vec![PosHex::new(-1, 0), PosHex::new(-1, 1)]),
    });
    assert_eq!(state.agent(&spear).moves.0, 0);
    assert_eq!(state.agent(&spear).jokers.0, 1);
    assert_eq!(execute(&mut state, &hop, &mut rng), Ok(()));
    assert_eq!(state.agent(&spear).jokers.0, 0);
    assert_eq!(state.pos(&spear).0, PosHex::new(-1, 1));
}

#[test]
fn end_turn_passes_the_turn_and_resets() {
    let mut state = battle(Level::Level0);
    let hero = create(&mut state, Some(0), 0, 0, "swordsman");
    let imp = create(&mut state, Some(1), 3, 0, "imp");
    let mut rng = SimpleRng::seed_from_u32(0);
    end_turn(&mut state, &mut rng);
    assert_eq!(state.player_id(), PlayerId(1));
    // the hero keeps its attack and gets its reactive attack on top
    assert_eq!(state.agent(&hero).attacks.0, 2);
    assert_eq!(state.agent(&imp).attacks.0, 1);
    end_turn(&mut state, &mut rng);
    assert_eq!(state.player_id(), PlayerId(0));
    // the hero starts its turn with its base counters, the imp has its
    // one reactive attack on top
    assert_eq!(state.agent(&hero).attacks.0, 1);
    assert_eq!(state.agent(&hero).moves.0, 1);
    assert_eq!(state.agent(&imp).attacks.0, 2);
}

#[test]
fn end_turn_twice_replenishes_once() {
    for level in [Level::Level0, Level::Level2, Level::Level4] {
        let mut state = battle(level);
        let hero = create(&mut state, Some(0), 0, 0, "spearman");
        let imp = create(&mut state, Some(1), 3, 0, "imp");
        let mut rng = SimpleRng::seed_from_u32(0);
        for _ in 0..6 {
            end_turn(&mut state, &mut rng);
            for id in [hero, imp] {
                let agent = state.agent(&id);
                assert!(agent.attacks.0 <= agent.base_attacks.0 + agent.reactive_attacks.0);
            }
        }
        assert_eq!(state.agent(&hero).attacks.0, 0);
        assert_eq!(state.agent(&imp).attacks.0, 2);
    }
}

#[test]
fn cooldown_counts_down_to_ready() {
    let mut state = battle(Level::Level3);
    let hero = create(&mut state, Some(0), 0, 0, "elite_swordsman");
    let _imp = create(&mut state, Some(1), 3, 0, "imp");
    let mut rng = SimpleRng::seed_from_u32(0);
    assert_eq!(state.abilities(&hero).0[0].status, Status::Ready);
    assert_eq!(
        execute(&mut state, &use_ability(hero, 0, 0, Ability::Rage), &mut rng),
        Ok(())
    );
    // one attack paid, three gained
    assert_eq!(state.agent(&hero).attacks.0, 3);
    assert_eq!(state.abilities(&hero).0[0].status, Status::Cooldown(Rounds(3)));
    assert_eq!(
        execute(&mut state, &use_ability(hero, 0, 0, Ability::Rage), &mut rng),
        Err(Error::AbilityIsNotReady)
    );
    let mut left = 3;
    for _ in 0..3 {
        end_turn(&mut state, &mut rng);
        end_turn(&mut state, &mut rng);
        left -= 1;
        let expected = if left == 0 {
            Status::Ready
        } else {
            Status::Cooldown(Rounds(left))
        };
        assert_eq!(state.abilities(&hero).0[0].status, expected);
    }
    end_turn(&mut state, &mut rng);
    end_turn(&mut state, &mut rng);
    assert_eq!(state.abilities(&hero).0[0].status, Status::Ready);
}

#[test]
fn bomb_explodes_a_round_later() {
    let mut state = battle(Level::Level3);
    let firer = create(&mut state, Some(0), -2, 0, "firer");
    let hero = create(&mut state, Some(0), 1, 1, "swordsman");
    let imp = create(&mut state, Some(1), 1, 0, "imp");
    let mut rng = SimpleRng::seed_from_u32(0);
    assert_eq!(
        execute(&mut state, &use_ability(firer, 0, 1, Ability::Bomb), &mut rng),
        Ok(())
    );
    let bomb = Id(3);
    assert_eq!(state.pos(&bomb).0, PosHex::new(0, 1));
    assert_eq!(state.meta(&bomb).name, ObjType::from("bomb_damage"));
    assert!(state.parts().belongs_to.get(bomb).is_none());
    let planned = &state.parts().schedule.get(bomb).unwrap().planned;
    assert_eq!(planned.len(), 1);
    assert_eq!(planned[0].ability, Ability::ExplodeDamage);
    assert_eq!(planned[0].rounds, Rounds(1));
    assert_eq!(planned[0].phase, Phase(0));
    end_turn(&mut state, &mut rng);
    assert!(state.parts().is_exist(&bomb));
    end_turn(&mut state, &mut rng);
    // the bomb is gone, and it has hurt the agents of the first player
    // within one tile of it
    assert!(!state.parts().is_exist(&bomb));
    assert_eq!(state.strength(&hero).strength.0, 2);
    assert_eq!(state.strength(&firer).strength.0, 4);
    assert_eq!(state.strength(&imp).strength.0, 3);
}

#[test]
fn push_bomb_explodes_at_once() {
    let mut state = battle(Level::Level3);
    let firer = create(&mut state, Some(0), -2, 0, "imp_bomber");
    state.parts_mut().abilities.insert(
        firer,
        battle::battle::component::Abilities(vec![battle::battle::ability::RechargeableAbility::from(
            Ability::BombPush,
        )]),
    );
    let imp = create(&mut state, Some(1), 1, 0, "imp");
    let rock = create(&mut state, None, 0, 1, "boulder");
    let mut rng = SimpleRng::seed_from_u32(0);
    assert_eq!(
        execute(&mut state, &use_ability(firer, 0, 0, Ability::BombPush), &mut rng),
        Ok(())
    );
    assert!(!state.parts().is_exist(&Id(3)));
    // the imp is pushed one tile on, the heavy boulder stays
    assert_eq!(state.pos(&imp).0, PosHex::new(2, 0));
    assert_eq!(state.pos(&rock).0, PosHex::new(0, 1));
}

#[test]
fn fire_bomb_burns() {
    let mut state = battle(Level::Level3);
    let firer = create(&mut state, Some(0), -2, 0, "firer");
    let imp = create(&mut state, Some(1), 1, 0, "imp");
    let mut rng = SimpleRng::seed_from_u32(0);
    assert_eq!(
        execute(&mut state, &use_ability(firer, 1, -1, Ability::BombFire), &mut rng),
        Ok(())
    );
    end_turn(&mut state, &mut rng);
    end_turn(&mut state, &mut rng);
    // seven fires around the bomb, one of them under the imp
    let fires: Vec<Id> = (0..state.parts().next_obj_id.0)
        .map(Id)
        .filter(|id| match state.parts().meta.get(*id) {
            Some(meta) => meta.name == ObjType::from("fire"),
            None => false,
        })
        .collect();
    assert_eq!(fires.len(), 7);
    assert!(fires.iter().any(|id| state.pos(id).0 == PosHex::new(1, 0)));
    assert!(state.strength(&imp).strength.0 < 3);
    for id in &fires {
        assert_eq!(state.parts().schedule.get(*id).unwrap().planned[0].ability, Ability::Vanish);
    }
    counters_and_strengths_hold(&state);
}

#[test]
fn heal_restores_and_clears() {
    let mut state = battle(Level::Level3);
    let healer = create(&mut state, Some(0), 0, 0, "alchemist");
    let hero = create(&mut state, Some(0), 1, 0, "heavy_swordsman");
    let _imp = create(&mut state, Some(1), 3, 0, "imp");
    apply_effect_wound(&mut state, &hero, 3);
    let poison = Timed {
        duration: Duration::Rounds(Rounds(2)),
        phase: Phase(0),
        effect: Lasting::Poison,
    };
    apply_effect_timed(&mut state, &hero, &poison);
    assert_eq!(state.strength(&hero).strength.0, 2);
    let mut rng = SimpleRng::seed_from_u32(0);
    assert_eq!(
        execute(&mut state, &use_ability(healer, 1, 0, Ability::Heal), &mut rng),
        Ok(())
    );
    assert_eq!(state.strength(&hero).strength.0, 4);
    assert!(state.parts().effects.get(hero).unwrap().0.is_empty());
}

#[test]
fn knockback_pushes_one_tile() {
    let mut state = battle(Level::Level3);
    let pusher = create(&mut state, Some(0), 0, 0, "swordsman");
    state.parts_mut().abilities.insert(
        pusher,
        battle::battle::component::Abilities(vec![battle::battle::ability::RechargeableAbility::from(
            Ability::Knockback,
        )]),
    );
    let imp = create(&mut state, Some(1), 0, 1, "imp");
    let mut rng = SimpleRng::seed_from_u32(0);
    assert_eq!(
        execute(&mut state, &use_ability(pusher, 0, 1, Ability::Knockback), &mut rng),
        Ok(())
    );
    assert_eq!(state.pos(&imp).0, PosHex::new(0, 2));
    assert_eq!(state.pos(&pusher).0, PosHex::new(0, 0));
}

#[test]
fn summon_calls_one_stunned_daemon() {
    let mut state = battle(Level::Level5);
    let _hero = create(&mut state, Some(0), -3, 0, "swordsman");
    let summoner = create(&mut state, Some(1), 0, 0, "imp_summoner");
    state.player_id = PlayerId(1);
    // the draw from seed 0 is 1: a toxic imp
    let mut rng = SimpleRng::seed_from_u32(0);
    assert_eq!(
        execute(&mut state, &use_ability(summoner, 0, 0, Ability::Summon), &mut rng),
        Ok(())
    );
    let daemon = Id(2);
    assert_eq!(state.meta(&daemon).name, ObjType::from("toxic_imp"));
    assert_eq!(state.belongs_to(&daemon).0, PlayerId(1));
    assert_eq!(state.pos(&daemon).0, PosHex::new(1, 0));
    assert_eq!(state.agent(&daemon).moves.0, 0);
    assert_eq!(state.agent(&daemon).attacks.0, 0);
    assert_eq!(state.agent(&daemon).jokers.0, 0);
    assert_eq!(state.parts().summoner.get(summoner).unwrap().count, 3);
    assert_eq!(state.parts().next_obj_id, Id(3));
}

#[test]
fn hit_chance_counts_wounds() {
    let mut state = battle(Level::Level3);
    let hero = create(&mut state, Some(0), 0, 0, "heavy_hammerman");
    let imp = create(&mut state, Some(1), 1, 0, "imp");
    assert_eq!(hit_chance(&state, hero, imp), (3, 6));
    apply_effect_wound(&mut state, &hero, 4);
    assert_eq!(hit_chance(&state, hero, imp), (0, 3));
}

#[test]
fn rocks_do_not_count_as_free() {
    let mut state = battle(Level::Level3);
    state.map.set_tile(PosHex::new(1, 1), TileType::Rocks);
    assert!(!battle::battle::state::is_tile_plain_and_completely_free(
        &state,
        PosHex::new(1, 1)
    ));
    assert!(battle::battle::state::is_tile_completely_free(&state, PosHex::new(1, 1)));
}

#[test]
fn a_command_that_cannot_be_paid_is_refused() {
    let mut state = battle(Level::Level3);
    let hero = create(&mut state, Some(0), 0, 0, "swordsman");
    let imp = create(&mut state, Some(1), 1, 0, "imp");
    let rock = create(&mut state, None, -1, 0, "boulder");
    let fire = create(&mut state, None, 3, -3, "fire");
    // the commands of the second player are not checked, but paid for
    state.player_id = PlayerId(1);
    battle::battle::state::apply::apply_effect_stun(&mut state, &imp);
    let mut rng = SimpleRng::seed_from_u32(3);
    let frozen = state.clone();
    let step = Command::MoveTo(command::MoveTo {
        id: imp,
        path: Path::new(vec![PosHex::new(1, 0), PosHex::new(2, 0)]),
    });
    let strike = Command::Attack(command::Attack { attacker_id: imp, target_id: hero });
    assert_eq!(execute(&mut state, &step, &mut rng), Err(Error::NotEnoughMoves));
    assert_eq!(execute(&mut state, &strike, &mut rng), Err(Error::NotEnoughAttacks));
    assert_eq!(
        execute(&mut state, &use_ability(imp, 1, 0, Ability::Rage), &mut rng),
        Err(Error::NotEnoughAttacks)
    );
    let push = Command::MoveTo(command::MoveTo {
        id: rock,
        path: Path::new(vec![PosHex::new(-1, 0), PosHex::new(-2, 0)]),
    });
    assert_eq!(execute(&mut state, &push, &mut rng), Err(Error::BadActorId));
    let by_rock = Command::Attack(command::Attack { attacker_id: rock, target_id: hero });
    assert_eq!(execute(&mut state, &by_rock, &mut rng), Err(Error::BadActorId));
    assert_eq!(state, frozen);
    assert_eq!(rng, SimpleRng::seed_from_u32(3));
    // an attack on what has no strength cannot be resolved
    state.player_id = PlayerId(0);
    let frozen = state.clone();
    let on_fire = Command::Attack(command::Attack { attacker_id: hero, target_id: fire });
    state.parts_mut().pos.insert(fire, battle::battle::component::Pos(PosHex::new(0, 1)));
    let moved = state.clone();
    assert_eq!(execute(&mut state, &on_fire, &mut rng), Err(Error::BadTargetType));
    assert_eq!(state, moved);
    assert_ne!(state, frozen);
    assert_eq!(rng, SimpleRng::seed_from_u32(3));
}

#[test]
fn counters_never_fall_below_zero() {
    let mut state = battle(Level::Level3);
    let _hero = create(&mut state, Some(0), 0, 0, "swordsman");
    let imp = create(&mut state, Some(1), 3, 0, "imp");
    state.player_id = PlayerId(1);
    let mut rng = SimpleRng::seed_from_u32(3);
    let step = |from: i32, to: i32| {
        Command::MoveTo(command::MoveTo {
            id: imp,
            path: Path::new(vec![PosHex::new(from, 0), PosHex::new(to, 0)]),
        })
    };
    assert_eq!(execute(&mut state, &step(3, 2), &mut rng), Ok(()));
    assert_eq!(state.agent(&imp).moves.0, 0);
    assert_eq!(state.agent(&imp).jokers.0, 0);
    assert_eq!(execute(&mut state, &step(2, 1), &mut rng), Err(Error::NotEnoughMoves));
    assert_eq!(state.pos(&imp).0, PosHex::new(2, 0));
    assert_eq!(state.agent(&imp).moves.0, 0);
    assert_eq!(state.agent(&imp).jokers.0, 0);
}
