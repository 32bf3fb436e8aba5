use battle::battle::ability::Ability;
use battle::battle::ability::PassiveAbility;
use battle::battle::ability::RechargeableAbility;
use battle::battle::ability::Status;
use battle::battle::command;
use battle::battle::command::Command;
use battle::battle::component::Abilities;
use battle::battle::component::BelongsTo;
use battle::battle::component::Component;
use battle::battle::component::ObjType;
use battle::battle::component::Parts;
use battle::battle::component::Pos;
use battle::battle::component::Prototypes;
use battle::battle::effect::Duration;
use battle::battle::effect::Effect;
use battle::battle::effect::Lasting;
use battle::battle::effect::Timed;
use battle::battle::effect;
use battle::battle::event::ActiveEvent;
use battle::battle::event::Event;
use battle::battle::event;
use battle::battle::execute::execute;
use battle::battle::execute::execute_event_begin_turn;
use battle::battle::execute::execute_event_end_turn;
use battle::battle::execute::try_execute_passive_abilities_on_begin_turn;
use battle::battle::heroes::imp;
use battle::battle::heroes::imp_summoner;
use battle::battle::heroes::prototype_for;
use battle::battle::heroes::spearman;
use battle::battle::heroes::Hero;
use battle::battle::component::PlannedAbility;
use battle::battle::state::agent_id_at_opt;
use battle::battle::state::agent_ids_at;
use battle::battle::state::apply::add_components;
use battle::battle::state::apply::apply;
use battle::battle::state::apply::apply_effect_stun;
use battle::battle::state::apply::apply_effect_timed;
use battle::battle::state::apply::apply_effect_wound;
use battle::battle::state::apply::apply_event_attack;
use battle::battle::state::apply::apply_event_end_turn;
use battle::battle::state::apply::apply_event_use_ability;
use battle::battle::state::apply::apply_scheduled_ability;
use battle::battle::state::apply::remove_outdated_planned_abilities;
use battle::battle::state::apply::reset_moves_and_attacks;
use battle::battle::state::apply::reset_status;
use battle::battle::state::apply::tick_planned_abilities;
use battle::battle::state::apply::update_cooldowns;
use battle::battle::state::apply::update_reattack;
use battle::battle::state::apply::update_reattack_with_stun;
use battle::battle::state::blocker_id_at;
use battle::battle::state::blocker_id_at_opt;
use battle::battle::state::blocker_ids_at;
use battle::battle::state::can_agent_use_ability;
use battle::battle::state::check_enemies_around;
use battle::battle::state::enemy_agent_count;
use battle::battle::state::enemy_agent_ids;
use battle::battle::state::enemy_agent_ids_unsort;
use battle::battle::state::free_neighbor_positions;
use battle::battle::state::get_id_by_pos;
use battle::battle::state::ids_at;
use battle::battle::state::is_agent_belong_to;
use battle::battle::state::is_tile_blocked;
use battle::battle::state::is_tile_blocked_not_check_inboard;
use battle::battle::state::obj_with_passive_ability_at;
use battle::battle::state::players_agent_ids;
use battle::battle::state::players_agent_types;
use battle::battle::state::sort_agent_ids_by_distance_to_enemies;
use battle::battle::state::State;
use battle::battle::Id;
use battle::battle::Phase;
use battle::battle::PlayerId;
use battle::battle::PushStrength;
use battle::battle::Rounds;
use battle::battle::Strength;
use battle::battle::Weight;
use battle::battle::BAD_ID;
use battle::game::Level;
use battle::map::HexMap;
use battle::map::PosHex;
use battle::utils::SimpleRng;

fn battle(level: Level) -> State {
    State {
        parts: Parts::new(),
        map: HexMap::new(3),
        players_count: 2,
        player_id: PlayerId(0),
        battle_result: None,
        level,
    }
}

fn create(state: &mut State, owner: Option<i32>, q: i32, r: i32, name: &str) -> Id {
    let id = state.parts().next_obj_id;
    let mut rng = SimpleRng::seed_from_u32(0);
    let command = Command::Create(command::Create {
        owner: owner.map(PlayerId),
        pos: PosHex::new(q, r),
        prototype: ObjType::from(name),
    });
    assert_eq!(execute(state, &command, &mut rng), Ok(()));
    id
}

fn field() -> (State, Id, Id, Id, Id) {
    let mut state = battle(Level::Level3);
    let hero = create(&mut state, Some(0), 0, 0, "swordsman");
    let imp = create(&mut state, Some(1), 1, 0, "imp");
    let rock = create(&mut state, None, 0, 1, "boulder");
    let far = create(&mut state, Some(1), 3, -3, "imp");
    (state, hero, imp, rock, far)
}

#[test]
fn store_allocates_ascending_identifiers() {
    let mut parts = Parts::new();
    assert_eq!(parts.alloc_id(), Id(0));
    assert_eq!(parts.alloc_id(), Id(1));
    assert_eq!(parts.alloc_id(), Id(2));
    assert_eq!(parts.next_obj_id, Id(3));
    assert!(!parts.is_exist(&Id(0)));
}

#[test]
fn store_removes_every_row() {
    let (mut state, hero, imp, _rock, _far) = field();
    let before = state.clone();
    state.parts_mut().remove(&Id(50));
    assert_eq!(state, before);
    state.parts_mut().remove(&hero);
    assert!(!state.parts().is_exist(&hero));
    assert!(state.parts().strength.get(hero).is_none());
    assert!(state.parts().pos.get(hero).is_none());
    assert!(state.parts().meta.get(hero).is_none());
    assert!(state.parts().belongs_to.get(hero).is_none());
    assert!(state.parts().agent.get(hero).is_none());
    assert!(state.parts().is_exist(&imp));
    assert_eq!(state.strength(&imp).strength, Strength(3));
}

#[test]
fn tables_store_only_what_can_be_named() {
    let mut parts = Parts::new();
    parts.pos.insert(Id(BAD_ID), Pos(PosHex::new(0, 0)));
    parts.pos.insert(Id(i32::MIN), Pos(PosHex::new(0, 0)));
    assert_eq!(parts, Parts::new());
    parts.pos.insert(Id(4), Pos(PosHex::new(1, 1)));
    assert_eq!(parts.pos.get(Id(4)), Some(&Pos(PosHex::new(1, 1))));
    assert!(parts.pos.contains(Id(4)));
    assert_eq!(parts.pos.get(Id(3)), None);
    assert_eq!(parts.pos.bound(), 5);
    assert_eq!(parts.pos.remove(Id(4)), Some(Pos(PosHex::new(1, 1))));
    assert_eq!(parts.pos.remove(Id(4)), None);
    assert_eq!(parts, Parts::new());
}

#[test]
fn tiles_and_who_stands_on_them() {
    let (mut state, hero, imp, rock, far) = field();
    let fire = create(&mut state, None, -1, 0, "spike_trap");
    state.parts_mut().pos.insert(fire, Pos(PosHex::new(1, 0)));
    assert!(is_tile_blocked(&state, PosHex::new(0, 0)));
    assert!(!is_tile_blocked(&state, PosHex::new(-1, 0)));
    assert!(is_tile_blocked_not_check_inboard(&state, PosHex::new(1, 0)));
    assert!(!is_tile_blocked_not_check_inboard(&state, PosHex::new(9, 9)));
    assert_eq!(ids_at(&state, PosHex::new(1, 0)), vec![imp, fire]);
    assert_eq!(ids_at(&state, PosHex::new(2, 0)), vec![]);
    assert_eq!(agent_ids_at(&state, PosHex::new(1, 0)), vec![imp]);
    assert_eq!(blocker_ids_at(&state, PosHex::new(1, 0)), vec![imp]);
    assert_eq!(blocker_ids_at(&state, PosHex::new(0, 1)), vec![rock]);
    assert_eq!(agent_ids_at(&state, PosHex::new(0, 1)), vec![]);
    assert_eq!(blocker_id_at(&state, PosHex::new(0, 1)), rock);
    assert_eq!(blocker_id_at_opt(&state, PosHex::new(0, 1)), Some(rock));
    assert_eq!(blocker_id_at_opt(&state, PosHex::new(2, 2)), None);
    assert_eq!(agent_id_at_opt(&state, PosHex::new(3, -3)), Some(far));
    assert_eq!(agent_id_at_opt(&state, PosHex::new(0, 1)), None);
    assert_eq!(get_id_by_pos(&state, PosHex::new(1, 0)), imp);
    assert_eq!(get_id_by_pos(&state, PosHex::new(0, 0)), hero);
    assert_eq!(get_id_by_pos(&state, PosHex::new(-2, 0)), Id(BAD_ID));
    assert_eq!(
        obj_with_passive_ability_at(&state, PosHex::new(1, 0), PassiveAbility::SpikeTrap),
        Some(fire)
    );
    assert_eq!(
        obj_with_passive_ability_at(&state, PosHex::new(1, 0), PassiveAbility::Burn),
        None
    );
    // two agents on one tile are no single agent
    state.parts_mut().pos.insert(far, Pos(PosHex::new(1, 0)));
    assert_eq!(agent_ids_at(&state, PosHex::new(1, 0)), vec![imp, far]);
    assert_eq!(agent_id_at_opt(&state, PosHex::new(1, 0)), None);
}

#[test]
fn players_and_enemies() {
    let (state, hero, imp, rock, far) = field();
    assert!(is_agent_belong_to(&state, PlayerId(0), hero));
    assert!(!is_agent_belong_to(&state, PlayerId(0), imp));
    assert_eq!(players_agent_ids(&state, PlayerId(0)), vec![hero]);
    assert_eq!(players_agent_ids(&state, PlayerId(1)), vec![imp, far]);
    assert_eq!(players_agent_ids(&state, PlayerId(2)), vec![]);
    assert_eq!(enemy_agent_ids(&state, PlayerId(0)), vec![imp, far]);
    assert_eq!(enemy_agent_ids(&state, PlayerId(1)), vec![hero]);
    assert_eq!(enemy_agent_ids_unsort(&state, PlayerId(2)), vec![hero, imp, far]);
    assert_eq!(enemy_agent_count(&state, PlayerId(0)), 2);
    assert_eq!(enemy_agent_count(&state, PlayerId(1)), 1);
    assert_eq!(
        players_agent_types(&state, PlayerId(1)),
        vec![ObjType::from("imp"), ObjType::from("imp")]
    );
    assert!(check_enemies_around(&state, PosHex::new(0, 0), PlayerId(0)));
    assert!(!check_enemies_around(&state, PosHex::new(0, 0), PlayerId(1)));
    assert!(!check_enemies_around(&state, PosHex::new(-2, 0), PlayerId(0)));
    assert!(state.parts().blocker.contains(rock));
}

#[test]
fn free_neighbors_in_the_order_of_the_directions() {
    let (state, _hero, _imp, _rock, _far) = field();
    let origin = PosHex::new(0, 0);
    // south east and south west are taken
    assert_eq!(
        free_neighbor_positions(&state, origin, 6),
        vec![
            PosHex::new(1, -1),
            PosHex::new(0, -1),
            PosHex::new(-1, 0),
            PosHex::new(-1, 1),
        ]
    );
    assert_eq!(
        free_neighbor_positions(&state, origin, 2),
        vec![PosHex::new(1, -1), PosHex::new(0, -1)]
    );
    assert_eq!(free_neighbor_positions(&state, origin, 0).len(), 4);
    // at the corner only three neighbours are on the board, one of them taken
    assert_eq!(
        free_neighbor_positions(&state, PosHex::new(3, -2), 6),
        vec![PosHex::new(2, -2), PosHex::new(2, -1), PosHex::new(3, -1)]
    );
}

#[test]
fn agents_sorted_by_their_distance_to_enemies() {
    let mut state = battle(Level::Level3);
    let near = create(&mut state, Some(0), 0, 0, "swordsman");
    let far = create(&mut state, Some(0), -3, 0, "swordsman");
    let mid = create(&mut state, Some(0), -1, 0, "swordsman");
    let _imp = create(&mut state, Some(1), 1, 0, "imp");
    let mut ids = vec![far, near, mid];
    sort_agent_ids_by_distance_to_enemies(&state, &mut ids);
    assert_eq!(ids, vec![near, mid, far]);
    // agents at the same distance stay as they came
    let also_mid = create(&mut state, Some(0), 0, -1, "swordsman");
    let mut ids = vec![also_mid, far, mid, near];
    sort_agent_ids_by_distance_to_enemies(&state, &mut ids);
    assert_eq!(ids, vec![near, also_mid, mid, far]);
    let mut ids = vec![mid, far, also_mid, near, mid];
    sort_agent_ids_by_distance_to_enemies(&state, &mut ids);
    assert_eq!(ids, vec![near, mid, also_mid, mid, far]);
}

#[test]
fn abilities_can_be_used_when_ready_and_paid() {
    let (mut state, hero, _imp, _rock, _far) = field();
    state.parts_mut().abilities.insert(
        hero,
        Abilities(vec![
            RechargeableAbility::from(Ability::Rage),
            RechargeableAbility {
                ability: Ability::Heal,
                status: Status::Cooldown(Rounds(2)),
            },
        ]),
    );
    assert!(can_agent_use_ability(&state, &hero, &Ability::Rage));
    assert!(!can_agent_use_ability(&state, &hero, &Ability::Heal));
    apply_effect_stun(&mut state, &hero);
    assert!(!can_agent_use_ability(&state, &hero, &Ability::Rage));
}

#[test]
fn push_strength() {
    assert!(PushStrength(Weight::Normal).can_push(Weight::Normal));
    assert!(!PushStrength(Weight::Normal).can_push(Weight::Heavy));
    assert!(PushStrength(Weight::Heavy).can_push(Weight::Normal));
    assert!(PushStrength(Weight::Heavy).can_push(Weight::Heavy));
    assert!(!PushStrength(Weight::Immovable).can_push(Weight::Immovable));
    assert_eq!(Weight::default(), Weight::Normal);
    assert_eq!(Weight::Heavy.title(), "Heavy");
}

#[test]
fn attack_pays_an_attack_then_a_joker() {
    let mut state = battle(Level::Level3);
    let spear = create(&mut state, Some(0), 0, 0, "elite_spearman");
    assert_eq!(state.agent(&spear).attacks.0, 1);
    assert_eq!(state.agent(&spear).jokers.0, 1);
    apply_event_attack(&mut state, &spear);
    assert_eq!((state.agent(&spear).attacks.0, state.agent(&spear).jokers.0), (0, 1));
    apply_event_attack(&mut state, &spear);
    assert_eq!((state.agent(&spear).attacks.0, state.agent(&spear).jokers.0), (0, 0));
}

#[test]
fn wound_takes_strength_and_an_attack() {
    let (mut state, hero, _imp, rock, _far) = field();
    apply_effect_wound(&mut state, &hero, 2);
    assert_eq!(state.strength(&hero).strength.0, 1);
    assert_eq!(state.strength(&hero).base_strength.0, 3);
    assert_eq!(state.agent(&hero).attacks.0, 0);
    apply_effect_wound(&mut state, &hero, 0);
    assert_eq!(state.strength(&hero).strength.0, 1);
    assert_eq!(state.agent(&hero).attacks.0, 0);
    let before = state.clone();
    apply_effect_wound(&mut state, &rock, 1);
    assert_eq!(state, before);
}

#[test]
fn lasting_effects_replace_their_kind() {
    let (mut state, hero, _imp, _rock, _far) = field();
    let timed = |rounds: i32, effect: Lasting| Timed {
        duration: Duration::Rounds(Rounds(rounds)),
        phase: Phase(0),
        effect,
    };
    apply_effect_timed(&mut state, &hero, &timed(2, Lasting::Poison));
    apply_effect_timed(&mut state, &hero, &timed(1, Lasting::Stun));
    apply_effect_timed(&mut state, &hero, &timed(5, Lasting::Poison));
    assert_eq!(
        state.parts().effects.get(hero).unwrap().0,
        vec![timed(5, Lasting::Poison), timed(1, Lasting::Stun)]
    );
}

#[test]
fn planned_abilities_replace_their_kind_tick_and_go() {
    let (mut state, _hero, _imp, rock, _far) = field();
    let planned = |rounds: i32, phase: i32, ability: Ability| PlannedAbility {
        rounds: Rounds(rounds),
        phase: Phase(phase),
        ability,
    };
    apply_scheduled_ability(&mut state, &rock, &planned(2, 0, Ability::Vanish));
    apply_scheduled_ability(&mut state, &rock, &planned(1, 1, Ability::ExplodePush));
    apply_scheduled_ability(&mut state, &rock, &planned(1, 0, Ability::Vanish));
    assert_eq!(
        state.parts().schedule.get(rock).unwrap().planned,
        vec![planned(1, 0, Ability::Vanish), planned(1, 1, Ability::ExplodePush)]
    );
    tick_planned_abilities(&mut state);
    assert_eq!(
        state.parts().schedule.get(rock).unwrap().planned,
        vec![planned(0, 0, Ability::Vanish), planned(1, 1, Ability::ExplodePush)]
    );
    remove_outdated_planned_abilities(&mut state);
    assert_eq!(
        state.parts().schedule.get(rock).unwrap().planned,
        vec![planned(1, 1, Ability::ExplodePush)]
    );
}

#[test]
fn reattack_and_reset() {
    let (mut state, hero, imp, _rock, far) = field();
    let stun = Timed {
        duration: Duration::Rounds(Rounds(1)),
        phase: Phase(1),
        effect: Lasting::Stun,
    };
    apply_effect_timed(&mut state, &far, &stun);
    update_reattack(&mut state, &[hero, imp, far]);
    assert_eq!(state.agent(&hero).attacks.0, 2);
    assert_eq!(state.agent(&imp).attacks.0, 2);
    assert_eq!(state.agent(&far).attacks.0, 2);
    update_reattack_with_stun(&mut state, &[imp, far]);
    assert_eq!(state.agent(&hero).attacks.0, 2);
    assert_eq!(state.agent(&imp).attacks.0, 3);
    assert_eq!(state.agent(&far).attacks.0, 0);
    reset_status(&mut state, &[imp, far, Id(77)]);
    assert_eq!(state.agent(&imp).attacks.0, 1);
    assert_eq!(state.agent(&imp).moves.0, 1);
    assert_eq!(state.agent(&far).attacks.0, 0);
    assert_eq!(state.agent(&far).moves.0, 0);
    reset_moves_and_attacks(&mut state, PlayerId(0));
    assert_eq!(state.agent(&hero).attacks.0, 1);
    reset_moves_and_attacks(&mut state, PlayerId(1));
    assert_eq!(state.agent(&far).moves.0, 1);
}

#[test]
fn cooldowns_of_one_player_only() {
    let (mut state, hero, imp, _rock, _far) = field();
    let resting = |rounds: i32| {
        Abilities(vec![RechargeableAbility {
            ability: Ability::Rage,
            status: Status::Cooldown(Rounds(rounds)),
        }])
    };
    state.parts_mut().abilities.insert(hero, resting(2));
    state.parts_mut().abilities.insert(imp, resting(1));
    update_cooldowns(&mut state, PlayerId(1));
    assert_eq!(state.abilities(&hero).0[0].status, Status::Cooldown(Rounds(2)));
    assert_eq!(state.abilities(&imp).0[0].status, Status::Ready);
    update_cooldowns(&mut state, PlayerId(0));
    assert_eq!(state.abilities(&hero).0[0].status, Status::Cooldown(Rounds(1)));
    let mut status = Status::Cooldown(Rounds(1));
    status.update();
    assert_eq!(status, Status::Ready);
    status.update();
    assert_eq!(status, Status::Ready);
}

#[test]
fn use_of_an_ability_is_paid_and_rests() {
    let (mut state, hero, _imp, _rock, _far) = field();
    state.parts_mut().abilities.insert(
        hero,
        Abilities(vec![
            RechargeableAbility::from(Ability::Jump),
            RechargeableAbility::from(Ability::Rage),
        ]),
    );
    apply_event_use_ability(
        &mut state,
        &event::UseAbility {
            id: hero,
            pos: PosHex::new(2, 0),
            ability: Ability::Jump,
        },
    );
    assert_eq!(state.pos(&hero).0, PosHex::new(2, 0));
    assert_eq!(state.agent(&hero).attacks.0, 0);
    assert_eq!(state.abilities(&hero).0[0].status, Status::Cooldown(Rounds(2)));
    assert_eq!(state.abilities(&hero).0[1].status, Status::Ready);
}

#[test]
fn end_of_turn_event() {
    let (mut state, hero, imp, rock, far) = field();
    let stun = Timed {
        duration: Duration::Rounds(Rounds(0)),
        phase: Phase(1),
        effect: Lasting::Stun,
    };
    apply_effect_timed(&mut state, &far, &stun);
    apply_scheduled_ability(
        &mut state,
        &rock,
        &PlannedAbility {
            rounds: Rounds(0),
            phase: Phase(0),
            ability: Ability::Vanish,
        },
    );
    apply_event_end_turn(&mut state, PlayerId(0));
    assert_eq!(state.agent(&hero).attacks.0, 2);
    assert_eq!(state.agent(&imp).attacks.0, 1);
    assert_eq!(state.agent(&far).attacks.0, 0);
    assert!(state.parts().schedule.get(rock).unwrap().planned.is_empty());
    assert!(state.parts().effects.get(far).unwrap().0.is_empty());
    assert_eq!(state.player_id(), PlayerId(0));
}

#[test]
fn turn_events() {
    let (mut state, hero, imp, _rock, _far) = field();
    execute_event_end_turn(&mut state);
    assert_eq!(state.agent(&hero).attacks.0, 2);
    assert_eq!(state.player_id(), PlayerId(0));
    assert_eq!(state.next_player_id(), PlayerId(1));
    execute_event_begin_turn(&mut state);
    assert_eq!(state.player_id(), PlayerId(1));
    assert_eq!(state.next_player_id(), PlayerId(0));
    assert_eq!(state.agent(&imp).attacks.0, 1);
    assert_eq!(state.agent(&hero).attacks.0, 2);
}

#[test]
fn regeneration_at_the_start_of_a_turn() {
    let mut state = battle(Level::Level5);
    let _hero = create(&mut state, Some(0), -3, 0, "swordsman");
    let summoner = create(&mut state, Some(1), 1, 0, "imp_summoner");
    apply_effect_wound(&mut state, &summoner, 3);
    assert_eq!(state.strength(&summoner).strength.0, 4);
    try_execute_passive_abilities_on_begin_turn(&mut state);
    assert_eq!(state.strength(&summoner).strength.0, 4);
    state.player_id = PlayerId(1);
    try_execute_passive_abilities_on_begin_turn(&mut state);
    assert_eq!(state.strength(&summoner).strength.0, 5);
}

#[test]
fn an_event_is_applied_in_its_order() {
    let (mut state, hero, imp, _rock, _far) = field();
    let id = Id(9);
    let mut kit = imp_kit();
    kit.push(Component::Pos(Pos(PosHex::new(-2, 0))));
    kit.push(Component::BelongsTo(BelongsTo(PlayerId(1))));
    let event = Event {
        active_event: ActiveEvent::Attack(event::Attack {
            attacker_id: hero,
            target_id: imp,
            mode: event::AttackMode::Active,
            weapon_type: state.agent(&hero).weapon_type,
        }),
        actor_ids: vec![hero],
        instant_effects: vec![
            (
                imp,
                vec![
                    Effect::Wound(effect::Wound {
                        damage: Strength(1),
                        attacker_pos: None,
                    }),
                    Effect::Knockback(effect::Knockback {
                        from: PosHex::new(1, 0),
                        to: PosHex::new(2, 0),
                        strength: PushStrength(Weight::Normal),
                    }),
                ],
            ),
            (
                id,
                vec![
                    Effect::Create(effect::Create {
                        pos: PosHex::new(-2, 0),
                        prototype: ObjType::from("imp"),
                        components: kit,
                        is_teleported: false,
                    }),
                    Effect::Stun,
                ],
            ),
            (hero, vec![Effect::Bloodlust]),
        ],
        timed_effects: vec![(
            imp,
            vec![Timed {
                duration: Duration::Rounds(Rounds(2)),
                phase: Phase(1),
                effect: Lasting::Poison,
            }],
        )],
        scheduled_abilities: vec![(
            id,
            vec![PlannedAbility {
                rounds: Rounds(2),
                phase: Phase(1),
                ability: Ability::Vanish,
            }],
        )],
    };
    apply(&mut state, &event);
    assert_eq!(state.agent(&hero).attacks.0, 0);
    assert_eq!(state.agent(&hero).jokers.0, 3);
    assert_eq!(state.strength(&imp).strength.0, 2);
    assert_eq!(state.pos(&imp).0, PosHex::new(2, 0));
    assert_eq!(state.parts().effects.get(imp).unwrap().0.len(), 1);
    assert_eq!(state.pos(&id).0, PosHex::new(-2, 0));
    assert_eq!(state.agent(&id).moves.0, 0);
    assert_eq!(state.agent(&id).attacks.0, 0);
    assert_eq!(state.parts().schedule.get(id).unwrap().planned.len(), 1);
    let mut same = state.clone();
    same.apply(&Event {
        active_event: ActiveEvent::Create,
        actor_ids: vec![],
        instant_effects: vec![(hero, vec![Effect::Dodge(effect::Dodge { attacker_pos: PosHex::new(0, 0) })])],
        timed_effects: vec![],
        scheduled_abilities: vec![],
    });
    assert_eq!(same, state);
}

fn imp_kit() -> Vec<Component> {
    imp()
}

#[test]
fn components_replace_those_of_their_kind() {
    let (mut state, hero, _imp, _rock, _far) = field();
    add_components(&mut state, &hero, &spearman());
    assert_eq!(state.agent(&hero).attack_distance, 2);
    assert_eq!(state.abilities(&hero).0, vec![RechargeableAbility::from(Ability::LongJump)]);
    assert_eq!(state.pos(&hero).0, PosHex::new(0, 0));
    assert_eq!(state.meta(&hero).name, ObjType::from("swordsman"));
}

#[test]
fn prototypes() {
    assert_eq!(prototype_for("imp"), imp());
    assert_eq!(prototype_for("imp_summoner"), imp_summoner());
    assert_eq!(imp_summoner().len(), 6);
    assert_eq!(prototype_for("fire").len(), 1);
    assert_eq!(prototype_for("boulder"), battle::battle::heroes::boulder());
    for index in 0..11 {
        let hero = Hero::from_index(index);
        assert_eq!(hero.to_index(), index);
        assert_eq!(Hero::from_name(&hero.name()).to_index(), index);
        assert!(battle::battle::heroes::is_known_prototype(&hero.name()));
        assert!(prototype_for(&hero.name()).len() >= 3);
    }
    assert_eq!(Hero::Firer.name(), "firer");
    assert_eq!(Hero::Spearman.line(), battle::battle::scenario::Line::Middle);
    assert_eq!(Hero::Hammerman.line(), battle::battle::scenario::Line::Front);
    assert_eq!(Hero::Healer.line(), battle::battle::scenario::Line::Back);
    assert!(!battle::battle::heroes::is_known_prototype("dragon"));
}

#[test]
fn prototypes_start_from_what_they_hold() {
    let mut strength = battle::battle::component::Strength {
        base_strength: Strength(0),
        strength: Strength(4),
    };
    let mut kit = imp();
    if let Component::Agent(agent) = &mut kit[2] {
        agent.base_moves.0 = 0;
        agent.base_attacks.0 = 0;
        agent.moves.0 = 2;
        agent.attacks.0 = 3;
    }
    kit[1] = Component::Strength(strength.clone());
    let mut table = Prototypes(vec![(ObjType::from("imp"), kit)]);
    table.init_components();
    strength.base_strength = Strength(4);
    assert_eq!(table.0[0].1[1], Component::Strength(strength));
    match &table.0[0].1[2] {
        Component::Agent(agent) => {
            assert_eq!(agent.base_moves.0, 2);
            assert_eq!(agent.base_attacks.0, 3);
            assert_eq!(agent.base_jokers.0, 0);
        }
        other => panic!("not an agent: {:?}", other),
    }
    assert_eq!(table.0[0].1[0], imp()[0]);
}

#[test]
fn titles_and_descriptions() {
    assert_eq!(Ability::LongJump.title(), "Long Jump");
    assert_eq!(Ability::BombFire.title(), "Fire Bomb");
    assert_eq!(Ability::Knockback.base_cooldown(), Rounds(1));
    assert_eq!(Ability::Club.base_cooldown(), Rounds(2));
    assert_eq!(Ability::Heal.base_cooldown(), Rounds(3));
    assert_eq!(Ability::GreatHeal.base_cooldown(), Rounds(2));
    assert_eq!(
        Ability::Dash.description(),
        vec![
            String::from("Move one tile"),
            String::from("without triggering any reaction attacks."),
        ]
    );
    assert_eq!(Ability::BombPush.description().len(), 4);
    assert_eq!(
        Ability::BombPush.description()[3],
        "Can move objects with a weight up to Normal."
    );
    assert_eq!(Ability::Vanish.description(), vec![String::from("<internal ability>")]);
    assert_eq!(PassiveAbility::SpikeTrap.title(), "Spike Trap");
    assert_eq!(
        PassiveAbility::Regenerate.description(),
        vec![String::from("Regenerates 1 strength points every turn.")]
    );
    assert_eq!(Lasting::Bloodlust.title(), "Bloodlust");
    assert_eq!(Lasting::Poison.description().len(), 2);
    assert_eq!(Effect::Vanish.to_str(), "Vanish");
    assert_eq!(
        Effect::FlyOff(effect::FlyOff {
            from: PosHex::new(0, 0),
            to: PosHex::new(0, 1),
            strength: PushStrength(Weight::Normal),
        })
        .to_str(),
        "Fly off"
    );
    assert!(Duration::Rounds(Rounds(0)).is_over());
    assert!(!Duration::Rounds(Rounds(1)).is_over());
    assert!(!Duration::Forever.is_over());
}
