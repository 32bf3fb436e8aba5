use battle::battle::ability::Ability;
use battle::battle::ability::RechargeableAbility;
use battle::battle::ability::Status;
use battle::battle::check::check;
use battle::battle::check::check_agent_can_attack;
use battle::battle::check::check_agent_can_move;
use battle::battle::check::check_command_attack;
use battle::battle::check::check_max_distance;
use battle::battle::check::try_get_actor;
use battle::battle::check::Error;
use battle::battle::command;
use battle::battle::command::Command;
use battle::battle::component::Abilities;
use battle::battle::component::ObjType;
use battle::battle::component::Parts;
use battle::battle::execute::check_can_carry;
use battle::battle::execute::execute;
use battle::battle::movement::Path;
use battle::battle::state::apply::apply_effect_stun;
use battle::battle::state::BattleResult;
use battle::battle::state::State;
use battle::battle::Id;
use battle::battle::PlayerId;
use battle::battle::Rounds;
use battle::game::Level;
use battle::map::HexMap;
use battle::map::PosHex;
use battle::utils::SimpleRng;

fn create(state: &mut State, owner: Option<i32>, q: i32, r: i32, name: &str) -> Id {
    let id = state.parts().next_obj_id;
    let mut rng = SimpleRng::seed_from_u32(0);
    let command = Command::Create(command::Create {
        owner: owner.map(PlayerId),
        pos: PosHex::new(q, r),
        prototype: ObjType::from(name),
    });
    assert_eq!(execute(state, &command, &mut rng), Ok(()));
    id
}

/// A hero at the origin, an imp next to it, a boulder and a far imp.
fn field() -> (State, Id, Id, Id, Id) {
    let mut state = State {
        parts: Parts::new(),
        map: HexMap::new(3),
        players_count: 2,
        player_id: PlayerId(0),
        battle_result: None,
        level: Level::Level3,
    };
    let hero = create(&mut state, Some(0), 0, 0, "swordsman");
    let imp = create(&mut state, Some(1), 1, 0, "imp");
    let rock = create(&mut state, None, 0, 1, "boulder");
    let far = create(&mut state, Some(1), 3, -3, "imp");
    (state, hero, imp, rock, far)
}

fn give(state: &mut State, id: Id, ability: Ability) {
    state
        .parts_mut()
        .abilities
        .insert(id, Abilities(vec![RechargeableAbility::from(ability)]));
}

fn step(id: Id, q: i32, r: i32) -> Command {
    Command::MoveTo(command::MoveTo {
        id,
        path: Path::new(vec![PosHex::new(0, 0), PosHex::new(q, r)]),
    })
}

fn attack(attacker_id: Id, target_id: Id) -> Command {
    Command::Attack(command::Attack {
        attacker_id,
        target_id,
    })
}

fn ability(id: Id, q: i32, r: i32, ability: Ability) -> Command {
    Command::UseAbility(command::UseAbility {
        id,
        pos: PosHex::new(q, r),
        ability,
    })
}

#[test]
fn legal_commands_pass() {
    let (state, hero, imp, _rock, _far) = field();
    assert_eq!(check(&state, &step(hero, 0, -1)), Ok(()));
    assert_eq!(check(&state, &step(hero, -2, 0)), Ok(()));
    assert_eq!(check(&state, &attack(hero, imp)), Ok(()));
    assert_eq!(check(&state, &Command::EndTurn(command::EndTurn)), Ok(()));
}

#[test]
fn move_to_errors() {
    let (mut state, hero, imp, rock, _far) = field();
    assert_eq!(check(&state, &step(hero, 3, 0)), Err(Error::NotEnoughMovePoints));
    assert_eq!(check(&state, &step(rock, 0, -1)), Err(Error::BadActorId));
    assert_eq!(check(&state, &step(Id(99), 0, -1)), Err(Error::BadActorId));
    assert_eq!(check(&state, &step(imp, 0, -1)), Err(Error::CanNotCommandEnemyAgents));
    apply_effect_stun(&mut state, &hero);
    assert_eq!(check(&state, &step(hero, 0, -1)), Err(Error::NotEnoughMoves));
    assert_eq!(check_agent_can_move(&state, hero), Err(Error::NotEnoughMoves));
    assert_eq!(check_agent_can_move(&state, imp), Ok(()));
    assert_eq!(check_agent_can_move(&state, rock), Err(Error::BadActorId));
}

#[test]
fn attack_errors() {
    let (mut state, hero, imp, rock, far) = field();
    assert_eq!(check(&state, &attack(hero, hero)), Err(Error::BadTargetId));
    assert_eq!(check(&state, &attack(hero, Id(99))), Err(Error::BadTargetId));
    assert_eq!(check(&state, &attack(hero, far)), Err(Error::DistanceIsTooBig));
    assert_eq!(check(&state, &attack(imp, hero)), Err(Error::CanNotCommandEnemyAgents));
    assert_eq!(check(&state, &attack(rock, imp)), Err(Error::BadActorId));
    assert_eq!(
        check_command_attack(
            &state,
            &command::Attack {
                attacker_id: hero,
                target_id: rock
            }
        ),
        Ok(())
    );
    apply_effect_stun(&mut state, &hero);
    assert_eq!(check(&state, &attack(hero, imp)), Err(Error::NotEnoughAttacks));
    assert_eq!(check_agent_can_attack(&state, hero), Err(Error::NotEnoughAttacks));
    assert_eq!(check_agent_can_attack(&state, imp), Ok(()));
}

#[test]
fn create_errors() {
    let (state, _hero, _imp, _rock, _far) = field();
    let create = |q: i32, r: i32| {
        Command::Create(command::Create {
            owner: None,
            pos: PosHex::new(q, r),
            prototype: ObjType::from("boulder"),
        })
    };
    assert_eq!(check(&state, &create(-1, 0)), Ok(()));
    assert_eq!(check(&state, &create(1, 0)), Err(Error::TileIsBlocked));
    assert_eq!(check(&state, &create(4, 0)), Err(Error::BadPos));
    assert_eq!(check(&state, &create(3, 1)), Err(Error::BadPos));
}

#[test]
fn ability_needs_its_owner_and_its_price() {
    let (mut state, hero, imp, rock, _far) = field();
    give(&mut state, hero, Ability::Rage);
    give(&mut state, imp, Ability::Rage);
    assert_eq!(check(&state, &ability(hero, 0, 0, Ability::Rage)), Ok(()));
    assert_eq!(
        check(&state, &ability(imp, 1, 0, Ability::Rage)),
        Err(Error::CanNotCommandEnemyAgents)
    );
    assert_eq!(
        check(&state, &ability(rock, 0, 1, Ability::Rage)),
        Err(Error::CanNotCommandEnemyAgents)
    );
    assert_eq!(
        check(&state, &ability(hero, 0, 0, Ability::Heal)),
        Err(Error::NoSuchAbility)
    );
    assert_eq!(check(&state, &ability(hero, 1, 1, Ability::Rage)), Err(Error::BadPos));
    state.parts_mut().abilities.insert(
        hero,
        Abilities(vec![RechargeableAbility {
            ability: Ability::Rage,
            status: Status::Cooldown(Rounds(1)),
        }]),
    );
    assert_eq!(
        check(&state, &ability(hero, 0, 0, Ability::Rage)),
        Err(Error::AbilityIsNotReady)
    );
    apply_effect_stun(&mut state, &hero);
    assert_eq!(
        check(&state, &ability(hero, 0, 0, Ability::Rage)),
        Err(Error::NotEnoughAttacks)
    );
}

#[test]
fn ability_without_abilities() {
    let (state, hero, _imp, _rock, _far) = field();
    assert_eq!(
        check(&state, &ability(hero, 0, 0, Ability::Rage)),
        Err(Error::NoSuchAbility)
    );
}

#[test]
fn knockback_rules() {
    let (mut state, hero, _imp, _rock, _far) = field();
    give(&mut state, hero, Ability::Knockback);
    assert_eq!(check(&state, &ability(hero, 1, 0, Ability::Knockback)), Ok(()));
    assert_eq!(
        check(&state, &ability(hero, 0, 0, Ability::Knockback)),
        Err(Error::DistanceIsTooSmall)
    );
    assert_eq!(
        check(&state, &ability(hero, 2, 0, Ability::Knockback)),
        Err(Error::DistanceIsTooBig)
    );
    assert_eq!(
        check(&state, &ability(hero, -1, 0, Ability::Knockback)),
        Err(Error::NoTarget)
    );
    assert_eq!(
        check(&state, &ability(hero, 0, 1, Ability::Knockback)),
        Err(Error::NotEnoughStrength)
    );
}

#[test]
fn jump_rules() {
    let (mut state, hero, _imp, _rock, _far) = field();
    give(&mut state, hero, Ability::Jump);
    assert_eq!(check(&state, &ability(hero, 2, 0, Ability::Jump)), Ok(()));
    assert_eq!(
        check(&state, &ability(hero, 0, -1, Ability::Jump)),
        Err(Error::DistanceIsTooSmall)
    );
    assert_eq!(
        check(&state, &ability(hero, 3, 0, Ability::Jump)),
        Err(Error::DistanceIsTooBig)
    );
    give(&mut state, hero, Ability::LongJump);
    assert_eq!(check(&state, &ability(hero, 3, 0, Ability::LongJump)), Ok(()));
    assert_eq!(
        check(&state, &ability(hero, 3, -3, Ability::LongJump)),
        Err(Error::TileIsBlocked)
    );
    assert_eq!(
        check(&state, &ability(hero, 4, -1, Ability::LongJump)),
        Err(Error::DistanceIsTooBig)
    );
    give(&mut state, hero, Ability::Dash);
    assert_eq!(check(&state, &ability(hero, 0, -1, Ability::Dash)), Ok(()));
    assert_eq!(
        check(&state, &ability(hero, 2, 0, Ability::Dash)),
        Err(Error::DistanceIsTooBig)
    );
    assert_eq!(
        check(&state, &ability(hero, 1, 0, Ability::Dash)),
        Err(Error::TileIsBlocked)
    );
}

#[test]
fn club_and_poison_rules() {
    let (mut state, hero, _imp, _rock, _far) = field();
    give(&mut state, hero, Ability::Club);
    assert_eq!(check(&state, &ability(hero, 1, 0, Ability::Club)), Ok(()));
    assert_eq!(
        check(&state, &ability(hero, 2, 0, Ability::Club)),
        Err(Error::BadDistance)
    );
    assert_eq!(
        check(&state, &ability(hero, 0, 0, Ability::Club)),
        Err(Error::BadDistance)
    );
    assert_eq!(
        check(&state, &ability(hero, -1, 0, Ability::Club)),
        Err(Error::NoTarget)
    );
    give(&mut state, hero, Ability::Poison);
    assert_eq!(check(&state, &ability(hero, 1, 0, Ability::Poison)), Ok(()));
    assert_eq!(check(&state, &ability(hero, 3, -3, Ability::Poison)), Ok(()));
    assert_eq!(
        check(&state, &ability(hero, 0, 0, Ability::Poison)),
        Err(Error::DistanceIsTooSmall)
    );
    assert_eq!(
        check(&state, &ability(hero, 2, 0, Ability::Poison)),
        Err(Error::NoTarget)
    );
}

#[test]
fn bomb_heal_and_bloodlust_rules() {
    let (mut state, hero, _imp, _rock, _far) = field();
    for bomb in [
        Ability::Bomb,
        Ability::BombPush,
        Ability::BombFire,
        Ability::BombPoison,
        Ability::BombDemonic,
    ] {
        give(&mut state, hero, bomb);
        assert_eq!(check(&state, &ability(hero, 3, 0, bomb)), Ok(()));
        assert_eq!(
            check(&state, &ability(hero, 1, 0, bomb)),
            Err(Error::TileIsBlocked)
        );
        assert_eq!(
            check(&state, &ability(hero, 4, 0, bomb)),
            Err(Error::DistanceIsTooBig)
        );
    }
    give(&mut state, hero, Ability::Heal);
    assert_eq!(check(&state, &ability(hero, 1, 0, Ability::Heal)), Ok(()));
    assert_eq!(check(&state, &ability(hero, 0, 0, Ability::Heal)), Ok(()));
    assert_eq!(
        check(&state, &ability(hero, 0, 1, Ability::Heal)),
        Err(Error::NoTarget)
    );
    assert_eq!(
        check(&state, &ability(hero, 3, -3, Ability::Heal)),
        Err(Error::DistanceIsTooBig)
    );
    give(&mut state, hero, Ability::Bloodlust);
    assert_eq!(check(&state, &ability(hero, 3, -3, Ability::Bloodlust)), Ok(()));
    assert_eq!(
        check(&state, &ability(hero, 0, 1, Ability::Bloodlust)),
        Err(Error::NoTarget)
    );
}

#[test]
fn only_what_is_no_agent_vanishes() {
    let (mut state, hero, _imp, _rock, _far) = field();
    give(&mut state, hero, Ability::Vanish);
    assert_eq!(
        check(&state, &ability(hero, 0, 0, Ability::Vanish)),
        Err(Error::BadActorType)
    );
    give(&mut state, hero, Ability::ExplodeFire);
    assert_eq!(check(&state, &ability(hero, 0, 0, Ability::ExplodeFire)), Ok(()));
    assert_eq!(
        check(&state, &ability(hero, 1, 0, Ability::ExplodeFire)),
        Err(Error::BadPos)
    );
    give(&mut state, hero, Ability::Summon);
    assert_eq!(check(&state, &ability(hero, 0, 0, Ability::Summon)), Ok(()));
}

#[test]
fn nothing_passes_once_the_battle_is_decided() {
    let (mut state, hero, imp, _rock, _far) = field();
    state.battle_result = Some(BattleResult {
        winner_id: PlayerId(1),
        survivor_types: vec![],
        level: Level::Level3,
    });
    assert_eq!(check(&state, &step(hero, 0, -1)), Err(Error::BattleEnded));
    assert_eq!(check(&state, &attack(hero, imp)), Err(Error::BattleEnded));
    assert_eq!(
        check(&state, &Command::EndTurn(command::EndTurn)),
        Err(Error::BattleEnded)
    );
}

#[test]
fn check_helpers() {
    let (state, hero, _imp, rock, _far) = field();
    assert_eq!(
        check_max_distance(PosHex::new(0, 0), PosHex::new(2, 1), 3),
        Ok(())
    );
    assert_eq!(
        check_max_distance(PosHex::new(0, 0), PosHex::new(2, 1), 2),
        Err(Error::DistanceIsTooBig)
    );
    assert_eq!(try_get_actor(&state, hero).map(|agent| agent.move_points.0), Ok(2));
    assert_eq!(try_get_actor(&state, rock).err(), Some(Error::BadActorId));
}

#[test]
fn what_a_command_takes_to_carry_out() {
    let (mut state, hero, imp, rock, _far) = field();
    assert_eq!(check_can_carry(&state, &step(hero, 0, -1)), Ok(()));
    assert_eq!(check_can_carry(&state, &step(imp, 2, 0)), Ok(()));
    assert_eq!(check_can_carry(&state, &attack(imp, hero)), Ok(()));
    assert_eq!(check_can_carry(&state, &attack(hero, hero)), Ok(()));
    assert_eq!(check_can_carry(&state, &Command::EndTurn(command::EndTurn)), Ok(()));
    assert_eq!(check_can_carry(&state, &ability(rock, 0, 1, Ability::Vanish)), Ok(()));
    assert_eq!(check_can_carry(&state, &step(rock, 0, 2)), Err(Error::BadActorId));
    assert_eq!(check_can_carry(&state, &attack(rock, hero)), Err(Error::BadActorId));
    assert_eq!(check_can_carry(&state, &attack(hero, Id(99))), Err(Error::BadTargetType));
    apply_effect_stun(&mut state, &imp);
    assert_eq!(check_can_carry(&state, &step(imp, 2, 0)), Err(Error::NotEnoughMoves));
    assert_eq!(check_can_carry(&state, &attack(imp, hero)), Err(Error::NotEnoughAttacks));
    assert_eq!(
        check_can_carry(&state, &ability(imp, 1, 0, Ability::Rage)),
        Err(Error::NotEnoughAttacks)
    );
    // an attacker whose aim leaves nothing to draw from
    let blind = battle::battle::component::Agent {
        attack_accuracy: battle::battle::Accuracy(-2),
        ..state.agent(&hero).clone()
    };
    state.parts_mut().agent.insert(hero, blind);
    assert_eq!(check_can_carry(&state, &attack(hero, imp)), Err(Error::BadActorType));
}
