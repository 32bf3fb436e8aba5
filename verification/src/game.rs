//! The levels of the game: the opponents of each, the heroes that are
//! lent to the player, and the state each battle starts from.

use vstd::prelude::*;

use crate::battle::ai::agent_decision;
use crate::battle::ai::deciding;
use crate::battle::ai::places_to;
use crate::battle::ai::trimmed;
use crate::battle::ai::Ai;
use crate::battle::check::Error;
use crate::battle::command;
use crate::battle::command::Command;
use crate::battle::command::CommandModel;
use crate::battle::execute::execute;
use crate::battle::model::ResultModel;
use crate::battle::state::BattleResult;
use crate::battle::Id;
use crate::utils::SimpleRng;
use crate::battle::component::BelongsTo;
use crate::battle::component::Component;
use crate::battle::component::Meta;
use crate::battle::component::ObjType;
use crate::battle::component::Parts;
use crate::battle::component::Pos;
use crate::battle::execute::created_kit;
use crate::battle::heroes::known_prototype;
use crate::battle::heroes::prototype_for;
use crate::battle::heroes::HeroObject;
use crate::battle::model::kit_model;
use crate::battle::model::kit_ok;
use crate::battle::model::Model;
use crate::battle::scenario::Line;
use crate::battle::scenario::ObjectsGroup;
use crate::battle::scenario::Scenario;
use crate::battle::state::apply::add_components;
use crate::battle::state::private::fresh;
use crate::battle::state::State;
use crate::battle::PlayerId;
use crate::battle::TileType;
use crate::map::HexMap;
use crate::map::PosHex;

verus! {

/// A level of the game. The higher the level, the more of the turn
/// bookkeeping is in force.
#[derive(Clone, Copy, Debug, PartialEq, Eq, Structural)]
pub enum Level {
    Level0,
    Level1,
    Level2,
    Level3,
    Level4,
    Level5,
}

/// The level with the given number.
pub open spec fn level_of_index(i: int) -> Level {
    if i == 0 {
        Level::Level0
    } else if i == 1 {
        Level::Level1
    } else if i == 2 {
        Level::Level2
    } else if i == 3 {
        Level::Level3
    } else if i == 4 {
        Level::Level4
    } else {
        Level::Level5
    }
}

/// The number of groups of opponents on a level.
pub open spec fn groups_on(level: Level) -> int {
    match level {
        Level::Level0 | Level::Level1 => 1,
        Level::Level2 => 2,
        Level::Level3 | Level::Level4 => 3,
        Level::Level5 => 4,
    }
}

/// The kind of the opponents of a group.
pub open spec fn group_kind(i: int) -> Seq<char> {
    if i == 0 {
        "imp"@
    } else if i == 1 {
        "imp_bomber"@
    } else if i == 2 {
        "toxic_imp"@
    } else {
        "imp_summoner"@
    }
}

/// The line in which the opponents of a group stand.
pub open spec fn group_line(i: int) -> Line {
    if i == 0 {
        Line::Front
    } else if i == 1 {
        Line::Back
    } else if i == 2 {
        Line::Middle
    } else {
        Line::Back
    }
}

/// The number of opponents in a group on a level.
pub open spec fn group_count(level: Level, i: int) -> int {
    if i == 0 {
        if level == Level::Level0 {
            1
        } else {
            3
        }
    } else if i == 2 {
        if level == Level::Level3 {
            1
        } else {
            2
        }
    } else {
        1
    }
}

/// The heroes that are lent to the player on a level.
pub open spec fn level_heroes(level: Level) -> Seq<HeroObject> {
    match level {
        Level::Level0 => seq![HeroObject { index: 0, count: 1 }],
        Level::Level1 => seq![HeroObject { index: 0, count: 1 }, HeroObject { index: 3, count: 1 }],
        Level::Level2 => seq![HeroObject { index: 2, count: 1 }, HeroObject { index: 3, count: 1 }],
        Level::Level3 => seq![
            HeroObject { index: 2, count: 1 },
            HeroObject { index: 4, count: 1 },
            HeroObject { index: 6, count: 1 },
        ],
        Level::Level4 => seq![
            HeroObject { index: 8, count: 1 },
            HeroObject { index: 3, count: 1 },
            HeroObject { index: 1, count: 1 },
        ],
        Level::Level5 => seq![
            HeroObject { index: 2, count: 1 },
            HeroObject { index: 4, count: 1 },
            HeroObject { index: 7, count: 1 },
        ],
    }
}

/// The number of opponents that stand on the board when a level starts.
pub open spec fn opponents_on(level: Level) -> int {
    match level {
        Level::Level0 => 1,
        Level::Level1 => 3,
        Level::Level2 => 4,
        Level::Level3 => 5,
        Level::Level4 => 6,
        Level::Level5 => 7,
    }
}

/// The kind of the opponent with the given number.
pub open spec fn opponent_kind(i: int) -> Seq<char> {
    if i < 3 {
        "imp"@
    } else if i == 3 {
        "imp_bomber"@
    } else if i < 6 {
        "toxic_imp"@
    } else {
        "imp_summoner"@
    }
}

/// The tile of the opponent with the given number.
pub open spec fn opponent_pos(i: int) -> PosHex {
    if i == 0 {
        PosHex { q: 1, r: -2i32 }
    } else if i == 1 {
        PosHex { q: 0, r: -1i32 }
    } else if i == 2 {
        PosHex { q: 2, r: -3i32 }
    } else if i == 3 {
        PosHex { q: 3, r: 0 }
    } else if i == 4 {
        PosHex { q: 2, r: 1 }
    } else if i == 5 {
        PosHex { q: 2, r: -1i32 }
    } else {
        PosHex { q: 3, r: -1i32 }
    }
}

impl Model {
    /// An entity of the kind appears on the tile under the next
    /// identifier, owned by the player.
    pub open spec fn spawned(self, name: Seq<char>, owner: PlayerId, pos: PosHex) -> Model {
        self.allocated().with_components(
            self.next_obj_id,
            created_kit(Some(owner), pos, name),
            created_kit(Some(owner), pos, name).len() as int,
        )
    }

    /// The first `n` opponents appear, owned by the second player.
    pub open spec fn opposed(self, n: int) -> Model
        decreases n,
    {
        if n <= 0 {
            self
        } else {
            self.opposed(n - 1).spawned(opponent_kind(n - 1), PlayerId(1), opponent_pos(n - 1))
        }
    }
}

/// The state a level starts from: a plain board of radius three for two
/// players, with the opponents of the level on it.
pub open spec fn level_model(level: Level) -> Model {
    fresh(3, 2, level).opposed(opponents_on(level))
}

fn spawn(state: &mut State, name: &str, owner: PlayerId, pos: PosHex)
    requires
        known_prototype(name@),
    ensures
        final(state)@ == old(state)@.spawned(name@, owner, pos),
        final(state)@.same_board(old(state)@),
        old(state)@.agents_ok() ==> final(state)@.agents_ok(),
        old(state)@.strengths_ok() ==> final(state)@.strengths_ok(),
{
    let mut components = prototype_for(name);
    components.push(Component::BelongsTo(BelongsTo(owner)));
    components.push(Component::Pos(Pos(pos)));
    components.push(Component::Meta(Meta { name: ObjType::from(name) }));
    assert(kit_model(components@) =~= created_kit(Some(owner), pos, name@));
    let id = state.parts.alloc_id();
    assert(state@ =~= old(state)@.allocated());
    add_components(state, &id, components.as_slice());
}

fn opponent(i: usize) -> (r: (&'static str, PosHex))
    requires
        i < 7,
    ensures
        r.0@ == opponent_kind(i as int),
        r.1 == opponent_pos(i as int),
        known_prototype(r.0@),
{
    if i == 0 {
        ("imp", PosHex { q: 1, r: -2 })
    } else if i == 1 {
        ("imp", PosHex { q: 0, r: -1 })
    } else if i == 2 {
        ("imp", PosHex { q: 2, r: -3 })
    } else if i == 3 {
        ("imp_bomber", PosHex { q: 3, r: 0 })
    } else if i == 4 {
        ("toxic_imp", PosHex { q: 2, r: 1 })
    } else if i == 5 {
        ("toxic_imp", PosHex { q: 2, r: -1 })
    } else {
        ("imp_summoner", PosHex { q: 3, r: -1 })
    }
}

fn level_state(level: Level, opponents: usize) -> (state: State)
    requires
        opponents == opponents_on(level),
    ensures
        state@ == level_model(level),
        state.wf(),
        state@.agents_ok(),
        state@.strengths_ok(),
        state@.radius == 3,
{
    let mut state = State {
        parts: Parts::new(),
        map: HexMap::filled(3, TileType::Plain),
        players_count: 2,
        player_id: PlayerId(0),
        battle_result: None,
        level,
    };
    proof {
        let want = fresh(3, 2, level);
        assert(state@.tiles =~= want.tiles);
        assert(state@.abilities =~= want.abilities);
        assert(state@.passive_abilities =~= want.passive_abilities);
        assert(state@.effects =~= want.effects);
        assert(state@.schedule =~= want.schedule);
        assert(state@.meta =~= want.meta);
        assert(state@ =~= want);
    }
    let ghost start = state@;
    let mut i: usize = 0;
    while i < opponents
        invariant
            i <= opponents <= 7,
            state@ == start.opposed(i as int),
            state@.same_board(start),
            start.radius == 3,
            state@.agents_ok(),
            state@.strengths_ok(),
        decreases opponents - i,
    {
        let entity = opponent(i);
        spawn(&mut state, entity.0, PlayerId(1), entity.1);
        i += 1;
    }
    state
}

impl Level {
    pub fn from_index(i: i32) -> (level: Level)
        requires
            0 <= i <= 5,
        ensures
            level == level_of_index(i as int),
    {
        if i == 0 {
            Level::Level0
        } else if i == 1 {
            Level::Level1
        } else if i == 2 {
            Level::Level2
        } else if i == 3 {
            Level::Level3
        } else if i == 4 {
            Level::Level4
        } else {
            Level::Level5
        }
    }

    /// The state the level starts from, before the heroes of the player
    /// are placed.
    pub fn state(&self) -> (state: State)
        ensures
            state@ == level_model(*self),
            state.wf(),
            state@.agents_ok(),
            state@.strengths_ok(),
            state@.radius == 3,
    {
        match self {
            Level::Level0 => state_level0(),
            Level::Level1 => state_level1(),
            Level::Level2 => state_level2(),
            Level::Level3 => state_level3(),
            Level::Level4 => state_level4(),
            Level::Level5 => state_level5(),
        }
    }

    /// The scenario of the level: a board of radius three for two
    /// players, without rocks, and the groups of opponents of the level,
    /// each owned by the second player and placed by chance in its line.
    pub fn scenario(&self) -> (scenario: Scenario)
        ensures
            scenario.map_radius == 3,
            scenario.players_count == 2,
            scenario.rocky_tiles_count == 0,
            scenario.tiles@.len() == 0,
            scenario.objects@.len() == 0,
            scenario.randomized_objects@.len() == groups_on(*self),
            forall|i: int|
                0 <= i < groups_on(*self) ==> {
                    &&& (#[trigger] scenario.randomized_objects@[i]).owner == Some(PlayerId(1))
                    &&& scenario.randomized_objects@[i].typename@ == group_kind(i)
                    &&& scenario.randomized_objects@[i].line == Some(group_line(i))
                    &&& scenario.randomized_objects@[i].count == group_count(*self, i)
                },
            scenario.startable(),
    {
        let groups: usize = match self {
            Level::Level0 | Level::Level1 => 1,
            Level::Level2 => 2,
            Level::Level3 | Level::Level4 => 3,
            Level::Level5 => 4,
        };
        let mut randomized_objects: Vec<ObjectsGroup> = Vec::new();
        let mut i: usize = 0;
        while i < groups
            invariant
                i <= groups,
                groups == groups_on(*self),
                randomized_objects@.len() == i,
                forall|k: int|
                    0 <= k < i ==> {
                        &&& (#[trigger] randomized_objects@[k]).owner == Some(PlayerId(1))
                        &&& randomized_objects@[k].typename@ == group_kind(k)
                        &&& randomized_objects@[k].line == Some(group_line(k))
                        &&& randomized_objects@[k].count == group_count(*self, k)
                        &&& known_prototype(randomized_objects@[k].typename@)
                    },
            decreases groups - i,
        {
            let group = if i == 0 {
                ObjectsGroup {
                    owner: Some(PlayerId(1)),
                    typename: ObjType::from("imp"),
                    line: Some(Line::Front),
                    count: match self {
                        Level::Level0 => 1,
                        _ => 3,
                    },
                }
            } else if i == 1 {
                ObjectsGroup {
                    owner: Some(PlayerId(1)),
                    typename: ObjType::from("imp_bomber"),
                    line: Some(Line::Back),
                    count: 1,
                }
            } else if i == 2 {
                ObjectsGroup {
                    owner: Some(PlayerId(1)),
                    typename: ObjType::from("toxic_imp"),
                    line: Some(Line::Middle),
                    count: match self {
                        Level::Level3 => 1,
                        _ => 2,
                    },
                }
            } else {
                ObjectsGroup {
                    owner: Some(PlayerId(1)),
                    typename: ObjType::from("imp_summoner"),
                    line: Some(Line::Back),
                    count: 1,
                }
            };
            randomized_objects.push(group);
            i += 1;
        }
        Scenario {
            map_radius: 3,
            players_count: 2,
            rocky_tiles_count: 0,
            tiles: Vec::new(),
            randomized_objects,
            objects: Vec::new(),
        }
    }

    /// The heroes that are lent to the player on the level.
    pub fn fake_heros(&self) -> (heroes: Vec<HeroObject>)
        ensures
            heroes@ == level_heroes(*self),
    {
        let mut heroes: Vec<HeroObject> = Vec::new();
        match self {
            Level::Level0 => {
                heroes.push(HeroObject::new_index(0, 1));
            },
            Level::Level1 => {
                heroes.push(HeroObject::new_index(0, 1));
                heroes.push(HeroObject::new_index(3, 1));
            },
            Level::Level2 => {
                heroes.push(HeroObject::new_index(2, 1));
                heroes.push(HeroObject::new_index(3, 1));
            },
            Level::Level3 => {
                heroes.push(HeroObject::new_index(2, 1));
                heroes.push(HeroObject::new_index(4, 1));
                heroes.push(HeroObject::new_index(6, 1));
            },
            Level::Level4 => {
                heroes.push(HeroObject::new_index(8, 1));
                heroes.push(HeroObject::new_index(3, 1));
                heroes.push(HeroObject::new_index(1, 1));
            },
            Level::Level5 => {
                heroes.push(HeroObject::new_index(2, 1));
                heroes.push(HeroObject::new_index(4, 1));
                heroes.push(HeroObject::new_index(7, 1));
            },
        }
        assert(heroes@ =~= level_heroes(*self));
        heroes
    }
}

/// The state the first level starts from: one imp.
pub fn state_level0() -> (state: State)
    ensures
        state@ == level_model(Level::Level0),
        state.wf(),
        state@.agents_ok(),
        state@.strengths_ok(),
        state@.radius == 3,
{
    level_state(Level::Level0, 1)
}

/// The state the second level starts from: three imps.
pub fn state_level1() -> (state: State)
    ensures
        state@ == level_model(Level::Level1),
        state.wf(),
        state@.agents_ok(),
        state@.strengths_ok(),
        state@.radius == 3,
{
    level_state(Level::Level1, 3)
}

/// The state the third level starts from: three imps and a bomber.
pub fn state_level2() -> (state: State)
    ensures
        state@ == level_model(Level::Level2),
        state.wf(),
        state@.agents_ok(),
        state@.strengths_ok(),
        state@.radius == 3,
{
    level_state(Level::Level2, 4)
}

/// The state the fourth level starts from: three imps, a bomber and a
/// toxic imp.
pub fn state_level3() -> (state: State)
    ensures
        state@ == level_model(Level::Level3),
        state.wf(),
        state@.agents_ok(),
        state@.strengths_ok(),
        state@.radius == 3,
{
    level_state(Level::Level3, 5)
}

/// The state the fifth level starts from: three imps, a bomber and two
/// toxic imps.
pub fn state_level4() -> (state: State)
    ensures
        state@ == level_model(Level::Level4),
        state.wf(),
        state@.agents_ok(),
        state@.strengths_ok(),
        state@.radius == 3,
{
    level_state(Level::Level4, 6)
}

/// The state the sixth level starts from: three imps, a bomber, two
/// toxic imps and a summoner.
pub fn state_level5() -> (state: State)
    ensures
        state@ == level_model(Level::Level5),
        state.wf(),
        state@.agents_ok(),
        state@.strengths_ok(),
        state@.radius == 3,
{
    level_state(Level::Level5, 7)
}

/// What a player hands in to have a battle replayed: the level, the
/// commands of each round, and the heroes.
#[derive(Debug)]
pub struct Input {
    pub level: Level,
    pub commands: Vec<Vec<Command>>,
    pub heroes: Vec<HeroObject>,
}

/// What the commands of a round say.
pub open spec fn said_all(round: Seq<Command>) -> Seq<CommandModel> {
    Seq::new(round.len(), |j: int| round[j]@)
}

/// What the commands of the rounds of an input say.
pub open spec fn rounds_of(commands: Seq<Vec<Command>>) -> Seq<Seq<CommandModel>> {
    Seq::new(commands.len(), |i: int| said_all(commands[i]@))
}

/// How far a battle has come: its state, the generator, and the
/// refusal that has stopped it, if one has.
pub struct Course {
    pub m: Model,
    pub rng: SimpleRng,
    pub refused: Option<Error>,
}

impl Course {
    /// The course after a further command; a course that was stopped
    /// stays as it is, and a command that is refused stops it.
    pub open spec fn next(self, command: CommandModel) -> Course {
        if self.refused.is_some() {
            self
        } else {
            match self.m.refusal(command) {
                Some(e) => Course { refused: Some(e), ..self },
                None => Course {
                    m: self.m.run(command, self.rng).0,
                    rng: self.m.run(command, self.rng).1,
                    refused: None,
                },
            }
        }
    }

    /// The course after the first `n` commands of a list.
    pub open spec fn after(self, commands: Seq<CommandModel>, n: int) -> Course
        decreases n,
    {
        if n <= 0 {
            self
        } else {
            self.after(commands, n - 1).next(commands[n - 1])
        }
    }

    /// The course after the opponent has moved: the agents of the list
    /// are asked for commands, at most `n` times, until they end the
    /// turn, the battle is decided or a command is refused.
    pub open spec fn opposed(self, ids: Seq<Id>, n: int) -> Course
        decreases n,
    {
        if n <= 0 || self.refused.is_some() || self.m.battle_result.is_some() {
            self
        } else {
            let at = deciding(self.m, PlayerId(1), ids, 0);
            if at < ids.len() {
                self.next(agent_decision(self.m, PlayerId(1), ids[at]).unwrap()).opposed(
                    trimmed(ids, places_to(at), at + 1),
                    n - 1,
                )
            } else {
                self.next(CommandModel::EndTurn)
            }
        }
    }

    /// The course after a round: the commands of the player, then,
    /// unless the battle is decided, the end of the player's turn and
    /// the turn of the opponent.
    pub open spec fn round(self, commands: Seq<CommandModel>) -> Course {
        let played = self.after(commands, commands.len() as int);
        if played.refused.is_some() || played.m.battle_result.is_some() {
            played
        } else {
            let ended = played.next(CommandModel::EndTurn);
            ended.opposed(
                ended.m.agent_ids_of(PlayerId(1)),
                ended.m.agent_ids_of(PlayerId(1)).len() as int + 1,
            )
        }
    }

    /// The course after the first `n` rounds; it ends with the round
    /// that decides the battle or is stopped by a refusal.
    pub open spec fn rounds(self, rounds: Seq<Seq<CommandModel>>, n: int) -> Course
        decreases n,
    {
        if n <= 0 {
            self
        } else {
            let before = self.rounds(rounds, n - 1);
            if before.refused.is_some() || before.m.battle_result.is_some() {
                before
            } else {
                before.round(rounds[n - 1])
            }
        }
    }
}

/// The course of the battle of an input: the level's start state, the
/// heroes placed from the seed zero, then round after round.
pub open spec fn course_of(input: &Input) -> Course {
    let placed = level_model(input.level).heroes_placed(
        input.heroes@,
        SimpleRng { seed: 0, a: crate::utils::RNG_MULTIPLIER, c: crate::utils::RNG_INCREMENT },
        input.heroes@.len() as int,
    );
    (Course { m: placed.0, rng: placed.1, refused: None }).rounds(
        rounds_of(input.commands@),
        input.commands@.len() as int,
    )
}

impl Input {
    /// Whether the battle of the input can be played: it has ten rounds
    /// at most, its heroes are of kinds that there are, and it creates
    /// no entity of a kind that there is not.
    pub open spec fn playable(&self) -> bool {
        &&& self.commands@.len() <= 10
        &&& forall|i: int| 0 <= i < self.heroes@.len() ==> (#[trigger] self.heroes@[i]).index < 11
        &&& forall|i: int, j: int|
            0 <= i < self.commands@.len() && 0 <= j < self.commands@[i]@.len() ==> (
            #[trigger] self.commands@[i]@[j] matches Command::Create(c) ==> known_prototype(
                c.prototype@,
            ))
    }
}

/// The opponent's agents that are still to be asked become fewer
/// with every agent that decides.
pub proof fn lemma_trimmed_fewer(ids: Seq<Id>, at: int, n: int)
    requires
        0 <= at < ids.len(),
        1 <= n <= at + 1,
    ensures
        trimmed(ids, places_to(at), n).len() < ids.len(),
    decreases n,
{
    if n > 1 {
        lemma_trimmed_fewer(ids, at, n - 1);
    } else {
        assert(trimmed(ids, places_to(at), 0) == ids);
        assert(places_to(at)[0] == 0usize);
    }
}

fn step(state: &mut State, command: &Command, rng: &mut SimpleRng) -> (r: Result<(), Error>)
    requires
        command matches Command::Create(c) ==> known_prototype(c.prototype@),
        old(state).wf(),
    ensures
        final(state).wf(),
        (Course {
            m: final(state)@,
            rng: *final(rng),
            refused: match r {
                Ok(_) => None,
                Err(e) => Some(e),
            },
        }) == (Course { m: old(state)@, rng: *old(rng), refused: None }).next(command@),
{
    execute(state, command, rng)
}

fn player_round(state: &mut State, round: &Vec<Command>, rng: &mut SimpleRng) -> (r: Result<
    (),
    Error,
>)
    requires
        old(state).wf(),
        forall|j: int|
            0 <= j < round@.len() ==> (#[trigger] round@[j] matches Command::Create(c)
                ==> known_prototype(c.prototype@)),
    ensures
        final(state).wf(),
        (Course {
            m: final(state)@,
            rng: *final(rng),
            refused: match r {
                Ok(_) => None,
                Err(e) => Some(e),
            },
        }) == (Course { m: old(state)@, rng: *old(rng), refused: None }).after(
            said_all(round@),
            round@.len() as int,
        ),
{
    let ghost before = Course { m: state@, rng: *rng, refused: None };
    let ghost said_round = said_all(round@);
    let mut j: usize = 0;
    while j < round.len()
        invariant
            j <= round@.len(),
            forall|k: int|
                0 <= k < round@.len() ==> (#[trigger] round@[k] matches Command::Create(c)
                    ==> known_prototype(c.prototype@)),
            said_round == said_all(round@),
            before == (Course { m: old(state)@, rng: *old(rng), refused: None }),
            state.wf(),
            (Course { m: state@, rng: *rng, refused: None }) == before.after(said_round, j as int),
        decreases round@.len() - j,
    {
        assert(said_round[j as int] == round@[j as int]@);
        let ghost here = Course { m: state@, rng: *rng, refused: None };
        assert(before.after(said_round, j as int + 1) == here.next(said_round[j as int]));
        match step(state, &round[j], rng) {
            Ok(_) => {},
            Err(e) => {
                proof {
                    let now = Course { m: state@, rng: *rng, refused: Some(e) };
                    assert(now == here.next(round@[j as int]@));
                    assert(now == before.after(said_round, j as int + 1));
                    lemma_stopped_after(before, said_round, j as int + 1, round@.len() as int);
                    assert(now == before.after(said_round, round@.len() as int));
                }
                return Err(e);
            },
        }
        j += 1;
    }
    Ok(())
}

fn opponent_turn(state: &mut State, ai: &mut Ai, rng: &mut SimpleRng) -> (r: Result<(), Error>)
    requires
        old(state).wf(),
        old(ai).id == PlayerId(1),
    ensures
        final(state).wf(),
        final(ai).id == PlayerId(1),
        (Course {
            m: final(state)@,
            rng: *final(rng),
            refused: match r {
                Ok(_) => None,
                Err(e) => Some(e),
            },
        }) == (Course { m: old(state)@, rng: *old(rng), refused: None }).opposed(
            old(ai).obj_ids@,
            old(ai).obj_ids@.len() as int + 1,
        ),
{
    let ghost ended = Course { m: state@, rng: *rng, refused: None };
    let ghost asked = ai.obj_ids@;
    let mut turn_over: bool = false;
    while !turn_over
        invariant
            state.wf(),
            ai.id == PlayerId(1),
            ended == (Course { m: old(state)@, rng: *old(rng), refused: None }),
            asked == old(ai).obj_ids@,
            !turn_over ==> (Course { m: state@, rng: *rng, refused: None }).opposed(
                ai.obj_ids@,
                ai.obj_ids@.len() as int + 1,
            ) == ended.opposed(asked, asked.len() as int + 1),
            turn_over ==> (Course { m: state@, rng: *rng, refused: None }) == ended.opposed(
                asked,
                asked.len() as int + 1,
            ),
        decreases ai.obj_ids@.len() + (if turn_over { 0int } else { 1int }),
    {
        let ghost here = Course { m: state@, rng: *rng, refused: None };
        let ghost ids = ai.obj_ids@;
        let ghost at = deciding(state@, PlayerId(1), ids, 0);
        match ai.command(state) {
            Some(command) => {
                let ends: bool = match &command {
                    Command::EndTurn(_) => true,
                    _ => false,
                };
                proof {
                    crate::battle::ai::lemma_deciding_in_range(here.m, PlayerId(1), ids, 0);
                    if at < ids.len() {
                        lemma_trimmed_fewer(ids, at, at + 1);
                        lemma_decisions(here.m, PlayerId(1), ids[at]);
                        assert(here.opposed(ids, ids.len() as int + 1) == here.next(
                            command@,
                        ).opposed(trimmed(ids, places_to(at), at + 1), ids.len() as int));
                    } else {
                        assert(here.opposed(ids, ids.len() as int + 1) == here.next(command@));
                    }
                }
                match step(state, &command, rng) {
                    Ok(_) => {},
                    Err(e) => {
                        proof {
                            let stopped = here.next(command@);
                            assert(stopped.refused == Some(e));
                            assert(stopped.opposed(
                                trimmed(ids, places_to(at), at + 1),
                                ids.len() as int,
                            ) == stopped);
                        }
                        return Err(e);
                    },
                }
                if ends {
                    turn_over = true;
                } else {
                    proof {
                        lemma_opposed_more(
                            Course { m: state@, rng: *rng, refused: None },
                            ai.obj_ids@,
                            ai.obj_ids@.len() as int + 1,
                            ids.len() as int,
                        );
                    }
                }
            },
            None => {
                proof {
                    crate::battle::ai::lemma_deciding_in_range(here.m, PlayerId(1), ids, 0);
                    assert(here.m.battle_result.is_some());
                    assert(here.opposed(ids, ids.len() as int + 1) == here);
                }
                turn_over = true;
            },
        }
    }
    Ok(())
}

fn play_round(state: &mut State, ai: &mut Ai, round: &Vec<Command>, rng: &mut SimpleRng) -> (r:
    Result<(), Error>)
    requires
        old(state).wf(),
        old(ai).id == PlayerId(1),
        forall|j: int|
            0 <= j < round@.len() ==> (#[trigger] round@[j] matches Command::Create(c)
                ==> known_prototype(c.prototype@)),
    ensures
        final(state).wf(),
        final(ai).id == PlayerId(1),
        (Course {
            m: final(state)@,
            rng: *final(rng),
            refused: match r {
                Ok(_) => None,
                Err(e) => Some(e),
            },
        }) == (Course { m: old(state)@, rng: *old(rng), refused: None }).round(
            said_all(round@),
        ),
{
    player_round(state, round, rng)?;
    if state.battle_result().is_some() {
        return Ok(());
    }
    step(state, &Command::EndTurn(command::EndTurn), rng)?;
    ai.update_obj_ids(state);
    opponent_turn(state, ai, rng)
}

/// Plays the battle of an input: the heroes are placed on the start
/// state of the level, from the seed zero; then, round by round, the
/// commands of the player are carried out, the player's turn ends, and
/// the opponent moves. The battle ends with the round that decides
/// it. A command that is refused stops the battle, and its refusal is
/// the result.
pub fn play(input: &Input) -> (r: Result<Option<BattleResult>, Error>)
    requires
        input.playable(),
    ensures
        match course_of(input).refused {
            Some(e) => r == Err::<Option<BattleResult>, Error>(e),
            None => r matches Ok(result) && (match result {
                Some(b) => Some(b@),
                None => None,
            }) == course_of(input).m.battle_result,
        },
{
    let mut rng = SimpleRng::seed_from_u32(0);
    let mut state = input.level.state();
    state.create_heroes(input.heroes.as_slice(), &mut rng);
    let mut ai = Ai::new(PlayerId(1));
    let ghost start = Course { m: state@, rng, refused: None };
    let ghost rounds = rounds_of(input.commands@);
    let mut i: usize = 0;
    while i < input.commands.len() && state.battle_result().is_none()
        invariant
            i <= input.commands@.len(),
            input.playable(),
            rounds == rounds_of(input.commands@),
            state.wf(),
            ai.id == PlayerId(1),
            start.rounds(rounds, rounds.len() as int) == course_of(input),
            (Course { m: state@, rng, refused: None }) == start.rounds(rounds, i as int),
        decreases input.commands@.len() - i,
    {
        let round = &input.commands[i];
        assert(rounds[i as int] == said_all(round@));
        assert forall|j: int| 0 <= j < round@.len() implies (
        #[trigger] round@[j] matches Command::Create(c) ==> known_prototype(c.prototype@)) by {
            assert(input.commands@[i as int]@[j] == round@[j]);
        }
        let ghost here = Course { m: state@, rng, refused: None };
        assert(start.rounds(rounds, i as int + 1) == here.round(rounds[i as int]));
        match play_round(&mut state, &mut ai, round, &mut rng) {
            Ok(_) => {},
            Err(e) => {
                proof {
                    assert(start.rounds(rounds, i as int + 1).refused == Some(e));
                    lemma_stopped_rounds(start, rounds, i as int + 1, rounds.len() as int);
                }
                return Err(e);
            },
        }
        i += 1;
    }
    proof {
        if i < input.commands@.len() {
            lemma_decided_rounds(start, rounds, i as int, rounds.len() as int);
        }
    }
    Ok(state.battle_result().clone())
}

/// The opponent never creates an entity and never ends the turn by
/// the decision of an agent.
pub proof fn lemma_decisions(m: Model, player: PlayerId, id: Id)
    ensures
        !(agent_decision(m, player, id) matches Some(CommandModel::Create(_, _, _))),
        !(agent_decision(m, player, id) matches Some(CommandModel::EndTurn)),
{
    reveal(agent_decision);
}

/// A course that was stopped is not changed by further commands.
pub proof fn lemma_stopped_after(course: Course, commands: Seq<CommandModel>, n: int, m: int)
    requires
        0 <= n <= m,
        course.after(commands, n).refused.is_some(),
    ensures
        course.after(commands, m) == course.after(commands, n),
    decreases m - n,
{
    if n < m {
        lemma_stopped_after(course, commands, n, m - 1);
    }
}

/// A course that was stopped is not changed by further rounds.
pub proof fn lemma_stopped_rounds(course: Course, rounds: Seq<Seq<CommandModel>>, n: int, m: int)
    requires
        0 <= n <= m,
        course.rounds(rounds, n).refused.is_some(),
    ensures
        course.rounds(rounds, m) == course.rounds(rounds, n),
    decreases m - n,
{
    if n < m {
        lemma_stopped_rounds(course, rounds, n, m - 1);
    }
}

/// A course whose battle is decided is not changed by further rounds.
pub proof fn lemma_decided_rounds(course: Course, rounds: Seq<Seq<CommandModel>>, n: int, m: int)
    requires
        0 <= n <= m,
        course.rounds(rounds, n).m.battle_result.is_some(),
    ensures
        course.rounds(rounds, m) == course.rounds(rounds, n),
    decreases m - n,
{
    if n < m {
        lemma_decided_rounds(course, rounds, n, m - 1);
    }
}

/// The opponent's turn does not depend on how often its agents may
/// be asked, as long as that is more often than there are agents.
pub proof fn lemma_opposed_more(course: Course, ids: Seq<Id>, n: int, m: int)
    requires
        ids.len() < n <= m,
    ensures
        course.opposed(ids, m) == course.opposed(ids, n),
    decreases n,
{
    if !(course.refused.is_some() || course.m.battle_result.is_some()) {
        let at = deciding(course.m, PlayerId(1), ids, 0);
        if at < ids.len() {
            crate::battle::ai::lemma_deciding_in_range(course.m, PlayerId(1), ids, 0);
            lemma_trimmed_fewer(ids, at, at + 1);
            lemma_opposed_more(
                course.next(agent_decision(course.m, PlayerId(1), ids[at]).unwrap()),
                trimmed(ids, places_to(at), at + 1),
                n - 1,
                m - 1,
            );
        }
    }
}

} // verus!
