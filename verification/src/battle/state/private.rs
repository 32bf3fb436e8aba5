//! The state of a battle: the entity store, the board, and whose turn it is.

use vstd::prelude::*;

use crate::battle::component::Abilities;
use crate::battle::component::Agent;
use crate::battle::component::BelongsTo;
use crate::battle::component::Blocker;
use crate::battle::component::Meta;
use crate::battle::component::ObjType;
use crate::battle::component::Parts;
use crate::battle::component::Pos;
use crate::battle::component::Strength;
use crate::battle::check::free_tile_rule;
use crate::battle::command;
use crate::battle::command::Command;
use crate::battle::execute::execute;
use crate::battle::heroes::hero_line;
use crate::battle::heroes::hero_name;
use crate::battle::heroes::hero_of_index;
use crate::battle::heroes::known_prototype;
use crate::battle::heroes::Hero;
use crate::battle::heroes::HeroObject;
use crate::battle::model::Model;
use crate::battle::scenario;
use crate::battle::scenario::can_draw;
use crate::battle::scenario::free_pos_search;
use crate::battle::scenario::pos_search;
use crate::battle::scenario::Line;
use crate::battle::scenario::Object;
use crate::battle::scenario::ObjectsGroup;
use crate::battle::scenario::Scenario;
use crate::battle::scenario::ATTEMPTS;
use crate::map::PosHex;
use crate::utils::SimpleRng;
use crate::battle::Id;
use crate::battle::PlayerId;
use crate::battle::TileType;
use crate::game::Level;
use crate::map::HexMap;

verus! {

/// How a battle ended.
#[derive(Debug, PartialEq)]
pub struct BattleResult {
    pub winner_id: PlayerId,
    pub survivor_types: Vec<ObjType>,
    pub level: Level,
}

impl Clone for BattleResult {
    fn clone(&self) -> (c: BattleResult)
        ensures
            c@ == self@,
    {
        let mut survivor_types: Vec<ObjType> = Vec::new();
        let mut i: usize = 0;
        while i < self.survivor_types.len()
            invariant
                i <= self.survivor_types@.len(),
                survivor_types@ == self.survivor_types@.subrange(0, i as int),
            decreases self.survivor_types@.len() - i,
        {
            survivor_types.push(self.survivor_types[i].clone());
            assert(survivor_types@ =~= self.survivor_types@.subrange(0, i + 1));
            i += 1;
        }
        assert(survivor_types@ =~= self.survivor_types@);
        let c = BattleResult { winner_id: self.winner_id, survivor_types, level: self.level };
        assert(c@.survivor_types =~= self@.survivor_types);
        c
    }
}

#[derive(Clone, Debug, PartialEq)]
pub struct State {
    pub parts: Parts,
    pub map: HexMap<TileType>,
    pub players_count: i32,
    pub player_id: PlayerId,
    pub battle_result: Option<BattleResult>,
    pub level: Level,
}

/// The battle before anything is on its board: a plain board of the
/// radius, no entity, and the first player to move.
pub open spec fn fresh(radius: i32, players_count: i32, level: Level) -> Model {
    Model {
        strength: Map::empty(),
        pos: Map::empty(),
        meta: Map::empty(),
        belongs_to: Map::empty(),
        agent: Map::empty(),
        blocker: Map::empty(),
        abilities: Map::empty(),
        passive_abilities: Map::empty(),
        effects: Map::empty(),
        schedule: Map::empty(),
        summoner: Map::empty(),
        next_obj_id: Id(0),
        radius,
        size: (radius * 2 + 1) as i32,
        tiles: Seq::new(
            ((radius * 2 + 1) * (radius * 2 + 1)) as nat,
            |i: int| TileType::Plain,
        ),
        players_count,
        player_id: PlayerId(0),
        battle_result: None,
        level,
    }
}

impl Model {
    /// The state with the tile at `pos` replaced.
    pub open spec fn with_tile(self, pos: PosHex, tile: TileType) -> Model {
        Model {
            tiles: self.tiles.update((pos.r + self.radius) + (pos.q + self.radius) * self.size, tile),
            ..self
        }
    }

    /// Rocks are put on up to `n` tiles, each drawn among the plain and
    /// free ones; a draw that finds none puts no rock.
    pub open spec fn rocks_placed(self, rng: SimpleRng, n: int) -> (Model, SimpleRng)
        decreases n,
    {
        if n <= 0 {
            (self, rng)
        } else {
            let before = self.rocks_placed(rng, n - 1);
            let found = free_pos_search(before.0, before.1, ATTEMPTS as int);
            match found.0 {
                Some(pos) => (before.0.with_tile(pos, TileType::Rocks), found.1),
                None => (before.0, found.1),
            }
        }
    }

    /// An entity of the kind is created on the tile by a command of
    /// the player who moves. A command that is refused creates nothing:
    /// any command once the battle has a result, and, while the first
    /// player moves, one for a tile that is not free.
    pub open spec fn entity_placed(
        self,
        owner: Option<PlayerId>,
        pos: PosHex,
        name: Seq<char>,
        rng: SimpleRng,
    ) -> (Model, SimpleRng) {
        if self.battle_result.is_some() || (self.player_id.0 == 0 && free_tile_rule(
            self,
            pos,
        ).is_err()) {
            (self, rng)
        } else {
            self.create(owner, pos, name).planned_abilities(rng)
        }
    }

    /// Up to `n` entities of a kind are created, each on a tile drawn
    /// for it; a draw that finds no tile creates nothing.
    pub open spec fn group_placed(
        self,
        owner: Option<PlayerId>,
        line: Option<Line>,
        name: Seq<char>,
        rng: SimpleRng,
        n: int,
    ) -> (Model, SimpleRng)
        decreases n,
    {
        if n <= 0 {
            (self, rng)
        } else {
            let before = self.group_placed(owner, line, name, rng, n - 1);
            let found = pos_search(before.0, owner, line, before.1);
            match found.0 {
                Some(pos) => before.0.entity_placed(owner, pos, name, found.1),
                None => (before.0, found.1),
            }
        }
    }

    /// The first `n` groups of a scenario are placed, each in the name
    /// of its owner if it has one.
    pub open spec fn groups_placed(self, groups: Seq<ObjectsGroup>, rng: SimpleRng, n: int) -> (
        Model,
        SimpleRng,
    )
        decreases n,
    {
        if n <= 0 {
            (self, rng)
        } else {
            let before = self.groups_placed(groups, rng, n - 1);
            let group = groups[n - 1];
            let m = match group.owner {
                Some(player) => Model { player_id: player, ..before.0 },
                None => before.0,
            };
            m.group_placed(group.owner, group.line, group.typename@, before.1, group.count as int)
        }
    }

    /// The first `n` entities with a fixed tile are placed, each in the
    /// name of its owner if it has one.
    pub open spec fn objects_placed(self, objects: Seq<Object>, rng: SimpleRng, n: int) -> (
        Model,
        SimpleRng,
    )
        decreases n,
    {
        if n <= 0 {
            (self, rng)
        } else {
            let before = self.objects_placed(objects, rng, n - 1);
            let object = objects[n - 1];
            let m = match object.owner {
                Some(player) => Model { player_id: player, ..before.0 },
                None => before.0,
            };
            m.entity_placed(object.owner, object.pos, object.typename@, before.1)
        }
    }

    /// The first `n` groups of heroes are placed for the first player,
    /// each hero in the line of its kind.
    pub open spec fn heroes_placed(self, heroes: Seq<HeroObject>, rng: SimpleRng, n: int) -> (
        Model,
        SimpleRng,
    )
        decreases n,
    {
        if n <= 0 {
            (self, rng)
        } else {
            let before = self.heroes_placed(heroes, rng, n - 1);
            let hero = hero_of_index(heroes[n - 1].index as int);
            before.0.group_placed(
                Some(PlayerId(0)),
                Some(hero_line(hero)),
                hero_name(hero),
                before.1,
                heroes[n - 1].count as int,
            )
        }
    }
}

/// The entities of a scenario are placed: the groups that are placed
/// by chance, then the entities with a fixed tile; in the end the
/// player moves who moved before.
pub open spec fn all_placed(m: Model, scenario: &Scenario, rng: SimpleRng) -> (Model, SimpleRng) {
    let grouped = m.groups_placed(
        scenario.randomized_objects@,
        rng,
        scenario.randomized_objects@.len() as int,
    );
    let placed = grouped.0.objects_placed(
        scenario.objects@,
        grouped.1,
        scenario.objects@.len() as int,
    );
    (Model { player_id: m.player_id, ..placed.0 }, placed.1)
}

/// The battle a scenario starts: rocks on the board, then the entities
/// of the scenario.
pub open spec fn at_start(scenario: &Scenario, level: Level, rng: SimpleRng) -> (Model, SimpleRng) {
    let rocky = fresh(scenario.map_radius, scenario.players_count, level).rocks_placed(
        rng,
        scenario.rocky_tiles_count as int,
    );
    all_placed(rocky.0, scenario, rocky.1)
}

impl Scenario {
    /// Whether a battle can start from the scenario: its board has a
    /// radius of one or more, every kind it names is known, and a tile
    /// can be drawn for every group: see `can_draw`.
    pub open spec fn startable(&self) -> bool {
        &&& 1 <= self.map_radius <= crate::map::MAX_RADIUS
        &&& forall|i: int|
            0 <= i < self.randomized_objects@.len() ==> known_prototype(
                (#[trigger] self.randomized_objects@[i]).typename@,
            ) && (self.randomized_objects@[i].owner.is_some()
                && self.randomized_objects@[i].line.is_some() ==> 3 <= self.map_radius <= 5 && (
            self.randomized_objects@[i].owner.unwrap().0 == 0
                || self.randomized_objects@[i].owner.unwrap().0 == 1))
        &&& forall|i: int|
            0 <= i < self.objects@.len() ==> known_prototype((#[trigger] self.objects@[i]).typename@)
    }
}

impl State {
    /// The battle that a scenario starts: see `at_start`.
    pub fn new(scenario: Scenario, level: Level, rng: &mut SimpleRng) -> (state: State)
        requires
            scenario.startable(),
        ensures
            (state@, *final(rng)) == at_start(&scenario, level, *old(rng)),
            state.wf(),
            state@.agents_ok(),
            state@.strengths_ok(),
    {
        let mut this = State {
            map: HexMap::filled(scenario.map_radius, TileType::Plain),
            player_id: PlayerId(0),
            parts: Parts::new(),
            battle_result: None,
            level,
            players_count: scenario.players_count,
        };
        proof {
            let want = fresh(scenario.map_radius, scenario.players_count, level);
            assert(this@.tiles =~= want.tiles);
            assert(this@.abilities =~= want.abilities);
            assert(this@.passive_abilities =~= want.passive_abilities);
            assert(this@.effects =~= want.effects);
            assert(this@.schedule =~= want.schedule);
            assert(this@.meta =~= want.meta);
            assert(this@ =~= want);
        }
        this.create_terrain(&scenario, rng);
        this.create_objects(&scenario, rng);
        this
    }

    fn create_terrain(&mut self, scenario: &Scenario, rng: &mut SimpleRng)
        requires
            old(self).wf(),
            old(self).map.radius >= 1,
        ensures
            (final(self)@, *final(rng)) == old(self)@.rocks_placed(
                *old(rng),
                scenario.rocky_tiles_count as int,
            ),
            final(self).wf(),
            final(self)@.radius == old(self)@.radius,
            final(self)@.agents_ok() == old(self)@.agents_ok(),
            final(self)@.strengths_ok() == old(self)@.strengths_ok(),
    {
        let mut i: i32 = 0;
        while i < scenario.rocky_tiles_count
            invariant
                0 <= i,
                scenario.rocky_tiles_count >= 0 ==> i <= scenario.rocky_tiles_count,
                scenario.rocky_tiles_count < 0 ==> i == 0,
                self.wf(),
                self.map.radius >= 1,
                self@.radius == old(self)@.radius,
                self@.agents_ok() == old(self)@.agents_ok(),
                self@.strengths_ok() == old(self)@.strengths_ok(),
                (self@, *rng) == old(self)@.rocks_placed(*old(rng), i as int),
            decreases scenario.rocky_tiles_count - i,
        {
            let ghost before = self@;
            if let Some(pos) = scenario::random_free_pos(self, rng) {
                self.map.set_tile(pos, TileType::Rocks);
                assert(self@ =~= before.with_tile(pos, TileType::Rocks));
                assert(self@.agent == before.agent);
                assert(self@.strength == before.strength);
            }
            i += 1;
        }
        proof {
            if scenario.rocky_tiles_count < 0 {
                assert(old(self)@.rocks_placed(*old(rng), scenario.rocky_tiles_count as int) == (
                    old(self)@,
                    *old(rng),
                ));
                assert(old(self)@.rocks_placed(*old(rng), 0) == (old(self)@, *old(rng)));
            }
        }
    }

    fn place_entity(
        &mut self,
        owner: Option<PlayerId>,
        pos: PosHex,
        typename: &ObjType,
        rng: &mut SimpleRng,
    )
        requires
            known_prototype(typename@),
        ensures
            (final(self)@, *final(rng)) == old(self)@.entity_placed(owner, pos, typename@, *old(rng)),
            final(self)@.same_board(old(self)@),
            old(self)@.agents_ok() ==> final(self)@.agents_ok(),
            old(self)@.strengths_ok() ==> final(self)@.strengths_ok(),
    {
        proof {
            reveal(Model::run);
            reveal(Model::refusal);
        }
        let command = Command::Create(
            command::Create { prototype: typename.clone(), pos, owner },
        );
        let _ = execute(self, &command, rng);
    }

    fn place_group(
        &mut self,
        owner: Option<PlayerId>,
        line: Option<Line>,
        typename: &ObjType,
        count: i32,
        rng: &mut SimpleRng,
    )
        requires
            old(self).wf(),
            can_draw(old(self)@, owner, line),
            known_prototype(typename@),
        ensures
            (final(self)@, *final(rng)) == old(self)@.group_placed(
                owner,
                line,
                typename@,
                *old(rng),
                count as int,
            ),
            final(self)@.same_board(old(self)@),
            old(self)@.agents_ok() ==> final(self)@.agents_ok(),
            old(self)@.strengths_ok() ==> final(self)@.strengths_ok(),
    {
        let mut i: i32 = 0;
        while i < count
            invariant
                0 <= i,
                count >= 0 ==> i <= count,
                count < 0 ==> i == 0,
                self.wf(),
                can_draw(self@, owner, line),
                known_prototype(typename@),
                self@.same_board(old(self)@),
                old(self)@.agents_ok() ==> self@.agents_ok(),
                old(self)@.strengths_ok() ==> self@.strengths_ok(),
                (self@, *rng) == old(self)@.group_placed(owner, line, typename@, *old(rng), i as int),
            decreases count - i,
        {
            if let Some(pos) = scenario::random_pos(self, owner, line, rng) {
                self.place_entity(owner, pos, typename, rng);
            }
            i += 1;
        }
        proof {
            if count < 0 {
                assert(old(self)@.group_placed(owner, line, typename@, *old(rng), count as int) == (
                    old(self)@,
                    *old(rng),
                ));
                assert(old(self)@.group_placed(owner, line, typename@, *old(rng), 0) == (
                    old(self)@,
                    *old(rng),
                ));
            }
        }
    }

    fn create_objects(&mut self, scenario: &Scenario, rng: &mut SimpleRng)
        requires
            old(self).wf(),
            scenario.startable(),
            old(self)@.radius == scenario.map_radius,
        ensures
            (final(self)@, *final(rng)) == all_placed(old(self)@, scenario, *old(rng)),
            final(self).wf(),
            old(self)@.agents_ok() ==> final(self)@.agents_ok(),
            old(self)@.strengths_ok() ==> final(self)@.strengths_ok(),
    {
        let player_id_initial = self.player_id();
        let mut i: usize = 0;
        while i < scenario.randomized_objects.len()
            invariant
                i <= scenario.randomized_objects@.len(),
                self.wf(),
                scenario.startable(),
                self@.radius == scenario.map_radius,
                self@.same_board(old(self)@),
                old(self)@.agents_ok() ==> self@.agents_ok(),
                old(self)@.strengths_ok() ==> self@.strengths_ok(),
                (self@, *rng) == old(self)@.groups_placed(
                    scenario.randomized_objects@,
                    *old(rng),
                    i as int,
                ),
            decreases scenario.randomized_objects@.len() - i,
        {
            let group = &scenario.randomized_objects[i];
            if let Some(player_id) = group.owner {
                self.set_player_id(player_id);
            }
            self.place_group(group.owner, group.line, &group.typename, group.count, rng);
            i += 1;
        }
        let ghost grouped = self@;
        let ghost grouped_rng = *rng;
        let mut j: usize = 0;
        while j < scenario.objects.len()
            invariant
                j <= scenario.objects@.len(),
                self.wf(),
                scenario.startable(),
                self@.same_board(old(self)@),
                old(self)@.agents_ok() ==> self@.agents_ok(),
                old(self)@.strengths_ok() ==> self@.strengths_ok(),
                (self@, *rng) == grouped.objects_placed(scenario.objects@, grouped_rng, j as int),
            decreases scenario.objects@.len() - j,
        {
            let object = &scenario.objects[j];
            if let Some(player_id) = object.owner {
                self.set_player_id(player_id);
            }
            self.place_entity(object.owner, object.pos, &object.typename, rng);
            j += 1;
        }
        self.set_player_id(player_id_initial);
    }

    /// Places the heroes of the first player, each in the line of its
    /// kind: see `Model::heroes_placed`.
    pub fn create_heroes(&mut self, heros: &[HeroObject], rng: &mut SimpleRng)
        requires
            old(self).wf(),
            3 <= old(self).map.radius <= 5,
            forall|i: int| 0 <= i < heros@.len() ==> (#[trigger] heros@[i]).index < 11,
        ensures
            (final(self)@, *final(rng)) == old(self)@.heroes_placed(
                heros@,
                *old(rng),
                heros@.len() as int,
            ),
            final(self).wf(),
            old(self)@.agents_ok() ==> final(self)@.agents_ok(),
            old(self)@.strengths_ok() ==> final(self)@.strengths_ok(),
    {
        let mut i: usize = 0;
        while i < heros.len()
            invariant
                i <= heros@.len(),
                self.wf(),
                3 <= self.map.radius <= 5,
                forall|k: int| 0 <= k < heros@.len() ==> (#[trigger] heros@[k]).index < 11,
                self@.same_board(old(self)@),
                old(self)@.agents_ok() ==> self@.agents_ok(),
                old(self)@.strengths_ok() ==> self@.strengths_ok(),
                (self@, *rng) == old(self)@.heroes_placed(heros@, *old(rng), i as int),
            decreases heros@.len() - i,
        {
            let group = heros[i];
            let hero = Hero::from_index(group.index);
            let name = ObjType(hero.name());
            let line = hero.line();
            proof {
                crate::battle::heroes::lemma_hero_index(hero);
            }
            self.place_group(Some(PlayerId(0)), Some(line), &name, group.count as i32, rng);
            i += 1;
        }
    }

    /// The player who moves after the one who moves now; after the last
    /// player, the first.
    pub open spec fn following_player(&self) -> PlayerId {
        if self.player_id.0 + 1 < self.players_count {
            PlayerId((self.player_id.0 + 1) as i32)
        } else {
            PlayerId(0)
        }
    }

    pub fn player_id(&self) -> (id: PlayerId)
        ensures
            id == self.player_id,
    {
        self.player_id
    }

    pub fn next_player_id(&self) -> (id: PlayerId)
        ensures
            id == self.following_player(),
            id == self@.following_player(),
    {
        if (self.player_id.0 as i64) + 1 < self.players_count as i64 {
            PlayerId(self.player_id.0 + 1)
        } else {
            PlayerId(0)
        }
    }

    pub fn parts(&self) -> (parts: &Parts)
        ensures
            *parts == self.parts,
    {
        &self.parts
    }

    pub fn level(&self) -> (level: &Level)
        ensures
            *level == self.level,
    {
        &self.level
    }

    /// The strength of an entity that has one.
    pub fn strength(&self, id: &Id) -> (r: &Strength)
        requires
            self.parts.strength.has(*id),
        ensures
            *r == self.parts.strength.at(*id),
    {
        self.parts.strength.get(*id).unwrap()
    }

    /// The owner of an entity that has one.
    pub fn belongs_to(&self, id: &Id) -> (r: &BelongsTo)
        requires
            self.parts.belongs_to.has(*id),
        ensures
            *r == self.parts.belongs_to.at(*id),
    {
        self.parts.belongs_to.get(*id).unwrap()
    }

    /// The counters of an entity that is an agent.
    pub fn agent(&self, id: &Id) -> (r: &Agent)
        requires
            self.parts.agent.has(*id),
        ensures
            *r == self.parts.agent.at(*id),
    {
        self.parts.agent.get(*id).unwrap()
    }

    /// The abilities of an entity that has any.
    pub fn abilities(&self, id: &Id) -> (r: &Abilities)
        requires
            self.parts.abilities.has(*id),
        ensures
            *r == self.parts.abilities.at(*id),
    {
        self.parts.abilities.get(*id).unwrap()
    }

    /// The tile of an entity that stands on one.
    pub fn pos(&self, id: &Id) -> (r: &Pos)
        requires
            self.parts.pos.has(*id),
        ensures
            *r == self.parts.pos.at(*id),
    {
        self.parts.pos.get(*id).unwrap()
    }

    /// The kind of an entity that has one on record.
    pub fn meta(&self, id: &Id) -> (r: &Meta)
        requires
            self.parts.meta.has(*id),
        ensures
            *r == self.parts.meta.at(*id),
    {
        self.parts.meta.get(*id).unwrap()
    }

    /// The weight of an entity that blocks its tile.
    pub fn blocker(&self, id: &Id) -> (r: &Blocker)
        requires
            self.parts.blocker.has(*id),
        ensures
            *r == self.parts.blocker.at(*id),
    {
        self.parts.blocker.get(*id).unwrap()
    }

    pub fn map(&self) -> (map: &HexMap<TileType>)
        ensures
            *map == self.map,
    {
        &self.map
    }

    pub fn players_count(&self) -> (n: i32)
        ensures
            n == self.players_count,
    {
        self.players_count
    }

    pub fn battle_result(&self) -> (r: &Option<BattleResult>)
        ensures
            *r == self.battle_result,
    {
        &self.battle_result
    }
}

/// Public mutators. Be careful with them!
impl State {
    pub fn parts_mut(&mut self) -> (parts: &mut Parts)
        ensures
            *parts == old(self).parts,
            final(self).parts == *final(parts),
            final(self).map == old(self).map,
            final(self).players_count == old(self).players_count,
            final(self).player_id == old(self).player_id,
            final(self).battle_result == old(self).battle_result,
            final(self).level == old(self).level,
    {
        &mut self.parts
    }

    pub(crate) fn set_player_id(&mut self, new_value: PlayerId)
        ensures
            *final(self) == (State { player_id: new_value, ..*old(self) }),
            final(self)@ == (Model { player_id: new_value, ..old(self)@ }),
    {
        self.player_id = new_value;
    }

    pub(crate) fn set_battle_result(&mut self, result: BattleResult)
        ensures
            *final(self) == (State { battle_result: Some(result), ..*old(self) }),
            final(self)@ == (Model { battle_result: Some(result@), ..old(self)@ }),
    {
        self.battle_result = Some(result);
    }

    /// Applies an event to the state.
    pub fn apply(&mut self, event: &crate::battle::event::Event)
        requires
            event@.wounds_ok(),
            crate::battle::state::apply::payable(old(self)@, event@.active),
        ensures
            final(self)@ == old(self)@.applied(event@),
            final(self)@.same_board(old(self)@),
            old(self)@.agents_ok() && event@.kits_ok() ==> final(self)@.agents_ok(),
            old(self)@.strengths_ok() && crate::battle::state::safety::entries_safe(
                old(self)@,
                event@.instant,
            ) ==> final(self)@.strengths_ok(),
    {
        crate::battle::state::apply::apply(self, event);
    }

    pub(crate) fn alloc_id(&mut self) -> (id: Id)
        ensures
            id == old(self).parts.next_obj_id,
            final(self).map == old(self).map,
            final(self).players_count == old(self).players_count,
            final(self).player_id == old(self).player_id,
            final(self).battle_result == old(self).battle_result,
            final(self).level == old(self).level,
            final(self).parts == (Parts {
                next_obj_id: final(self).parts.next_obj_id,
                ..old(self).parts
            }),
            final(self).parts.next_obj_id.0 >= old(self).parts.next_obj_id.0,
            old(self).parts.next_obj_id.0 < crate::battle::table::ID_LIMIT
                ==> final(self).parts.next_obj_id.0 == old(self).parts.next_obj_id.0 + 1,
    {
        self.parts.alloc_id()
    }
}

} // verus!
