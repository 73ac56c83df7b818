//! The simulator: the world, the count of turns, the ids and the draws, and
//! the turn that advances them.
use crate::entity::{
    actions_view, monsters_view, Action, ActionView, Component, ComponentType, ComponentView,
    Components, Hero, HeroView, Monster, MonsterThreatState, Player, PlayerView, World,
};
use crate::invariants::{
    lemma_attack_sane, lemma_control_sane, lemma_credit_sane, lemma_decay_sane,
    lemma_move_heroes_sane, lemma_move_monsters_sane, lemma_reset_sane, lemma_same_cast,
    lemma_sane_weaken, lemma_shield_sane, lemma_spawn_sane, lemma_wind_sane,
};
use crate::model::{
    before_attack, before_spawn, casters, hero_ok, side_hits, spawn_count, spawn_draws, spawn_pair,
    spawn_places, spawn_point, spawn_random, spawn_velocity, spawn_world, spawned_upto, spawns,
    step, survivors, survivors_upto, survives, wind_random, wind_world, winds_upto, SimView,
};
use crate::point::Point;
use crate::random::{fresh_random, lemma_skip_position, CachedRandom, RandomView};
use crate::rules::{
    base_of, center, center_point, spawn_health, HEROES_PER_PLAYER, LAST_TURN, MANA_GAIN_TO_ATTACK,
    MAP_LIMIT, MAX_HERO_VELOCITY, MAX_MONSTER_VELOCITY, MAX_X, MAX_Y, RANDOM_TABLE_SIZE,
    SPAWN_PERIOD, SUDDEN_DEATH_TURN, VISIBLE_RADIUS_FROM_BASE,
};
use vstd::prelude::*;

verus! {

/// What belongs to one simulator alone: the next free id, the source of
/// draws, and the two tables of directions that belong to the draws.
#[derive(Debug)]
pub struct System {
    pub unique_id: i32,
    pub random: CachedRandom,
    /// For each entry of the table of draws, the velocity of a monster that
    /// the draw scatters: of monster speed, in the direction of the draw's
    /// fraction of the full turn.
    pub scatter: Vec<Point>,
    /// For each entry of the table of draws, the velocity of a monster that
    /// appears with the draw: of monster speed, turned from straight into the
    /// playfield by the draw's fraction of the widest angle.
    pub spread: Vec<Point>,
}

impl System {
    /// Hands out the next free id.
    pub fn create_id(&mut self) -> (ret: i32)
        requires
            old(self).unique_id < i32::MAX,
        ensures
            ret == old(self).unique_id,
            final(self).unique_id == old(self).unique_id + 1,
            final(self).random == old(self).random,
            final(self).scatter == old(self).scatter,
            final(self).spread == old(self).spread,
    {
        let ret: i32 = self.unique_id;
        self.unique_id += 1;
        ret
    }
}

/// One game: the world, the number of the turn, and what belongs to the
/// game alone.
#[derive(Debug)]
pub struct Simulator {
    pub components: Components,
    pub turn: usize,
    pub system: System,
}

impl View for Simulator {
    type V = SimView;

    open spec fn view(&self) -> SimView {
        SimView {
            world: self.components@,
            turn: self.turn as nat,
            next_id: self.system.unique_id as int,
            random: self.system.random@,
            scatter: self.system.scatter@,
            spread: self.system.spread@,
        }
    }
}

/// Every vector of the table is no faster than monsters are.
pub open spec fn table_within(table: Seq<Point>) -> bool {
    forall|i: int| 0 <= i < table.len() ==> (#[trigger] table[i])@.within(MAX_MONSTER_VELOCITY as int)
}

/// The two tables fit the table of draws of a simulator.
pub open spec fn directions_valid(scatter: Seq<Point>, spread: Seq<Point>) -> bool {
    &&& scatter.len() == RANDOM_TABLE_SIZE
    &&& spread.len() == RANDOM_TABLE_SIZE
    &&& table_within(scatter)
    &&& table_within(spread)
}

impl SimView {
    /// The simulator in order between two turns.
    pub open spec fn wf(self) -> bool {
        &&& self.world.wf()
        &&& self.world.ids_below(self.next_id)
        &&& 0 <= self.next_id <= i32::MAX
        &&& self.turn <= usize::MAX
        &&& self.random.wf()
        &&& self.scatter.len() == self.random.table.len()
        &&& self.spread.len() == self.random.table.len()
        &&& table_within(self.scatter)
        &&& table_within(self.spread)
    }

    /// The numbers of the simulator leave room for one more turn: for the
    /// count of turns, for four more ids, and for the mana that six heroes
    /// can earn on the monsters that live.
    pub open spec fn has_headroom(self) -> bool {
        &&& self.turn < i32::MAX
        &&& self.next_id + 4 <= i32::MAX
        &&& self.world.players[0].mana + 6 * self.world.monsters.len() <= i32::MAX
        &&& self.world.players[1].mana + 6 * self.world.monsters.len() <= i32::MAX
    }

    /// Whether the game is over: a side has lost its health, or the last turn
    /// is played.
    pub open spec fn finished(self) -> bool {
        self.world.players[0].health == 0 || self.world.players[1].health == 0 || self.turn
            == LAST_TURN
    }
}

/// Hero `h` of `side` at the start of a game: at its base, waiting.
pub open spec fn initial_hero(side: int, h: int) -> HeroView {
    HeroView {
        component: ComponentView::create(
            2 * h + side,
            base_of(side),
            MAX_HERO_VELOCITY as int,
            ComponentType::hero_of(side),
        ),
        action: ActionView::Wait { message: Seq::empty() },
        is_player: side == 0,
    }
}

/// The world at the start of a game: two sides of three heroes, no monster.
pub open spec fn initial_world() -> World {
    World {
        players: Seq::new(
            2,
            |p: int|
                PlayerView {
                    health: 3,
                    mana: 0,
                    base: base_of(p),
                    heroes: Seq::new(HEROES_PER_PLAYER as nat, |h: int| initial_hero(p, h)),
                    wild_mana: 0,
                },
        ),
        monsters: Seq::empty(),
    }
}

/// The simulator at the start of the game that `seed` determines.
pub open spec fn initial(seed: u64, scatter: Seq<Point>, spread: Seq<Point>) -> SimView {
    SimView {
        world: initial_world(),
        turn: 0,
        next_id: 2 * HEROES_PER_PLAYER as int,
        random: fresh_random(RANDOM_TABLE_SIZE as nat, seed),
        scatter,
        spread,
    }
}

/// Whether every vector of the table is no faster than monsters are.
pub fn table_is_within(table: &Vec<Point>) -> (r: bool)
    ensures
        r == table_within(table@),
{
    let n: usize = table.len();
    let mut i: usize = 0;
    while i < n
        invariant
            i <= n,
            n == table@.len(),
            forall|j: int| 0 <= j < i ==> (#[trigger] table@[j])@.within(MAX_MONSTER_VELOCITY as int),
        decreases n - i,
    {
        let p: Point = table[i];
        if p.x < -MAX_MONSTER_VELOCITY || p.x > MAX_MONSTER_VELOCITY || p.y < -MAX_MONSTER_VELOCITY
            || p.y > MAX_MONSTER_VELOCITY {
            return false;
        }
        i += 1;
    }
    true
}

/// The `place`-th of the places at which monsters appear.
pub fn spawn_place(place: usize) -> (r: Point)
    requires
        place < spawn_places(),
    ensures
        r@ == spawn_point(place as int),
{
    Point { y: -MAP_LIMIT + 1, x: MAX_X / 2 + 4000 * (place as i32) }
}

impl Monster {
    /// Whether the monster stays in the game: it is alive and inside the
    /// buffered playfield.
    pub fn survives(&self) -> (r: bool)
        ensures
            r == survives(self@),
    {
        self.health > 0 && -MAP_LIMIT + 1 <= self.component.position.x
            && self.component.position.x <= MAX_X + MAP_LIMIT - 1 && -MAP_LIMIT + 1
            <= self.component.position.y && self.component.position.y <= MAX_Y + MAP_LIMIT - 1
    }
}

/// Takes from the list every monster that does not stay in the game; the
/// others keep their order.
pub fn remove_fallen(monsters: &mut Vec<Monster>)
    ensures
        monsters_view(final(monsters)@) == survivors(monsters_view(old(monsters)@)),
{
    let ghost before = monsters_view(monsters@);
    let ghost n = before.len();
    let mut rest: Vec<Monster> = Vec::new();
    while monsters.len() > 0
        invariant
            n == before.len(),
            monsters@.len() + rest@.len() == n,
            forall|j: int| 0 <= j < monsters@.len() ==> (#[trigger] monsters@[j])@ == before[j],
            forall|j: int| 0 <= j < rest@.len() ==> (#[trigger] rest@[j])@ == before[n - 1 - j],
        decreases monsters@.len(),
    {
        let m = monsters.pop().unwrap();
        rest.push(m);
    }
    assert(monsters_view(monsters@) =~= survivors_upto(before, 0));
    while rest.len() > 0
        invariant
            n == before.len(),
            rest@.len() <= n,
            monsters_view(monsters@) == survivors_upto(before, (n - rest@.len()) as nat),
            forall|j: int| 0 <= j < rest@.len() ==> (#[trigger] rest@[j])@ == before[n - 1 - j],
        decreases rest@.len(),
    {
        let ghost k = (n - rest@.len()) as nat;
        let ghost kept = monsters@;
        let m = rest.pop().unwrap();
        assert(m@ == before[k as int]);
        if m.survives() {
            monsters.push(m);
            assert(monsters_view(monsters@) =~= monsters_view(kept).push(m@));
        }
    }
}

impl Simulator {
    /// A hero of the given side at `pos`, with the next free id.
    pub fn create_hero(&mut self, pos: Point, is_player: bool) -> (r: Hero)
        requires
            old(self).system.unique_id < i32::MAX,
        ensures
            r@ == (HeroView {
                component: ComponentView::create(
                    old(self)@.next_id,
                    pos@,
                    MAX_HERO_VELOCITY as int,
                    ComponentType::hero_of(
                        if is_player {
                            0
                        } else {
                            1
                        },
                    ),
                ),
                action: ActionView::Wait { message: Seq::empty() },
                is_player,
            }),
            final(self)@ == (SimView { next_id: old(self)@.next_id + 1, ..old(self)@ }),
            final(self).components == old(self).components,
    {
        Hero {
            component: Component::new(
                self.system.create_id(),
                pos,
                MAX_HERO_VELOCITY,
                if is_player {
                    ComponentType::PlayerHero
                } else {
                    ComponentType::OpponentHero
                },
            ),
            action: Action::Wait { message: String::new() },
            is_player,
        }
    }

    /// The simulator at the start of the game that `seed` determines, with
    /// the two tables of directions for its draws; `None` where the tables do
    /// not fit.
    pub fn new(seed: u64, scatter: Vec<Point>, spread: Vec<Point>) -> (r: Option<Simulator>)
        ensures
            r.is_some() == directions_valid(scatter@, spread@),
            r matches Some(sim) ==> sim@ == initial(seed, scatter@, spread@) && sim@.wf()
                && sim@.has_headroom(),
    {
        if scatter.len() != RANDOM_TABLE_SIZE || spread.len() != RANDOM_TABLE_SIZE
            || !table_is_within(&scatter) || !table_is_within(&spread) {
            return None;
        }
        let player_base = Point { x: 0, y: 0 };
        let opponent_base = Point { x: MAX_X, y: MAX_Y };
        let mut ret = Simulator {
            system: System {
                unique_id: 0,
                random: CachedRandom::new(RANDOM_TABLE_SIZE, seed),
                scatter,
                spread,
            },
            components: Components {
                player_list: [Player::new(player_base), Player::new(opponent_base)],
                monster_list: Vec::new(),
            },
            turn: 0,
        };
        let ghost tables = (ret.system.scatter@, ret.system.spread@);
        let mut i: usize = 0;
        while i < HEROES_PER_PLAYER
            invariant
                i <= HEROES_PER_PLAYER,
                player_base@ == base_of(0),
                opponent_base@ == base_of(1),
                ret.system.unique_id == 2 * i,
                ret.turn == 0,
                ret.system.random@ == fresh_random(RANDOM_TABLE_SIZE as nat, seed),
                ret.system.scatter@ == tables.0,
                ret.system.spread@ == tables.1,
                ret@.world.monsters.len() == 0,
                ret@.world.players[0].heroes.len() == i,
                ret@.world.players[1].heroes.len() == i,
                forall|p: int|
                    0 <= p < 2 ==> (#[trigger] ret@.world.players[p]).health == 3
                        && ret@.world.players[p].mana == 0 && ret@.world.players[p].wild_mana == 0
                        && ret@.world.players[p].base == base_of(p),
                forall|p: int, h: int|
                    0 <= p < 2 && 0 <= h < i ==> (#[trigger] ret@.world.players[p].heroes[h])
                        == initial_hero(p, h),
            decreases HEROES_PER_PLAYER - i,
        {
            let ghost earlier = ret@.world;
            let hero = ret.create_hero(player_base, true);
            let ghost first = hero@;
            ret.components.player_list[0].hero_list.push(hero);
            let hero = ret.create_hero(opponent_base, false);
            let ghost second = hero@;
            ret.components.player_list[1].hero_list.push(hero);
            proof {
                assert(first == initial_hero(0, i as int));
                assert(second == initial_hero(1, i as int));
                assert(ret@.world.players[0].heroes =~= earlier.players[0].heroes.push(first));
                assert(ret@.world.players[1].heroes =~= earlier.players[1].heroes.push(second));
            }
            i += 1;
        }
        proof {
            let w = ret@.world;
            assert(w =~~= initial_world());
            assert forall|j: int| 0 <= j < w.count() implies (#[trigger] w.component(j)).id == (
            if j < 3 {
                2 * j
            } else {
                2 * (j - 3) + 1
            }) by {}
            assert(w.unique_ids()) by {
                assert forall|a: int, b: int| 0 <= a < b < w.count() implies (
                #[trigger] w.component(a)).id != (#[trigger] w.component(b)).id by {
                    assert(w.component(a).id == if a < 3 {
                        2 * a
                    } else {
                        2 * (a - 3) + 1
                    });
                    assert(w.component(b).id == if b < 3 {
                        2 * b
                    } else {
                        2 * (b - 3) + 1
                    });
                }
            }
            assert forall|p: int, h: int| 0 <= p < 2 && 0 <= h < HEROES_PER_PLAYER implies hero_ok(
                #[trigger] w.players[p].heroes[h],
                p,
            ) by {
                assert(w.players[p].heroes[h] == initial_hero(p, h));
            }
        }
        Some(ret)
    }

    /// Whether the game is over.
    pub fn finish_game(&self) -> (r: bool)
        ensures
            r == self@.finished(),
    {
        self.components.player().health == 0 || self.components.opponent().health == 0
            || self.turn == LAST_TURN
    }

    /// Lets a pair of monsters appear: one at `position` with `velocity`, and
    /// its twin opposite, through the center, with the opposite velocity.
    pub fn create_monster(&mut self, position: Point, velocity: Point)
        requires
            old(self).system.unique_id + 2 <= i32::MAX,
            old(self).turn <= i32::MAX,
            velocity@.neg().fits(),
            position@.reflect(center()).fits(),
        ensures
            final(self)@.world.players == old(self)@.world.players,
            final(self)@.world.monsters == old(self)@.world.monsters + spawn_pair(
                old(self)@.next_id,
                position@,
                velocity@,
                spawn_health(old(self).turn as int),
            ),
            final(self)@.next_id == old(self)@.next_id + 2,
            final(self)@.turn == old(self)@.turn,
            final(self)@.random == old(self)@.random,
            final(self)@.scatter == old(self)@.scatter,
            final(self)@.spread == old(self)@.spread,
    {
        let health: i32 = Monster::max_health((self.turn as i32) / 5);
        let mut monster = Monster {
            component: Component::new(
                self.system.create_id(),
                position,
                MAX_MONSTER_VELOCITY,
                ComponentType::Monster,
            ),
            health,
            threat_state: MonsterThreatState::NotThreat,
        };
        monster.component.velocity = velocity;
        let ghost first = monster@;
        self.components.monster_list.push(monster);

        let center: Point = center_point();
        let mut twin = Monster {
            component: Component::new(
                self.system.create_id(),
                position.point_symmetry(&center),
                MAX_MONSTER_VELOCITY,
                ComponentType::Monster,
            ),
            health,
            threat_state: MonsterThreatState::NotThreat,
        };
        twin.component.velocity = velocity.flip();
        let ghost second = twin@;
        self.components.monster_list.push(twin);
        proof {
            let pair = spawn_pair(
                old(self)@.next_id,
                position@,
                velocity@,
                spawn_health(old(self).turn as int),
            );
            assert(first == pair[0]);
            assert(second == pair[1]);
            assert(self@.world.monsters =~= old(self)@.world.monsters + pair);
            assert(self@.world.players =~~= old(self)@.world.players);
        }
    }

    /// The velocity of the monster that appears at `place` in this turn; makes
    /// the draws for it.
    pub fn draw_spawn_velocity(&mut self, place: usize) -> (r: Point)
        requires
            place < spawn_places(),
            old(self)@.random.wf(),
            old(self)@.spread.len() == old(self)@.random.table.len(),
            table_within(old(self)@.spread),
        ensures
            r@ == spawn_velocity(
                old(self)@.turn,
                old(self)@.random,
                old(self)@.spread,
                place as int,
            ),
            r@.within(MAX_MONSTER_VELOCITY as int),
            final(self)@ == (SimView {
                random: old(self)@.random.skip(spawn_draws(old(self)@.turn)),
                ..old(self)@
            }),
            final(self).components == old(self).components,
            final(self)@.random.wf(),
    {
        proof {
            reveal_with_fuel(RandomView::skip, 4);
        }
        let position: Point = spawn_place(place);
        if self.turn >= SUDDEN_DEATH_TURN {
            let mut tx: i32 = self.system.random.next_int_range(0, VISIBLE_RADIUS_FROM_BASE as u32)
                as i32;
            let mut ty: i32 = self.system.random.next_int_range(0, VISIBLE_RADIUS_FROM_BASE as u32)
                as i32;
            if self.system.random.next_boolean() {
                tx = MAX_X - tx;
                ty = MAX_Y - ty;
            }
            let target = Point { x: tx, y: ty };
            position.heading(&target, MAX_MONSTER_VELOCITY)
        } else {
            let i: usize = self.system.random.index();
            self.system.random.next_int();
            self.system.spread[i]
        }
    }

    /// Phase 9: the monsters that are dead or outside the buffered playfield
    /// leave; in a turn in which monsters appear, a pair appears at each place.
    pub fn adjust_monster(&mut self)
        requires
            old(self).system.unique_id + 4 <= i32::MAX,
            old(self).turn <= i32::MAX,
            old(self)@.random.wf(),
            old(self)@.spread.len() == old(self)@.random.table.len(),
            table_within(old(self)@.spread),
        ensures
            final(self)@ == (SimView {
                world: spawn_world(
                    old(self)@.world,
                    old(self)@.turn,
                    old(self)@.next_id,
                    old(self)@.random,
                    old(self)@.spread,
                ),
                next_id: old(self)@.next_id + spawn_count(old(self)@.turn),
                random: spawn_random(old(self)@.turn, old(self)@.random),
                ..old(self)@
            }),
            final(self)@.random.wf(),
    {
        let ghost s = self@;
        remove_fallen(&mut self.components.monster_list);
        let ghost stay = survivors(s.world.monsters);
        assert(self@.world.players =~~= s.world.players);
        if self.turn >= SUDDEN_DEATH_TURN || self.turn % SPAWN_PERIOD == 0 {
            let mut place: usize = 0;
            assert(self@.world.monsters =~= stay + spawned_upto(
                s.turn,
                s.next_id,
                s.random,
                s.spread,
                0,
            ));
            while place < 2
                invariant
                    place <= 2,
                    s.random.wf(),
                    s.spread.len() == s.random.table.len(),
                    table_within(s.spread),
                    s.next_id + 4 <= i32::MAX,
                    s.turn <= i32::MAX,
                    self@.turn == s.turn,
                    self@.scatter == s.scatter,
                    self@.spread == s.spread,
                    self@.world.players == s.world.players,
                    self@.next_id == s.next_id + 2 * place,
                    self@.random == s.random.skip(place as nat * spawn_draws(s.turn)),
                    self@.random.wf(),
                    self@.world.monsters == stay + spawned_upto(
                        s.turn,
                        s.next_id,
                        s.random,
                        s.spread,
                        place as nat,
                    ),
                decreases 2 - place,
            {
                let ghost drawn = place as nat * spawn_draws(s.turn);
                proof {
                    lemma_skip_position(s.random, drawn);
                }
                let velocity: Point = self.draw_spawn_velocity(place);
                proof {
                    crate::random::lemma_skip_add(s.random, drawn, spawn_draws(s.turn));
                    assert(drawn + spawn_draws(s.turn) == (place + 1) as nat * spawn_draws(s.turn))
                        by (nonlinear_arith)
                        requires
                            drawn == place as nat * spawn_draws(s.turn),
                    ;
                }
                self.create_monster(spawn_place(place), velocity);
                assert(self@.world.monsters =~= stay + spawned_upto(
                    s.turn,
                    s.next_id,
                    s.random,
                    s.spread,
                    (place + 1) as nat,
                ));
                place += 1;
            }
        }
    }

    /// Phase 6: the winds that land are paid for; every hero and monster
    /// that they reach is pushed, the heroes first, then the monsters in the
    /// order of their list.
    pub fn do_wind(&mut self)
        requires
            old(self)@.world.shaped(),
            old(self)@.world.heroes_in_arena(),
            old(self)@.world.monsters_within(0),
            old(self)@.random.wf(),
            old(self)@.scatter.len() == old(self)@.random.table.len(),
        ensures
            final(self)@ == (SimView {
                world: wind_world(old(self)@.world, old(self)@.random, old(self)@.scatter),
                random: wind_random(old(self)@.world, old(self)@.random),
                ..old(self)@
            }),
            final(self)@.random.wf(),
    {
        let ghost s = self@;
        let winds = self.components.cast_winds();
        proof {
            crate::invariants::lemma_wind_paid_keeps_actors(s.world, casters());
        }
        self.components.blow_heroes(&winds);
        assert(self@.world.monsters == s.world.monsters);
        self.components.blow_monsters(&winds, &mut self.system.random, &self.system.scatter);
        assert(self@.world =~~= wind_world(s.world, s.random, s.scatter));
    }
}

impl Simulator {
    /// One turn: the nine phases in their order, then the mana that the
    /// attacks earned, then the count of turns. `player_action` holds the
    /// actions of the heroes of side 0, `opponent_action` those of side 1.
    pub fn next_state(&mut self, player_action: Vec<Action>, opponent_action: Vec<Action>)
        requires
            old(self)@.wf(),
            old(self)@.has_headroom(),
            player_action@.len() == HEROES_PER_PLAYER,
            opponent_action@.len() == HEROES_PER_PLAYER,
        ensures
            final(self)@ == step(
                old(self)@,
                actions_view(player_action@),
                actions_view(opponent_action@),
            ),
            final(self)@.wf(),
    {
        let ghost s = self@;
        let ghost first = actions_view(player_action@);
        let ghost second = actions_view(opponent_action@);
        let ghost casts = casters();

        self.components.initialize(player_action, opponent_action);
        let ghost w1 = self@.world;
        proof {
            lemma_reset_sane(s.world, first, second, 0, 1);
            lemma_same_cast(s.world, w1, s.next_id);
        }
        self.components.do_control();
        let ghost w2 = self@.world;
        proof {
            lemma_control_sane(w1, casts, 0, 1);
            lemma_same_cast(w1, w2, s.next_id);
        }
        self.components.do_shield();
        let ghost w3 = self@.world;
        proof {
            lemma_shield_sane(w2, casts, 0, 1);
            lemma_same_cast(w2, w3, s.next_id);
            lemma_sane_weaken(w3, 0, 1, 0, 1);
        }
        self.components.move_hero();
        let ghost w4 = self@.world;
        proof {
            lemma_move_heroes_sane(w3, 0, 1);
            lemma_same_cast(w3, w4, s.next_id);
            assert(w4 == before_attack(s, first, second));
            assert(w4.monsters.len() == s.world.monsters.len());
        }
        let mana_gain = self.components.attack_monster();
        let ghost w5 = self@.world;
        proof {
            lemma_attack_sane(w4, 0, 1);
            lemma_same_cast(w4, w5, s.next_id);
            lemma_sane_weaken(w5, 0, -11, 0, -11);
            crate::invariants::lemma_side_hits_bound(w4, 0, w4.monsters.len());
            crate::invariants::lemma_side_hits_bound(w4, 1, w4.monsters.len());
        }
        self.do_wind();
        let ghost w6 = self@.world;
        let ghost drawn = self@.random;
        proof {
            lemma_wind_sane(w5, s.random, s.scatter, -11);
            lemma_same_cast(w5, w6, s.next_id);
            lemma_skip_position(
                s.random,
                crate::model::scattered_upto(winds_upto(w5, casts), w5.monsters, w5.monsters.len()),
            );
            lemma_sane_weaken(w6, 13200, -11, 20000, -11);
        }
        self.components.move_monster();
        let ghost w7 = self@.world;
        proof {
            lemma_move_monsters_sane(w6, 13200, -11);
            lemma_same_cast(w6, w7, s.next_id);
        }
        self.components.countdown_shield();
        let ghost w8 = self@.world;
        proof {
            lemma_decay_sane(w7, 13600, -11);
            lemma_same_cast(w7, w8, s.next_id);
            assert(w8 == before_spawn(s, first, second));
            lemma_spawn_sane(w8, s.turn, s.next_id, drawn, s.spread, 13600, -11);
        }
        self.adjust_monster();
        let ghost w9 = self@.world;
        proof {
            assert(w9.players[0].mana <= s.world.players[0].mana);
            assert(w9.players[1].mana <= s.world.players[1].mana);
            lemma_credit_sane(
                w9,
                MANA_GAIN_TO_ATTACK * side_hits(w4, 0),
                MANA_GAIN_TO_ATTACK * side_hits(w4, 1),
                0,
                1,
            );
            lemma_same_cast(
                w9,
                crate::model::credit(
                    w9,
                    MANA_GAIN_TO_ATTACK * side_hits(w4, 0),
                    MANA_GAIN_TO_ATTACK * side_hits(w4, 1),
                ),
                s.next_id + spawn_count(s.turn),
            );
            if spawns(s.turn) {
                lemma_skip_position(drawn, spawn_places() * spawn_draws(s.turn));
            }
        }
        self.components.player_list[0].mana += mana_gain[0].all_mana;
        self.components.player_list[1].mana += mana_gain[1].all_mana;
        self.turn += 1;
        assert(self@.world =~~= crate::model::credit(
            w9,
            MANA_GAIN_TO_ATTACK * side_hits(w4, 0),
            MANA_GAIN_TO_ATTACK * side_hits(w4, 1),
        ));
    }
}

} // verus!
