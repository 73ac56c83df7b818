//! What a side sees: its own heroes, what lies near its base or its heroes,
//! and how each monster that it sees threatens the bases.
use crate::entity::{
    Component, ComponentView, HeroView, Monster, MonsterThreatState, MonsterView, PlayerView,
    World,
};
use crate::inout;
use crate::inout::{BoardView, HeroSight, MonsterSight, SideSight};
use crate::model::SimView;
use crate::point::{Point, Vec2};
use crate::rules::{base_of, in_playfield, MAX_X, MAX_Y, VISIBLE_RADIUS_FROM_BASE};
use crate::simulator::Simulator;
use vstd::prelude::*;

verus! {

/// How much further a monster at `p` can go at the velocity `v` before it
/// leaves the playfield; 0 where it is outside.
pub open spec fn room(p: Vec2, v: Vec2) -> int {
    if !in_playfield(p) {
        0
    } else if v.x > 0 {
        MAX_X - p.x
    } else if v.x < 0 {
        p.x + 1
    } else if v.y > 0 {
        MAX_Y - p.y
    } else {
        p.y + 1
    }
}

/// How a monster that has come to `p` on its straight way at the velocity `v`
/// threatens the bases: it follows its way, turn by turn, until it comes near
/// a base, `own` before `other`, or leaves the playfield.
pub open spec fn future_threat(own: Vec2, other: Vec2, p: Vec2, v: Vec2) -> MonsterThreatState
    decreases room(p, v),
{
    if own.in_range(p, VISIBLE_RADIUS_FROM_BASE as int) {
        MonsterThreatState::PlayerThreatInTheFuture
    } else if other.in_range(p, VISIBLE_RADIUS_FROM_BASE as int) {
        MonsterThreatState::OpponentThreatInTheFuture
    } else if !in_playfield(p) || v == Vec2::zero() {
        MonsterThreatState::NotThreat
    } else {
        future_threat(own, other, p.plus(v), v)
    }
}

/// How a monster at `p` with the velocity `v` threatens the bases, for the
/// side whose base is `own`.
pub open spec fn threat(own: Vec2, other: Vec2, p: Vec2, v: Vec2) -> MonsterThreatState {
    if v == Vec2::zero() {
        MonsterThreatState::NotThreat
    } else if own.in_range(p, VISIBLE_RADIUS_FROM_BASE as int) {
        MonsterThreatState::PlayerThreat
    } else if other.in_range(p, VISIBLE_RADIUS_FROM_BASE as int) {
        MonsterThreatState::OpponentThreat
    } else {
        future_threat(own, other, p.plus(v), v)
    }
}

/// A hero as it is shown.
pub open spec fn seen_hero(c: ComponentView) -> HeroSight {
    HeroSight {
        id: c.id,
        pos: c.position,
        shield_life: c.shield_life,
        is_controlled: c.is_controlled(),
    }
}

/// A monster as it is shown to the side `viewer`.
pub open spec fn seen_monster(w: World, viewer: int, m: MonsterView) -> MonsterSight {
    MonsterSight {
        id: m.component.id,
        pos: m.component.position,
        shield_life: m.component.shield_life,
        is_controlled: m.component.is_controlled(),
        health: m.health,
        v: m.component.velocity,
        threat_state: threat(
            w.players[viewer].base,
            w.players[1 - viewer].base,
            m.component.position,
            m.component.velocity,
        ),
    }
}

/// Those of the first `n` of `heroes` that `viewer` sees, in their order.
pub open spec fn seen_heroes_upto(viewer: PlayerView, heroes: Seq<HeroView>, n: nat) -> Seq<
    HeroSight,
>
    decreases n,
{
    if n == 0 {
        Seq::empty()
    } else {
        let rest = seen_heroes_upto(viewer, heroes, (n - 1) as nat);
        if viewer.visible(heroes[n - 1].component.position) {
            rest.push(seen_hero(heroes[n - 1].component))
        } else {
            rest
        }
    }
}

/// Those of the first `n` monsters that the side `viewer` sees, in their order.
pub open spec fn seen_monsters_upto(w: World, viewer: int, n: nat) -> Seq<MonsterSight>
    decreases n,
{
    if n == 0 {
        Seq::empty()
    } else {
        let rest = seen_monsters_upto(w, viewer, (n - 1) as nat);
        if w.players[viewer].visible(w.monsters[n - 1].component.position) {
            rest.push(seen_monster(w, viewer, w.monsters[n - 1]))
        } else {
            rest
        }
    }
}

/// What the side `viewer` is shown of the game: all its own heroes; of the
/// other side the health, the mana, the base, and the heroes that it sees; the
/// monsters that it sees, each with its threat; and the number of the turn.
pub open spec fn project(s: SimView, viewer: int) -> BoardView {
    let own = s.world.players[viewer];
    let other = s.world.players[1 - viewer];
    BoardView {
        player: SideSight {
            health: own.health,
            mana: own.mana,
            base: base_of(viewer),
            heroes: Seq::new(own.heroes.len(), |h: int| seen_hero(own.heroes[h].component)),
        },
        opponent: SideSight {
            health: other.health,
            mana: other.mana,
            base: base_of(1 - viewer),
            heroes: seen_heroes_upto(own, other.heroes, other.heroes.len()),
        },
        monsters: seen_monsters_upto(s.world, viewer, s.world.monsters.len()),
        turn: s.turn,
    }
}

impl Component {
    /// The hero as it is shown.
    pub fn to_hero(&self) -> (r: inout::Hero)
        ensures
            r@ == seen_hero(self@),
    {
        inout::Hero {
            id: self.id,
            pos: self.position,
            shield_life: self.shield_life,
            is_controlled: self.is_controlled(),
        }
    }
}

/// How a monster at `position` with `velocity` threatens the bases, for the
/// side whose base is `own`.
pub fn classify_threat(own: &Point, other: &Point, position: &Point, velocity: &Point) -> (r:
    MonsterThreatState)
    ensures
        r == threat(own@, other@, position@, velocity@),
{
    if velocity.x == 0 && velocity.y == 0 {
        MonsterThreatState::NotThreat
    } else if own.in_range(position, VISIBLE_RADIUS_FROM_BASE) {
        MonsterThreatState::PlayerThreat
    } else if other.in_range(position, VISIBLE_RADIUS_FROM_BASE) {
        MonsterThreatState::OpponentThreat
    } else {
        let vx: i64 = velocity.x as i64;
        let vy: i64 = velocity.y as i64;
        let mut px: i64 = position.x as i64 + vx;
        let mut py: i64 = position.y as i64 + vy;
        loop
            invariant
                vx == velocity.x,
                vy == velocity.y,
                velocity@ != Vec2::zero(),
                -0x1_0000_0000 <= px <= 0x1_0000_0000,
                -0x1_0000_0000 <= py <= 0x1_0000_0000,
                threat(own@, other@, position@, velocity@) == future_threat(
                    own@,
                    other@,
                    Vec2 { x: px as int, y: py as int },
                    velocity@,
                ),
            decreases room(Vec2 { x: px as int, y: py as int }, velocity@),
        {
            if own.in_range_wide(px, py, VISIBLE_RADIUS_FROM_BASE) {
                return MonsterThreatState::PlayerThreatInTheFuture;
            } else if other.in_range_wide(px, py, VISIBLE_RADIUS_FROM_BASE) {
                return MonsterThreatState::OpponentThreatInTheFuture;
            } else if !(0 <= px && px < MAX_X as i64 && 0 <= py && py < MAX_Y as i64) {
                return MonsterThreatState::NotThreat;
            }
            px = px + vx;
            py = py + vy;
        }
    }
}

impl Simulator {
    /// How the monster `m` threatens the bases, for the side `player_id`.
    pub fn decide_monster_threat(&self, player_id: i32, m: &Monster) -> (r: MonsterThreatState)
        requires
            0 <= player_id <= 1,
        ensures
            r == threat(
                self@.world.players[player_id as int].base,
                self@.world.players[1 - player_id as int].base,
                m@.component.position,
                m@.component.velocity,
            ),
    {
        let viewer: usize = player_id as usize;
        classify_threat(
            &self.components.player_list[viewer].base,
            &self.components.player_list[1 - viewer].base,
            &m.component.position,
            &m.component.velocity,
        )
    }

    /// What the side `player_id` is shown of the game.
    pub fn to_board(&self, player_id: i32) -> (board: inout::Board)
        requires
            0 <= player_id <= 1,
        ensures
            board@ == project(self@, player_id as int),
    {
        let viewer: usize = player_id as usize;
        let ghost w = self@.world;
        let ghost own = w.players[viewer as int];
        let ghost other = w.players[1 - viewer as int];
        let mut board = inout::Board {
            player: inout::Player::new(),
            opponent: inout::Player::new(),
            monster_list: Vec::new(),
            turn: self.turn,
        };
        let me: &crate::entity::Player = &self.components.player_list[viewer];
        let them: &crate::entity::Player = &self.components.player_list[1 - viewer];
        assert(me@ == own && them@ == other);

        board.player.health = me.health;
        board.player.mana = me.mana;
        board.player.base = Point { x: player_id * MAX_X, y: player_id * MAX_Y };
        let n: usize = me.hero_list.len();
        let mut h: usize = 0;
        while h < n
            invariant
                h <= n,
                n == me.hero_list@.len(),
                me@ == own,
                board.player.hero_list@.len() == h,
                forall|j: int|
                    0 <= j < h ==> (#[trigger] board.player.hero_list@[j])@ == seen_hero(
                        own.heroes[j].component,
                    ),
                board.player.health == me.health,
                board.player.mana == me.mana,
                board.player.base@ == base_of(player_id as int),
                board.opponent@ == (SideSight {
                    health: 0,
                    mana: 0,
                    base: Vec2::zero(),
                    heroes: Seq::empty(),
                }),
                board.monster_list@.len() == 0,
                board.turn == self.turn,
            decreases n - h,
        {
            let hero = me.hero_list[h].component.to_hero();
            assert(me.hero_list@[h as int]@ == own.heroes[h as int]);
            board.player.hero_list.push(hero);
            h += 1;
        }
        let ghost mine = board.player@;
        assert(mine =~~= project(self@, player_id as int).player);

        board.opponent.health = them.health;
        board.opponent.mana = them.mana;
        board.opponent.base = Point { x: (1 - player_id) * MAX_X, y: (1 - player_id) * MAX_Y };
        let n: usize = them.hero_list.len();
        let mut h: usize = 0;
        assert(inout::heroes_sight(board.opponent.hero_list@) =~= seen_heroes_upto(
            own,
            other.heroes,
            0,
        ));
        while h < n
            invariant
                h <= n,
                n == them.hero_list@.len(),
                me@ == own,
                them@ == other,
                inout::heroes_sight(board.opponent.hero_list@) == seen_heroes_upto(
                    own,
                    other.heroes,
                    h as nat,
                ),
                board.opponent.health == them.health,
                board.opponent.mana == them.mana,
                board.opponent.base@ == base_of(1 - player_id as int),
                board.player@ == mine,
                board.monster_list@.len() == 0,
                board.turn == self.turn,
            decreases n - h,
        {
            let c: &Component = &them.hero_list[h].component;
            assert(them.hero_list@[h as int]@ == other.heroes[h as int]);
            let ghost earlier = board.opponent.hero_list@;
            if me.visible(&c.position) {
                board.opponent.hero_list.push(c.to_hero());
                assert(inout::heroes_sight(board.opponent.hero_list@) =~= inout::heroes_sight(
                    earlier,
                ).push(seen_hero(c@)));
            }
            h += 1;
        }
        let ghost theirs = board.opponent@;
        assert(theirs =~~= project(self@, player_id as int).opponent);

        let n: usize = self.components.monster_list.len();
        let mut i: usize = 0;
        assert(inout::monsters_sight(board.monster_list@) =~= seen_monsters_upto(w, viewer as int, 0));
        while i < n
            invariant
                i <= n,
                n == self.components.monster_list@.len(),
                0 <= player_id <= 1,
                viewer == player_id,
                w == self@.world,
                me@ == own,
                own == w.players[viewer as int],
                inout::monsters_sight(board.monster_list@) == seen_monsters_upto(
                    w,
                    viewer as int,
                    i as nat,
                ),
                board.player@ == mine,
                board.opponent@ == theirs,
                board.turn == self.turn,
            decreases n - i,
        {
            let m: &Monster = &self.components.monster_list[i];
            assert(m@ == w.monsters[i as int]);
            let ghost earlier = board.monster_list@;
            if me.visible(&m.component.position) {
                let monster = inout::Monster {
                    id: m.component.id,
                    pos: m.component.position,
                    shield_life: m.component.shield_life,
                    is_controlled: m.component.is_controlled(),
                    health: m.health,
                    v: m.component.velocity,
                    threat_state: self.decide_monster_threat(player_id, m),
                };
                board.monster_list.push(monster);
                assert(inout::monsters_sight(board.monster_list@) =~= inout::monsters_sight(
                    earlier,
                ).push(seen_monster(w, viewer as int, m@)));
            }
            i += 1;
        }
        board
    }
}

} // verus!
