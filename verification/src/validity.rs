//! Checking at run time that a simulator is in order.
use crate::entity::{Component, ComponentType, Components, Hero, Monster};
use crate::model::{hero_ok, monster_ok};
use crate::rules::{
    base_of, HEROES_PER_PLAYER, MAP_LIMIT, MAX_HERO_VELOCITY, MAX_MONSTER_VELOCITY, MAX_X, MAX_Y,
    SHIELD_EFFECTIVE_TURN,
};
use crate::simulator::{table_is_within, Simulator};
use vstd::prelude::*;

verus! {

impl Hero {
    /// Whether the hero is in order as a hero of `side`.
    pub fn is_valid(&self, side: usize) -> (r: bool)
        requires
            side < 2,
        ensures
            r == hero_ok(self@, side as int),
    {
        let c: &Component = &self.component;
        let kind: ComponentType = if side == 0 {
            ComponentType::PlayerHero
        } else {
            ComponentType::OpponentHero
        };
        c.component_type == kind && self.is_player == (side == 0) && c.max_velocity
            == MAX_HERO_VELOCITY && -MAX_HERO_VELOCITY <= c.velocity.x && c.velocity.x
            <= MAX_HERO_VELOCITY && -MAX_HERO_VELOCITY <= c.velocity.y && c.velocity.y
            <= MAX_HERO_VELOCITY && 0 <= c.position.x && c.position.x <= MAX_X && 0 <= c.position.y
            && c.position.y <= MAX_Y && 0 <= c.shield_life && c.shield_life <= SHIELD_EFFECTIVE_TURN
            + 1 && 0 <= c.id
    }
}

impl Monster {
    /// Whether the monster is in order between two turns.
    pub fn is_valid(&self) -> (r: bool)
        ensures
            r == monster_ok(self@, 0, 1),
    {
        let c: &Component = &self.component;
        c.component_type == ComponentType::Monster && c.max_velocity == MAX_MONSTER_VELOCITY
            && -MAX_MONSTER_VELOCITY <= c.velocity.x && c.velocity.x <= MAX_MONSTER_VELOCITY
            && -MAX_MONSTER_VELOCITY <= c.velocity.y && c.velocity.y <= MAX_MONSTER_VELOCITY
            && -MAP_LIMIT + 1 <= c.position.x && c.position.x <= MAX_X + MAP_LIMIT - 1 && -MAP_LIMIT
            + 1 <= c.position.y && c.position.y <= MAX_Y + MAP_LIMIT - 1 && 0 <= c.shield_life
            && c.shield_life <= SHIELD_EFFECTIVE_TURN + 1 && 1 <= self.health && 0 <= c.id
    }
}

impl Components {
    /// Whether no two actors share an id.
    pub fn has_unique_ids(&self) -> (r: bool)
        requires
            self@.count() <= usize::MAX,
        ensures
            r == self@.unique_ids(),
    {
        let n: usize = self.component_len();
        let mut j: usize = 0;
        while j < n
            invariant
                j <= n,
                n == self@.count(),
                forall|a: int, b: int|
                    0 <= a < b < j ==> (#[trigger] self@.component(a)).id != (
                    #[trigger] self@.component(b)).id,
            decreases n - j,
        {
            let id: i32 = self.component_at(j).id;
            let mut i: usize = 0;
            while i < j
                invariant
                    i <= j,
                    j < n,
                    n == self@.count(),
                    id == self@.component(j as int).id,
                    forall|a: int| 0 <= a < i ==> (#[trigger] self@.component(a)).id != id,
                decreases j - i,
            {
                if self.component_at(i).id == id {
                    assert(self@.component(i as int).id == self@.component(j as int).id);
                    return false;
                }
                i += 1;
            }
            j += 1;
        }
        true
    }

    /// Whether every id is below `next_id`.
    pub fn has_ids_below(&self, next_id: i32) -> (r: bool)
        requires
            self@.count() <= usize::MAX,
        ensures
            r == self@.ids_below(next_id as int),
    {
        let n: usize = self.component_len();
        let mut i: usize = 0;
        while i < n
            invariant
                i <= n,
                n == self@.count(),
                forall|a: int| 0 <= a < i ==> (#[trigger] self@.component(a)).id < next_id,
            decreases n - i,
        {
            if self.component_at(i).id >= next_id {
                assert(self@.component(i as int).id >= next_id);
                return false;
            }
            i += 1;
        }
        true
    }

    /// Whether the world is in order between two turns.
    pub fn is_valid(&self) -> (r: bool)
        ensures
            r == self@.wf(),
    {
        if self.player_list[0].hero_list.len() != HEROES_PER_PLAYER
            || self.player_list[1].hero_list.len() != HEROES_PER_PLAYER {
            return false;
        }
        if self.monster_list.len() > usize::MAX - 2 * HEROES_PER_PLAYER {
            return false;
        }
        let mut p: usize = 0;
        while p < 2
            invariant
                p <= 2,
                self@.shaped(),
                forall|q: int, h: int|
                    0 <= q < p && 0 <= h < HEROES_PER_PLAYER ==> hero_ok(
                        #[trigger] self@.players[q].heroes[h],
                        q,
                    ),
                forall|q: int|
                    0 <= q < p ==> (#[trigger] self@.players[q]).base == base_of(q) && 0
                        <= self@.players[q].mana <= i32::MAX,
            decreases 2 - p,
        {
            let player = &self.player_list[p];
            assert(player@ == self@.players[p as int]);
            if player.base.x != (p as i32) * MAX_X || player.base.y != (p as i32) * MAX_Y
                || player.mana < 0 {
                return false;
            }
            let mut h: usize = 0;
            while h < HEROES_PER_PLAYER
                invariant
                    h <= HEROES_PER_PLAYER,
                    p < 2,
                    player@ == self@.players[p as int],
                    player.hero_list@.len() == HEROES_PER_PLAYER,
                    forall|k: int|
                        0 <= k < h ==> hero_ok(#[trigger] self@.players[p as int].heroes[k], p as int),
                decreases HEROES_PER_PLAYER - h,
            {
                assert(player.hero_list@[h as int]@ == self@.players[p as int].heroes[h as int]);
                if !player.hero_list[h].is_valid(p) {
                    return false;
                }
                h += 1;
            }
            p += 1;
        }
        let n: usize = self.monster_list.len();
        let mut m: usize = 0;
        while m < n
            invariant
                m <= n,
                n == self.monster_list@.len(),
                forall|k: int| 0 <= k < m ==> monster_ok(#[trigger] self@.monsters[k], 0, 1),
            decreases n - m,
        {
            assert(self.monster_list@[m as int]@ == self@.monsters[m as int]);
            if !self.monster_list[m].is_valid() {
                return false;
            }
            m += 1;
        }
        self.has_unique_ids()
    }
}

impl Simulator {
    /// Whether the simulator is in order between two turns and its numbers
    /// leave room for one more turn: whether `next_state` may be called.
    pub fn is_valid(&self) -> (r: bool)
        ensures
            r == (self@.wf() && self@.has_headroom()),
    {
        if !self.components.is_valid() {
            return false;
        }
        let len: usize = self.system.random.len();
        if self.system.unique_id < 0 || self.system.random.index() >= len
            || self.system.scatter.len() != len || self.system.spread.len() != len {
            return false;
        }
        if !self.components.has_ids_below(self.system.unique_id) || !table_is_within(
            &self.system.scatter,
        ) || !table_is_within(&self.system.spread) {
            return false;
        }
        if self.turn >= 0x7fff_ffff || self.system.unique_id > i32::MAX - 4 {
            return false;
        }
        let monsters: usize = self.components.monster_list.len();
        if monsters > 357_913_941 {
            return false;
        }
        let earned: i32 = 6 * (monsters as i32);
        self.components.player_list[0].mana <= i32::MAX - earned
            && self.components.player_list[1].mana <= i32::MAX - earned
    }
}

} // verus!
