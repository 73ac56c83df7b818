//! The phases of a turn, each as a change of the registry.
use crate::entity::{
    actions_view, heroes_view, monsters_view, Action, Component, ComponentView, Components, Hero,
    HeroView, Monster, MonsterView, Player, World,
};
use crate::model::{
    attack_phase, attacked, control_cast, control_phase, control_step, control_sum, control_upto,
    decay_phase, hits, hits_upto, monster_placed, move_heroes_phase, move_monsters_phase,
    moved_hero, moved_monster, near_hits, near_hits_upto, pay, reset_phase, shield_cast,
    shield_phase, shield_upto, side_hits, side_hits_upto, spell_lands,
};
use crate::point::{trunc_div, Point, Vec2};
use crate::rules::{
    in_arena, snap, CONTROL_EFFECTIVE_RADIUS, HEROES_PER_PLAYER, HERO_ATTACK_RADIUS,
    MANA_GAIN_TO_ATTACK, MANA_TO_SPELL, MAX_HERO_VELOCITY, MAX_MONSTER_VELOCITY, MAX_X, MAX_Y,
    SHIELD_EFFECTIVE_TURN, VISIBLE_RADIUS_FROM_BASE,
};
use vstd::prelude::*;

verus! {

impl Component {
    /// Resets the actor for a new turn.
    pub fn reset(&mut self)
        ensures
            final(self)@ == old(self)@.reset(),
    {
        std::mem::swap(&mut self.control_move_target, &mut self.next_control_move_target);
        self.next_control_move_target.clear();
        self.pushed = false;
    }
}

/// Resets every hero of the list and records its action of this turn.
fn reset_heroes(heroes: &mut Vec<Hero>, actions: Vec<Action>)
    requires
        old(heroes)@.len() == actions@.len(),
    ensures
        heroes_view(final(heroes)@) == Seq::new(
            actions@.len(),
            |h: int|
                HeroView {
                    component: old(heroes)@[h].component@.reset(),
                    action: actions@[h]@,
                    is_player: old(heroes)@[h].is_player,
                },
        ),
{
    let ghost given = actions@;
    let mut actions = actions;
    let n: usize = heroes.len();
    let mut h: usize = n;
    while h > 0
        invariant
            h <= n,
            heroes@.len() == n,
            given.len() == n,
            actions@ == given.take(h as int),
            forall|j: int|
                h <= j < n ==> (#[trigger] heroes@[j])@ == (HeroView {
                    component: old(heroes)@[j].component@.reset(),
                    action: given[j]@,
                    is_player: old(heroes)@[j].is_player,
                }),
            forall|j: int| 0 <= j < h ==> heroes@[j] == old(heroes)@[j],
        decreases h,
    {
        h -= 1;
        let action = actions.pop().unwrap();
        heroes[h].component.reset();
        heroes[h].action = action;
        assert(actions@ =~= given.take(h as int));
    }
    assert(heroes_view(heroes@) =~= Seq::new(
        given.len(),
        |h: int|
            HeroView {
                component: old(heroes)@[h].component@.reset(),
                action: given[h]@,
                is_player: old(heroes)@[h].is_player,
            },
    ));
}

/// Resets every monster of the list.
fn reset_monsters(monsters: &mut Vec<Monster>)
    ensures
        monsters_view(final(monsters)@) == Seq::new(
            old(monsters)@.len(),
            |m: int|
                MonsterView { component: old(monsters)@[m]@.component.reset(), ..old(monsters)@[m]@ },
        ),
{
    let n: usize = monsters.len();
    let mut m: usize = 0;
    while m < n
        invariant
            m <= n,
            monsters@.len() == n,
            old(monsters)@.len() == n,
            forall|j: int|
                0 <= j < m ==> (#[trigger] monsters@[j])@ == (MonsterView {
                    component: old(monsters)@[j]@.component.reset(),
                    ..old(monsters)@[j]@
                }),
            forall|j: int| m <= j < n ==> monsters@[j] == old(monsters)@[j],
        decreases n - m,
    {
        monsters[m].component.reset();
        m += 1;
    }
    assert(monsters_view(monsters@) =~= Seq::new(
        old(monsters)@.len(),
        |m: int|
            MonsterView { component: old(monsters)@[m]@.component.reset(), ..old(monsters)@[m]@ },
    ));
}

impl Components {
    /// Phase 1: resets every actor and records the actions of this turn, those
    /// of `player_action` for side 0 and those of `opponent_action` for side 1.
    pub fn initialize(&mut self, player_action: Vec<Action>, opponent_action: Vec<Action>)
        requires
            old(self)@.shaped(),
            player_action@.len() == HEROES_PER_PLAYER,
            opponent_action@.len() == HEROES_PER_PLAYER,
        ensures
            final(self)@ == reset_phase(
                old(self)@,
                actions_view(player_action@),
                actions_view(opponent_action@),
            ),
    {
        reset_heroes(&mut self.player_list[0].hero_list, player_action);
        reset_heroes(&mut self.player_list[1].hero_list, opponent_action);
        reset_monsters(&mut self.monster_list);
        assert(self@ =~~= reset_phase(
            old(self)@,
            actions_view(player_action@),
            actions_view(opponent_action@),
        ));
    }

    /// Queues `point` on the `i`-th actor as a control target for next turn.
    pub fn push_control(&mut self, i: usize, point: Point)
        requires
            i < old(self)@.count(),
        ensures
            final(self)@ == old(self)@.with_component(
                i as int,
                ComponentView {
                    next_control: old(self)@.component(i as int).next_control.push(point),
                    ..old(self)@.component(i as int)
                },
            ),
    {
        let n0: usize = self.player_list[0].hero_list.len();
        let n1: usize = self.player_list[1].hero_list.len();
        if i < n0 {
            self.player_list[0].hero_list[i].component.next_control_move_target.push(point);
        } else if i - n0 < n1 {
            self.player_list[1].hero_list[i - n0].component.next_control_move_target.push(point);
        } else {
            self.monster_list[i - n0 - n1].component.next_control_move_target.push(point);
        }
        assert(self@ =~~= old(self)@.with_component(
            i as int,
            ComponentView {
                next_control: old(self)@.component(i as int).next_control.push(point),
                ..old(self)@.component(i as int)
            },
        ));
    }

    /// Sets the shield counter of the `i`-th actor.
    pub fn set_shield(&mut self, i: usize, shield_life: i32)
        requires
            i < old(self)@.count(),
        ensures
            final(self)@ == old(self)@.with_component(
                i as int,
                ComponentView { shield_life: shield_life as int, ..old(self)@.component(i as int) },
            ),
    {
        let n0: usize = self.player_list[0].hero_list.len();
        let n1: usize = self.player_list[1].hero_list.len();
        if i < n0 {
            self.player_list[0].hero_list[i].component.shield_life = shield_life;
        } else if i - n0 < n1 {
            self.player_list[1].hero_list[i - n0].component.shield_life = shield_life;
        } else {
            self.monster_list[i - n0 - n1].component.shield_life = shield_life;
        }
        assert(self@ =~~= old(self)@.with_component(
            i as int,
            ComponentView { shield_life: shield_life as int, ..old(self)@.component(i as int) },
        ));
    }

    /// Takes the price of one spell from `side`.
    pub fn pay(&mut self, side: usize)
        requires
            side < 2,
            old(self)@.players[side as int].mana >= i32::MIN + MANA_TO_SPELL,
        ensures
            final(self)@ == pay(old(self)@, side as int),
    {
        self.player_list[side].mana -= MANA_TO_SPELL;
        assert(self@ =~~= pay(old(self)@, side as int));
    }

    /// Whether a control or shield cast by hero `h` of `side` on the actor with
    /// the id `id` lands.
    pub fn spell_lands(&self, side: usize, h: usize, id: i32) -> (r: bool)
        requires
            self@.shaped(),
            self@.count() <= usize::MAX,
            side < 2,
            h < HEROES_PER_PLAYER,
        ensures
            r == spell_lands(self@, side as int, h as int, id as int),
    {
        if self.player_list[side].mana < MANA_TO_SPELL {
            return false;
        }
        match self.component_of(id) {
            None => false,
            Some(target) => {
                self.player_list[side].visible(&target.position)
                    && self.player_list[side].hero_list[h].component.position.in_range(
                    &target.position,
                    CONTROL_EFFECTIVE_RADIUS,
                ) && target.shield_life == 0
            },
        }
    }

    /// The turn of hero `h` of `side` in the control phase.
    pub fn control_turn(&mut self, side: usize, h: usize)
        requires
            old(self)@.shaped(),
            old(self)@.count() <= usize::MAX,
            side < 2,
            h < HEROES_PER_PLAYER,
        ensures
            final(self)@ == control_cast(old(self)@, side as int, h as int),
            final(self)@.shaped(),
            final(self)@.count() == old(self)@.count(),
    {
        let cast: Option<(i32, Point)> = match &self.player_list[side].hero_list[h].action {
            Action::Control { entity_id, point, message: _ } => Some((*entity_id, *point)),
            _ => None,
        };
        if let Some((entity_id, point)) = cast {
            if self.spell_lands(side, h, entity_id) {
                let i: usize = self.locate(entity_id).unwrap();
                self.pay(side);
                self.push_control(i, point);
            }
        }
    }

    /// Phase 2: every hero that casts a control has its turn, side 0 first.
    pub fn do_control(&mut self)
        requires
            old(self)@.shaped(),
            old(self)@.count() <= usize::MAX,
        ensures
            final(self)@ == control_phase(old(self)@),
            final(self)@.shaped(),
            final(self)@.count() == old(self)@.count(),
    {
        let mut k: usize = 0;
        while k < 2 * HEROES_PER_PLAYER
            invariant
                k <= 2 * HEROES_PER_PLAYER,
                self@ == control_upto(old(self)@, k as nat),
                self@.shaped(),
                self@.count() == old(self)@.count(),
                self@.count() <= usize::MAX,
            decreases 2 * HEROES_PER_PLAYER - k,
        {
            self.control_turn(k / HEROES_PER_PLAYER, k % HEROES_PER_PLAYER);
            k += 1;
        }
    }

    /// The turn of hero `h` of `side` in the shield phase.
    pub fn shield_turn(&mut self, side: usize, h: usize)
        requires
            old(self)@.shaped(),
            old(self)@.count() <= usize::MAX,
            side < 2,
            h < HEROES_PER_PLAYER,
        ensures
            final(self)@ == shield_cast(old(self)@, side as int, h as int),
            final(self)@.shaped(),
            final(self)@.count() == old(self)@.count(),
    {
        let cast: Option<i32> = match &self.player_list[side].hero_list[h].action {
            Action::Shield { entity_id, message: _ } => Some(*entity_id),
            _ => None,
        };
        if let Some(entity_id) = cast {
            if self.spell_lands(side, h, entity_id) {
                let i: usize = self.locate(entity_id).unwrap();
                self.pay(side);
                self.set_shield(i, SHIELD_EFFECTIVE_TURN + 1);
            }
        }
    }

    /// Phase 3: every hero that casts a shield has its turn, side 0 first.
    pub fn do_shield(&mut self)
        requires
            old(self)@.shaped(),
            old(self)@.count() <= usize::MAX,
        ensures
            final(self)@ == shield_phase(old(self)@),
            final(self)@.shaped(),
            final(self)@.count() == old(self)@.count(),
    {
        let mut k: usize = 0;
        while k < 2 * HEROES_PER_PLAYER
            invariant
                k <= 2 * HEROES_PER_PLAYER,
                self@ == shield_upto(old(self)@, k as nat),
                self@.shaped(),
                self@.count() == old(self)@.count(),
                self@.count() <= usize::MAX,
            decreases 2 * HEROES_PER_PLAYER - k,
        {
            self.shield_turn(k / HEROES_PER_PLAYER, k % HEROES_PER_PLAYER);
            k += 1;
        }
    }
}

/// The nearest point of the playfield.
pub fn snap_to_game_zone(p: Point) -> (r: Point)
    ensures
        r@ == snap(p@),
{
    Point {
        y: if p.y < 0 {
            0
        } else if p.y > MAX_Y - 1 {
            MAX_Y - 1
        } else {
            p.y
        },
        x: if p.x < 0 {
            0
        } else if p.x > MAX_X - 1 {
            MAX_X - 1
        } else {
            p.x
        },
    }
}

impl Hero {
    /// The hero's move of this turn.
    pub fn advance(&mut self)
        requires
            in_arena(old(self)@.component.position),
        ensures
            final(self)@ == moved_hero(old(self)@),
    {
        let target: Option<Point> = match &self.action {
            Action::Move { point, message: _ } => Some(*point),
            _ => None,
        };
        if let Some(point) = target {
            let v: Point = self.component.position.step_toward(&point, MAX_HERO_VELOCITY);
            self.component.velocity = v;
            let np: Point = self.component.position.add(v);
            self.component.position = snap_to_game_zone(np);
        }
    }
}

/// Moves every hero of the list.
fn move_heroes(heroes: &mut Vec<Hero>)
    requires
        forall|h: int|
            0 <= h < old(heroes)@.len() ==> in_arena(
                (#[trigger] old(heroes)@[h])@.component.position,
            ),
    ensures
        heroes_view(final(heroes)@) == Seq::new(
            old(heroes)@.len(),
            |h: int| moved_hero(old(heroes)@[h]@),
        ),
{
    let n: usize = heroes.len();
    let mut h: usize = 0;
    while h < n
        invariant
            h <= n,
            heroes@.len() == n,
            old(heroes)@.len() == n,
            forall|j: int| 0 <= j < h ==> (#[trigger] heroes@[j])@ == moved_hero(old(heroes)@[j]@),
            forall|j: int| h <= j < n ==> heroes@[j] == old(heroes)@[j],
            forall|j: int|
                0 <= j < n ==> in_arena((#[trigger] old(heroes)@[j])@.component.position),
        decreases n - h,
    {
        heroes[h].advance();
        h += 1;
    }
    assert(heroes_view(heroes@) =~= Seq::new(
        old(heroes)@.len(),
        |h: int| moved_hero(old(heroes)@[h]@),
    ));
}

/// The mana that one side earns in the attack phase.
#[derive(Clone, Copy, Debug)]
pub struct ManaInfo {
    /// The part of it earned on monsters near the side's own base.
    pub wild_mana: i32,
    pub all_mana: i32,
}

/// Number of heroes of the list that reach `p`.
fn count_hits(heroes: &Vec<Hero>, p: &Point) -> (r: usize)
    ensures
        r == hits_upto(heroes_view(heroes@), p@, heroes@.len()),
        r <= heroes@.len(),
{
    let n: usize = heroes.len();
    let mut r: usize = 0;
    let mut h: usize = 0;
    while h < n
        invariant
            h <= n,
            n == heroes@.len(),
            r <= h,
            r == hits_upto(heroes_view(heroes@), p@, h as nat),
        decreases n - h,
    {
        if p.in_range(&heroes[h].component.position, HERO_ATTACK_RADIUS) {
            r += 1;
        }
        h += 1;
    }
    r
}

/// The world made of the given sides and monsters.
pub open spec fn world_of(players: &[Player; 2], monsters: Seq<Monster>) -> World {
    World { players: Seq::new(2, |p: int| players[p]@), monsters: monsters_view(monsters) }
}

/// Lets every hero hit every monster within its reach.
fn attack_monsters(monsters: &mut Vec<Monster>, players: &[Player; 2]) -> (r: [ManaInfo; 2])
    requires
        players[0]@.heroes.len() == HEROES_PER_PLAYER,
        players[1]@.heroes.len() == HEROES_PER_PLAYER,
        6 * old(monsters)@.len() <= i32::MAX,
        forall|m: int|
            0 <= m < old(monsters)@.len() ==> (#[trigger] old(monsters)@[m]).health >= i32::MIN + 12,
    ensures
        monsters_view(final(monsters)@) == Seq::new(
            old(monsters)@.len(),
            |m: int| attacked(world_of(players, old(monsters)@), old(monsters)@[m]@),
        ),
        forall|s: int|
            0 <= s < 2 ==> (#[trigger] r[s]).all_mana == MANA_GAIN_TO_ATTACK * side_hits(
                world_of(players, old(monsters)@),
                s,
            ) && r[s].wild_mana == MANA_GAIN_TO_ATTACK * near_hits(
                world_of(players, old(monsters)@),
                s,
            ),
{
    let ghost w = world_of(players, old(monsters)@);
    let n: usize = monsters.len();
    let mut gain0 = ManaInfo { wild_mana: 0, all_mana: 0 };
    let mut gain1 = ManaInfo { wild_mana: 0, all_mana: 0 };
    let mut m: usize = 0;
    while m < n
        invariant
            m <= n,
            monsters@.len() == n,
            old(monsters)@.len() == n,
            6 * n <= i32::MAX,
            w == world_of(players, old(monsters)@),
            players[0]@.heroes.len() == HEROES_PER_PLAYER,
            players[1]@.heroes.len() == HEROES_PER_PLAYER,
            forall|j: int| 0 <= j < m ==> (#[trigger] monsters@[j])@ == attacked(w, old(monsters)@[j]@),
            forall|j: int| m <= j < n ==> monsters@[j] == old(monsters)@[j],
            forall|j: int| 0 <= j < n ==> (#[trigger] old(monsters)@[j]).health >= i32::MIN + 12,
            gain0.all_mana == MANA_GAIN_TO_ATTACK * side_hits_upto(w, 0, m as nat),
            gain1.all_mana == MANA_GAIN_TO_ATTACK * side_hits_upto(w, 1, m as nat),
            gain0.wild_mana == MANA_GAIN_TO_ATTACK * near_hits_upto(w, 0, m as nat),
            gain1.wild_mana == MANA_GAIN_TO_ATTACK * near_hits_upto(w, 1, m as nat),
            0 <= gain0.wild_mana <= gain0.all_mana <= 6 * m,
            0 <= gain1.wild_mana <= gain1.all_mana <= 6 * m,
        decreases n - m,
    {
        let p: Point = monsters[m].component.position;
        let hits0: usize = count_hits(&players[0].hero_list, &p);
        let hits1: usize = count_hits(&players[1].hero_list, &p);
        assert(hits0 == hits(w, 0, p@));
        assert(hits1 == hits(w, 1, p@));
        assert(w.monsters[m as int].component.position == p@);
        let damage0: i32 = MANA_GAIN_TO_ATTACK * (hits0 as i32);
        let damage1: i32 = MANA_GAIN_TO_ATTACK * (hits1 as i32);
        monsters[m].health = monsters[m].health - (damage0 + damage1);
        gain0.all_mana += damage0;
        gain1.all_mana += damage1;
        if players[0].base.in_range(&p, VISIBLE_RADIUS_FROM_BASE) {
            gain0.wild_mana += damage0;
        }
        if players[1].base.in_range(&p, VISIBLE_RADIUS_FROM_BASE) {
            gain1.wild_mana += damage1;
        }
        m += 1;
    }
    assert(monsters_view(monsters@) =~= Seq::new(
        old(monsters)@.len(),
        |m: int| attacked(w, old(monsters)@[m]@),
    ));
    [gain0, gain1]
}

/// `a / n`, rounded toward zero.
fn divide_wide(a: i128, n: i128) -> (r: i128)
    requires
        n > 0,
        a > i128::MIN,
    ensures
        r == trunc_div(a as int, n as int),
{
    if a >= 0 {
        a / n
    } else {
        let b: i128 = -a;
        assert(0 <= b / n <= b) by (nonlinear_arith)
            requires
                b > 0,
                n > 0,
        ;
        -(b / n)
    }
}

/// The mean of values whose sum is within `bound * n` is within `bound`.
pub proof fn lemma_mean_bound(sum: int, n: int, bound: int)
    requires
        n > 0,
        bound >= 0,
        -(bound * n) <= sum <= bound * n,
    ensures
        -bound <= trunc_div(sum, n) <= bound,
{
    let a = if sum >= 0 {
        sum
    } else {
        -sum
    };
    assert(0 <= a / n <= bound) by (nonlinear_arith)
        requires
            n > 0,
            bound >= 0,
            0 <= a <= bound * n,
    ;
}

/// The sum of `n` moves at monster speed is within `n` times that speed.
pub proof fn lemma_control_sum_bound(pos: Vec2, targets: Seq<Point>, n: nat)
    ensures
        control_sum(pos, targets, n).within(MAX_MONSTER_VELOCITY * n),
    decreases n,
{
    if n > 0 {
        lemma_control_sum_bound(pos, targets, (n - 1) as nat);
        crate::point::lemma_step_toward_bound(
            pos,
            targets[n - 1]@,
            MAX_MONSTER_VELOCITY as int,
        );
    }
}

impl Component {
    /// The move of the actor under control: the mean of the moves at monster
    /// speed toward its control targets.
    pub fn control_step(&self) -> (r: Point)
        requires
            self@.is_controlled(),
        ensures
            r@ == control_step(self@),
            r@.within(MAX_MONSTER_VELOCITY as int),
    {
        let n: usize = self.control_move_target.len();
        let mut sum_x: i128 = 0;
        let mut sum_y: i128 = 0;
        let mut i: usize = 0;
        while i < n
            invariant
                i <= n,
                n == self.control_move_target@.len(),
                (Vec2 { x: sum_x as int, y: sum_y as int }) == control_sum(
                    self@.position,
                    self@.control,
                    i as nat,
                ),
                -(MAX_MONSTER_VELOCITY * i) <= sum_x <= MAX_MONSTER_VELOCITY * i,
                -(MAX_MONSTER_VELOCITY * i) <= sum_y <= MAX_MONSTER_VELOCITY * i,
            decreases n - i,
        {
            let step: Point = self.position.step_toward(
                &self.control_move_target[i],
                MAX_MONSTER_VELOCITY,
            );
            sum_x = sum_x + step.x as i128;
            sum_y = sum_y + step.y as i128;
            i += 1;
        }
        proof {
            lemma_mean_bound(sum_x as int, n as int, MAX_MONSTER_VELOCITY as int);
            lemma_mean_bound(sum_y as int, n as int, MAX_MONSTER_VELOCITY as int);
        }
        Point {
            x: divide_wide(sum_x, n as i128) as i32,
            y: divide_wide(sum_y, n as i128) as i32,
        }
    }
}

impl Monster {
    /// The monster's move of this turn.
    pub fn advance(&mut self)
        requires
            monster_placed(old(self)@, 20000),
        ensures
            final(self)@ == moved_monster(old(self)@),
    {
        if !self.move_canceled() {
            if self.component.is_controlled() {
                let step: Point = self.component.control_step();
                self.component.position = self.component.position.add(step);
            } else {
                self.component.position = self.component.next_pos();
            }
        }
    }
}

/// Moves every monster of the list.
fn move_monsters(monsters: &mut Vec<Monster>)
    requires
        forall|m: int|
            0 <= m < old(monsters)@.len() ==> monster_placed((#[trigger] old(monsters)@[m])@, 20000),
    ensures
        monsters_view(final(monsters)@) == Seq::new(
            old(monsters)@.len(),
            |m: int| moved_monster(old(monsters)@[m]@),
        ),
{
    let n: usize = monsters.len();
    let mut m: usize = 0;
    while m < n
        invariant
            m <= n,
            monsters@.len() == n,
            old(monsters)@.len() == n,
            forall|j: int|
                0 <= j < m ==> (#[trigger] monsters@[j])@ == moved_monster(old(monsters)@[j]@),
            forall|j: int| m <= j < n ==> monsters@[j] == old(monsters)@[j],
            forall|j: int|
                0 <= j < n ==> monster_placed((#[trigger] old(monsters)@[j])@, 20000),
        decreases n - m,
    {
        monsters[m].advance();
        m += 1;
    }
    assert(monsters_view(monsters@) =~= Seq::new(
        old(monsters)@.len(),
        |m: int| moved_monster(old(monsters)@[m]@),
    ));
}

impl Component {
    /// Takes one turn off the shield counter.
    pub fn decay(&mut self)
        ensures
            final(self)@ == old(self)@.decayed(),
    {
        self.shield_life = if self.shield_life > 1 {
            self.shield_life - 1
        } else {
            0
        };
    }
}

/// Takes one turn off the shield counter of every hero of the list.
fn decay_heroes(heroes: &mut Vec<Hero>)
    ensures
        heroes_view(final(heroes)@) == Seq::new(
            old(heroes)@.len(),
            |h: int| HeroView { component: old(heroes)@[h]@.component.decayed(), ..old(heroes)@[h]@ },
        ),
{
    let n: usize = heroes.len();
    let mut h: usize = 0;
    while h < n
        invariant
            h <= n,
            heroes@.len() == n,
            old(heroes)@.len() == n,
            forall|j: int|
                0 <= j < h ==> (#[trigger] heroes@[j])@ == (HeroView {
                    component: old(heroes)@[j]@.component.decayed(),
                    ..old(heroes)@[j]@
                }),
            forall|j: int| h <= j < n ==> heroes@[j] == old(heroes)@[j],
        decreases n - h,
    {
        heroes[h].component.decay();
        h += 1;
    }
    assert(heroes_view(heroes@) =~= Seq::new(
        old(heroes)@.len(),
        |h: int| HeroView { component: old(heroes)@[h]@.component.decayed(), ..old(heroes)@[h]@ },
    ));
}

/// Takes one turn off the shield counter of every monster of the list.
fn decay_monsters(monsters: &mut Vec<Monster>)
    ensures
        monsters_view(final(monsters)@) == Seq::new(
            old(monsters)@.len(),
            |m: int|
                MonsterView {
                    component: old(monsters)@[m]@.component.decayed(),
                    ..old(monsters)@[m]@
                },
        ),
{
    let n: usize = monsters.len();
    let mut m: usize = 0;
    while m < n
        invariant
            m <= n,
            monsters@.len() == n,
            old(monsters)@.len() == n,
            forall|j: int|
                0 <= j < m ==> (#[trigger] monsters@[j])@ == (MonsterView {
                    component: old(monsters)@[j]@.component.decayed(),
                    ..old(monsters)@[j]@
                }),
            forall|j: int| m <= j < n ==> monsters@[j] == old(monsters)@[j],
        decreases n - m,
    {
        monsters[m].component.decay();
        m += 1;
    }
    assert(monsters_view(monsters@) =~= Seq::new(
        old(monsters)@.len(),
        |m: int|
            MonsterView { component: old(monsters)@[m]@.component.decayed(), ..old(monsters)@[m]@ },
    ));
}

impl Components {
    /// Phase 4: every hero that moves makes its move.
    pub fn move_hero(&mut self)
        requires
            old(self)@.heroes_in_arena(),
        ensures
            final(self)@ == move_heroes_phase(old(self)@),
    {
        assert forall|p: int, h: int|
            0 <= p < 2 && 0 <= h < self.player_list[p].hero_list@.len() implies in_arena(
            (#[trigger] self.player_list[p].hero_list@[h])@.component.position,
        ) by {
            assert(self@.players[p].heroes[h] == self.player_list[p].hero_list@[h]@);
        }
        move_heroes(&mut self.player_list[0].hero_list);
        move_heroes(&mut self.player_list[1].hero_list);
        assert(self@ =~~= move_heroes_phase(old(self)@));
    }

    /// Phase 5: every hero hits every monster within its reach. Returns what
    /// each side earns by it.
    pub fn attack_monster(&mut self) -> (r: [ManaInfo; 2])
        requires
            old(self)@.shaped(),
            6 * old(self)@.monsters.len() <= i32::MAX,
            forall|m: int|
                0 <= m < old(self)@.monsters.len() ==> (#[trigger] old(self)@.monsters[m]).health
                    >= i32::MIN + 12,
        ensures
            final(self)@ == attack_phase(old(self)@),
            forall|s: int|
                0 <= s < 2 ==> (#[trigger] r[s]).all_mana == MANA_GAIN_TO_ATTACK * side_hits(
                    old(self)@,
                    s,
                ) && r[s].wild_mana == MANA_GAIN_TO_ATTACK * near_hits(old(self)@, s),
    {
        assert forall|m: int| 0 <= m < self.monster_list@.len() implies (
        #[trigger] self.monster_list@[m]).health >= i32::MIN + 12 by {
            assert(self@.monsters[m].health == self.monster_list@[m].health);
        }
        assert(world_of(&self.player_list, self.monster_list@) =~~= self@);
        let r = attack_monsters(&mut self.monster_list, &self.player_list);
        assert(self@ =~~= attack_phase(old(self)@));
        r
    }

    /// Phase 7: every monster that no wind pushed and that lives makes its move.
    pub fn move_monster(&mut self)
        requires
            old(self)@.monsters_within(20000),
        ensures
            final(self)@ == move_monsters_phase(old(self)@),
    {
        assert forall|m: int| 0 <= m < self.monster_list@.len() implies monster_placed(
            (#[trigger] self.monster_list@[m])@,
            20000,
        ) by {
            assert(self@.monsters[m] == self.monster_list@[m]@);
        }
        move_monsters(&mut self.monster_list);
        assert(self@ =~~= move_monsters_phase(old(self)@));
    }

    /// Phase 8: every shield counter goes down by one, not below zero.
    pub fn countdown_shield(&mut self)
        ensures
            final(self)@ == decay_phase(old(self)@),
    {
        decay_heroes(&mut self.player_list[0].hero_list);
        decay_heroes(&mut self.player_list[1].hero_list);
        decay_monsters(&mut self.monster_list);
        assert(self@ =~~= decay_phase(old(self)@));
    }
}

} // verus!
