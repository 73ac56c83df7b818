//! Phase 6: the winds are cast, and push what they reach.
use crate::entity::{
    heroes_view, monsters_view, Action, Component, ComponentType, Components, Hero, Monster,
};
use crate::engine::snap_to_game_zone;
use crate::line::Line;
use crate::model::{
    blown_hero, blown_monster, casters, crosses_leg, leaves_base, leg_end, leg_start,
    monster_placed, push_count, push_sum, scatter_velocity, scattered_upto, scatters, wind_applies,
    wind_lands, wind_of, wind_paid_upto, winds_upto, WindCast,
};
use crate::point::Point;
use crate::random::{lemma_skip_position, CachedRandom};
use crate::rules::{
    base_of, in_arena, HEROES_PER_PLAYER, MANA_TO_SPELL, MAX_X, MAX_Y, VISIBLE_RADIUS_FROM_BASE,
    WIND_DISTANCE, WIND_EFFECTIVE_RADIUS,
};
use vstd::prelude::*;

verus! {

/// A wind that was cast: by which side, from where, and the push it gives.
#[derive(Clone, Copy, Debug)]
pub struct Wind {
    pub side: usize,
    pub origin: Point,
    pub push: Point,
}

impl View for Wind {
    type V = WindCast;

    open spec fn view(&self) -> WindCast {
        WindCast { side: self.side as int, origin: self.origin@, push: self.push@ }
    }
}

/// The views of a list of winds.
pub open spec fn winds_view(v: Seq<Wind>) -> Seq<WindCast> {
    Seq::new(v.len(), |i: int| v[i]@)
}

/// Every push of the list is no longer than one wind's.
pub open spec fn winds_bounded(v: Seq<Wind>) -> bool {
    forall|i: int| 0 <= i < v.len() ==> (#[trigger] v[i]).push@.within(WIND_DISTANCE as int)
}

/// Whether the way from `p` to `np` crosses one of the four legs that run
/// from each base along the borders of the playfield.
pub fn go_outside_around_base(p: &Point, np: &Point) -> (r: bool)
    ensures
        r == crosses_leg(p@, np@),
{
    let near = Point { x: 0, y: 0 };
    let far = Point { x: MAX_X - 1, y: MAX_Y - 1 };
    let target = Line { p1: *p, p2: *np };
    let leg0 = Line { p1: near, p2: Point { x: VISIBLE_RADIUS_FROM_BASE, y: 0 } };
    let leg1 = Line { p1: near, p2: Point { x: 0, y: VISIBLE_RADIUS_FROM_BASE } };
    let leg2 = Line { p1: far, p2: Point { x: MAX_X - VISIBLE_RADIUS_FROM_BASE - 1, y: MAX_Y - 1 } };
    let leg3 = Line { p1: far, p2: Point { x: MAX_X - 1, y: MAX_Y - VISIBLE_RADIUS_FROM_BASE - 1 } };
    proof {
        assert(leg0.p1@ == leg_start(0) && leg0.p2@ == leg_end(0));
        assert(leg1.p1@ == leg_start(1) && leg1.p2@ == leg_end(1));
        assert(leg2.p1@ == leg_start(2) && leg2.p2@ == leg_end(2));
        assert(leg3.p1@ == leg_start(3) && leg3.p2@ == leg_end(3));
    }
    leg0.intersect(&target).is_some() || leg1.intersect(&target).is_some() || leg2.intersect(
        &target,
    ).is_some() || leg3.intersect(&target).is_some()
}

/// Whether the way from `p` to `np` leads from near a base to far from it.
pub fn go_out_from_base(p: &Point, np: &Point) -> (r: bool)
    ensures
        r == leaves_base(p@, np@),
{
    let near = Point { x: 0, y: 0 };
    let far = Point { x: MAX_X, y: MAX_Y };
    proof {
        assert(near@ == base_of(0) && far@ == base_of(1));
    }
    (near.in_range(p, VISIBLE_RADIUS_FROM_BASE) && !near.in_range(np, VISIBLE_RADIUS_FROM_BASE))
        || (far.in_range(p, VISIBLE_RADIUS_FROM_BASE) && !far.in_range(
        np,
        VISIBLE_RADIUS_FROM_BASE,
    ))
}

impl Wind {
    /// Whether the wind pushes the actor.
    pub fn applies(&self, c: &Component) -> (r: bool)
        ensures
            r == wind_applies(self@, c@),
    {
        let exposed: bool = match c.component_type {
            ComponentType::Monster => true,
            ComponentType::PlayerHero => self.side == 1,
            ComponentType::OpponentHero => self.side == 0,
        };
        exposed && c.position.in_range(&self.origin, WIND_EFFECTIVE_RADIUS) && c.shield_life == 0
    }
}

/// The pushes of `n` winds sum up to no more than `n` times one wind's.
pub proof fn lemma_push_sum_bound(winds: Seq<Wind>, c: crate::entity::ComponentView, n: nat)
    requires
        winds_bounded(winds),
        n <= winds.len(),
    ensures
        push_sum(winds_view(winds), c, n).within(WIND_DISTANCE * n),
        push_count(winds_view(winds), c, n) <= n,
    decreases n,
{
    if n > 0 {
        lemma_push_sum_bound(winds, c, (n - 1) as nat);
        assert(winds_view(winds)[n - 1].push == winds[n - 1].push@);
    }
}

/// How many of the winds push the actor, and the sum of their pushes.
pub fn push_on(winds: &Vec<Wind>, c: &Component) -> (r: (usize, Point))
    requires
        winds_bounded(winds@),
        winds@.len() <= casters(),
    ensures
        r.0 == push_count(winds_view(winds@), c@, winds@.len()),
        r.1@ == push_sum(winds_view(winds@), c@, winds@.len()),
        r.1@.within(WIND_DISTANCE * casters()),
{
    let n: usize = winds.len();
    let mut count: usize = 0;
    let mut sum = Point { x: 0, y: 0 };
    let mut i: usize = 0;
    while i < n
        invariant
            i <= n,
            n == winds@.len(),
            n <= casters(),
            winds_bounded(winds@),
            count == push_count(winds_view(winds@), c@, i as nat),
            sum@ == push_sum(winds_view(winds@), c@, i as nat),
        decreases n - i,
    {
        proof {
            lemma_push_sum_bound(winds@, c@, i as nat);
            lemma_push_sum_bound(winds@, c@, (i + 1) as nat);
        }
        if winds[i].applies(c) {
            count += 1;
            sum = sum.add(winds[i].push);
        }
        i += 1;
    }
    proof {
        lemma_push_sum_bound(winds@, c@, n as nat);
    }
    (count, sum)
}

impl Hero {
    /// Lets the winds push the hero.
    pub fn blow(&mut self, winds: &Vec<Wind>)
        requires
            winds_bounded(winds@),
            winds@.len() <= casters(),
            in_arena(old(self)@.component.position),
        ensures
            final(self)@ == blown_hero(winds_view(winds@), old(self)@),
    {
        let (count, sum) = push_on(winds, &self.component);
        if count > 0 {
            self.component.pushed = true;
            let np: Point = self.component.position.add(sum);
            self.component.position = snap_to_game_zone(np);
        }
    }
}

/// Lets the winds push every hero of the list.
fn blow_heroes(heroes: &mut Vec<Hero>, winds: &Vec<Wind>)
    requires
        winds_bounded(winds@),
        winds@.len() <= casters(),
        forall|h: int|
            0 <= h < old(heroes)@.len() ==> in_arena(
                (#[trigger] old(heroes)@[h])@.component.position,
            ),
    ensures
        heroes_view(final(heroes)@) == Seq::new(
            old(heroes)@.len(),
            |h: int| blown_hero(winds_view(winds@), old(heroes)@[h]@),
        ),
{
    let n: usize = heroes.len();
    let mut h: usize = 0;
    while h < n
        invariant
            h <= n,
            heroes@.len() == n,
            old(heroes)@.len() == n,
            winds_bounded(winds@),
            winds@.len() <= casters(),
            forall|j: int|
                0 <= j < h ==> (#[trigger] heroes@[j])@ == blown_hero(
                    winds_view(winds@),
                    old(heroes)@[j]@,
                ),
            forall|j: int| h <= j < n ==> heroes@[j] == old(heroes)@[j],
            forall|j: int|
                0 <= j < n ==> in_arena((#[trigger] old(heroes)@[j])@.component.position),
        decreases n - h,
    {
        heroes[h].blow(winds);
        h += 1;
    }
    assert(heroes_view(heroes@) =~= Seq::new(
        old(heroes)@.len(),
        |h: int| blown_hero(winds_view(winds@), old(heroes)@[h]@),
    ));
}

impl Monster {
    /// Lets the winds push the monster. A monster that they scatter takes
    /// the velocity that `scatter` holds for the next draw, and that draw is
    /// made.
    pub fn blow(&mut self, winds: &Vec<Wind>, random: &mut CachedRandom, scatter: &Vec<Point>)
        requires
            winds_bounded(winds@),
            winds@.len() <= casters(),
            monster_placed(old(self)@, 0),
            old(random).wf(),
            scatter@.len() == old(random)@.table.len(),
        ensures
            final(self)@ == blown_monster(
                winds_view(winds@),
                old(self)@,
                scatter@[old(random)@.index as int]@,
            ),
            final(random)@ == if scatters(winds_view(winds@), old(self)@.component) {
                old(random)@.advance()
            } else {
                old(random)@
            },
            final(random).wf(),
    {
        let (count, sum) = push_on(winds, &self.component);
        if count > 0 {
            self.component.pushed = true;
            let p: Point = self.component.position;
            let np: Point = p.add(sum);
            if go_outside_around_base(&p, &np) {
                self.component.position = snap_to_game_zone(np);
            } else {
                self.component.position = np;
                if go_out_from_base(&p, &np) {
                    let i: usize = random.index();
                    random.next_int();
                    self.component.velocity = scatter[i];
                }
            }
        }
    }
}

/// Lets the winds push every monster of the list, in its order.
fn blow_monsters(
    monsters: &mut Vec<Monster>,
    winds: &Vec<Wind>,
    random: &mut CachedRandom,
    scatter: &Vec<Point>,
)
    requires
        winds_bounded(winds@),
        winds@.len() <= casters(),
        forall|m: int|
            0 <= m < old(monsters)@.len() ==> monster_placed((#[trigger] old(monsters)@[m])@, 0),
        old(random).wf(),
        scatter@.len() == old(random)@.table.len(),
    ensures
        monsters_view(final(monsters)@) == Seq::new(
            old(monsters)@.len(),
            |m: int|
                blown_monster(
                    winds_view(winds@),
                    old(monsters)@[m]@,
                    scatter_velocity(
                        winds_view(winds@),
                        monsters_view(old(monsters)@),
                        old(random)@,
                        scatter@,
                        m,
                    ),
                ),
        ),
        final(random)@ == old(random)@.skip(
            scattered_upto(
                winds_view(winds@),
                monsters_view(old(monsters)@),
                old(monsters)@.len() as nat,
            ),
        ),
        final(random).wf(),
{
    let ghost wv = winds_view(winds@);
    let ghost before = monsters_view(monsters@);
    let ghost start = random@;
    let n: usize = monsters.len();
    let mut m: usize = 0;
    while m < n
        invariant
            m <= n,
            monsters@.len() == n,
            old(monsters)@.len() == n,
            wv == winds_view(winds@),
            before == monsters_view(old(monsters)@),
            start == old(random)@,
            start.wf(),
            winds_bounded(winds@),
            winds@.len() <= casters(),
            random.wf(),
            scatter@.len() == start.table.len(),
            random@ == start.skip(scattered_upto(wv, before, m as nat)),
            forall|j: int|
                0 <= j < m ==> (#[trigger] monsters@[j])@ == blown_monster(
                    wv,
                    before[j],
                    scatter_velocity(wv, before, start, scatter@, j),
                ),
            forall|j: int| m <= j < n ==> monsters@[j] == old(monsters)@[j],
            forall|j: int|
                0 <= j < n ==> monster_placed((#[trigger] old(monsters)@[j])@, 0),
        decreases n - m,
    {
        proof {
            lemma_skip_position(start, scattered_upto(wv, before, m as nat));
            assert(before[m as int] == monsters@[m as int]@);
        }
        monsters[m].blow(winds, random, scatter);
        m += 1;
    }
    assert(monsters_view(monsters@) =~= Seq::new(
        old(monsters)@.len(),
        |m: int|
            blown_monster(wv, before[m], scatter_velocity(wv, before, start, scatter@, m)),
    ));
}

impl Components {
    /// The wind that hero `h` of `side` casts, if it lands.
    pub fn wind_of(&self, side: usize, h: usize) -> (r: Option<Wind>)
        requires
            self@.shaped(),
            side < 2,
            h < HEROES_PER_PLAYER,
        ensures
            r.is_some() == wind_lands(self@, side as int, h as int),
            r matches Some(wind) ==> wind@ == wind_of(self@, side as int, h as int)
                && wind.push@.within(WIND_DISTANCE as int),
    {
        let hero = &self.player_list[side].hero_list[h];
        assert(hero@ == self@.hero(side as int, h as int));
        match &hero.action {
            Action::Wind { point, message: _ } => {
                if MANA_TO_SPELL <= self.player_list[side].mana && *point
                    != hero.component.position {
                    Some(
                        Wind {
                            side,
                            origin: hero.component.position,
                            push: hero.component.position.heading(point, WIND_DISTANCE),
                        },
                    )
                } else {
                    None
                }
            },
            _ => None,
        }
    }

    /// Lets every hero that casts a wind have its turn, side 0 first: the
    /// winds that land are paid for and returned in the order of their casters.
    pub fn cast_winds(&mut self) -> (r: Vec<Wind>)
        requires
            old(self)@.shaped(),
        ensures
            final(self)@ == wind_paid_upto(old(self)@, casters()),
            winds_view(r@) == winds_upto(old(self)@, casters()),
            winds_bounded(r@),
            r@.len() <= casters(),
    {
        let mut winds: Vec<Wind> = Vec::new();
        let mut k: usize = 0;
        assert(winds_view(winds@) =~= winds_upto(old(self)@, 0));
        while k < 2 * HEROES_PER_PLAYER
            invariant
                k <= 2 * HEROES_PER_PLAYER,
                self@ == wind_paid_upto(old(self)@, k as nat),
                self@.shaped(),
                winds_view(winds@) == winds_upto(old(self)@, k as nat),
                winds_bounded(winds@),
                winds@.len() <= k,
            decreases 2 * HEROES_PER_PLAYER - k,
        {
            let side: usize = k / HEROES_PER_PLAYER;
            let h: usize = k % HEROES_PER_PLAYER;
            let ghost earlier = winds@;
            if let Some(wind) = self.wind_of(side, h) {
                self.pay(side);
                winds.push(wind);
                assert(winds_view(winds@) =~= winds_view(earlier).push(wind@));
            }
            k += 1;
        }
        winds
    }

    /// Lets the winds push every hero.
    pub fn blow_heroes(&mut self, winds: &Vec<Wind>)
        requires
            winds_bounded(winds@),
            winds@.len() <= casters(),
            old(self)@.heroes_in_arena(),
        ensures
            final(self)@ == old(self)@.map_heroes(|h: crate::entity::HeroView| blown_hero(winds_view(winds@), h)),
    {
        assert forall|p: int, h: int|
            0 <= p < 2 && 0 <= h < self.player_list[p].hero_list@.len() implies in_arena(
            (#[trigger] self.player_list[p].hero_list@[h])@.component.position,
        ) by {
            assert(self@.players[p].heroes[h] == self.player_list[p].hero_list@[h]@);
        }
        blow_heroes(&mut self.player_list[0].hero_list, winds);
        blow_heroes(&mut self.player_list[1].hero_list, winds);
        assert(self@ =~~= old(self)@.map_heroes(|h: crate::entity::HeroView| blown_hero(winds_view(winds@), h)));
    }

    /// Lets the winds push every monster, in the order of the list.
    pub fn blow_monsters(
        &mut self,
        winds: &Vec<Wind>,
        random: &mut CachedRandom,
        scatter: &Vec<Point>,
    )
        requires
            winds_bounded(winds@),
            winds@.len() <= casters(),
            old(self)@.monsters_within(0),
            old(random).wf(),
            scatter@.len() == old(random)@.table.len(),
        ensures
            final(self)@.players == old(self)@.players,
            final(self)@.monsters == Seq::new(
                old(self)@.monsters.len(),
                |m: int|
                    blown_monster(
                        winds_view(winds@),
                        old(self)@.monsters[m],
                        scatter_velocity(
                            winds_view(winds@),
                            old(self)@.monsters,
                            old(random)@,
                            scatter@,
                            m,
                        ),
                    ),
            ),
            final(random)@ == old(random)@.skip(
                scattered_upto(
                    winds_view(winds@),
                    old(self)@.monsters,
                    old(self)@.monsters.len(),
                ),
            ),
            final(random).wf(),
    {
        assert forall|m: int| 0 <= m < self.monster_list@.len() implies monster_placed(
            (#[trigger] self.monster_list@[m])@,
            0,
        ) by {
            assert(self@.monsters[m] == self.monster_list@[m]@);
        }
        blow_monsters(&mut self.monster_list, winds, random, scatter);
        assert(final(self)@.players =~~= old(self)@.players);
    }
}

} // verus!
