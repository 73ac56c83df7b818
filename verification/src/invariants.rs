//! What every phase keeps in order.
use crate::entity::{ActionView, ComponentView, HeroView, MonsterView, World};
use crate::model::{
    attack_phase, blown_hero, caster_hero, caster_side, control_cast, control_upto, decay_phase,
    hero_ok, hits, hits_upto, monster_ok, move_heroes_phase, move_monsters_phase, moved_hero,
    moved_monster, pay, push_count, push_sum, reset_phase, scatter_velocity, shield_cast,
    shield_upto, spawn_draws, spawn_pair, spawn_point, spawn_velocity, spawned, spawned_upto,
    spawns, spell_lands, survivors, survivors_upto, survives, wind_lands, wind_paid_upto,
    wind_world, winds_upto, WindCast,
};
use crate::point::{lemma_heading_bound, lemma_step_toward_bound, Point, Vec2};
use crate::random::{lemma_skip_position, RandomView};
use crate::rules::{
    base_of, spawn_health, HEROES_PER_PLAYER, MANA_GAIN_TO_ATTACK, MANA_TO_SPELL,
    MAX_HERO_VELOCITY, MAX_MONSTER_VELOCITY, MAX_X, MAX_Y, SHIELD_EFFECTIVE_TURN, WIND_DISTANCE,
};
use vstd::prelude::*;

verus! {

impl World {
    /// `other` has the same actors as `self`, by their ids and their places in
    /// the fixed order.
    pub open spec fn same_cast(self, other: World) -> bool {
        &&& other.players.len() == self.players.len()
        &&& other.players[0].heroes.len() == self.players[0].heroes.len()
        &&& other.players[1].heroes.len() == self.players[1].heroes.len()
        &&& other.monsters.len() == self.monsters.len()
        &&& forall|i: int|
            0 <= i < self.count() ==> (#[trigger] other.component(i)).id == self.component(i).id
    }

    /// Every id is below `next_id`.
    pub open spec fn ids_below(self, next_id: int) -> bool {
        forall|i: int| 0 <= i < self.count() ==> (#[trigger] self.component(i)).id < next_id
    }

    /// No side has more mana than in `before`.
    pub open spec fn not_richer(self, before: World) -> bool {
        self.players[0].mana <= before.players[0].mana && self.players[1].mana
            <= before.players[1].mana
    }
}

/// The same actors have ids as unique, and as far below a bound, as before.
pub proof fn lemma_same_cast(w: World, other: World, next_id: int)
    requires
        w.same_cast(other),
    ensures
        w.unique_ids() ==> other.unique_ids(),
        w.ids_below(next_id) ==> other.ids_below(next_id),
        other.count() == w.count(),
        forall|id: int, from: int| 0 <= from ==> other.find_from(id, from) == w.find_from(id, from),
{
    if w.unique_ids() {
        assert forall|i: int, j: int| 0 <= i < j < other.count() implies (
        #[trigger] other.component(i)).id != (#[trigger] other.component(j)).id by {
            assert(w.component(i).id != w.component(j).id);
        }
    }
    if w.ids_below(next_id) {
        assert forall|i: int| 0 <= i < other.count() implies (#[trigger] other.component(i)).id
            < next_id by {
            assert(w.component(i).id < next_id);
        }
    }
    assert forall|id: int, from: int| 0 <= from implies other.find_from(id, from) == w.find_from(
        id,
        from,
    ) by {
        lemma_same_cast_find(w, other, id, from);
    }
}

/// An id is found at the same place among the same actors.
pub proof fn lemma_same_cast_find(w: World, other: World, id: int, from: int)
    requires
        w.same_cast(other),
        0 <= from,
    ensures
        other.find_from(id, from) == w.find_from(id, from),
    decreases w.count() - from,
{
    if from < w.count() {
        assert(other.component(from).id == w.component(from).id);
        if w.component(from).id != id {
            lemma_same_cast_find(w, other, id, from + 1);
        }
    }
}

/// Having the same actors is transitive.
pub proof fn lemma_same_cast_trans(a: World, b: World, c: World)
    requires
        a.same_cast(b),
        b.same_cast(c),
    ensures
        a.same_cast(c),
{
    assert forall|i: int| 0 <= i < a.count() implies (#[trigger] c.component(i)).id == a.component(
        i,
    ).id by {
        assert(b.component(i).id == a.component(i).id);
    }
}

/// Phase 1 keeps the world in order.
pub proof fn lemma_reset_sane(
    w: World,
    first: Seq<ActionView>,
    second: Seq<ActionView>,
    margin: int,
    floor: int,
)
    requires
        w.sane(margin, floor),
    ensures
        reset_phase(w, first, second).sane(margin, floor),
        w.same_cast(reset_phase(w, first, second)),
        reset_phase(w, first, second).not_richer(w),
{
    let r = reset_phase(w, first, second);
    assert forall|i: int| 0 <= i < w.count() implies (#[trigger] r.component(i)).id == w.component(
        i,
    ).id by {}
    lemma_same_cast(w, r, 0);
    assert forall|p: int, h: int| 0 <= p < 2 && 0 <= h < HEROES_PER_PLAYER implies hero_ok(
        #[trigger] r.players[p].heroes[h],
        p,
    ) by {
        assert(hero_ok(w.players[p].heroes[h], p));
    }
    assert forall|m: int| 0 <= m < r.monsters.len() implies monster_ok(
        #[trigger] r.monsters[m],
        margin,
        floor,
    ) by {
        assert(monster_ok(w.monsters[m], margin, floor));
    }
}

/// Replacing an actor by one with the same id, kind, place and speed, and a
/// shield counter in range, keeps the world in order.
pub proof fn lemma_with_component_sane(
    w: World,
    i: int,
    c: ComponentView,
    margin: int,
    floor: int,
)
    requires
        w.sane(margin, floor),
        0 <= i < w.count(),
        c.id == w.component(i).id,
        c.kind == w.component(i).kind,
        c.max_velocity == w.component(i).max_velocity,
        c.position == w.component(i).position,
        c.velocity == w.component(i).velocity,
        0 <= c.shield_life <= SHIELD_EFFECTIVE_TURN + 1,
    ensures
        w.with_component(i, c).sane(margin, floor),
        w.same_cast(w.with_component(i, c)),
        w.with_component(i, c).players[0].mana == w.players[0].mana,
        w.with_component(i, c).players[1].mana == w.players[1].mana,
{
    let r = w.with_component(i, c);
    let n0 = w.players[0].heroes.len() as int;
    let n1 = w.players[1].heroes.len() as int;
    assert forall|j: int| 0 <= j < w.count() implies (#[trigger] r.component(j)).id == w.component(
        j,
    ).id by {}
    lemma_same_cast(w, r, 0);
    assert forall|p: int, h: int| 0 <= p < 2 && 0 <= h < HEROES_PER_PLAYER implies hero_ok(
        #[trigger] r.players[p].heroes[h],
        p,
    ) by {
        assert(hero_ok(w.players[p].heroes[h], p));
    }
    assert forall|m: int| 0 <= m < r.monsters.len() implies monster_ok(
        #[trigger] r.monsters[m],
        margin,
        floor,
    ) by {
        assert(monster_ok(w.monsters[m], margin, floor));
    }
}

/// Paying for a spell that the side can pay keeps the world in order.
pub proof fn lemma_pay_sane(w: World, side: int, margin: int, floor: int)
    requires
        w.sane(margin, floor),
        0 <= side < 2,
        w.players[side].mana >= MANA_TO_SPELL,
    ensures
        pay(w, side).sane(margin, floor),
        w.same_cast(pay(w, side)),
        pay(w, side).not_richer(w),
        pay(w, side).monsters == w.monsters,
        forall|p: int| 0 <= p < 2 ==> (#[trigger] pay(w, side).players[p]).heroes == w.players[p].heroes,
{
    let r = pay(w, side);
    assert forall|j: int| 0 <= j < w.count() implies (#[trigger] r.component(j)).id == w.component(
        j,
    ).id by {}
    lemma_same_cast(w, r, 0);
    assert forall|p: int, h: int| 0 <= p < 2 && 0 <= h < HEROES_PER_PLAYER implies hero_ok(
        #[trigger] r.players[p].heroes[h],
        p,
    ) by {
        assert(hero_ok(w.players[p].heroes[h], p));
    }
}

/// One turn of a hero in the control phase keeps the world in order.
pub proof fn lemma_control_cast_sane(w: World, side: int, h: int, margin: int, floor: int)
    requires
        w.sane(margin, floor),
        0 <= side < 2,
        0 <= h < HEROES_PER_PLAYER,
    ensures
        control_cast(w, side, h).sane(margin, floor),
        w.same_cast(control_cast(w, side, h)),
        control_cast(w, side, h).not_richer(w),
{
    match w.hero(side, h).action {
        ActionView::Control { entity_id, point, .. } => {
            if spell_lands(w, side, h, entity_id) {
                let i = w.find(entity_id);
                crate::entity::lemma_find_from(w, entity_id, 0);
                let t = w.component(i);
                let paid = pay(w, side);
                lemma_pay_sane(w, side, margin, floor);
                assert(paid.component(i) == t);
                lemma_with_component_sane(
                    paid,
                    i,
                    ComponentView { next_control: t.next_control.push(point), ..t },
                    margin,
                    floor,
                );
                lemma_same_cast_trans(w, paid, control_cast(w, side, h));
            }
        },
        _ => {},
    }
    lemma_same_cast_refl(w);
}

/// A world has the same actors as itself.
pub proof fn lemma_same_cast_refl(w: World)
    ensures
        w.same_cast(w),
{
}

/// The control phase keeps the world in order.
pub proof fn lemma_control_sane(w: World, k: nat, margin: int, floor: int)
    requires
        w.sane(margin, floor),
        k <= 2 * HEROES_PER_PLAYER,
    ensures
        control_upto(w, k).sane(margin, floor),
        w.same_cast(control_upto(w, k)),
        control_upto(w, k).not_richer(w),
    decreases k,
{
    if k > 0 {
        lemma_control_sane(w, (k - 1) as nat, margin, floor);
        let prev = control_upto(w, (k - 1) as nat);
        lemma_control_cast_sane(prev, caster_side(k - 1), caster_hero(k - 1), margin, floor);
        lemma_same_cast_trans(w, prev, control_upto(w, k));
    } else {
        lemma_same_cast_refl(w);
    }
}

/// One turn of a hero in the shield phase keeps the world in order.
pub proof fn lemma_shield_cast_sane(w: World, side: int, h: int, margin: int, floor: int)
    requires
        w.sane(margin, floor),
        0 <= side < 2,
        0 <= h < HEROES_PER_PLAYER,
    ensures
        shield_cast(w, side, h).sane(margin, floor),
        w.same_cast(shield_cast(w, side, h)),
        shield_cast(w, side, h).not_richer(w),
{
    match w.hero(side, h).action {
        ActionView::Shield { entity_id, .. } => {
            if spell_lands(w, side, h, entity_id) {
                let i = w.find(entity_id);
                crate::entity::lemma_find_from(w, entity_id, 0);
                let t = w.component(i);
                let paid = pay(w, side);
                lemma_pay_sane(w, side, margin, floor);
                assert(paid.component(i) == t);
                lemma_with_component_sane(
                    paid,
                    i,
                    ComponentView { shield_life: SHIELD_EFFECTIVE_TURN + 1, ..t },
                    margin,
                    floor,
                );
                lemma_same_cast_trans(w, paid, shield_cast(w, side, h));
            }
        },
        _ => {},
    }
    lemma_same_cast_refl(w);
}

/// The shield phase keeps the world in order.
pub proof fn lemma_shield_sane(w: World, k: nat, margin: int, floor: int)
    requires
        w.sane(margin, floor),
        k <= 2 * HEROES_PER_PLAYER,
    ensures
        shield_upto(w, k).sane(margin, floor),
        w.same_cast(shield_upto(w, k)),
        shield_upto(w, k).not_richer(w),
    decreases k,
{
    if k > 0 {
        lemma_shield_sane(w, (k - 1) as nat, margin, floor);
        let prev = shield_upto(w, (k - 1) as nat);
        lemma_shield_cast_sane(prev, caster_side(k - 1), caster_hero(k - 1), margin, floor);
        lemma_same_cast_trans(w, prev, shield_upto(w, k));
    } else {
        lemma_same_cast_refl(w);
    }
}

/// A hero in order is in order after its move.
pub proof fn lemma_moved_hero_ok(h: HeroView, side: int)
    requires
        hero_ok(h, side),
    ensures
        hero_ok(moved_hero(h), side),
        moved_hero(h).component.id == h.component.id,
{
    match h.action {
        ActionView::Move { point, .. } => {
            lemma_step_toward_bound(h.component.position, point@, MAX_HERO_VELOCITY as int);
        },
        _ => {},
    }
}

/// Phase 4 keeps the world in order.
pub proof fn lemma_move_heroes_sane(w: World, margin: int, floor: int)
    requires
        w.sane(margin, floor),
    ensures
        move_heroes_phase(w).sane(margin, floor),
        w.same_cast(move_heroes_phase(w)),
        move_heroes_phase(w).not_richer(w),
        move_heroes_phase(w).monsters == w.monsters,
{
    let r = move_heroes_phase(w);
    assert forall|p: int, h: int| 0 <= p < 2 && 0 <= h < HEROES_PER_PLAYER implies hero_ok(
        #[trigger] r.players[p].heroes[h],
        p,
    ) && r.players[p].heroes[h].component.id == w.players[p].heroes[h].component.id by {
        assert(hero_ok(w.players[p].heroes[h], p));
        lemma_moved_hero_ok(w.players[p].heroes[h], p);
    }
    assert forall|j: int| 0 <= j < w.count() implies (#[trigger] r.component(j)).id == w.component(
        j,
    ).id by {
        if j < 3 {
            assert(r.players[0].heroes[j].component.id == w.players[0].heroes[j].component.id);
        } else if j < 6 {
            assert(r.players[1].heroes[j - 3].component.id == w.players[1].heroes[j
                - 3].component.id);
        }
    }
    lemma_same_cast(w, r, 0);
}

/// The number of hits is at most the number of heroes.
pub proof fn lemma_hits_bound(heroes: Seq<HeroView>, p: Vec2, n: nat)
    ensures
        hits_upto(heroes, p, n) <= n,
    decreases n,
{
    if n > 0 {
        lemma_hits_bound(heroes, p, (n - 1) as nat);
    }
}

/// Phase 5 keeps the world in order, but for the health of the monsters,
/// which may sink by the damage of every hero.
pub proof fn lemma_attack_sane(w: World, margin: int, floor: int)
    requires
        w.sane(margin, floor),
    ensures
        attack_phase(w).sane(margin, floor - 2 * MANA_GAIN_TO_ATTACK * HEROES_PER_PLAYER),
        w.same_cast(attack_phase(w)),
        attack_phase(w).players == w.players,
{
    let r = attack_phase(w);
    assert forall|j: int| 0 <= j < w.count() implies (#[trigger] r.component(j)).id == w.component(
        j,
    ).id by {}
    lemma_same_cast(w, r, 0);
    assert forall|m: int| 0 <= m < r.monsters.len() implies monster_ok(
        #[trigger] r.monsters[m],
        margin,
        floor - 2 * MANA_GAIN_TO_ATTACK * HEROES_PER_PLAYER,
    ) by {
        assert(monster_ok(w.monsters[m], margin, floor));
        let p = w.monsters[m].component.position;
        lemma_hits_bound(w.players[0].heroes, p, w.players[0].heroes.len());
        lemma_hits_bound(w.players[1].heroes, p, w.players[1].heroes.len());
    }
    assert forall|p: int, h: int| 0 <= p < 2 && 0 <= h < HEROES_PER_PLAYER implies hero_ok(
        #[trigger] r.players[p].heroes[h],
        p,
    ) by {
        assert(hero_ok(w.players[p].heroes[h], p));
    }
}

/// Every push of the list is no longer than one wind's.
pub open spec fn winds_within(winds: Seq<WindCast>) -> bool {
    forall|i: int| 0 <= i < winds.len() ==> (#[trigger] winds[i]).push.within(WIND_DISTANCE as int)
}

/// Paying for the winds keeps the world in order and moves nobody; no more
/// winds land than casters had their turn, and no push is longer than one
/// wind's.
pub proof fn lemma_wind_paid_sane(w: World, k: nat, margin: int, floor: int)
    requires
        w.sane(margin, floor),
        k <= 2 * HEROES_PER_PLAYER,
    ensures
        wind_paid_upto(w, k).sane(margin, floor),
        w.same_cast(wind_paid_upto(w, k)),
        wind_paid_upto(w, k).not_richer(w),
        wind_paid_upto(w, k).monsters == w.monsters,
        forall|p: int|
            0 <= p < 2 ==> (#[trigger] wind_paid_upto(w, k).players[p]).heroes
                == w.players[p].heroes,
        winds_upto(w, k).len() <= k,
        winds_within(winds_upto(w, k)),
        wind_paid_upto(w, k).heroes_in_arena(),
    decreases k,
{
    if k > 0 {
        lemma_wind_paid_sane(w, (k - 1) as nat, margin, floor);
        let prev = wind_paid_upto(w, (k - 1) as nat);
        let side = caster_side(k - 1);
        let h = caster_hero(k - 1);
        if wind_lands(prev, side, h) {
            lemma_pay_sane(prev, side, margin, floor);
            lemma_same_cast_trans(w, prev, wind_paid_upto(w, k));
            let wind = crate::model::wind_of(prev, side, h);
            let origin = prev.hero(side, h).component.position;
            match prev.hero(side, h).action {
                ActionView::Wind { point, .. } => {
                    lemma_heading_bound(origin, point@, WIND_DISTANCE as int);
                },
                _ => {},
            }
            assert(wind.push.within(WIND_DISTANCE as int));
        }
    } else {
        lemma_same_cast_refl(w);
    }
    lemma_sane_weaken(wind_paid_upto(w, k), margin, floor, margin, floor);
}

/// The pushes of `n` winds sum up to no more than `n` times one wind's.
pub proof fn lemma_push_bound(winds: Seq<WindCast>, c: ComponentView, n: nat)
    requires
        winds_within(winds),
        n <= winds.len(),
    ensures
        push_sum(winds, c, n).within(WIND_DISTANCE * n),
        push_count(winds, c, n) <= n,
    decreases n,
{
    if n > 0 {
        lemma_push_bound(winds, c, (n - 1) as nat);
    }
}

/// Phase 6 keeps the world in order; it may push a monster as far as six
/// winds' length from where it was.
pub proof fn lemma_wind_sane(w: World, random: RandomView, scatter: Seq<Point>, floor: int)
    requires
        w.sane(0, floor),
        random.wf(),
        scatter.len() == random.table.len(),
        forall|i: int|
            0 <= i < scatter.len() ==> (#[trigger] scatter[i])@.within(MAX_MONSTER_VELOCITY as int),
    ensures
        wind_world(w, random, scatter).sane(6 * WIND_DISTANCE, floor),
        w.same_cast(wind_world(w, random, scatter)),
        wind_world(w, random, scatter).not_richer(w),
{
    let k = 2 * HEROES_PER_PLAYER as nat;
    let winds = winds_upto(w, k);
    let paid = wind_paid_upto(w, k);
    let r = wind_world(w, random, scatter);
    lemma_wind_paid_sane(w, k, 0, floor);
    assert forall|p: int, h: int| 0 <= p < 2 && 0 <= h < HEROES_PER_PLAYER implies hero_ok(
        #[trigger] r.players[p].heroes[h],
        p,
    ) && r.players[p].heroes[h].component.id == w.players[p].heroes[h].component.id by {
        assert(hero_ok(paid.players[p].heroes[h], p));
        assert(paid.players[p].heroes == w.players[p].heroes);
        assert(r.players[p].heroes[h] == blown_hero(winds, paid.players[p].heroes[h]));
    }
    assert forall|m: int| 0 <= m < r.monsters.len() implies monster_ok(
        #[trigger] r.monsters[m],
        6 * WIND_DISTANCE,
        floor,
    ) && r.monsters[m].component.id == w.monsters[m].component.id by {
        assert(monster_ok(w.monsters[m], 0, floor));
        lemma_push_bound(winds, w.monsters[m].component, winds.len());
        lemma_skip_position(random, crate::model::scattered_upto(winds, w.monsters, m as nat));
        let fresh = scatter_velocity(winds, w.monsters, random, scatter, m);
        assert(fresh.within(MAX_MONSTER_VELOCITY as int));
    }
    assert forall|j: int| 0 <= j < w.count() implies (#[trigger] r.component(j)).id == w.component(
        j,
    ).id by {
        if j < 3 {
            assert(r.players[0].heroes[j].component.id == w.players[0].heroes[j].component.id);
        } else if j < 6 {
            assert(r.players[1].heroes[j - 3].component.id == w.players[1].heroes[j
                - 3].component.id);
        } else {
            assert(r.monsters[j - 6].component.id == w.monsters[j - 6].component.id);
        }
    }
    lemma_same_cast(w, r, 0);
    assert forall|p: int| 0 <= p < 2 implies (#[trigger] r.players[p]).base == base_of(p) && 0
        <= r.players[p].mana <= i32::MAX by {
        assert(paid.players[p].base == base_of(p));
    }
}

/// A monster keeps its id in its move, and goes no further than its speed.
pub proof fn lemma_moved_monster_ok(m: MonsterView, margin: int, floor: int)
    requires
        monster_ok(m, margin, floor),
    ensures
        monster_ok(moved_monster(m), margin + MAX_MONSTER_VELOCITY, floor),
        moved_monster(m).component.id == m.component.id,
{
    let c = m.component;
    if !m.move_canceled() && c.is_controlled() {
        crate::engine::lemma_control_sum_bound(c.position, c.control, c.control.len());
        let sum = crate::model::control_sum(c.position, c.control, c.control.len());
        crate::engine::lemma_mean_bound(
            sum.x,
            c.control.len() as int,
            MAX_MONSTER_VELOCITY as int,
        );
        crate::engine::lemma_mean_bound(
            sum.y,
            c.control.len() as int,
            MAX_MONSTER_VELOCITY as int,
        );
    }
}

/// Phase 7 keeps the world in order; a monster may end a monster's speed
/// further out.
pub proof fn lemma_move_monsters_sane(w: World, margin: int, floor: int)
    requires
        w.sane(margin, floor),
    ensures
        move_monsters_phase(w).sane(margin + MAX_MONSTER_VELOCITY, floor),
        w.same_cast(move_monsters_phase(w)),
        move_monsters_phase(w).players == w.players,
{
    let r = move_monsters_phase(w);
    assert forall|m: int| 0 <= m < r.monsters.len() implies monster_ok(
        #[trigger] r.monsters[m],
        margin + MAX_MONSTER_VELOCITY,
        floor,
    ) && r.monsters[m].component.id == w.monsters[m].component.id by {
        assert(monster_ok(w.monsters[m], margin, floor));
        lemma_moved_monster_ok(w.monsters[m], margin, floor);
    }
    assert forall|j: int| 0 <= j < w.count() implies (#[trigger] r.component(j)).id == w.component(
        j,
    ).id by {
        if j >= 6 {
            assert(r.monsters[j - 6].component.id == w.monsters[j - 6].component.id);
        }
    }
    lemma_same_cast(w, r, 0);
    assert forall|p: int, h: int| 0 <= p < 2 && 0 <= h < HEROES_PER_PLAYER implies hero_ok(
        #[trigger] r.players[p].heroes[h],
        p,
    ) by {
        assert(hero_ok(w.players[p].heroes[h], p));
    }
}

/// Phase 8 keeps the world in order.
pub proof fn lemma_decay_sane(w: World, margin: int, floor: int)
    requires
        w.sane(margin, floor),
    ensures
        decay_phase(w).sane(margin, floor),
        w.same_cast(decay_phase(w)),
        decay_phase(w).not_richer(w),
{
    let r = decay_phase(w);
    assert forall|j: int| 0 <= j < w.count() implies (#[trigger] r.component(j)).id == w.component(
        j,
    ).id by {}
    lemma_same_cast(w, r, 0);
    assert forall|p: int, h: int| 0 <= p < 2 && 0 <= h < HEROES_PER_PLAYER implies hero_ok(
        #[trigger] r.players[p].heroes[h],
        p,
    ) by {
        assert(hero_ok(w.players[p].heroes[h], p));
    }
    assert forall|m: int| 0 <= m < r.monsters.len() implies monster_ok(
        #[trigger] r.monsters[m],
        margin,
        floor,
    ) by {
        assert(monster_ok(w.monsters[m], margin, floor));
    }
}

/// The place among the first `n` monsters of the `k`-th of them that stays.
pub open spec fn survivor_origin(monsters: Seq<MonsterView>, n: nat, k: int) -> int
    decreases n,
{
    if n == 0 {
        0
    } else if survives(monsters[n - 1]) && k == survivors_upto(monsters, (n - 1) as nat).len() {
        n - 1
    } else {
        survivor_origin(monsters, (n - 1) as nat, k)
    }
}

/// The monsters that stay are monsters of the list, in the order of the list,
/// and each of them is alive and inside the buffered playfield.
pub proof fn lemma_survivors(monsters: Seq<MonsterView>, n: nat)
    requires
        n <= monsters.len(),
    ensures
        survivors_upto(monsters, n).len() <= n,
        forall|k: int|
            0 <= k < survivors_upto(monsters, n).len() ==> {
                let o = #[trigger] survivor_origin(monsters, n, k);
                0 <= o < n && survivors_upto(monsters, n)[k] == monsters[o] && survives(monsters[o])
            },
        forall|k: int, l: int|
            0 <= k < l < survivors_upto(monsters, n).len() ==> survivor_origin(monsters, n, k)
                < survivor_origin(monsters, n, l),
    decreases n,
{
    if n > 0 {
        lemma_survivors(monsters, (n - 1) as nat);
        let prev = survivors_upto(monsters, (n - 1) as nat);
        assert forall|k: int| 0 <= k < survivors_upto(monsters, n).len() implies {
            let o = #[trigger] survivor_origin(monsters, n, k);
            0 <= o < n && survivors_upto(monsters, n)[k] == monsters[o] && survives(monsters[o])
        } by {
            if k < prev.len() {
                let o = survivor_origin(monsters, (n - 1) as nat, k);
                assert(0 <= o < n - 1);
            }
        }
        assert forall|k: int, l: int| 0 <= k < l < survivors_upto(monsters, n).len() implies survivor_origin(
            monsters,
            n,
            k,
        ) < survivor_origin(monsters, n, l) by {
            let ok = survivor_origin(monsters, (n - 1) as nat, k);
            assert(0 <= ok < n - 1);
            if l < prev.len() {
                let ol = survivor_origin(monsters, (n - 1) as nat, l);
                assert(ok < ol);
            }
        }
    }
}

/// The monsters that appear at the first `places` places: two for each place,
/// with the ids from `next_id` on in their order, no faster than monsters
/// are, at the places and their twins.
pub proof fn lemma_spawned(
    turn: nat,
    next_id: int,
    random: RandomView,
    spread: Seq<Point>,
    places: nat,
)
    requires
        random.wf(),
        spread.len() == random.table.len(),
        forall|i: int|
            0 <= i < spread.len() ==> (#[trigger] spread[i])@.within(MAX_MONSTER_VELOCITY as int),
        places <= 2,
        0 <= next_id,
        1 <= spawn_health(turn as int) <= i32::MAX,
    ensures
        spawned_upto(turn, next_id, random, spread, places).len() == 2 * places,
        forall|k: int|
            0 <= k < 2 * places ==> {
                let m = #[trigger] spawned_upto(turn, next_id, random, spread, places)[k];
                monster_ok(m, 0, 1) && m.component.id == next_id + k
            },
    decreases places,
{
    if places > 0 {
        let before = (places - 1) as nat;
        lemma_spawned(turn, next_id, random, spread, before);
        let r = random.skip(before * spawn_draws(turn));
        lemma_skip_position(random, before * spawn_draws(turn));
        let v = spawn_velocity(turn, r, spread, before as int);
        if crate::model::sudden_death(turn) {
            let tx = crate::random::scale_draw(0, 6000, r.draw(0));
            let ty = crate::random::scale_draw(0, 6000, r.draw(1));
            let target = if crate::random::draw_is_true(r.draw(2)) {
                Vec2 { x: MAX_X - tx, y: MAX_Y - ty }
            } else {
                Vec2 { x: tx, y: ty }
            };
            lemma_heading_bound(spawn_point(before as int), target, MAX_MONSTER_VELOCITY as int);
        } else {
            assert(spread[r.index as int]@.within(MAX_MONSTER_VELOCITY as int));
        }
        assert(v.within(MAX_MONSTER_VELOCITY as int));
        let pair = spawn_pair(
            next_id + 2 * before,
            spawn_point(before as int),
            v,
            spawn_health(turn as int),
        );
        let all = spawned_upto(turn, next_id, random, spread, places);
        assert(all == spawned_upto(turn, next_id, random, spread, before) + pair);
        assert(monster_ok(pair[0], 0, 1));
        assert(monster_ok(pair[1], 0, 1));
        assert forall|k: int| 0 <= k < 2 * places implies {
            let m = #[trigger] all[k];
            monster_ok(m, 0, 1) && m.component.id == next_id + k
        } by {
            if k < 2 * before {
                assert(all[k] == spawned_upto(turn, next_id, random, spread, before)[k]);
            } else {
                assert(all[k] == pair[k - 2 * before]);
            }
        }
    }
}

/// Phase 9 brings the world in order for the next turn: the monsters that
/// stay are alive and inside the buffered playfield, and those that appear
/// have fresh ids.
pub proof fn lemma_spawn_sane(
    w: World,
    turn: nat,
    next_id: int,
    random: RandomView,
    spread: Seq<Point>,
    margin: int,
    floor: int,
)
    requires
        w.sane(margin, floor),
        w.ids_below(next_id),
        0 <= next_id,
        random.wf(),
        spread.len() == random.table.len(),
        forall|i: int|
            0 <= i < spread.len() ==> (#[trigger] spread[i])@.within(MAX_MONSTER_VELOCITY as int),
        1 <= spawn_health(turn as int) <= i32::MAX,
        w.monsters.len() + 4 <= usize::MAX - 2 * HEROES_PER_PLAYER,
    ensures
        crate::model::spawn_world(w, turn, next_id, random, spread).sane(0, 1),
        crate::model::spawn_world(w, turn, next_id, random, spread).ids_below(
            next_id + crate::model::spawn_count(turn),
        ),
        crate::model::spawn_world(w, turn, next_id, random, spread).players == w.players,
        crate::model::spawn_world(w, turn, next_id, random, spread).monsters.len()
            <= w.monsters.len() + 4,
{
    let r = crate::model::spawn_world(w, turn, next_id, random, spread);
    let stay = survivors(w.monsters);
    let born = spawned(turn, next_id, random, spread);
    lemma_survivors(w.monsters, w.monsters.len());
    if spawns(turn) {
        lemma_spawned(turn, next_id, random, spread, 2);
    }
    let bound = next_id + crate::model::spawn_count(turn);
    // Every monster of the new world is in order, and where it comes from.
    assert forall|m: int| 0 <= m < r.monsters.len() implies monster_ok(
        #[trigger] r.monsters[m],
        0,
        1,
    ) by {
        if m < stay.len() {
            let o = survivor_origin(w.monsters, w.monsters.len(), m);
            assert(r.monsters[m] == w.monsters[o]);
            assert(monster_ok(w.monsters[o], margin, floor));
        } else {
            assert(r.monsters[m] == born[m - stay.len()]);
        }
    }
    assert forall|p: int, h: int| 0 <= p < 2 && 0 <= h < HEROES_PER_PLAYER implies hero_ok(
        #[trigger] r.players[p].heroes[h],
        p,
    ) by {
        assert(hero_ok(w.players[p].heroes[h], p));
    }
    // The place in the old world of an old actor of the new world.
    let origin = |i: int|
        if i < 6 {
            i
        } else {
            6 + survivor_origin(w.monsters, w.monsters.len(), i - 6)
        };
    assert forall|i: int| 0 <= i < 6 + stay.len() implies 0 <= origin(i) < w.count()
        && (#[trigger] r.component(i)) == w.component(origin(i)) by {
        if i >= 6 {
            let o = survivor_origin(w.monsters, w.monsters.len(), i - 6);
            assert(r.monsters[i - 6] == w.monsters[o]);
        }
    }
    assert forall|i: int| 0 <= i < r.count() implies (#[trigger] r.component(i)).id < bound by {
        if i < 6 + stay.len() {
            assert(r.component(i) == w.component(origin(i)));
            assert(w.component(origin(i)).id < next_id);
        } else {
            assert(r.monsters[i - 6] == born[i - 6 - stay.len()]);
        }
    }
    assert forall|i: int, j: int| 0 <= i < j < r.count() implies (#[trigger] r.component(i)).id != (
    #[trigger] r.component(j)).id by {
        if j < 6 + stay.len() {
            assert(r.component(i) == w.component(origin(i)));
            assert(r.component(j) == w.component(origin(j)));
            assert(origin(i) < origin(j));
        } else if i < 6 + stay.len() {
            assert(r.component(i) == w.component(origin(i)));
            assert(w.component(origin(i)).id < next_id);
            assert(r.monsters[j - 6] == born[j - 6 - stay.len()]);
        } else {
            assert(r.monsters[i - 6] == born[i - 6 - stay.len()]);
            assert(r.monsters[j - 6] == born[j - 6 - stay.len()]);
        }
    }
}

/// Adding what the attacks earned keeps the world in order.
pub proof fn lemma_credit_sane(w: World, first: int, second: int, margin: int, floor: int)
    requires
        w.sane(margin, floor),
        0 <= first,
        0 <= second,
        w.players[0].mana + first <= i32::MAX,
        w.players[1].mana + second <= i32::MAX,
    ensures
        crate::model::credit(w, first, second).sane(margin, floor),
        w.same_cast(crate::model::credit(w, first, second)),
        crate::model::credit(w, first, second).monsters == w.monsters,
{
    let r = crate::model::credit(w, first, second);
    assert forall|j: int| 0 <= j < w.count() implies (#[trigger] r.component(j)).id == w.component(
        j,
    ).id by {}
    lemma_same_cast(w, r, 0);
    assert forall|p: int, h: int| 0 <= p < 2 && 0 <= h < HEROES_PER_PLAYER implies hero_ok(
        #[trigger] r.players[p].heroes[h],
        p,
    ) by {
        assert(hero_ok(w.players[p].heroes[h], p));
    }
}

/// A world in order is in order with more room for the monsters, and with a
/// lower floor for their health; its heroes stand inside the arena.
pub proof fn lemma_sane_weaken(w: World, margin: int, floor: int, wider: int, lower: int)
    requires
        w.sane(margin, floor),
        margin <= wider,
        lower <= floor,
    ensures
        w.sane(wider, lower),
        w.heroes_in_arena(),
        w.monsters_within(wider),
{
    assert forall|p: int, h: int|
        0 <= p < w.players.len() && 0 <= h < w.players[p].heroes.len() implies crate::rules::in_arena(
        (#[trigger] w.players[p].heroes[h]).component.position,
    ) by {
        assert(hero_ok(w.players[p].heroes[h], p));
    }
    assert forall|m: int| 0 <= m < w.monsters.len() implies monster_ok(
        #[trigger] w.monsters[m],
        wider,
        lower,
    ) by {
        assert(monster_ok(w.monsters[m], margin, floor));
    }
}

/// No side hits the first `n` monsters more often than its heroes are many.
pub proof fn lemma_side_hits_bound(w: World, side: int, n: nat)
    requires
        w.shaped(),
        0 <= side < 2,
    ensures
        crate::model::side_hits_upto(w, side, n) <= HEROES_PER_PLAYER * n,
    decreases n,
{
    if n > 0 {
        lemma_side_hits_bound(w, side, (n - 1) as nat);
        lemma_hits_bound(
            w.players[side].heroes,
            w.monsters[n - 1].component.position,
            w.players[side].heroes.len(),
        );
    }
}

/// Paying for the winds changes the mana alone: every hero and monster is
/// what it was.
pub proof fn lemma_wind_paid_keeps_actors(w: World, k: nat)
    requires
        w.shaped(),
        k <= 2 * HEROES_PER_PLAYER,
    ensures
        wind_paid_upto(w, k).shaped(),
        wind_paid_upto(w, k).monsters == w.monsters,
        forall|p: int|
            0 <= p < 2 ==> (#[trigger] wind_paid_upto(w, k).players[p]).heroes
                == w.players[p].heroes,
        w.heroes_in_arena() ==> wind_paid_upto(w, k).heroes_in_arena(),
    decreases k,
{
    if k > 0 {
        lemma_wind_paid_keeps_actors(w, (k - 1) as nat);
    }
    let r = wind_paid_upto(w, k);
    if w.heroes_in_arena() {
        assert forall|p: int, h: int|
            0 <= p < r.players.len() && 0 <= h < r.players[p].heroes.len() implies crate::rules::in_arena(
            (#[trigger] r.players[p].heroes[h]).component.position,
        ) by {
            assert(r.players[p].heroes == w.players[p].heroes);
            assert(crate::rules::in_arena(w.players[p].heroes[h].component.position));
        }
    }
}

} // verus!
