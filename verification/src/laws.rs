//! What holds of every game.
use crate::entity::{ActionView, ComponentView, HeroView, MonsterView, World};
use crate::inout::{BoardView, MonsterSight};
use crate::invariants::{
    lemma_attack_sane, lemma_control_sane, lemma_decay_sane, lemma_move_heroes_sane,
    lemma_move_monsters_sane, lemma_pay_sane, lemma_reset_sane, lemma_same_cast,
    lemma_same_cast_trans, lemma_shield_sane, lemma_survivors, lemma_wind_paid_sane,
    lemma_wind_sane, lemma_with_component_sane, survivor_origin,
};
use crate::line::crosses;
use crate::model::{
    attack_phase, before_attack, before_spawn, blown_hero, blown_monster, caster_hero, caster_side,
    casters, control_phase, control_upto, crosses_leg, leg_end, leg_start, move_monsters_phase,
    pay, push_count, reset_phase, scatter_velocity, shield_phase, shield_upto, side_hits,
    spawn_count, spawn_world, spawned, spawned_upto, spell_lands, step, survivors, wind_lands,
    wind_paid_upto, wind_random, wind_world, winds_upto, SimView, WindCast,
};
use crate::point::{Point, Vec2};
use crate::projection::project;
use crate::random::RandomView;
use crate::rules::{center, MANA_GAIN_TO_ATTACK, MANA_TO_SPELL};
use crate::simulator::initial;
use vstd::prelude::*;

verus! {

// ---------------------------------------------------------------------------
// Determinism
// ---------------------------------------------------------------------------
/// The actions of one turn: those of the heroes of side 0, then those of the
/// heroes of side 1.
pub struct TurnActions {
    pub first: Seq<ActionView>,
    pub second: Seq<ActionView>,
}

/// The simulator after the turns of `turns`, one after the other, from `s`.
pub open spec fn run(s: SimView, turns: Seq<TurnActions>) -> SimView
    decreases turns.len(),
{
    if turns.len() == 0 {
        s
    } else {
        step(run(s, turns.drop_last()), turns.last().first, turns.last().second)
    }
}

/// Determinism: two games from the same seed, with the same tables of
/// directions, whose actions agree in the first `k` turns, are in the same
/// state after each of these turns.
pub proof fn lemma_same_seed_same_game(
    seed: u64,
    scatter: Seq<Point>,
    spread: Seq<Point>,
    a: Seq<TurnActions>,
    b: Seq<TurnActions>,
    k: nat,
)
    requires
        k <= a.len(),
        k <= b.len(),
        forall|t: int| 0 <= t < k ==> a[t] == b[t],
    ensures
        forall|t: nat|
            t <= k ==> run(initial(seed, scatter, spread), #[trigger] a.take(t as int)) == run(
                initial(seed, scatter, spread),
                b.take(t as int),
            ),
{
    assert forall|t: nat| t <= k implies run(
        initial(seed, scatter, spread),
        #[trigger] a.take(t as int),
    ) == run(initial(seed, scatter, spread), b.take(t as int)) by {
        assert(a.take(t as int) =~= b.take(t as int));
    }
}

// ---------------------------------------------------------------------------
// The worlds between the phases are in order
// ---------------------------------------------------------------------------
/// The world after the reset of the turn that starts in `s`.
pub open spec fn after_reset(s: SimView, first: Seq<ActionView>, second: Seq<ActionView>)
    -> World {
    reset_phase(s.world, first, second)
}

/// The world after the control phase.
pub open spec fn after_control(s: SimView, first: Seq<ActionView>, second: Seq<ActionView>)
    -> World {
    control_phase(after_reset(s, first, second))
}

/// The world after the shield phase.
pub open spec fn after_shield(s: SimView, first: Seq<ActionView>, second: Seq<ActionView>)
    -> World {
    shield_phase(after_control(s, first, second))
}

/// The world after the attack phase.
pub open spec fn after_attack(s: SimView, first: Seq<ActionView>, second: Seq<ActionView>)
    -> World {
    attack_phase(before_attack(s, first, second))
}

/// The world after the wind phase.
pub open spec fn after_wind(s: SimView, first: Seq<ActionView>, second: Seq<ActionView>) -> World {
    wind_world(after_attack(s, first, second), s.random, s.scatter)
}

/// Every world between the phases of a turn that starts in order is in
/// order, holds the same actors as far as phase 8, and no side grows richer
/// before the mana of the attacks is added.
pub proof fn lemma_turn_in_order(s: SimView, first: Seq<ActionView>, second: Seq<ActionView>)
    requires
        s.wf(),
    ensures
        after_reset(s, first, second).sane(0, 1),
        after_control(s, first, second).sane(0, 1),
        after_shield(s, first, second).sane(0, 1),
        before_attack(s, first, second).sane(0, 1),
        after_attack(s, first, second).sane(0, -11),
        after_wind(s, first, second).sane(13200, -11),
        before_spawn(s, first, second).sane(13600, -11),
        s.world.same_cast(after_reset(s, first, second)),
        s.world.same_cast(after_control(s, first, second)),
        s.world.same_cast(after_shield(s, first, second)),
        s.world.same_cast(before_attack(s, first, second)),
        s.world.same_cast(after_attack(s, first, second)),
        s.world.same_cast(after_wind(s, first, second)),
        s.world.same_cast(before_spawn(s, first, second)),
        before_spawn(s, first, second).ids_below(s.next_id),
        before_spawn(s, first, second).not_richer(s.world),
{
    let w0 = s.world;
    let w1 = after_reset(s, first, second);
    let w2 = after_control(s, first, second);
    let w3 = after_shield(s, first, second);
    let w4 = before_attack(s, first, second);
    let w5 = after_attack(s, first, second);
    let w6 = after_wind(s, first, second);
    let w7 = move_monsters_phase(w6);
    let w8 = before_spawn(s, first, second);
    lemma_reset_sane(w0, first, second, 0, 1);
    lemma_control_sane(w1, casters(), 0, 1);
    lemma_same_cast_trans(w0, w1, w2);
    lemma_shield_sane(w2, casters(), 0, 1);
    lemma_same_cast_trans(w0, w2, w3);
    lemma_move_heroes_sane(w3, 0, 1);
    lemma_same_cast_trans(w0, w3, w4);
    lemma_attack_sane(w4, 0, 1);
    lemma_same_cast_trans(w0, w4, w5);
    lemma_wind_sane(w5, s.random, s.scatter, -11);
    lemma_same_cast_trans(w0, w5, w6);
    lemma_move_monsters_sane(w6, 13200, -11);
    lemma_same_cast_trans(w0, w6, w7);
    lemma_decay_sane(w7, 13600, -11);
    lemma_same_cast_trans(w0, w7, w8);
    lemma_same_cast(w0, w8, s.next_id);
}

/// A turn that starts in order, with room in its numbers, ends in order: ids
/// stay unique and below the next free id, shield counters in their range,
/// mana not negative, velocities within the speed of their actors, heroes
/// inside the arena, and every monster alive and inside the buffered
/// playfield.
pub proof fn lemma_step_in_order(s: SimView, first: Seq<ActionView>, second: Seq<ActionView>)
    requires
        s.wf(),
        s.has_headroom(),
    ensures
        step(s, first, second).wf(),
        step(s, first, second).next_id >= s.next_id,
{
    lemma_turn_in_order(s, first, second);
    let w4 = before_attack(s, first, second);
    let w5 = after_attack(s, first, second);
    let w8 = before_spawn(s, first, second);
    let drawn = wind_random(w5, s.random);
    crate::random::lemma_skip_position(
        s.random,
        crate::model::scattered_upto(winds_upto(w5, casters()), w5.monsters, w5.monsters.len()),
    );
    crate::invariants::lemma_spawn_sane(w8, s.turn, s.next_id, drawn, s.spread, 13600, -11);
    let w9 = spawn_world(w8, s.turn, s.next_id, drawn, s.spread);
    crate::invariants::lemma_side_hits_bound(w4, 0, w4.monsters.len());
    crate::invariants::lemma_side_hits_bound(w4, 1, w4.monsters.len());
    let first_gain = MANA_GAIN_TO_ATTACK * side_hits(w4, 0);
    let second_gain = MANA_GAIN_TO_ATTACK * side_hits(w4, 1);
    crate::invariants::lemma_credit_sane(w9, first_gain, second_gain, 0, 1);
    lemma_same_cast(
        w9,
        crate::model::credit(w9, first_gain, second_gain),
        s.next_id + spawn_count(s.turn),
    );
    if crate::model::spawns(s.turn) {
        crate::random::lemma_skip_position(
            drawn,
            crate::model::spawn_places() * crate::model::spawn_draws(s.turn),
        );
    }
}

// ---------------------------------------------------------------------------
// Mana
// ---------------------------------------------------------------------------
/// Whether hero `h` of `side` casts a control that lands.
pub open spec fn control_lands(w: World, side: int, h: int) -> bool {
    match w.hero(side, h).action {
        ActionView::Control { entity_id, .. } => spell_lands(w, side, h, entity_id),
        _ => false,
    }
}

/// Whether hero `h` of `side` casts a shield that lands.
pub open spec fn shield_lands(w: World, side: int, h: int) -> bool {
    match w.hero(side, h).action {
        ActionView::Shield { entity_id, .. } => spell_lands(w, side, h, entity_id),
        _ => false,
    }
}

/// Number of controls of `side` that land among those of the first `k`
/// casters of the control phase that starts in `w`.
pub open spec fn controls_cast(w: World, side: int, k: nat) -> nat
    decreases k,
{
    if k == 0 {
        0
    } else {
        let rest = controls_cast(w, side, (k - 1) as nat);
        if caster_side(k - 1) == side && control_lands(
            control_upto(w, (k - 1) as nat),
            side,
            caster_hero(k - 1),
        ) {
            rest + 1
        } else {
            rest
        }
    }
}

/// Number of shields of `side` that land among those of the first `k`
/// casters of the shield phase that starts in `w`.
pub open spec fn shields_cast(w: World, side: int, k: nat) -> nat
    decreases k,
{
    if k == 0 {
        0
    } else {
        let rest = shields_cast(w, side, (k - 1) as nat);
        if caster_side(k - 1) == side && shield_lands(
            shield_upto(w, (k - 1) as nat),
            side,
            caster_hero(k - 1),
        ) {
            rest + 1
        } else {
            rest
        }
    }
}

/// Number of winds of `side` that land among those of the first `k` casters
/// of the wind phase that starts in `w`.
pub open spec fn winds_cast(w: World, side: int, k: nat) -> nat
    decreases k,
{
    if k == 0 {
        0
    } else {
        let rest = winds_cast(w, side, (k - 1) as nat);
        if caster_side(k - 1) == side && wind_lands(
            wind_paid_upto(w, (k - 1) as nat),
            side,
            caster_hero(k - 1),
        ) {
            rest + 1
        } else {
            rest
        }
    }
}

/// Number of spells that `side` casts, and pays for, in the turn that starts
/// in `s` with the given actions.
pub open spec fn spells_cast(
    s: SimView,
    first: Seq<ActionView>,
    second: Seq<ActionView>,
    side: int,
) -> nat {
    controls_cast(after_reset(s, first, second), side, casters()) + shields_cast(
        after_control(s, first, second),
        side,
        casters(),
    ) + winds_cast(after_attack(s, first, second), side, casters())
}

proof fn lemma_control_mana(w: World, side: int, k: nat)
    requires
        w.sane(0, 1),
        0 <= side < 2,
        k <= casters(),
    ensures
        control_upto(w, k).players[side].mana == w.players[side].mana - MANA_TO_SPELL
            * controls_cast(w, side, k),
    decreases k,
{
    if k > 0 {
        lemma_control_mana(w, side, (k - 1) as nat);
        lemma_control_sane(w, (k - 1) as nat, 0, 1);
        let prev = control_upto(w, (k - 1) as nat);
        let caster = caster_side(k - 1);
        let h = caster_hero(k - 1);
        match prev.hero(caster, h).action {
            ActionView::Control { entity_id, point, .. } => {
                if spell_lands(prev, caster, h, entity_id) {
                    let i = prev.find(entity_id);
                    crate::entity::lemma_find_from(prev, entity_id, 0);
                    let paid = pay(prev, caster);
                    lemma_pay_sane(prev, caster, 0, 1);
                    let t = prev.component(i);
                    assert(paid.component(i) == t);
                    lemma_with_component_sane(
                        paid,
                        i,
                        ComponentView { next_control: t.next_control.push(point), ..t },
                        0,
                        1,
                    );
                }
            },
            _ => {},
        }
    }
}

proof fn lemma_shield_mana(w: World, side: int, k: nat)
    requires
        w.sane(0, 1),
        0 <= side < 2,
        k <= casters(),
    ensures
        shield_upto(w, k).players[side].mana == w.players[side].mana - MANA_TO_SPELL
            * shields_cast(w, side, k),
    decreases k,
{
    if k > 0 {
        lemma_shield_mana(w, side, (k - 1) as nat);
        lemma_shield_sane(w, (k - 1) as nat, 0, 1);
        let prev = shield_upto(w, (k - 1) as nat);
        let caster = caster_side(k - 1);
        let h = caster_hero(k - 1);
        match prev.hero(caster, h).action {
            ActionView::Shield { entity_id, .. } => {
                if spell_lands(prev, caster, h, entity_id) {
                    let i = prev.find(entity_id);
                    crate::entity::lemma_find_from(prev, entity_id, 0);
                    let paid = pay(prev, caster);
                    lemma_pay_sane(prev, caster, 0, 1);
                    let t = prev.component(i);
                    assert(paid.component(i) == t);
                    lemma_with_component_sane(
                        paid,
                        i,
                        ComponentView {
                            shield_life: crate::rules::SHIELD_EFFECTIVE_TURN + 1,
                            ..t
                        },
                        0,
                        1,
                    );
                }
            },
            _ => {},
        }
    }
}

proof fn lemma_wind_mana(w: World, side: int, k: nat, floor: int)
    requires
        w.sane(0, floor),
        0 <= side < 2,
        k <= casters(),
    ensures
        wind_paid_upto(w, k).players[side].mana == w.players[side].mana - MANA_TO_SPELL
            * winds_cast(w, side, k),
    decreases k,
{
    if k > 0 {
        lemma_wind_mana(w, side, (k - 1) as nat, floor);
        lemma_wind_paid_sane(w, (k - 1) as nat, 0, floor);
    }
}

/// The mana of a side changes in a turn by what its hits earn, less what its
/// spells cost, and is never negative.
pub proof fn lemma_mana_balance(
    s: SimView,
    first: Seq<ActionView>,
    second: Seq<ActionView>,
    side: int,
)
    requires
        s.wf(),
        0 <= side < 2,
    ensures
        step(s, first, second).world.players[side].mana == s.world.players[side].mana
            + MANA_GAIN_TO_ATTACK * side_hits(before_attack(s, first, second), side)
            - MANA_TO_SPELL * spells_cast(s, first, second, side),
        step(s, first, second).world.players[side].mana >= 0,
{
    lemma_turn_in_order(s, first, second);
    let w1 = after_reset(s, first, second);
    let w2 = after_control(s, first, second);
    let w3 = after_shield(s, first, second);
    let w4 = before_attack(s, first, second);
    let w5 = after_attack(s, first, second);
    let w6 = after_wind(s, first, second);
    let w8 = before_spawn(s, first, second);
    assert(w1.players[side].mana == s.world.players[side].mana);
    lemma_control_mana(w1, side, casters());
    lemma_shield_mana(w2, side, casters());
    assert(w4.players[side].mana == w3.players[side].mana);
    assert(w5.players[side].mana == w4.players[side].mana);
    lemma_wind_mana(w5, side, casters(), -11);
    assert(w6.players[side].mana == wind_paid_upto(w5, casters()).players[side].mana);
    assert(w8.players[side].mana == w6.players[side].mana);
    assert(MANA_TO_SPELL * (controls_cast(w1, side, casters()) + shields_cast(
        w2,
        side,
        casters(),
    ) + winds_cast(w5, side, casters())) == MANA_TO_SPELL * controls_cast(w1, side, casters())
        + MANA_TO_SPELL * shields_cast(w2, side, casters()) + MANA_TO_SPELL * winds_cast(
        w5,
        side,
        casters(),
    ));
}

// ---------------------------------------------------------------------------
// Shields
// ---------------------------------------------------------------------------
/// The actor `i` of `after` has the shield counter of the actor `i` of
/// `before`, what was queued on it, and its flag of being pushed.
pub open spec fn untouched(before: World, after: World, i: int) -> bool {
    &&& after.component(i).id == before.component(i).id
    &&& after.component(i).shield_life == before.component(i).shield_life
    &&& after.component(i).next_control == before.component(i).next_control
    &&& after.component(i).pushed == before.component(i).pushed
}

proof fn lemma_control_spares_shielded(w: World, k: nat, i: int)
    requires
        w.sane(0, 1),
        k <= casters(),
        0 <= i < w.count(),
        w.component(i).shield_life > 0,
    ensures
        untouched(w, control_upto(w, k), i),
    decreases k,
{
    if k > 0 {
        lemma_control_spares_shielded(w, (k - 1) as nat, i);
        lemma_control_sane(w, (k - 1) as nat, 0, 1);
        let prev = control_upto(w, (k - 1) as nat);
        let caster = caster_side(k - 1);
        let h = caster_hero(k - 1);
        match prev.hero(caster, h).action {
            ActionView::Control { entity_id, point, .. } => {
                if spell_lands(prev, caster, h, entity_id) {
                    let t = prev.find(entity_id);
                    crate::entity::lemma_find_from(prev, entity_id, 0);
                    assert(t != i);
                    lemma_pay_sane(prev, caster, 0, 1);
                    let paid = pay(prev, caster);
                    assert(paid.component(i) == prev.component(i));
                    assert(control_upto(w, k).component(i) == paid.component(i));
                }
            },
            _ => {},
        }
    }
}

proof fn lemma_shield_spares_shielded(w: World, k: nat, i: int)
    requires
        w.sane(0, 1),
        k <= casters(),
        0 <= i < w.count(),
        w.component(i).shield_life > 0,
    ensures
        untouched(w, shield_upto(w, k), i),
    decreases k,
{
    if k > 0 {
        lemma_shield_spares_shielded(w, (k - 1) as nat, i);
        lemma_shield_sane(w, (k - 1) as nat, 0, 1);
        let prev = shield_upto(w, (k - 1) as nat);
        let caster = caster_side(k - 1);
        let h = caster_hero(k - 1);
        match prev.hero(caster, h).action {
            ActionView::Shield { entity_id, .. } => {
                if spell_lands(prev, caster, h, entity_id) {
                    let t = prev.find(entity_id);
                    crate::entity::lemma_find_from(prev, entity_id, 0);
                    assert(t != i);
                    lemma_pay_sane(prev, caster, 0, 1);
                    let paid = pay(prev, caster);
                    assert(paid.component(i) == prev.component(i));
                    assert(shield_upto(w, k).component(i) == paid.component(i));
                }
            },
            _ => {},
        }
    }
}

/// No wind pushes an actor under a shield.
pub proof fn lemma_no_push_under_shield(winds: Seq<WindCast>, c: ComponentView, n: nat)
    requires
        c.shield_life > 0,
    ensures
        push_count(winds, c, n) == 0,
    decreases n,
{
    if n > 0 {
        lemma_no_push_under_shield(winds, c, (n - 1) as nat);
    }
}

proof fn lemma_wind_spares_shielded(
    w: World,
    random: RandomView,
    scatter: Seq<Point>,
    floor: int,
    i: int,
)
    requires
        w.sane(0, floor),
        0 <= i < w.count(),
        w.component(i).shield_life > 0,
    ensures
        untouched(w, wind_world(w, random, scatter), i),
{
    let winds = winds_upto(w, casters());
    let paid = wind_paid_upto(w, casters());
    lemma_wind_paid_sane(w, casters(), 0, floor);
    lemma_no_push_under_shield(winds, w.component(i), winds.len());
    let r = wind_world(w, random, scatter);
    if i < 3 {
        assert(paid.players[0].heroes == w.players[0].heroes);
        assert(r.players[0].heroes[i] == blown_hero(winds, paid.players[0].heroes[i]));
    } else if i < 6 {
        assert(paid.players[1].heroes == w.players[1].heroes);
        assert(r.players[1].heroes[i - 3] == blown_hero(winds, paid.players[1].heroes[i - 3]));
    } else {
        assert(r.monsters[i - 6] == blown_monster(
            winds,
            w.monsters[i - 6],
            scatter_velocity(winds, w.monsters, random, scatter, i - 6),
        ));
    }
}

/// While the shield counter of an actor is above zero the actor is immune
/// to control, shield and wind: an actor that starts a turn with a counter
/// above zero and is still there after the turn has then one less on its
/// counter, nothing queued by a control, and was not pushed. So a counter at
/// `n` protects for exactly `n` turns.
pub proof fn lemma_shield_immunity(
    s: SimView,
    first: Seq<ActionView>,
    second: Seq<ActionView>,
    i: int,
    j: int,
)
    requires
        s.wf(),
        0 <= i < s.world.count(),
        s.world.component(i).shield_life > 0,
        0 <= j < step(s, first, second).world.count(),
        step(s, first, second).world.component(j).id == s.world.component(i).id,
    ensures
        step(s, first, second).world.component(j).shield_life == s.world.component(i).shield_life
            - 1,
        step(s, first, second).world.component(j).next_control.len() == 0,
        !step(s, first, second).world.component(j).pushed,
{
    lemma_turn_in_order(s, first, second);
    let w0 = s.world;
    let w1 = after_reset(s, first, second);
    let w2 = after_control(s, first, second);
    let w3 = after_shield(s, first, second);
    let w4 = before_attack(s, first, second);
    let w5 = after_attack(s, first, second);
    let w6 = after_wind(s, first, second);
    let w7 = move_monsters_phase(w6);
    let w8 = before_spawn(s, first, second);
    let n = w0.component(i).shield_life;
    let id = w0.component(i).id;
    // phase 1 empties the queue and clears the flag
    assert(w1.component(i) == w0.component(i).reset());
    lemma_control_spares_shielded(w1, casters(), i);
    lemma_shield_spares_shielded(w2, casters(), i);
    assert(untouched(w3, w4, i));
    assert(untouched(w4, w5, i));
    lemma_wind_spares_shielded(w5, s.random, s.scatter, -11, i);
    assert(untouched(w6, w7, i));
    assert(w8.component(i) == w7.component(i).decayed());
    let c8 = w8.component(i);
    assert(c8.id == id && c8.shield_life == n - 1 && c8.next_control.len() == 0 && !c8.pushed);
    // phase 9 keeps the actor as it is, and the mana changes no actor
    let drawn = wind_random(w5, s.random);
    let w9 = spawn_world(w8, s.turn, s.next_id, drawn, s.spread);
    let w10 = step(s, first, second).world;
    assert(w10.component(j) == w9.component(j));
    let stay = survivors(w8.monsters);
    lemma_survivors(w8.monsters, w8.monsters.len());
    if j < 6 {
        assert(w9.component(j) == w8.component(j));
        assert(j == i) by {
            if j < i {
                assert(w8.component(j).id != w8.component(i).id);
            } else if i < j {
                assert(w8.component(i).id != w8.component(j).id);
            }
        }
    } else if j < 6 + stay.len() {
        let o = survivor_origin(w8.monsters, w8.monsters.len(), j - 6);
        assert(w9.monsters[j - 6] == w8.monsters[o]);
        assert(w9.component(j) == w8.component(6 + o));
        assert(6 + o == i) by {
            if 6 + o < i {
                assert(w8.component(6 + o).id != w8.component(i).id);
            } else if i < 6 + o {
                assert(w8.component(i).id != w8.component(6 + o).id);
            }
        }
    } else {
        let born = spawned(s.turn, s.next_id, drawn, s.spread);
        assert(w9.monsters[j - 6] == born[j - 6 - stay.len()]);
        lemma_born_ids(s.turn, s.next_id, drawn, s.spread, 2, j - 6 - stay.len());
        assert(w8.component(i).id < s.next_id);
        assert(false);
    }
}

/// The monsters that appear take the ids from `next_id` on, in their order.
pub proof fn lemma_born_ids(
    turn: nat,
    next_id: int,
    random: RandomView,
    spread: Seq<Point>,
    places: nat,
    k: int,
)
    ensures
        spawned_upto(turn, next_id, random, spread, places).len() == 2 * places,
        0 <= k < 2 * places ==> spawned_upto(turn, next_id, random, spread, places)[k].component.id
            == next_id + k,
    decreases places,
{
    if places > 0 {
        lemma_born_ids(turn, next_id, random, spread, (places - 1) as nat, k);
    }
}

/// An actor without a shield can be the target of a spell again: a control
/// or shield lands on it when the caster's side can pay, sees it, and has it
/// within the caster's reach.
pub proof fn lemma_unshielded_is_targetable(w: World, side: int, h: int, id: int)
    requires
        w.has(id),
        w.component(w.find(id)).shield_life == 0,
        w.players[side].mana >= MANA_TO_SPELL,
        w.players[side].visible(w.component(w.find(id)).position),
        w.hero(side, h).component.position.in_range(
            w.component(w.find(id)).position,
            crate::rules::CONTROL_EFFECTIVE_RADIUS as int,
        ),
    ensures
        spell_lands(w, side, h, id),
{
}

// ---------------------------------------------------------------------------
// Monsters appear in pairs
// ---------------------------------------------------------------------------
/// `b` is the twin of `a`: at the image of its place under the reflection
/// through the center, with the opposite velocity and the same health.
pub open spec fn twins(a: MonsterView, b: MonsterView) -> bool {
    &&& b.component.position == a.component.position.reflect(center())
    &&& b.component.velocity == a.component.velocity.neg()
    &&& b.health == a.health
}

/// The monsters that appear at the first `places` places come in pairs of
/// twins.
pub proof fn lemma_spawned_in_pairs(
    turn: nat,
    next_id: int,
    random: RandomView,
    spread: Seq<Point>,
    places: nat,
    k: int,
)
    requires
        0 <= k < places,
    ensures
        spawned_upto(turn, next_id, random, spread, places).len() == 2 * places,
        twins(
            spawned_upto(turn, next_id, random, spread, places)[2 * k],
            spawned_upto(turn, next_id, random, spread, places)[2 * k + 1],
        ),
    decreases places,
{
    lemma_born_ids(turn, next_id, random, spread, places, 0);
    lemma_born_ids(turn, next_id, random, spread, (places - 1) as nat, 0);
    if k < places - 1 {
        lemma_spawned_in_pairs(turn, next_id, random, spread, (places - 1) as nat, k);
    }
}

/// Spawn symmetry: the monsters of the world after a turn are those that
/// stay, followed by those that appear in the turn, and these come in pairs:
/// each monster that appears at `p` with the velocity `v` is followed by its
/// twin at the image of `p` under the reflection through the center, with
/// the velocity `-v` and the same health.
pub proof fn lemma_spawn_symmetry(
    s: SimView,
    first: Seq<ActionView>,
    second: Seq<ActionView>,
    k: int,
)
    requires
        0 <= k,
        2 * k < spawn_count(s.turn),
    ensures
        ({
            let stay = survivors(before_spawn(s, first, second).monsters);
            let after = step(s, first, second).world.monsters;
            &&& after.len() == stay.len() + spawn_count(s.turn)
            &&& after.subrange(0, stay.len() as int) == stay
            &&& twins(after[stay.len() + 2 * k], after[stay.len() + 2 * k + 1])
        }),
{
    let w8 = before_spawn(s, first, second);
    let drawn = wind_random(after_attack(s, first, second), s.random);
    let stay = survivors(w8.monsters);
    let born = spawned(s.turn, s.next_id, drawn, s.spread);
    let after = step(s, first, second).world.monsters;
    lemma_spawned_in_pairs(s.turn, s.next_id, drawn, s.spread, 2, k);
    assert(after == stay + born);
    assert(after.subrange(0, stay.len() as int) =~= stay);
    assert(after[stay.len() + 2 * k] == born[2 * k]);
    assert(after[stay.len() + 2 * k + 1] == born[2 * k + 1]);
}

// ---------------------------------------------------------------------------
// What a side is shown
// ---------------------------------------------------------------------------
/// What a side is shown depends on the state of the game alone: two boards
/// made for the same side without a turn between them are the same.
pub proof fn lemma_projection_repeats(s: SimView, viewer: int, a: BoardView, b: BoardView)
    requires
        a == project(s, viewer),
        b == project(s, viewer),
    ensures
        a == b,
{
}

// ---------------------------------------------------------------------------
// The legs
// ---------------------------------------------------------------------------
/// The crossing test asks so little that every way that leads anywhere
/// crosses a leg: a way with a change of x crosses the leg along the left
/// border, and a way straight up or down crosses the leg along the upper
/// border, in the sense of `crosses`.
pub proof fn lemma_every_way_crosses_a_leg(p: Vec2, np: Vec2)
    ensures
        crosses_leg(p, np) <==> p != np,
{
    if p == np {
        assert forall|leg: int| 0 <= leg < 4 implies !#[trigger] crosses(
            leg_start(leg),
            leg_end(leg),
            p,
            np,
        ) by {
            let d = leg_start(leg).minus(leg_end(leg));
            assert(d.x * 0 - d.y * 0 == 0);
        }
    } else if p.x != np.x {
        let dx = p.x - np.x;
        let a1 = leg_start(1);
        let a2 = leg_end(1);
        let d = crate::line::det(a1, a2, p, np);
        let dy = p.y - np.y;
        assert(d == 6000 * dx) by (nonlinear_arith)
            requires
                d == (0 - 0) * dy - (0 - 6000) * dx,
        ;
        let c = p.cross(np);
        let x = crate::line::crossing_x(a1, a2, p, np);
        assert(a1.cross(a2) == 0) by (nonlinear_arith)
            requires
                a1.cross(a2) == 0 * 6000 - 0 * 0,
        ;
        assert(x == 0) by (nonlinear_arith)
            requires
                x == dx * 0 - (0 - 0) * c,
        ;
        let low = crate::line::low_x(a1, a2, p, np);
        let high = crate::line::high_x(a1, a2, p, np);
        assert(low <= 0 <= high);
        if d > 0 {
            assert(low * d <= 0 <= high * d) by (nonlinear_arith)
                requires
                    low <= 0 <= high,
                    d > 0,
            ;
        } else {
            assert(high * d <= 0 <= low * d) by (nonlinear_arith)
                requires
                    low <= 0 <= high,
                    d < 0,
            ;
        }
        assert(crosses(leg_start(1), leg_end(1), p, np));
    } else {
        let dy = p.y - np.y;
        assert(dy != 0) by {
            if dy == 0 {
                assert(p =~= np);
            }
        }
        let a1 = leg_start(0);
        let a2 = leg_end(0);
        let d = crate::line::det(a1, a2, p, np);
        assert(d + 6000 * dy == 0) by (nonlinear_arith)
            requires
                d == (0 - 6000) * dy - (0 - 0) * (p.x - np.x),
        ;
        let c = p.cross(np);
        let x = crate::line::crossing_x(a1, a2, p, np);
        assert(a1.cross(a2) == 0) by (nonlinear_arith)
            requires
                a1.cross(a2) == 0 * 0 - 0 * 6000,
        ;
        assert(x == p.x * d) by (nonlinear_arith)
            requires
                x == (p.x - np.x) * 0 - (0 - 6000) * c,
                c == p.x * np.y - p.y * np.x,
                np.x == p.x,
                dy == p.y - np.y,
                d + 6000 * dy == 0,
        ;
        let low = crate::line::low_x(a1, a2, p, np);
        let high = crate::line::high_x(a1, a2, p, np);
        assert(low <= p.x <= high);
        if d > 0 {
            assert(low * d <= p.x * d <= high * d) by (nonlinear_arith)
                requires
                    low <= p.x <= high,
                    d > 0,
            ;
        } else {
            assert(high * d <= p.x * d <= low * d) by (nonlinear_arith)
                requires
                    low <= p.x <= high,
                    d < 0,
            ;
        }
        assert(crosses(leg_start(0), leg_end(0), p, np));
    }
}

/// With the crossing test as it stands the winds scatter no monster, for a
/// monster that is pushed anywhere crosses a leg: the wind phase makes no
/// draw.
pub proof fn lemma_winds_make_no_draw(w: World, random: RandomView)
    ensures
        wind_random(w, random) == random,
{
    let winds = winds_upto(w, casters());
    lemma_none_scattered(winds, w.monsters, w.monsters.len());
}

proof fn lemma_none_scattered(winds: Seq<WindCast>, monsters: Seq<MonsterView>, n: nat)
    ensures
        crate::model::scattered_upto(winds, monsters, n) == 0,
    decreases n,
{
    if n > 0 {
        lemma_none_scattered(winds, monsters, (n - 1) as nat);
        let c = monsters[n - 1].component;
        let np = c.position.plus(crate::model::push_sum(winds, c, winds.len()));
        lemma_every_way_crosses_a_leg(c.position, np);
    }
}

// ---------------------------------------------------------------------------
// Shields over several turns
// ---------------------------------------------------------------------------
/// An actor whose id is below the next free id of the turn's start was there
/// when the turn started: no id is given out twice.
pub proof fn lemma_actor_was_there(
    s: SimView,
    first: Seq<ActionView>,
    second: Seq<ActionView>,
    j: int,
) -> (i: int)
    requires
        s.wf(),
        0 <= j < step(s, first, second).world.count(),
        step(s, first, second).world.component(j).id < s.next_id,
    ensures
        0 <= i < s.world.count(),
        s.world.component(i).id == step(s, first, second).world.component(j).id,
{
    lemma_turn_in_order(s, first, second);
    let w8 = before_spawn(s, first, second);
    let drawn = wind_random(after_attack(s, first, second), s.random);
    let w9 = spawn_world(w8, s.turn, s.next_id, drawn, s.spread);
    let w10 = step(s, first, second).world;
    assert(w10.component(j) == w9.component(j));
    let stay = survivors(w8.monsters);
    lemma_survivors(w8.monsters, w8.monsters.len());
    if j < 6 {
        assert(w9.component(j) == w8.component(j));
        assert(w8.component(j).id == s.world.component(j).id);
        j
    } else if j < 6 + stay.len() {
        let o = survivor_origin(w8.monsters, w8.monsters.len(), j - 6);
        assert(w9.monsters[j - 6] == w8.monsters[o]);
        assert(w9.component(j) == w8.component(6 + o));
        assert(w8.component(6 + o).id == s.world.component(6 + o).id);
        6 + o
    } else {
        let born = spawned(s.turn, s.next_id, drawn, s.spread);
        assert(w9.monsters[j - 6] == born[j - 6 - stay.len()]);
        lemma_born_ids(s.turn, s.next_id, drawn, s.spread, 2, j - 6 - stay.len());
        assert(false);
        0
    }
}

/// A shield counter at `n` protects for exactly `n` turns: an actor that
/// has `n` on its counter and is still there `k <= n` turns later, each of
/// which started in order, has then `n - k` on its counter.
pub proof fn lemma_shield_lasts(s: SimView, turns: Seq<TurnActions>, i: int, j: int)
    requires
        s.wf(),
        forall|t: int| 0 <= t < turns.len() ==> (#[trigger] run(s, turns.take(t))).wf(),
        0 <= i < s.world.count(),
        s.world.component(i).shield_life >= turns.len(),
        0 <= j < run(s, turns).world.count(),
        run(s, turns).world.component(j).id == s.world.component(i).id,
    ensures
        run(s, turns).world.component(j).shield_life == s.world.component(i).shield_life
            - turns.len(),
    decreases turns.len(),
{
    if turns.len() == 0 {
        if i < j {
            assert(s.world.component(i).id != s.world.component(j).id);
        } else if j < i {
            assert(s.world.component(j).id != s.world.component(i).id);
        }
    } else {
        let earlier = turns.drop_last();
        let last = turns.last();
        let prev = run(s, earlier);
        assert(earlier =~= turns.take(turns.len() - 1));
        assert(prev.wf());
        assert forall|t: int| 0 <= t < earlier.len() implies (#[trigger] run(
            s,
            earlier.take(t),
        )).wf() by {
            assert(earlier.take(t) =~= turns.take(t));
        }
        lemma_next_id_grows(s, earlier);
        assert(s.world.component(i).id < s.next_id);
        let before = lemma_actor_was_there(prev, last.first, last.second, j);
        lemma_shield_lasts(s, earlier, i, before);
        lemma_shield_immunity(prev, last.first, last.second, before, j);
    }
}

/// The next free id never goes down.
pub proof fn lemma_next_id_grows(s: SimView, turns: Seq<TurnActions>)
    ensures
        run(s, turns).next_id >= s.next_id,
    decreases turns.len(),
{
    if turns.len() > 0 {
        lemma_next_id_grows(s, turns.drop_last());
    }
}

// ---------------------------------------------------------------------------
// Choices and counts as filters
// ---------------------------------------------------------------------------
/// The test `survives`, as a function.
pub open spec fn stays() -> spec_fn(MonsterView) -> bool {
    |m: MonsterView| crate::model::survives(m)
}

proof fn lemma_survivors_upto_filtered(monsters: Seq<MonsterView>, n: nat)
    requires
        n <= monsters.len(),
    ensures
        crate::model::survivors_upto(monsters, n) == monsters.take(n as int).filter(stays()),
    decreases n,
{
    reveal(Seq::filter);
    if n > 0 {
        lemma_survivors_upto_filtered(monsters, (n - 1) as nat);
        let t = monsters.take(n as int);
        assert(t.drop_last() =~= monsters.take(n - 1));
        assert(t.last() == monsters[n - 1]);
    }
}

/// The monsters that stay after phase 9 are those of the list that are alive
/// and inside the buffered playfield, in the order of the list.
pub proof fn lemma_survivors_are_filtered(monsters: Seq<MonsterView>)
    ensures
        survivors(monsters) == monsters.filter(stays()),
{
    lemma_survivors_upto_filtered(monsters, monsters.len());
    assert(monsters.take(monsters.len() as int) =~= monsters);
}

/// The test whether a hero reaches the point `p`, as a function.
pub open spec fn reaches(p: Vec2) -> spec_fn(HeroView) -> bool {
    |h: HeroView|
        p.in_range(h.component.position, crate::rules::HERO_ATTACK_RADIUS as int)
}

proof fn lemma_hits_upto_counted(heroes: Seq<HeroView>, p: Vec2, n: nat)
    requires
        n <= heroes.len(),
    ensures
        crate::model::hits_upto(heroes, p, n) == heroes.take(n as int).filter(reaches(p)).len(),
    decreases n,
{
    reveal(Seq::filter);
    if n > 0 {
        lemma_hits_upto_counted(heroes, p, (n - 1) as nat);
        let t = heroes.take(n as int);
        assert(t.drop_last() =~= heroes.take(n - 1));
        assert(t.last() == heroes[n - 1]);
    }
}

/// The hits of a side on a monster at `p` are as many as the side has heroes
/// within their reach of `p`.
pub proof fn lemma_hits_are_counted(w: World, side: int, p: Vec2)
    ensures
        crate::model::hits(w, side, p) == w.players[side].heroes.filter(reaches(p)).len(),
{
    let heroes = w.players[side].heroes;
    lemma_hits_upto_counted(heroes, p, heroes.len());
    assert(heroes.take(heroes.len() as int) =~= heroes);
}

/// The test whether `viewer` sees a monster, as a function.
pub open spec fn in_sight(w: World, viewer: int) -> spec_fn(MonsterView) -> bool {
    |m: MonsterView| w.players[viewer].visible(m.component.position)
}

/// How a monster is shown to `viewer`, as a function.
pub open spec fn shown(w: World, viewer: int) -> spec_fn(MonsterView)
    -> MonsterSight {
    |m: MonsterView| crate::projection::seen_monster(w, viewer, m)
}

proof fn lemma_seen_monsters_upto_filtered(w: World, viewer: int, n: nat)
    requires
        n <= w.monsters.len(),
    ensures
        crate::projection::seen_monsters_upto(w, viewer, n) == w.monsters.take(n as int).filter(
            in_sight(w, viewer),
        ).map_values(shown(w, viewer)),
    decreases n,
{
    reveal(Seq::filter);
    if n > 0 {
        lemma_seen_monsters_upto_filtered(w, viewer, (n - 1) as nat);
        let t = w.monsters.take(n as int);
        assert(t.drop_last() =~= w.monsters.take(n - 1));
        assert(t.last() == w.monsters[n - 1]);
        let earlier = t.drop_last().filter(in_sight(w, viewer));
        if in_sight(w, viewer)(t.last()) {
            assert(earlier.push(t.last()).map_values(shown(w, viewer)) =~= earlier.map_values(
                shown(w, viewer),
            ).push(shown(w, viewer)(t.last())));
        }
    } else {
        assert(w.monsters.take(0).filter(in_sight(w, viewer)).map_values(shown(w, viewer))
            =~= Seq::empty());
    }
}

/// A side is shown the monsters that it sees, each of them once, in the
/// order of their list: no monster out of its sight, and none of those in
/// its sight left out.
pub proof fn lemma_shown_monsters_are_those_in_sight(s: SimView, viewer: int)
    ensures
        project(s, viewer).monsters == s.world.monsters.filter(
            in_sight(s.world, viewer),
        ).map_values(shown(s.world, viewer)),
{
    lemma_seen_monsters_upto_filtered(s.world, viewer, s.world.monsters.len());
    assert(s.world.monsters.take(s.world.monsters.len() as int) =~= s.world.monsters);
}

} // verus!
