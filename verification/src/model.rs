//! The game as mathematics: what each phase of a turn makes of the world.
use crate::entity::{
    ActionView, ComponentType, ComponentView, HeroView, MonsterView, PlayerView, World,
};
use crate::line::crosses;
use crate::point::{heading, step_toward, trunc_div, Point, Vec2};
use crate::random::{draw_is_true, scale_draw, RandomView};
use crate::rules::{
    base_of, in_arena, in_buffer, snap, spawn_health, CENTER_X, CONTROL_EFFECTIVE_RADIUS,
    HEROES_PER_PLAYER, HERO_ATTACK_RADIUS, MANA_GAIN_TO_ATTACK, MANA_TO_SPELL, MAP_LIMIT,
    MAX_HERO_VELOCITY, MAX_MONSTER_VELOCITY, MAX_X, MAX_Y, SHIELD_EFFECTIVE_TURN,
    SPAWN_PERIOD, SUDDEN_DEATH_TURN, VISIBLE_RADIUS_FROM_BASE, WIND_DISTANCE,
    WIND_EFFECTIVE_RADIUS,
};
use vstd::prelude::*;

verus! {

// ---------------------------------------------------------------------------
// Changing one part of the world
// ---------------------------------------------------------------------------
impl World {
    /// Hero `h` of `side`.
    pub open spec fn hero(self, side: int, h: int) -> HeroView {
        self.players[side].heroes[h]
    }

    /// The world with the mana of `side` set to `mana`.
    pub open spec fn with_mana(self, side: int, mana: int) -> World {
        World {
            players: self.players.update(side, PlayerView { mana, ..self.players[side] }),
            monsters: self.monsters,
        }
    }

    /// The world with the physical state of hero `h` of `side` replaced by `c`.
    pub open spec fn with_hero_component(self, side: int, h: int, c: ComponentView) -> World {
        World {
            players: self.players.update(
                side,
                PlayerView {
                    heroes: self.players[side].heroes.update(
                        h,
                        HeroView { component: c, ..self.players[side].heroes[h] },
                    ),
                    ..self.players[side]
                },
            ),
            monsters: self.monsters,
        }
    }

    /// The world with the physical state of monster `m` replaced by `c`.
    pub open spec fn with_monster_component(self, m: int, c: ComponentView) -> World {
        World {
            players: self.players,
            monsters: self.monsters.update(m, MonsterView { component: c, ..self.monsters[m] }),
        }
    }

    /// The world with the `i`-th actor of the fixed order replaced by `c`.
    pub open spec fn with_component(self, i: int, c: ComponentView) -> World {
        let n0 = self.players[0].heroes.len() as int;
        let n1 = self.players[1].heroes.len() as int;
        if i < n0 {
            self.with_hero_component(0, i, c)
        } else if i < n0 + n1 {
            self.with_hero_component(1, i - n0, c)
        } else {
            self.with_monster_component(i - n0 - n1, c)
        }
    }

    /// The world with `f` applied to the physical state of every actor.
    pub open spec fn map_components(self, f: spec_fn(ComponentView) -> ComponentView) -> World {
        World {
            players: Seq::new(
                self.players.len(),
                |p: int|
                    PlayerView {
                        heroes: Seq::new(
                            self.players[p].heroes.len(),
                            |h: int|
                                HeroView {
                                    component: f(self.players[p].heroes[h].component),
                                    ..self.players[p].heroes[h]
                                },
                        ),
                        ..self.players[p]
                    },
            ),
            monsters: Seq::new(
                self.monsters.len(),
                |m: int| MonsterView { component: f(self.monsters[m].component), ..self.monsters[m] },
            ),
        }
    }

    /// The world with `f` applied to every hero.
    pub open spec fn map_heroes(self, f: spec_fn(HeroView) -> HeroView) -> World {
        World {
            players: Seq::new(
                self.players.len(),
                |p: int|
                    PlayerView {
                        heroes: Seq::new(
                            self.players[p].heroes.len(),
                            |h: int| f(self.players[p].heroes[h]),
                        ),
                        ..self.players[p]
                    },
            ),
            monsters: self.monsters,
        }
    }

    /// The world with `f` applied to every monster.
    pub open spec fn map_monsters(self, f: spec_fn(MonsterView) -> MonsterView) -> World {
        World {
            players: self.players,
            monsters: Seq::new(self.monsters.len(), |m: int| f(self.monsters[m])),
        }
    }
}

// ---------------------------------------------------------------------------
// What holds of a world between the phases
// ---------------------------------------------------------------------------
/// A hero of `side` in order: of the right kind and speed, inside the arena,
/// its shield counter in range.
pub open spec fn hero_ok(h: HeroView, side: int) -> bool {
    &&& h.component.kind == ComponentType::hero_of(side)
    &&& h.is_player == (side == 0)
    &&& h.component.max_velocity == MAX_HERO_VELOCITY
    &&& h.component.velocity.within(MAX_HERO_VELOCITY as int)
    &&& in_arena(h.component.position)
    &&& 0 <= h.component.shield_life <= SHIELD_EFFECTIVE_TURN + 1
    &&& 0 <= h.component.id
}

/// A monster no further than `margin` from the buffered playfield and no
/// faster than monsters are.
pub open spec fn monster_placed(m: MonsterView, margin: int) -> bool {
    &&& m.component.velocity.within(MAX_MONSTER_VELOCITY as int)
    &&& -MAP_LIMIT + 1 - margin <= m.component.position.x <= MAX_X + MAP_LIMIT - 1 + margin
    &&& -MAP_LIMIT + 1 - margin <= m.component.position.y <= MAX_Y + MAP_LIMIT - 1 + margin
}

/// A monster in order: of the right kind and speed, no further than `margin`
/// from the buffered playfield, its health at least `floor`.
pub open spec fn monster_ok(m: MonsterView, margin: int, floor: int) -> bool {
    &&& m.component.kind == ComponentType::Monster
    &&& m.component.max_velocity == MAX_MONSTER_VELOCITY
    &&& monster_placed(m, margin)
    &&& 0 <= m.component.shield_life <= SHIELD_EFFECTIVE_TURN + 1
    &&& floor <= m.health <= i32::MAX
    &&& 0 <= m.component.id
}

impl World {
    /// Every hero stands inside the arena.
    pub open spec fn heroes_in_arena(self) -> bool {
        forall|p: int, h: int|
            0 <= p < self.players.len() && 0 <= h < self.players[p].heroes.len() ==> in_arena(
                (#[trigger] self.players[p].heroes[h]).component.position,
            )
    }

    /// Every monster is no further than `margin` from the buffered playfield
    /// and no faster than monsters are.
    pub open spec fn monsters_within(self, margin: int) -> bool {
        forall|m: int|
            0 <= m < self.monsters.len() ==> monster_placed(#[trigger] self.monsters[m], margin)
    }

    /// The world in order in the middle of a turn.
    pub open spec fn sane(self, margin: int, floor: int) -> bool {
        &&& self.shaped()
        &&& forall|p: int, h: int|
            0 <= p < 2 && 0 <= h < HEROES_PER_PLAYER ==> hero_ok(
                #[trigger] self.players[p].heroes[h],
                p,
            )
        &&& forall|m: int|
            0 <= m < self.monsters.len() ==> monster_ok(#[trigger] self.monsters[m], margin, floor)
        &&& forall|p: int|
            0 <= p < 2 ==> (#[trigger] self.players[p]).base == base_of(p) && 0
                <= self.players[p].mana <= i32::MAX
        &&& self.monsters.len() <= usize::MAX - 2 * HEROES_PER_PLAYER
        &&& self.unique_ids()
    }

    /// The world in order between two turns: every monster is alive and
    /// inside the buffered playfield.
    pub open spec fn wf(self) -> bool {
        self.sane(0, 1)
    }
}

// ---------------------------------------------------------------------------
// Phase 1: reset
// ---------------------------------------------------------------------------
impl ComponentView {
    /// The actor at the start of a turn: last turn's control casts come into
    /// force, nothing is queued, no wind has moved it.
    pub open spec fn reset(self) -> ComponentView {
        ComponentView { control: self.next_control, next_control: Seq::empty(), pushed: false, ..self }
    }
}

/// The world after the reset: every actor is reset and every hero has its
/// action of this turn recorded, `first` for side 0 and `second` for side 1.
pub open spec fn reset_phase(w: World, first: Seq<ActionView>, second: Seq<ActionView>) -> World {
    World {
        players: Seq::new(
            w.players.len(),
            |p: int|
                PlayerView {
                    heroes: Seq::new(
                        w.players[p].heroes.len(),
                        |h: int|
                            HeroView {
                                component: w.players[p].heroes[h].component.reset(),
                                action: if p == 0 {
                                    first[h]
                                } else {
                                    second[h]
                                },
                                is_player: w.players[p].heroes[h].is_player,
                            },
                    ),
                    ..w.players[p]
                },
        ),
        monsters: Seq::new(
            w.monsters.len(),
            |m: int| MonsterView { component: w.monsters[m].component.reset(), ..w.monsters[m] },
        ),
    }
}

// ---------------------------------------------------------------------------
// Phases 2 and 3: control and shield
// ---------------------------------------------------------------------------
/// The side of the `k`-th caster of a phase: all heroes of side 0 come first.
pub open spec fn caster_side(k: int) -> int {
    k / (HEROES_PER_PLAYER as int)
}

/// The number within its side of the `k`-th caster of a phase.
pub open spec fn caster_hero(k: int) -> int {
    k % (HEROES_PER_PLAYER as int)
}

/// Whether a control or shield cast by hero `h` of `side` on the actor `id`
/// lands: the side can pay, the actor exists, the side sees it, it is within
/// the caster's reach, and no shield protects it.
pub open spec fn spell_lands(w: World, side: int, h: int, id: int) -> bool {
    let target = w.component(w.find(id));
    &&& w.players[side].mana >= MANA_TO_SPELL
    &&& w.has(id)
    &&& w.players[side].visible(target.position)
    &&& w.hero(side, h).component.position.in_range(
        target.position,
        CONTROL_EFFECTIVE_RADIUS as int,
    )
    &&& target.shield_life == 0
}

/// The side has paid for one spell.
pub open spec fn pay(w: World, side: int) -> World {
    w.with_mana(side, w.players[side].mana - MANA_TO_SPELL)
}

/// The world after hero `h` of `side` had its turn in the control phase: a
/// control cast that lands is paid for and queues its point on the target.
pub open spec fn control_cast(w: World, side: int, h: int) -> World {
    match w.hero(side, h).action {
        ActionView::Control { entity_id, point, .. } => {
            if spell_lands(w, side, h, entity_id) {
                let i = w.find(entity_id);
                let t = w.component(i);
                pay(w, side).with_component(
                    i,
                    ComponentView { next_control: t.next_control.push(point), ..t },
                )
            } else {
                w
            }
        },
        _ => w,
    }
}

/// The world after the first `k` casters had their turn in the control phase.
pub open spec fn control_upto(w: World, k: nat) -> World
    decreases k,
{
    if k == 0 {
        w
    } else {
        control_cast(control_upto(w, (k - 1) as nat), caster_side(k - 1), caster_hero(k - 1))
    }
}

/// The world after phase 2: every caster has had its turn.
pub open spec fn control_phase(w: World) -> World {
    control_upto(w, 2 * HEROES_PER_PLAYER as nat)
}

/// The world after hero `h` of `side` had its turn in the shield phase: a
/// shield cast that lands is paid for and protects the target for the rest of
/// this turn and `SHIELD_EFFECTIVE_TURN` further turns.
pub open spec fn shield_cast(w: World, side: int, h: int) -> World {
    match w.hero(side, h).action {
        ActionView::Shield { entity_id, .. } => {
            if spell_lands(w, side, h, entity_id) {
                let i = w.find(entity_id);
                let t = w.component(i);
                pay(w, side).with_component(
                    i,
                    ComponentView { shield_life: SHIELD_EFFECTIVE_TURN + 1, ..t },
                )
            } else {
                w
            }
        },
        _ => w,
    }
}

/// The world after the first `k` casters had their turn in the shield phase.
pub open spec fn shield_upto(w: World, k: nat) -> World
    decreases k,
{
    if k == 0 {
        w
    } else {
        shield_cast(shield_upto(w, (k - 1) as nat), caster_side(k - 1), caster_hero(k - 1))
    }
}

/// The world after phase 3: every caster has had its turn.
pub open spec fn shield_phase(w: World) -> World {
    shield_upto(w, 2 * HEROES_PER_PLAYER as nat)
}

// ---------------------------------------------------------------------------
// Phase 4: the heroes move
// ---------------------------------------------------------------------------
/// A hero after its move: one that moves heads for its point at hero speed,
/// stops there if it is within reach, and stays on the playfield.
pub open spec fn moved_hero(h: HeroView) -> HeroView {
    match h.action {
        ActionView::Move { point, .. } => {
            let v = step_toward(h.component.position, point@, MAX_HERO_VELOCITY as int);
            HeroView {
                component: ComponentView {
                    velocity: v,
                    position: snap(h.component.position.plus(v)),
                    ..h.component
                },
                ..h
            }
        },
        _ => h,
    }
}

/// The world after phase 4: every hero has made its move.
pub open spec fn move_heroes_phase(w: World) -> World {
    w.map_heroes(|h: HeroView| moved_hero(h))
}

// ---------------------------------------------------------------------------
// Phase 5: the heroes attack
// ---------------------------------------------------------------------------
/// Number of heroes among the first `n` of `heroes` that reach the point `p`.
pub open spec fn hits_upto(heroes: Seq<HeroView>, p: Vec2, n: nat) -> nat
    decreases n,
{
    if n == 0 {
        0
    } else {
        let rest = hits_upto(heroes, p, (n - 1) as nat);
        if p.in_range(heroes[n - 1].component.position, HERO_ATTACK_RADIUS as int) {
            rest + 1
        } else {
            rest
        }
    }
}

/// Number of heroes of `side` that reach the point `p`.
pub open spec fn hits(w: World, side: int, p: Vec2) -> nat {
    hits_upto(w.players[side].heroes, p, w.players[side].heroes.len())
}

/// A monster after the attacks: every hero that reaches it has hit it.
pub open spec fn attacked(w: World, m: MonsterView) -> MonsterView {
    MonsterView {
        health: m.health - MANA_GAIN_TO_ATTACK * (hits(w, 0, m.component.position) + hits(
            w,
            1,
            m.component.position,
        )),
        ..m
    }
}

/// The world after phase 5: every monster has taken its hits.
pub open spec fn attack_phase(w: World) -> World {
    w.map_monsters(|m: MonsterView| attacked(w, m))
}

/// Number of hits of `side` on the first `n` monsters.
pub open spec fn side_hits_upto(w: World, side: int, n: nat) -> nat
    decreases n,
{
    if n == 0 {
        0
    } else {
        side_hits_upto(w, side, (n - 1) as nat) + hits(w, side, w.monsters[n - 1].component.position)
    }
}

/// Number of hits of `side` in the attack phase that starts in `w`.
pub open spec fn side_hits(w: World, side: int) -> nat {
    side_hits_upto(w, side, w.monsters.len())
}

/// Number of hits of `side` on those of the first `n` monsters that are near
/// the base of `side`.
pub open spec fn near_hits_upto(w: World, side: int, n: nat) -> nat
    decreases n,
{
    if n == 0 {
        0
    } else {
        let rest = near_hits_upto(w, side, (n - 1) as nat);
        let p = w.monsters[n - 1].component.position;
        if w.players[side].base.in_range(p, VISIBLE_RADIUS_FROM_BASE as int) {
            rest + hits(w, side, p)
        } else {
            rest
        }
    }
}

/// Number of hits of `side` on monsters near its own base.
pub open spec fn near_hits(w: World, side: int) -> nat {
    near_hits_upto(w, side, w.monsters.len())
}

// ---------------------------------------------------------------------------
// Phase 6: wind
// ---------------------------------------------------------------------------
/// A wind that was cast: by which side, from where, and the push it gives.
pub struct WindCast {
    pub side: int,
    pub origin: Vec2,
    pub push: Vec2,
}

/// Whether hero `h` of `side` casts a wind that lands: the side can pay and
/// the wind has a direction.
pub open spec fn wind_lands(w: World, side: int, h: int) -> bool {
    match w.hero(side, h).action {
        ActionView::Wind { point, .. } => w.players[side].mana >= MANA_TO_SPELL && point@
            != w.hero(side, h).component.position,
        _ => false,
    }
}

/// The wind that hero `h` of `side` casts.
pub open spec fn wind_of(w: World, side: int, h: int) -> WindCast {
    let origin = w.hero(side, h).component.position;
    let point = match w.hero(side, h).action {
        ActionView::Wind { point, .. } => point@,
        _ => origin,
    };
    WindCast { side, origin, push: heading(origin, point, WIND_DISTANCE as int) }
}

/// The world after the first `k` casters had their winds paid for.
pub open spec fn wind_paid_upto(w: World, k: nat) -> World
    decreases k,
{
    if k == 0 {
        w
    } else {
        let prev = wind_paid_upto(w, (k - 1) as nat);
        if wind_lands(prev, caster_side(k - 1), caster_hero(k - 1)) {
            pay(prev, caster_side(k - 1))
        } else {
            prev
        }
    }
}

/// The winds of the first `k` casters that land, in the order of the casters.
pub open spec fn winds_upto(w: World, k: nat) -> Seq<WindCast>
    decreases k,
{
    if k == 0 {
        Seq::empty()
    } else {
        let prev = wind_paid_upto(w, (k - 1) as nat);
        let winds = winds_upto(w, (k - 1) as nat);
        if wind_lands(prev, caster_side(k - 1), caster_hero(k - 1)) {
            winds.push(wind_of(prev, caster_side(k - 1), caster_hero(k - 1)))
        } else {
            winds
        }
    }
}

/// Whether a wind pushes an actor: the actor is a monster or a hero of the
/// other side, within the wind's radius of the caster, and unprotected.
pub open spec fn wind_applies(wind: WindCast, c: ComponentView) -> bool {
    &&& match c.kind {
        ComponentType::Monster => true,
        ComponentType::PlayerHero => wind.side == 1,
        ComponentType::OpponentHero => wind.side == 0,
    }
    &&& c.position.in_range(wind.origin, WIND_EFFECTIVE_RADIUS as int)
    &&& c.shield_life == 0
}

/// Number of winds among the first `n` that push the actor.
pub open spec fn push_count(winds: Seq<WindCast>, c: ComponentView, n: nat) -> nat
    decreases n,
{
    if n == 0 {
        0
    } else {
        let rest = push_count(winds, c, (n - 1) as nat);
        if wind_applies(winds[n - 1], c) {
            rest + 1
        } else {
            rest
        }
    }
}

/// Sum of the pushes that the first `n` winds give the actor.
pub open spec fn push_sum(winds: Seq<WindCast>, c: ComponentView, n: nat) -> Vec2
    decreases n,
{
    if n == 0 {
        Vec2::zero()
    } else {
        let rest = push_sum(winds, c, (n - 1) as nat);
        if wind_applies(winds[n - 1], c) {
            rest.plus(winds[n - 1].push)
        } else {
            rest
        }
    }
}

/// The four legs: along the two borders of the playfield that meet at each
/// base, from the base as far as the base's radius.
pub open spec fn leg_start(leg: int) -> Vec2 {
    if leg < 2 {
        Vec2 { x: 0, y: 0 }
    } else {
        Vec2 { x: MAX_X - 1, y: MAX_Y - 1 }
    }
}

/// Where the leg `leg` ends.
pub open spec fn leg_end(leg: int) -> Vec2 {
    if leg == 0 {
        Vec2 { x: VISIBLE_RADIUS_FROM_BASE as int, y: 0 }
    } else if leg == 1 {
        Vec2 { x: 0, y: VISIBLE_RADIUS_FROM_BASE as int }
    } else if leg == 2 {
        Vec2 { x: MAX_X - VISIBLE_RADIUS_FROM_BASE - 1, y: MAX_Y - 1 }
    } else {
        Vec2 { x: MAX_X - 1, y: MAX_Y - VISIBLE_RADIUS_FROM_BASE - 1 }
    }
}

/// Whether the way from `p` to `np` crosses one of the four legs, by the
/// crossing test of `crosses`.
pub open spec fn crosses_leg(p: Vec2, np: Vec2) -> bool {
    exists|leg: int| 0 <= leg < 4 && #[trigger] crosses(leg_start(leg), leg_end(leg), p, np)
}

/// Whether the way from `p` to `np` leads from near a base to far from it.
pub open spec fn leaves_base(p: Vec2, np: Vec2) -> bool {
    exists|side: int|
        0 <= side < 2 && (#[trigger] base_of(side)).in_range(p, VISIBLE_RADIUS_FROM_BASE as int)
            && !base_of(side).in_range(np, VISIBLE_RADIUS_FROM_BASE as int)
}

/// A hero after the winds: one that is pushed moves by the sum of its pushes
/// and stays on the playfield.
pub open spec fn blown_hero(winds: Seq<WindCast>, h: HeroView) -> HeroView {
    let c = h.component;
    if push_count(winds, c, winds.len()) > 0 {
        HeroView {
            component: ComponentView {
                pushed: true,
                position: snap(c.position.plus(push_sum(winds, c, winds.len()))),
                ..c
            },
            ..h
        }
    } else {
        h
    }
}

/// Whether the winds scatter the monster: it is pushed, its way crosses no
/// leg, and leads from near a base to far from it.
pub open spec fn scatters(winds: Seq<WindCast>, c: ComponentView) -> bool {
    let np = c.position.plus(push_sum(winds, c, winds.len()));
    push_count(winds, c, winds.len()) > 0 && !crosses_leg(c.position, np) && leaves_base(
        c.position,
        np,
    )
}

/// A monster after the winds: one that is pushed moves by the sum of its
/// pushes; where its way crosses a leg it stays on the playfield; where it is
/// scattered it takes the velocity `fresh`.
pub open spec fn blown_monster(winds: Seq<WindCast>, m: MonsterView, fresh: Vec2) -> MonsterView {
    let c = m.component;
    let np = c.position.plus(push_sum(winds, c, winds.len()));
    if push_count(winds, c, winds.len()) == 0 {
        m
    } else if crosses_leg(c.position, np) {
        MonsterView { component: ComponentView { pushed: true, position: snap(np), ..c }, ..m }
    } else if leaves_base(c.position, np) {
        MonsterView {
            component: ComponentView { pushed: true, position: np, velocity: fresh, ..c },
            ..m
        }
    } else {
        MonsterView { component: ComponentView { pushed: true, position: np, ..c }, ..m }
    }
}

/// Number of monsters among the first `n` that the winds scatter: the number
/// of draws that the wind phase has made when it comes to monster `n`.
pub open spec fn scattered_upto(winds: Seq<WindCast>, monsters: Seq<MonsterView>, n: nat) -> nat
    decreases n,
{
    if n == 0 {
        0
    } else {
        let rest = scattered_upto(winds, monsters, (n - 1) as nat);
        if scatters(winds, monsters[n - 1].component) {
            rest + 1
        } else {
            rest
        }
    }
}

// ---------------------------------------------------------------------------
// Phase 7: the monsters move
// ---------------------------------------------------------------------------
/// Sum of the moves at monster speed from `pos` toward each of the first `n`
/// targets.
pub open spec fn control_sum(pos: Vec2, targets: Seq<Point>, n: nat) -> Vec2
    decreases n,
{
    if n == 0 {
        Vec2::zero()
    } else {
        control_sum(pos, targets, (n - 1) as nat).plus(
            step_toward(pos, targets[n - 1]@, MAX_MONSTER_VELOCITY as int),
        )
    }
}

/// The move of a controlled actor: the mean of the moves toward its targets,
/// each coordinate rounded toward zero.
pub open spec fn control_step(c: ComponentView) -> Vec2 {
    let sum = control_sum(c.position, c.control, c.control.len());
    Vec2 {
        x: trunc_div(sum.x, c.control.len() as int),
        y: trunc_div(sum.y, c.control.len() as int),
    }
}

/// A monster after its move: one that no wind pushed and that lives moves
/// once, toward its control targets if it has any, else by its velocity.
pub open spec fn moved_monster(m: MonsterView) -> MonsterView {
    let c = m.component;
    if m.move_canceled() {
        m
    } else if c.is_controlled() {
        MonsterView {
            component: ComponentView { position: c.position.plus(control_step(c)), ..c },
            ..m
        }
    } else {
        MonsterView { component: ComponentView { position: c.next_pos(), ..c }, ..m }
    }
}

/// The world after phase 7: every monster has made its move.
pub open spec fn move_monsters_phase(w: World) -> World {
    w.map_monsters(|m: MonsterView| moved_monster(m))
}

// ---------------------------------------------------------------------------
// Phase 8: the shields decay
// ---------------------------------------------------------------------------
impl ComponentView {
    /// The actor with one turn less of protection.
    pub open spec fn decayed(self) -> ComponentView {
        ComponentView {
            shield_life: if self.shield_life > 1 {
                self.shield_life - 1
            } else {
                0
            },
            ..self
        }
    }
}

/// The world after phase 8: every shield counter has gone down.
pub open spec fn decay_phase(w: World) -> World {
    w.map_components(|c: ComponentView| c.decayed())
}

// ---------------------------------------------------------------------------
// Phase 9: monsters leave and appear
// ---------------------------------------------------------------------------
/// A monster that stays in the game: alive and inside the buffered playfield.
pub open spec fn survives(m: MonsterView) -> bool {
    m.health > 0 && in_buffer(m.component.position)
}

/// Those of the first `n` monsters that stay, in their order.
pub open spec fn survivors_upto(monsters: Seq<MonsterView>, n: nat) -> Seq<MonsterView>
    decreases n,
{
    if n == 0 {
        Seq::empty()
    } else {
        let rest = survivors_upto(monsters, (n - 1) as nat);
        if survives(monsters[n - 1]) {
            rest.push(monsters[n - 1])
        } else {
            rest
        }
    }
}

/// The monsters that stay, in their order.
pub open spec fn survivors(monsters: Seq<MonsterView>) -> Seq<MonsterView> {
    survivors_upto(monsters, monsters.len())
}

/// Whether monsters appear in `turn`.
pub open spec fn spawns(turn: nat) -> bool {
    sudden_death(turn) || turn % (SPAWN_PERIOD as nat) == 0
}

/// Whether `turn` belongs to the sudden death.
pub open spec fn sudden_death(turn: nat) -> bool {
    turn >= SUDDEN_DEATH_TURN
}

/// Number of places at which monsters appear.
pub open spec fn spawn_places() -> nat {
    2
}

/// The `place`-th of the places at which monsters appear; its twin lies
/// opposite, through the center.
pub open spec fn spawn_point(place: int) -> Vec2 {
    Vec2 { x: CENTER_X + 4000 * place, y: -MAP_LIMIT + 1 }
}

/// Number of draws that one place takes in `turn`.
pub open spec fn spawn_draws(turn: nat) -> nat {
    if sudden_death(turn) {
        3
    } else {
        1
    }
}

/// The velocity of the monster that appears at `place` in `turn`, with the
/// source of draws in the state `random`. Before the sudden death it is the
/// entry of `spread` that belongs to the draw; from then on it heads for a
/// drawn point near one of the bases, the base drawn too.
pub open spec fn spawn_velocity(turn: nat, random: RandomView, spread: Seq<Point>, place: int)
    -> Vec2 {
    if sudden_death(turn) {
        let tx = scale_draw(0, VISIBLE_RADIUS_FROM_BASE as u32, random.draw(0));
        let ty = scale_draw(0, VISIBLE_RADIUS_FROM_BASE as u32, random.draw(1));
        let target = if draw_is_true(random.draw(2)) {
            Vec2 { x: MAX_X - tx, y: MAX_Y - ty }
        } else {
            Vec2 { x: tx, y: ty }
        };
        heading(spawn_point(place), target, MAX_MONSTER_VELOCITY as int)
    } else {
        spread[random.index as int]@
    }
}

/// A monster as it appears.
pub open spec fn newborn(id: int, position: Vec2, velocity: Vec2, health: int) -> MonsterView {
    MonsterView {
        component: ComponentView {
            velocity,
            ..ComponentView::create(id, position, MAX_MONSTER_VELOCITY as int, ComponentType::Monster)
        },
        health,
        threat_state: crate::entity::MonsterThreatState::NotThreat,
    }
}

/// The pair of monsters that appears at `position` with `velocity`: the
/// second is the image of the first under the reflection through the center.
pub open spec fn spawn_pair(id: int, position: Vec2, velocity: Vec2, health: int) -> Seq<
    MonsterView,
> {
    seq![
        newborn(id, position, velocity, health),
        newborn(id + 1, position.reflect(crate::rules::center()), velocity.neg(), health),
    ]
}

/// The monsters that appear at the first `places` places in `turn`, the first
/// of them with the id `next_id`, with the source of draws in the state
/// `random` before the first.
pub open spec fn spawned_upto(
    turn: nat,
    next_id: int,
    random: RandomView,
    spread: Seq<Point>,
    places: nat,
) -> Seq<MonsterView>
    decreases places,
{
    if places == 0 {
        Seq::empty()
    } else {
        let before = (places - 1) as nat;
        spawned_upto(turn, next_id, random, spread, before) + spawn_pair(
            next_id + 2 * before,
            spawn_point(before as int),
            spawn_velocity(turn, random.skip(before * spawn_draws(turn)), spread, before as int),
            spawn_health(turn as int),
        )
    }
}

/// The monsters that appear in `turn`.
pub open spec fn spawned(turn: nat, next_id: int, random: RandomView, spread: Seq<Point>) -> Seq<
    MonsterView,
> {
    if spawns(turn) {
        spawned_upto(turn, next_id, random, spread, spawn_places())
    } else {
        Seq::empty()
    }
}

// ---------------------------------------------------------------------------
// The whole turn
// ---------------------------------------------------------------------------
/// What a simulator stands for: the world, the number of the turn, the next
/// free id, the source of draws, and the two tables of directions that belong
/// to the draws.
pub struct SimView {
    pub world: World,
    pub turn: nat,
    pub next_id: int,
    pub random: RandomView,
    /// For each entry of the table of draws, the velocity of a monster that
    /// the draw scatters.
    pub scatter: Seq<Point>,
    /// For each entry of the table of draws, the velocity of a monster that
    /// appears with the draw.
    pub spread: Seq<Point>,
}

/// Number of casters of one phase.
pub open spec fn casters() -> nat {
    2 * HEROES_PER_PLAYER as nat
}

/// The velocity that monster `m` takes if the winds scatter it: the entry of
/// `scatter` that belongs to the draw made for it.
pub open spec fn scatter_velocity(
    winds: Seq<WindCast>,
    monsters: Seq<MonsterView>,
    random: RandomView,
    scatter: Seq<Point>,
    m: int,
) -> Vec2 {
    scatter[random.skip(scattered_upto(winds, monsters, m as nat)).index as int]@
}

/// The world after the wind phase: the winds that land are paid for, and
/// every hero and monster is blown by them.
pub open spec fn wind_world(w: World, random: RandomView, scatter: Seq<Point>) -> World {
    let winds = winds_upto(w, casters());
    World {
        players: wind_paid_upto(w, casters()).map_heroes(|h: HeroView| blown_hero(winds, h)).players,
        monsters: Seq::new(
            w.monsters.len(),
            |m: int|
                blown_monster(
                    winds,
                    w.monsters[m],
                    scatter_velocity(winds, w.monsters, random, scatter, m),
                ),
        ),
    }
}

/// The source of draws after the wind phase: one draw for every monster that
/// is scattered.
pub open spec fn wind_random(w: World, random: RandomView) -> RandomView {
    random.skip(scattered_upto(winds_upto(w, casters()), w.monsters, w.monsters.len()))
}

/// The world after phase 9: the monsters that stay, then those that appear.
pub open spec fn spawn_world(
    w: World,
    turn: nat,
    next_id: int,
    random: RandomView,
    spread: Seq<Point>,
) -> World {
    World {
        players: w.players,
        monsters: survivors(w.monsters) + spawned(turn, next_id, random, spread),
    }
}

/// Number of monsters that appear in `turn`.
pub open spec fn spawn_count(turn: nat) -> nat {
    if spawns(turn) {
        2 * spawn_places()
    } else {
        0
    }
}

/// The source of draws after phase 9.
pub open spec fn spawn_random(turn: nat, random: RandomView) -> RandomView {
    if spawns(turn) {
        random.skip(spawn_places() * spawn_draws(turn))
    } else {
        random
    }
}

/// The world with `first` more mana for side 0 and `second` more for side 1.
pub open spec fn credit(w: World, first: int, second: int) -> World {
    w.with_mana(0, w.players[0].mana + first).with_mana(1, w.players[1].mana + second)
}

/// The world as the attack phase finds it in the turn that starts in `s` with
/// the given actions.
pub open spec fn before_attack(s: SimView, first: Seq<ActionView>, second: Seq<ActionView>)
    -> World {
    move_heroes_phase(shield_phase(control_phase(reset_phase(s.world, first, second))))
}

/// The world as phase 9 finds it.
pub open spec fn before_spawn(s: SimView, first: Seq<ActionView>, second: Seq<ActionView>)
    -> World {
    let attacked = attack_phase(before_attack(s, first, second));
    decay_phase(move_monsters_phase(wind_world(attacked, s.random, s.scatter)))
}

/// One turn: the nine phases in their order, then the mana that the attacks
/// earned, then the count of turns. `first` holds the actions of the heroes of
/// side 0, `second` those of side 1.
pub open spec fn step(s: SimView, first: Seq<ActionView>, second: Seq<ActionView>) -> SimView {
    let fought = before_attack(s, first, second);
    let attacked = attack_phase(fought);
    let drawn = wind_random(attacked, s.random);
    let settled = spawn_world(before_spawn(s, first, second), s.turn, s.next_id, drawn, s.spread);
    SimView {
        world: credit(
            settled,
            MANA_GAIN_TO_ATTACK * side_hits(fought, 0),
            MANA_GAIN_TO_ATTACK * side_hits(fought, 1),
        ),
        turn: s.turn + 1,
        next_id: s.next_id + spawn_count(s.turn),
        random: spawn_random(s.turn, drawn),
        scatter: s.scatter,
        spread: s.spread,
    }
}

} // verus!
