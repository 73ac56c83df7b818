//! The numbers of the game.
use crate::point::{Point, Vec2};
use vstd::prelude::*;

verus! {

/// The playfield is `[0, MAX_X) x [0, MAX_Y)`; the second base stands at
/// `(MAX_X, MAX_Y)`.
pub const MAX_X: i32 = 17630;

/// Height of the playfield.
pub const MAX_Y: i32 = 9000;

/// The x coordinate of the center of the playfield.
pub const CENTER_X: i32 = 8815;

/// The y coordinate of the center of the playfield.
pub const CENTER_Y: i32 = 4500;

/// The center of the playfield, through which the two sides mirror each other.
pub open spec fn center() -> Vec2 {
    Vec2 { x: CENTER_X as int, y: CENTER_Y as int }
}

/// The center of the playfield.
pub fn center_point() -> (r: Point)
    ensures
        r@ == center(),
{
    Point { x: CENTER_X, y: CENTER_Y }
}

/// Width of the buffer around the playfield in which monsters still live.
pub const MAP_LIMIT: i32 = 800;

/// Price of one spell.
pub const MANA_TO_SPELL: i32 = 10;

/// Speed of a hero.
pub const MAX_HERO_VELOCITY: i32 = 800;

/// Speed of a monster.
pub const MAX_MONSTER_VELOCITY: i32 = 400;

/// Number of turns after the cast during which a shield protects.
pub const SHIELD_EFFECTIVE_TURN: i32 = 12;

/// Damage of one hit, and the mana that it earns.
pub const MANA_GAIN_TO_ATTACK: i32 = 2;

/// Reach of a hero's attack.
pub const HERO_ATTACK_RADIUS: i32 = 800;

/// Radius around its caster within which a wind pushes.
pub const WIND_EFFECTIVE_RADIUS: i32 = 1280;

/// Reach of a control or shield cast.
pub const CONTROL_EFFECTIVE_RADIUS: i32 = 2200;

/// Length of the push of one wind.
pub const WIND_DISTANCE: i32 = 2200;

/// Radius around a base: what lies inside is seen by its side, and is near
/// the base.
pub const VISIBLE_RADIUS_FROM_BASE: i32 = 6000;

/// Radius around a hero within which its side sees.
pub const VISIBLE_RADIUS_FROM_HERO: i32 = 2200;

/// Number of heroes of each side.
pub const HEROES_PER_PLAYER: usize = 3;

/// Monsters appear every this many turns.
pub const SPAWN_PERIOD: usize = 5;

/// From this turn on monsters appear every turn and aim at the bases.
pub const SUDDEN_DEATH_TURN: usize = 200;

/// The turn with which a game ends.
pub const LAST_TURN: usize = 220;

/// Number of entries of the engine's table of draws.
pub const RANDOM_TABLE_SIZE: usize = 65535;

/// A point of the playfield.
pub open spec fn in_playfield(p: Vec2) -> bool {
    0 <= p.x < MAX_X && 0 <= p.y < MAX_Y
}

/// A point of the playfield or of the buffer around it: where monsters live.
pub open spec fn in_buffer(p: Vec2) -> bool {
    -MAP_LIMIT + 1 <= p.x <= MAX_X + MAP_LIMIT - 1 && -MAP_LIMIT + 1 <= p.y <= MAX_Y + MAP_LIMIT - 1
}

/// A point of the playfield or of its far border, on which the second base lies.
pub open spec fn in_arena(p: Vec2) -> bool {
    0 <= p.x <= MAX_X && 0 <= p.y <= MAX_Y
}

/// `v`, or the nearer of `low` and `high` where it lies outside them.
pub open spec fn clamp(v: int, low: int, high: int) -> int {
    if v < low {
        low
    } else if v > high {
        high
    } else {
        v
    }
}

/// The nearest point of the playfield.
pub open spec fn snap(p: Vec2) -> Vec2 {
    Vec2 { x: clamp(p.x, 0, MAX_X - 1), y: clamp(p.y, 0, MAX_Y - 1) }
}

/// The base of a side: the origin for side 0, the far corner for side 1.
pub open spec fn base_of(side: int) -> Vec2 {
    Vec2 { x: side * MAX_X, y: side * MAX_Y }
}

/// Health of a monster that appears in `turn`.
pub open spec fn spawn_health(turn: int) -> int {
    10 + (turn / 5) / 2
}

} // verus!
