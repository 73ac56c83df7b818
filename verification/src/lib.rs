//! A deterministic turn-based battle simulator: two sides of heroes gather
//! mana, fight monsters, cast area spells and defend their bases.
pub mod engine;
pub mod entity;
pub mod inout;
pub mod invariants;
pub mod laws;
pub mod line;
pub mod model;
pub mod point;
pub mod projection;
pub mod random;
pub mod rules;
pub mod simulator;
pub mod validity;
pub mod wind;

pub use crate::entity::{
    Action, Component, ComponentType, Components, Hero, Monster, MonsterThreatState, Player,
};
pub use crate::line::Line;
pub use crate::point::{IPoint, Point};
pub use crate::random::{CachedRandom, XorShift};
pub use crate::rules::{
    center_point, CENTER_X, CENTER_Y, CONTROL_EFFECTIVE_RADIUS, HERO_ATTACK_RADIUS,
    MANA_GAIN_TO_ATTACK, MANA_TO_SPELL, MAP_LIMIT, MAX_HERO_VELOCITY, MAX_MONSTER_VELOCITY, MAX_X,
    MAX_Y, SHIELD_EFFECTIVE_TURN, VISIBLE_RADIUS_FROM_BASE, VISIBLE_RADIUS_FROM_HERO,
    WIND_DISTANCE, WIND_EFFECTIVE_RADIUS,
};
pub use crate::simulator::{Simulator, System};
