use simulator::entity::MonsterThreatState::{
    NotThreat, OpponentThreat, OpponentThreatInTheFuture, PlayerThreat, PlayerThreatInTheFuture,
};
use simulator::entity::{Action, MonsterThreatState};
use simulator::inout::{Board, Hero, Monster, Player};
use simulator::point::Point;
use simulator::projection::classify_threat;
use simulator::random::CachedRandom;
use simulator::simulator::Simulator;

const CONTROL_RADIUS: i32 = 2200;
const MAX_PLAYER_VELOCITY: i32 = 800;
const MAX_MONSTER_VELOCITY: i32 = 400;

fn pt(x: i32, y: i32) -> Point {
    Point { x, y }
}

fn round(v: f64) -> i32 {
    v.round() as i32
}

fn directions(seed: u64) -> (Vec<Point>, Vec<Point>) {
    let table = CachedRandom::new(65535, seed);
    let widest = 5.0 * std::f64::consts::PI / 12.0;
    let mut scatter = vec![];
    let mut spread = vec![];
    for i in 0..table.len() {
        let fraction = (table.entry(i) as f64) / (u32::MAX as f64);
        let angle = fraction * std::f64::consts::PI * 2.0;
        scatter.push(pt(round(angle.cos() * 400.0), round(angle.sin() * 400.0)));
        let delta = fraction * (widest - (-widest)) + (-widest);
        spread.push(pt(round(-delta.sin() * 400.0), round(delta.cos() * 400.0)));
    }
    (scatter, spread)
}

fn waits() -> Vec<Action> {
    vec![
        Action::Wait { message: String::new() },
        Action::Wait { message: String::new() },
        Action::Wait { message: String::new() },
    ]
}

/// A simulator after its first turn, with its four monsters at rest.
fn with_monsters(seed: u64) -> Simulator {
    let (scatter, spread) = directions(seed);
    let mut sim = Simulator::new(seed, scatter, spread).unwrap();
    assert!(sim.is_valid());
    sim.next_state(waits(), waits());
    for (i, m) in sim.components.monster_list.iter_mut().enumerate() {
        m.component.position = pt(8000 + 200 * i as i32, 4500);
        m.component.velocity = pt(0, 0);
    }
    assert!(sim.is_valid());
    sim
}

#[test]
fn test_rad() {
    let m = Monster {
        id: 0,
        pos: Point { x: 10855, y: 6921 },
        shield_life: 0,
        is_controlled: false,
        health: 19,
        v: Point { x: 386, y: 102 },
        threat_state: MonsterThreatState::NotThreat,
    };
    let hero0 = Hero { id: 0, pos: Point { x: 11245, y: 8000 }, shield_life: 0, is_controlled: false };
    let hero1 = Hero { id: 0, pos: Point { x: 11845, y: 8000 }, shield_life: 0, is_controlled: false };

    let mut found = vec![];
    for turn in 1..4 {
        let mut best_eval = 100000000;
        let mut best_rad = 0;
        let mut best_h0 = 0;
        let mut best_h1 = 0;
        for rad in 0..360 {
            let frad = std::f64::consts::PI * 2.0 * (rad as f64) / 360.0;
            let dir = Point {
                x: round(frad.cos() * (MAX_MONSTER_VELOCITY as f64)),
                y: round(frad.sin() * (MAX_MONSTER_VELOCITY as f64)),
            };
            let nnp = m.next_pos().add(dir.mul(turn));

            let expected_hero0_pos = nnp.add(Point { x: 1100, y: 0 });
            let expected_hero1_pos = expected_hero0_pos.add(Point { x: 600, y: 0 });

            if !hero0.pos.in_range(&m.pos, CONTROL_RADIUS)
                || !expected_hero0_pos.in_range(&hero0.pos, MAX_PLAYER_VELOCITY * turn)
                || !expected_hero1_pos.in_range(&hero1.pos, MAX_PLAYER_VELOCITY * (turn + 2))
                || m.health <= 10
            {
                continue;
            }

            let eval = expected_hero0_pos.distance(&hero0.pos) + expected_hero1_pos.distance(&hero1.pos);
            if eval < best_eval {
                best_eval = eval;
                best_rad = rad;
                best_h0 = expected_hero0_pos.distance(&hero0.pos);
                best_h1 = expected_hero1_pos.distance(&hero1.pos);
            }
        }
        println!("turn = {}", turn);
        println!("eval = {}, rad = {}, ", best_eval, best_rad);
        println!("h0 = {}, h1 = {}, ", best_h0, best_h1);
        println!("----");
        found.push((best_eval, best_rad, best_h0, best_h1));
    }
    assert_eq!(found, vec![(100000000, 0, 0, 0), (1334, 137, 667, 667), (536, 137, 268, 268)]);
}

#[test]
fn a_monster_seen_moves_by_its_velocity() {
    let m = Monster {
        id: 7,
        pos: pt(100, -50),
        shield_life: 0,
        is_controlled: false,
        health: 10,
        v: pt(-30, 400),
        threat_state: MonsterThreatState::PlayerThreat,
    };
    assert_eq!(m.next_pos(), pt(70, 350));
}

#[test]
fn threat_states_and_their_flags() {
    let all = [NotThreat, PlayerThreatInTheFuture, PlayerThreat, OpponentThreatInTheFuture, OpponentThreat];
    let near = [false, false, true, false, true];
    let player = [false, true, true, false, false];
    let opponent = [false, false, false, true, true];
    let level: [i64; 5] = [0, 1, 2, -1, -2];
    for i in 0..5 {
        assert_eq!(all[i].near_base(), near[i]);
        assert_eq!(all[i].threat_player(), player[i]);
        assert_eq!(all[i].threat_opponent(), opponent[i]);
        assert_eq!(all[i].threat_level(), level[i]);
        let near_base = if near[i] { 1 } else { 0 };
        let threat_for = if player[i] { 1 } else if opponent[i] { 2 } else { 0 };
        assert_eq!(MonsterThreatState::to_threat_state(near_base, threat_for), all[i]);
    }
    assert_eq!(MonsterThreatState::to_threat_state(1, 0), NotThreat);
    assert_eq!(MonsterThreatState::to_threat_state(0, 1), PlayerThreatInTheFuture);
    assert_eq!(MonsterThreatState::to_threat_state(7, 2), OpponentThreatInTheFuture);
}

#[test]
fn threats_are_told_by_the_way_of_the_monster() {
    let own = pt(0, 0);
    let other = pt(17630, 9000);
    let cases = [
        // at rest
        (pt(100, 100), pt(0, 0), NotThreat),
        (pt(9000, 4500), pt(0, 0), NotThreat),
        // near a base
        (pt(6000, 0), pt(1, 0), PlayerThreat),
        (pt(3000, 3000), pt(400, 400), PlayerThreat),
        (pt(17630, 3000), pt(-400, 0), OpponentThreat),
        // just outside the radius, and going away along the border
        (pt(6001, 0), pt(400, 0), NotThreat),
        // on its way to a base
        (pt(6001, 0), pt(-1, 0), PlayerThreatInTheFuture),
        (pt(8000, 4000), pt(-400, -200), PlayerThreatInTheFuture),
        (pt(9000, 4500), pt(400, 200), OpponentThreatInTheFuture),
        (pt(15000, 1000), pt(0, 1), OpponentThreatInTheFuture),
        (pt(9000, 4500), pt(0, 1), NotThreat),
        // leaves the playfield before it comes near a base
        (pt(8000, 4500), pt(0, -400), NotThreat),
        (pt(8000, 4500), pt(0, 400), NotThreat),
        (pt(7000, 8000), pt(1, 400), NotThreat),
        // outside the playfield after its first move
        (pt(8815, -799), pt(347, 199), NotThreat),
    ];
    for (position, velocity, expected) in cases.iter() {
        assert_eq!(classify_threat(&own, &other, position, velocity), *expected, "{:?} {:?}", position, velocity);
    }
    // far from everything, fast, or at the end of the machine's numbers
    assert_eq!(classify_threat(&own, &other, &pt(i32::MAX, i32::MAX), &pt(i32::MAX, i32::MAX)), NotThreat);
    assert_eq!(classify_threat(&own, &other, &pt(i32::MIN, 0), &pt(i32::MAX, 0)), PlayerThreatInTheFuture);
    assert_eq!(classify_threat(&own, &other, &pt(-20000, 4500), &pt(15000, 0)), NotThreat);
    assert_eq!(classify_threat(&pt(i32::MAX, 0), &other, &pt(i32::MAX - 7000, 0), &pt(7100, 0)), PlayerThreatInTheFuture);
    // for the other side the bases change their roles
    assert_eq!(classify_threat(&other, &own, &pt(3000, 3000), &pt(400, 400)), OpponentThreat);
    assert_eq!(classify_threat(&other, &own, &pt(8000, 4000), &pt(-400, -200)), OpponentThreatInTheFuture);
}

#[test]
fn a_side_is_shown_itself_and_what_it_sees() {
    let mut sim = with_monsters(0);
    sim.components.player_list[0].mana = 42;
    sim.components.player_list[1].mana = 24;
    sim.components.player_list[1].health = 2;
    sim.components.player_list[0].hero_list[2].component.position = pt(9000, 4000);
    sim.components.player_list[0].hero_list[2].component.shield_life = 5;
    // near the base of side 0; near its third hero; seen by nobody
    sim.components.player_list[1].hero_list[0].component.position = pt(6000, 0);
    sim.components.player_list[1].hero_list[1].component.position = pt(9000, 6200);
    sim.components.player_list[1].hero_list[2].component.position = pt(9000, 6201);
    sim.components.monster_list[0].component.position = pt(3000, 3000);
    sim.components.monster_list[0].component.velocity = pt(400, 0);
    sim.components.monster_list[0].component.shield_life = 3;
    sim.components.monster_list[0].health = 7;
    sim.components.monster_list[1].component.position = pt(11200, 4000);
    sim.components.monster_list[1].component.velocity = pt(300, 200);
    sim.components.monster_list[2].component.position = pt(11201, 4000);
    sim.components.monster_list[3].component.position = pt(17000, 8000);
    sim.components.monster_list[3].component.velocity = pt(0, -100);
    assert!(sim.is_valid());

    let board = sim.to_board(0);
    assert_eq!(board.turn, 1);
    assert_eq!(board.player.health, 3);
    assert_eq!(board.player.mana, 42);
    assert_eq!(board.player.base, pt(0, 0));
    assert_eq!(board.opponent.health, 2);
    assert_eq!(board.opponent.mana, 24);
    assert_eq!(board.opponent.base, pt(17630, 9000));
    let own: Vec<(i32, Point, i32, bool)> =
        board.player.hero_list.iter().map(|h| (h.id, h.pos, h.shield_life, h.is_controlled)).collect();
    assert_eq!(own, vec![(0, pt(0, 0), 0, false), (2, pt(0, 0), 0, false), (4, pt(9000, 4000), 5, false)]);
    let other: Vec<(i32, Point)> = board.opponent.hero_list.iter().map(|h| (h.id, h.pos)).collect();
    assert_eq!(other, vec![(1, pt(6000, 0)), (3, pt(9000, 6200))]);
    let ids: Vec<i32> = board.monster_list.iter().map(|m| m.id).collect();
    assert_eq!(ids, vec![6, 7]);
    let m = board.monster(6).unwrap();
    assert_eq!(m.pos, pt(3000, 3000));
    assert_eq!(m.v, pt(400, 0));
    assert_eq!(m.shield_life, 3);
    assert_eq!(m.health, 7);
    assert!(!m.is_controlled);
    assert_eq!(m.threat_state, MonsterThreatState::PlayerThreat);
    assert_eq!(board.monster(7).unwrap().threat_state, MonsterThreatState::OpponentThreatInTheFuture);
    assert!(board.monster(8).is_none());
    assert!(board.monster(9).is_none());

    // the other side
    let board = sim.to_board(1);
    assert_eq!(board.player.base, pt(17630, 9000));
    assert_eq!(board.player.mana, 24);
    assert_eq!(board.player.health, 2);
    assert_eq!(board.opponent.base, pt(0, 0));
    assert_eq!(board.opponent.mana, 42);
    assert_eq!(board.player.hero_list.len(), 3);
    let other: Vec<i32> = board.opponent.hero_list.iter().map(|h| h.id).collect();
    assert_eq!(other, vec![4]);
    let seen: Vec<(i32, MonsterThreatState)> = board.monster_list.iter().map(|m| (m.id, m.threat_state)).collect();
    assert_eq!(seen, vec![(9, MonsterThreatState::PlayerThreat)]);
    // a hero that comes near shows more
    sim.components.player_list[1].hero_list[2].component.position = pt(11200, 6200);
    let board = sim.to_board(1);
    let seen: Vec<(i32, MonsterThreatState)> = board.monster_list.iter().map(|m| (m.id, m.threat_state)).collect();
    assert_eq!(
        seen,
        vec![
            (7, MonsterThreatState::PlayerThreatInTheFuture),
            (9, MonsterThreatState::PlayerThreat)
        ]
    );
}

#[test]
fn a_controlled_actor_is_shown_as_controlled() {
    let mut sim = with_monsters(0);
    sim.components.player_list[0].mana = 10;
    sim.components.monster_list[0].component.position = pt(1000, 1000);
    let id = sim.components.monster_list[0].component.id;
    sim.next_state(
        vec![
            Action::Control { entity_id: id, point: pt(0, 0), message: String::new() },
            Action::Wait { message: String::new() },
            Action::Wait { message: String::new() },
        ],
        waits(),
    );
    assert!(!sim.to_board(0).monster(id).unwrap().is_controlled);
    assert!(sim.is_valid());
    sim.next_state(waits(), waits());
    assert!(sim.to_board(0).monster(id).unwrap().is_controlled);
}

#[test]
fn the_same_state_is_shown_the_same_way() {
    let mut sim = with_monsters(11);
    for turn in 0..30 {
        for viewer in 0..2 {
            let a = sim.to_board(viewer);
            let before = format!("{:?}", sim);
            let b = sim.to_board(viewer);
            assert_eq!(format!("{:?}", a), format!("{:?}", b), "turn {}", turn);
            assert_eq!(before, format!("{:?}", sim));
        }
        assert!(sim.is_valid());
        sim.next_state(
            vec![
                Action::Move { point: pt(4000, 3000), message: String::new() },
                Action::Move { point: pt(6000, 1000), message: String::new() },
                Action::Wait { message: String::new() },
            ],
            waits(),
        );
    }
}

#[test]
fn a_board_is_mirrored_for_the_other_side() {
    let mut board = Board {
        player: Player::new(),
        opponent: Player::new(),
        monster_list: vec![],
        turn: 9,
    };
    assert_eq!(board.player.health, 0);
    assert_eq!(board.player.mana, 0);
    assert_eq!(board.player.base, pt(0, 0));
    assert!(board.player.hero_list.is_empty());
    board.player.base = pt(17630, 9000);
    board.opponent.base = pt(0, 0);
    board.player.hero_list.push(Hero { id: 1, pos: pt(17000, 8000), shield_life: 2, is_controlled: true });
    board.opponent.hero_list.push(Hero { id: 0, pos: pt(100, 200), shield_life: 0, is_controlled: false });
    board.monster_list.push(Monster {
        id: 6,
        pos: pt(8815, -799),
        shield_life: 0,
        is_controlled: false,
        health: 10,
        v: pt(347, 199),
        threat_state: MonsterThreatState::NotThreat,
    });
    let before = format!("{:?}", board);
    board.point_symmetry();
    assert_eq!(board.turn, 9);
    assert_eq!(board.player.base, pt(0, 0));
    assert_eq!(board.opponent.base, pt(17630, 9000));
    assert_eq!(board.player.hero_list[0].pos, pt(630, 1000));
    assert_eq!(board.player.hero_list[0].shield_life, 2);
    assert!(board.player.hero_list[0].is_controlled);
    assert_eq!(board.opponent.hero_list[0].pos, pt(17530, 8800));
    assert_eq!(board.monster_list[0].pos, pt(8815, 9799));
    assert_eq!(board.monster_list[0].v, pt(-347, -199));
    assert_eq!(board.monster_list[0].health, 10);
    board.point_symmetry();
    assert_eq!(format!("{:?}", board), before);
}

#[test]
fn the_first_monster_with_an_id_is_found() {
    let monster = |id: i32, health: i32| Monster {
        id,
        pos: pt(0, 0),
        shield_life: 0,
        is_controlled: false,
        health,
        v: pt(0, 0),
        threat_state: MonsterThreatState::NotThreat,
    };
    let board = Board {
        player: Player::new(),
        opponent: Player::new(),
        monster_list: vec![monster(5, 1), monster(9, 2), monster(5, 3)],
        turn: 0,
    };
    assert_eq!(board.monster(5).unwrap().health, 1);
    assert_eq!(board.monster(9).unwrap().health, 2);
    assert!(board.monster(6).is_none());
}
