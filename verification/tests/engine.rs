use simulator::engine::snap_to_game_zone;
use simulator::entity::{Action, ComponentType, MonsterThreatState};
use simulator::point::Point;
use simulator::random::CachedRandom;
use simulator::simulator::Simulator;
use simulator::wind::{push_on, Wind};

fn pt(x: i32, y: i32) -> Point {
    Point { x, y }
}

fn round(v: f64) -> i32 {
    v.round() as i32
}

/// The two tables of directions that belong to the draws of `seed`.
fn directions(seed: u64) -> (Vec<Point>, Vec<Point>) {
    let table = CachedRandom::new(65535, seed);
    let widest = 5.0 * std::f64::consts::PI / 12.0;
    let mut scatter = vec![];
    let mut spread = vec![];
    for i in 0..table.len() {
        let fraction = (table.entry(i) as f64) / (u32::MAX as f64);
        let angle = fraction * std::f64::consts::PI * 2.0;
        scatter.push(pt(round(angle.cos() * 400.0), round(angle.sin() * 400.0)));
        let delta = fraction * (widest - (-widest)) + (-widest);
        spread.push(pt(round(-delta.sin() * 400.0), round(delta.cos() * 400.0)));
    }
    (scatter, spread)
}

fn simulator(seed: u64) -> Simulator {
    let (scatter, spread) = directions(seed);
    Simulator::new(seed, scatter, spread).unwrap()
}

fn wait() -> Action {
    Action::Wait { message: String::new() }
}

fn waits() -> Vec<Action> {
    vec![wait(), wait(), wait()]
}

fn go(x: i32, y: i32) -> Action {
    Action::Move { point: pt(x, y), message: String::new() }
}

fn wind(x: i32, y: i32) -> Action {
    Action::Wind { point: pt(x, y), message: String::new() }
}

fn shield(id: i32) -> Action {
    Action::Shield { entity_id: id, message: String::new() }
}

fn control(id: i32, x: i32, y: i32) -> Action {
    Action::Control { entity_id: id, point: pt(x, y), message: String::new() }
}

fn advance(sim: &mut Simulator, first: Vec<Action>, second: Vec<Action>) {
    assert!(sim.is_valid());
    sim.next_state(first, second);
    assert!(sim.components.is_valid());
}

/// A simulator after its first turn, in which four monsters appear, with the
/// monsters put out of everyone's way, at rest and in good health.
fn with_monsters(seed: u64) -> Simulator {
    let mut sim = simulator(seed);
    advance(&mut sim, waits(), waits());
    assert_eq!(sim.components.monster_list.len(), 4);
    for (i, m) in sim.components.monster_list.iter_mut().enumerate() {
        m.component.position = pt(8000 + 200 * i as i32, 4500);
        m.component.velocity = pt(0, 0);
        m.health = 100;
    }
    sim
}

#[test]
fn a_new_game() {
    let sim = simulator(0);
    assert!(sim.is_valid());
    assert_eq!(sim.turn, 0);
    assert!(!sim.finish_game());
    assert_eq!(sim.system.unique_id, 6);
    assert_eq!(sim.components.monster_list.len(), 0);
    assert_eq!(sim.components.component_len(), 6);
    for side in 0..2 {
        let player = &sim.components.player_list[side];
        assert_eq!(player.health, 3);
        assert_eq!(player.mana, 0);
        assert_eq!(player.wild_mana, 0);
        assert_eq!(player.base, if side == 0 { pt(0, 0) } else { pt(17630, 9000) });
        assert_eq!(player.hero_list.len(), 3);
        for (h, hero) in player.hero_list.iter().enumerate() {
            assert_eq!(hero.component.id, 2 * h as i32 + side as i32);
            assert_eq!(hero.component.position, player.base);
            assert_eq!(hero.component.velocity, pt(0, 0));
            assert_eq!(hero.component.shield_life, 0);
            assert_eq!(hero.component.max_velocity, 800);
            assert!(!hero.component.is_controlled());
            assert_eq!(hero.is_player, side == 0);
            assert!(hero.component.component_type.is_hero());
            assert!(matches!(hero.action, Action::Wait { .. }));
        }
    }
}

#[test]
fn new_refuses_tables_that_do_not_fit() {
    let (scatter, spread) = directions(0);
    let mut short = scatter.clone();
    short.pop();
    assert!(Simulator::new(0, short, spread.clone()).is_none());
    let mut long = spread.clone();
    long.push(pt(0, 0));
    assert!(Simulator::new(0, scatter.clone(), long).is_none());
    let mut fast = scatter.clone();
    fast[100] = pt(401, 0);
    assert!(Simulator::new(0, fast, spread.clone()).is_none());
    let mut fast = spread.clone();
    fast[65534] = pt(0, -401);
    assert!(Simulator::new(0, scatter.clone(), fast).is_none());
    assert!(Simulator::new(0, vec![], vec![]).is_none());
    assert!(Simulator::new(0, scatter, spread).is_some());
}

#[test]
fn a_hero_reaches_a_point_within_its_speed() {
    let mut sim = simulator(0);
    advance(&mut sim, vec![go(100, 100), wait(), wait()], waits());
    let hero = &sim.components.player_list[0].hero_list[0];
    assert_eq!(hero.component.position, pt(100, 100));
    assert_eq!(hero.component.velocity, pt(100, 100));
    assert_eq!(sim.components.player_list[0].hero_list[1].component.position, pt(0, 0));
    assert_eq!(sim.turn, 1);
}

#[test]
fn a_hero_moves_at_most_its_speed() {
    let mut sim = simulator(0);
    advance(&mut sim, vec![go(3000, 4000), go(800, 0), go(801, 0)], waits());
    let heroes = &sim.components.player_list[0].hero_list;
    assert_eq!(heroes[0].component.position, pt(480, 640));
    assert_eq!(heroes[0].component.velocity, pt(480, 640));
    assert_eq!(heroes[1].component.position, pt(800, 0));
    assert_eq!(heroes[2].component.position, pt(800, 0));
    advance(&mut sim, vec![go(3000, 4000), wait(), wait()], waits());
    let heroes = &sim.components.player_list[0].hero_list;
    assert_eq!(heroes[0].component.position, pt(960, 1280));
    assert_eq!(heroes[1].component.position, pt(800, 0));
}

#[test]
fn a_hero_stays_on_the_playfield() {
    let mut sim = simulator(0);
    advance(&mut sim, vec![go(-500, -500), go(-5000, 300), wait()], vec![go(20000, 9000), go(17630, 20000), wait()]);
    let mine = &sim.components.player_list[0].hero_list;
    assert_eq!(mine[0].component.position, pt(0, 0));
    assert_eq!(mine[0].component.velocity, pt(-500, -500));
    assert_eq!(mine[1].component.position, pt(0, 48));
    let theirs = &sim.components.player_list[1].hero_list;
    assert_eq!(theirs[0].component.position, pt(17629, 8999));
    assert_eq!(theirs[1].component.position, pt(17629, 8999));
    assert_eq!(theirs[2].component.position, pt(17630, 9000));
}

#[test]
fn a_hero_takes_far_targets() {
    let mut sim = simulator(0);
    advance(&mut sim, vec![go(i32::MAX, i32::MAX), go(i32::MIN, i32::MAX), wait()], vec![go(i32::MIN, i32::MIN), wait(), wait()]);
    let mine = &sim.components.player_list[0].hero_list;
    assert_eq!(mine[0].component.position, pt(566, 566));
    assert_eq!(mine[1].component.position, pt(0, 566));
    assert_eq!(mine[1].component.velocity, pt(-566, 566));
    assert_eq!(sim.components.player_list[1].hero_list[0].component.position, pt(17064, 8434));
}

#[test]
fn monsters_appear_in_pairs_every_fifth_turn() {
    let mut sim = simulator(0);
    advance(&mut sim, waits(), waits());
    {
        let m = &sim.components.monster_list;
        assert_eq!(m.len(), 4);
        let expected = [
            (6, pt(8815, -799), pt(347, 199)),
            (7, pt(8815, 9799), pt(-347, -199)),
            (8, pt(12815, -799), pt(-212, 339)),
            (9, pt(4815, 9799), pt(212, -339)),
        ];
        for (i, (id, position, velocity)) in expected.iter().enumerate() {
            assert_eq!(m[i].component.id, *id);
            assert_eq!(m[i].component.position, *position);
            assert_eq!(m[i].component.velocity, *velocity);
            assert_eq!(m[i].health, 10);
            assert_eq!(m[i].component.max_velocity, 400);
            assert_eq!(m[i].component.shield_life, 0);
            assert_eq!(m[i].component.component_type, ComponentType::Monster);
            assert!(!m[i].component.component_type.is_hero());
            assert_eq!(m[i].threat_state, MonsterThreatState::NotThreat);
        }
    }
    assert_eq!(sim.system.unique_id, 10);
    assert_eq!(sim.system.random.index(), 2);
    for turn in 1..5 {
        assert_eq!(sim.turn, turn);
        advance(&mut sim, waits(), waits());
        assert_eq!(sim.components.monster_list.len(), 4);
        assert_eq!(sim.system.random.index(), 2);
    }
    // the monsters have moved four times
    assert_eq!(sim.components.monster_list[0].component.position, pt(8815 + 4 * 347, -799 + 4 * 199));
    assert_eq!(sim.components.monster_list[3].component.position, pt(4815 + 4 * 212, 9799 - 4 * 339));
    advance(&mut sim, waits(), waits());
    assert_eq!(sim.components.monster_list.len(), 8);
    assert_eq!(sim.system.unique_id, 14);
    assert_eq!(sim.system.random.index(), 4);
    assert_eq!(sim.components.monster_list[4].component.id, 10);
    assert_eq!(sim.components.monster_list[4].health, 10);
}

#[test]
fn every_monster_that_appears_has_a_twin() {
    for seed in [0u64, 1, 99, u64::MAX] {
        let mut sim = simulator(seed);
        let mut seen = 0;
        for _ in 0..40 {
            advance(&mut sim, waits(), waits());
            let monsters = &sim.components.monster_list;
            let born = (sim.system.unique_id - 6) as usize - seen;
            assert!(born == 0 || born == 4);
            let first = monsters.len() - born;
            let mut k = first;
            while k < monsters.len() {
                let a = &monsters[k];
                let b = &monsters[k + 1];
                assert_eq!(b.component.position, a.component.position.point_symmetry(&pt(8815, 4500)));
                assert_eq!(b.component.velocity, a.component.velocity.flip());
                assert_eq!(b.health, a.health);
                assert_eq!(b.component.id, a.component.id + 1);
                k += 2;
            }
            seen += born;
        }
    }
}

#[test]
fn the_health_of_new_monsters_grows_with_the_turns() {
    let mut sim = simulator(3);
    for turn in 0..60usize {
        advance(&mut sim, waits(), waits());
        if turn % 5 == 0 {
            let last = sim.components.monster_list.last().unwrap();
            assert_eq!(last.health, 10 + (turn as i32 / 5) / 2);
        }
    }
    assert_eq!(sim.components.monster_list.last().unwrap().health, 15);
}

#[test]
fn in_sudden_death_monsters_appear_every_turn_and_aim_at_the_bases() {
    let mut sim = simulator(0);
    sim.turn = 200;
    advance(&mut sim, waits(), waits());
    let m = &sim.components.monster_list;
    assert_eq!(m.len(), 4);
    assert_eq!(sim.system.random.index(), 6);
    assert_eq!(m[0].component.position, pt(8815, -799));
    assert_eq!(m[0].component.velocity, pt(332, 223));
    assert_eq!(m[1].component.position, pt(8815, 9799));
    assert_eq!(m[1].component.velocity, pt(-332, -223));
    assert_eq!(m[2].component.position, pt(12815, -799));
    assert_eq!(m[2].component.velocity, pt(62, 395));
    assert_eq!(m[3].component.velocity, pt(-62, -395));
    assert_eq!(m[0].health, 30);
    advance(&mut sim, waits(), waits());
    assert_eq!(sim.components.monster_list.len(), 8);
    assert_eq!(sim.system.random.index(), 12);
    assert_eq!(sim.turn, 202);
}

#[test]
fn the_game_ends_with_the_last_turn_or_a_lost_base() {
    let mut sim = simulator(0);
    assert!(!sim.finish_game());
    sim.turn = 219;
    assert!(!sim.finish_game());
    advance(&mut sim, waits(), waits());
    assert_eq!(sim.turn, 220);
    assert!(sim.finish_game());
    let mut sim = simulator(0);
    sim.components.player_list[1].health = 0;
    assert!(sim.finish_game());
    let mut sim = simulator(0);
    sim.components.player_list[0].health = 0;
    assert!(sim.finish_game());
}

#[test]
fn same_seed_and_same_actions_give_the_same_game() {
    let script = |turn: usize| -> (Vec<Action>, Vec<Action>) {
        let t = turn as i32;
        (
            vec![go(300 * t, 200 * t), wind(5000, 5000), control(6 + t % 4, 9000, 4000)],
            vec![go(17000 - 250 * t, 8000 - 100 * t), shield(1), go(9000, 4500)],
        )
    };
    let mut a = simulator(77);
    let mut b = simulator(77);
    for turn in 0..60 {
        let (first, second) = script(turn);
        advance(&mut a, first, second);
        let (first, second) = script(turn);
        advance(&mut b, first, second);
        assert_eq!(format!("{:?}", a), format!("{:?}", b), "turn {}", turn);
    }
    assert_eq!(a.turn, 60);
}

#[test]
fn the_message_of_an_action_is_recorded_and_changes_nothing_else() {
    let mut a = simulator(5);
    let mut b = simulator(5);
    advance(&mut a, vec![Action::Move { point: pt(500, 0), message: "go".to_string() }, wait(), wait()], waits());
    advance(&mut b, vec![go(500, 0), wait(), wait()], waits());
    match &a.components.player_list[0].hero_list[0].action {
        Action::Move { point, message } => {
            assert_eq!(*point, pt(500, 0));
            assert_eq!(message, "go");
        }
        _ => panic!("the action was not recorded"),
    }
    assert_eq!(format!("{:?}", a.components.monster_list), format!("{:?}", b.components.monster_list));
    assert_eq!(
        a.components.player_list[0].hero_list[0].component.position,
        b.components.player_list[0].hero_list[0].component.position
    );
}

#[test]
fn heroes_hit_monsters_within_reach_and_earn_mana() {
    let mut sim = with_monsters(0);
    sim.components.monster_list[0].component.position = pt(500, 500);
    sim.components.monster_list[1].component.position = pt(17630 - 800, 9000);
    sim.components.monster_list[2].component.position = pt(801, 0);
    let health = sim.components.monster_list[0].health;
    advance(&mut sim, waits(), waits());
    // three heroes of side 0 reach the first monster, three of side 1 the second
    assert_eq!(sim.components.monster_list[0].health, health - 6);
    assert_eq!(sim.components.monster_list[1].health, health - 6);
    assert_eq!(sim.components.monster_list[2].health, health);
    assert_eq!(sim.components.monster_list[3].health, health);
    assert_eq!(sim.components.player_list[0].mana, 6);
    assert_eq!(sim.components.player_list[1].mana, 6);
    assert_eq!(sim.components.player_list[0].wild_mana, 0);
}

#[test]
fn attack_monster_counts_the_hits_near_the_base_apart() {
    let mut sim = with_monsters(0);
    sim.components.player_list[0].hero_list[0].component.position = pt(7000, 4000);
    sim.components.player_list[0].hero_list[1].component.position = pt(7000, 4000);
    sim.components.monster_list[0].component.position = pt(7100, 4000);
    sim.components.monster_list[1].component.position = pt(300, 300);
    sim.components.monster_list[0].health = 10;
    sim.components.monster_list[1].health = 10;
    let gains = sim.components.attack_monster();
    assert_eq!(gains[0].all_mana, 6);
    assert_eq!(gains[0].wild_mana, 2);
    assert_eq!(gains[1].all_mana, 0);
    assert_eq!(gains[1].wild_mana, 0);
    assert_eq!(sim.components.monster_list[0].health, 6);
    assert_eq!(sim.components.monster_list[1].health, 8);
}

#[test]
fn a_monster_hit_to_death_leaves_in_the_same_turn() {
    let mut sim = with_monsters(0);
    sim.components.monster_list[0].component.position = pt(500, 500);
    sim.components.monster_list[0].health = 2;
    sim.components.player_list[0].hero_list[2].component.position = pt(5000, 5000);
    let id = sim.components.monster_list[0].component.id;
    advance(&mut sim, waits(), waits());
    assert_eq!(sim.components.monster_list.len(), 3);
    assert!(!sim.components.find_component(id));
    assert!(sim.components.component_of(id).is_none());
    assert_eq!(sim.components.player_list[0].mana, 4);
}

#[test]
fn a_monster_outside_the_buffer_leaves() {
    let mut sim = with_monsters(0);
    sim.components.monster_list[0].component.position = pt(-799, 100);
    sim.components.monster_list[0].component.velocity = pt(-1, 0);
    sim.components.monster_list[1].component.position = pt(17630 + 799, 9799);
    sim.components.monster_list[2].component.position = pt(9000, 9799);
    sim.components.monster_list[2].component.velocity = pt(0, 1);
    let ids: Vec<i32> = sim.components.monster_list.iter().map(|m| m.component.id).collect();
    advance(&mut sim, waits(), waits());
    let left: Vec<i32> = sim.components.monster_list.iter().map(|m| m.component.id).collect();
    assert_eq!(left, vec![ids[1], ids[3]]);
}

#[test]
fn a_shield_costs_mana_and_lasts_twelve_further_turns() {
    let mut sim = with_monsters(0);
    sim.components.player_list[0].mana = 10;
    advance(&mut sim, vec![shield(2), wait(), wait()], waits());
    assert_eq!(sim.components.player_list[0].mana, 0);
    assert_eq!(sim.components.player_list[0].hero_list[1].component.shield_life, 12);
    for left in (0..12).rev() {
        advance(&mut sim, waits(), waits());
        assert_eq!(sim.components.player_list[0].hero_list[1].component.shield_life, left);
    }
    advance(&mut sim, waits(), waits());
    assert_eq!(sim.components.player_list[0].hero_list[1].component.shield_life, 0);
}

#[test]
fn a_shield_that_cannot_be_paid_does_nothing() {
    let mut sim = with_monsters(0);
    sim.components.player_list[0].mana = 9;
    advance(&mut sim, vec![shield(2), wait(), wait()], waits());
    assert_eq!(sim.components.player_list[0].mana, 9);
    assert_eq!(sim.components.player_list[0].hero_list[1].component.shield_life, 0);
}

#[test]
fn a_spell_on_nobody_or_out_of_reach_does_nothing() {
    let mut sim = with_monsters(0);
    sim.components.player_list[0].mana = 100;
    // no such actor; a monster out of reach; a hero of the other side out of sight
    let far = sim.components.monster_list[0].component.id;
    advance(&mut sim, vec![shield(12345), shield(far), control(1, 5, 5)], waits());
    assert_eq!(sim.components.player_list[0].mana, 100);
    assert_eq!(sim.components.monster_list[0].component.shield_life, 0);
    advance(&mut sim, waits(), waits());
    assert!(!sim.components.player_list[1].hero_list[0].component.is_controlled());
}

#[test]
fn a_spell_reaches_as_far_as_its_radius() {
    let mut sim = with_monsters(0);
    sim.components.player_list[0].mana = 100;
    sim.components.monster_list[0].component.position = pt(2200, 0);
    sim.components.monster_list[1].component.position = pt(2200, 1);
    let near = sim.components.monster_list[0].component.id;
    let far = sim.components.monster_list[1].component.id;
    advance(&mut sim, vec![shield(near), shield(far), wait()], waits());
    assert_eq!(sim.components.player_list[0].mana, 90);
    assert_eq!(sim.components.monster_list[0].component.shield_life, 12);
    assert_eq!(sim.components.monster_list[1].component.shield_life, 0);
}

#[test]
fn a_shielded_actor_takes_no_spell() {
    let mut sim = with_monsters(0);
    sim.components.player_list[0].mana = 100;
    sim.components.player_list[1].mana = 100;
    sim.components.monster_list[0].component.position = pt(500, 500);
    sim.components.monster_list[0].component.shield_life = 3;
    let id = sim.components.monster_list[0].component.id;
    advance(&mut sim, vec![control(id, 10, 10), shield(id), wind(5000, 5000)], waits());
    // only the wind is paid for; it reaches the monster and leaves it where it is;
    // the three heroes hit the monster
    assert_eq!(sim.components.player_list[0].mana, 90 + 6);
    let m = &sim.components.monster_list[0];
    assert_eq!(m.component.shield_life, 2);
    assert_eq!(m.component.position, pt(500, 500));
    advance(&mut sim, waits(), waits());
    assert!(!sim.components.monster_list[0].component.is_controlled());
    assert_eq!(sim.components.monster_list[0].component.shield_life, 1);
    advance(&mut sim, waits(), waits());
    assert_eq!(sim.components.monster_list[0].component.shield_life, 0);
    // the shield is gone: a control lands again
    advance(&mut sim, vec![control(id, 10, 10), wait(), wait()], waits());
    advance(&mut sim, waits(), waits());
    assert_eq!(sim.components.monster_list[0].component.position, pt(217, 217));
}

#[test]
fn a_second_shield_in_the_same_turn_is_not_paid_for() {
    let mut sim = with_monsters(0);
    sim.components.player_list[0].mana = 100;
    advance(&mut sim, vec![shield(0), shield(0), shield(0)], waits());
    assert_eq!(sim.components.player_list[0].mana, 90);
    assert_eq!(sim.components.player_list[0].hero_list[0].component.shield_life, 12);
}

#[test]
fn a_control_acts_in_the_next_turn() {
    let mut sim = with_monsters(0);
    sim.components.player_list[0].mana = 10;
    sim.components.monster_list[0].component.position = pt(1000, 1000);
    sim.components.monster_list[0].component.velocity = pt(7, 9);
    let id = sim.components.monster_list[0].component.id;
    advance(&mut sim, vec![control(id, 1000, 5000), wait(), wait()], waits());
    assert_eq!(sim.components.player_list[0].mana, 0);
    {
        let c = sim.components.component_of(id).unwrap();
        assert!(!c.is_controlled());
        assert_eq!(c.next_control_move_target, vec![pt(1000, 5000)]);
        assert_eq!(c.position, pt(1007, 1009));
    }
    advance(&mut sim, waits(), waits());
    {
        let c = sim.components.component_of(id).unwrap();
        assert!(c.is_controlled());
        assert_eq!(c.control_move_target, vec![pt(1000, 5000)]);
        assert!(c.next_control_move_target.is_empty());
        // one move at monster speed toward the target, not by its velocity
        assert_eq!(c.position, pt(1007, 1009).add(pt(1007, 1009).heading(&pt(1000, 5000), 400)));
        assert_eq!(c.velocity, pt(7, 9));
    }
    advance(&mut sim, waits(), waits());
    let c = sim.components.component_of(id).unwrap();
    assert!(!c.is_controlled());
}

#[test]
fn several_controls_pull_to_the_mean_of_their_moves() {
    let mut sim = with_monsters(0);
    sim.components.player_list[0].mana = 30;
    sim.components.monster_list[0].component.position = pt(1000, 1000);
    let id = sim.components.monster_list[0].component.id;
    advance(&mut sim, vec![control(id, 5000, 1000), control(id, 1000, 5000), control(id, 1000, 1100)], waits());
    assert_eq!(sim.components.player_list[0].mana, 0);
    advance(&mut sim, waits(), waits());
    let c = sim.components.component_of(id).unwrap();
    assert_eq!(c.control_move_target.len(), 3);
    // (400, 0), (0, 400) and (0, 100): the mean is (133, 166)
    assert_eq!(c.position, pt(1133, 1166));
}

#[test]
fn a_wind_pushes_what_it_reaches() {
    let mut sim = with_monsters(0);
    sim.components.player_list[0].mana = 10;
    sim.components.player_list[0].hero_list[0].component.position = pt(5000, 4000);
    sim.components.monster_list[0].component.position = pt(5000, 5280);
    sim.components.monster_list[0].component.velocity = pt(10, 0);
    sim.components.monster_list[1].component.position = pt(5000, 5281);
    sim.components.player_list[1].hero_list[0].component.position = pt(5100, 4100);
    sim.components.player_list[0].hero_list[1].component.position = pt(5100, 4100);
    advance(&mut sim, vec![wind(9000, 4000), wait(), wait()], waits());
    assert_eq!(sim.components.player_list[0].mana, 0);
    let m = &sim.components.monster_list;
    assert_eq!(m[0].component.position, pt(7200, 5280));
    assert_eq!(m[0].component.velocity, pt(10, 0));
    assert_eq!(m[1].component.position, pt(5000, 5281));
    // heroes of the other side are pushed, one's own are not
    assert_eq!(sim.components.player_list[1].hero_list[0].component.position, pt(7300, 4100));
    assert_eq!(sim.components.player_list[0].hero_list[1].component.position, pt(5100, 4100));
}

#[test]
fn winds_add_up_before_they_push() {
    let mut sim = with_monsters(0);
    sim.components.player_list[0].mana = 20;
    sim.components.player_list[1].mana = 10;
    for side in 0..2 {
        for h in 0..3 {
            sim.components.player_list[side].hero_list[h].component.position = pt(9000, 4500);
        }
    }
    sim.components.monster_list[0].component.position = pt(9000, 4000);
    advance(&mut sim, vec![wind(9000, 0), wind(0, 4500), wait()], vec![wind(18000, 4500), wait(), wait()]);
    // all four monsters are within reach of the three heroes of each side
    assert_eq!(sim.components.player_list[0].mana, 24);
    assert_eq!(sim.components.player_list[1].mana, 24);
    // up, left and right: the pushes to the sides cancel
    assert_eq!(sim.components.monster_list[0].component.position, pt(9000, 4000 - 2200));
    // the heroes of side 1 are pushed up and left, those of side 0 right
    assert_eq!(sim.components.player_list[1].hero_list[0].component.position, pt(6800, 2300));
    assert_eq!(sim.components.player_list[0].hero_list[0].component.position, pt(11200, 4500));
}

#[test]
fn a_pushed_actor_stays_on_the_playfield_and_does_not_move_by_itself() {
    let mut sim = with_monsters(0);
    sim.components.player_list[0].mana = 10;
    sim.components.player_list[0].hero_list[0].component.position = pt(1000, 1000);
    sim.components.monster_list[0].component.position = pt(1000, 500);
    sim.components.monster_list[0].component.velocity = pt(100, 100);
    advance(&mut sim, vec![wind(1000, 0), wait(), wait()], waits());
    let m = &sim.components.monster_list[0];
    assert_eq!(m.component.position, pt(1000, 0));
    assert_eq!(m.component.velocity, pt(100, 100));
    advance(&mut sim, waits(), waits());
    assert_eq!(sim.components.monster_list[0].component.position, pt(1100, 100));
}

#[test]
fn a_wind_without_a_direction_or_without_mana_is_not_cast() {
    let mut sim = with_monsters(0);
    sim.components.player_list[0].mana = 15;
    sim.components.player_list[0].hero_list[0].component.position = pt(5000, 4000);
    sim.components.player_list[0].hero_list[1].component.position = pt(5000, 4000);
    sim.components.player_list[0].hero_list[2].component.position = pt(5000, 4000);
    sim.components.monster_list[0].component.position = pt(5000, 5000);
    // no direction; paid; no mana left
    advance(&mut sim, vec![wind(5000, 4000), wind(5000, 9000), wind(9000, 4000)], waits());
    assert_eq!(sim.components.player_list[0].mana, 5);
    assert_eq!(sim.components.monster_list[0].component.position, pt(5000, 7200));
}

#[test]
fn mana_changes_by_the_hits_and_the_spells() {
    let mut sim = with_monsters(0);
    sim.components.player_list[0].mana = 25;
    sim.components.monster_list[0].component.position = pt(100, 700);
    sim.components.monster_list[1].component.position = pt(700, 100);
    // the shields come before the wind, which then cannot be paid:
    // 25 - 2 * 10 + 2 * 6 hits
    advance(&mut sim, vec![wind(5000, 5000), shield(0), shield(2)], waits());
    assert_eq!(sim.components.player_list[0].mana, 17);
    assert_eq!(sim.components.player_list[1].mana, 0);
    assert_eq!(sim.components.player_list[0].hero_list[0].component.shield_life, 12);
    assert_eq!(sim.components.player_list[0].hero_list[1].component.shield_life, 12);
    assert_eq!(sim.components.monster_list[0].component.position, pt(100, 700));
    // with the mana for it the wind is cast too: 17 - 10 + 2 * 6 hits
    advance(&mut sim, vec![wind(5000, 5000), shield(0), shield(2)], waits());
    assert_eq!(sim.components.player_list[0].mana, 19);
    assert_eq!(sim.components.monster_list[0].component.position, pt(1656, 2256));
    assert_eq!(sim.components.monster_list[1].component.position, pt(2256, 1656));
}

#[test]
fn phases_can_be_run_one_by_one() {
    let mut sim = with_monsters(0);
    sim.components.player_list[0].mana = 10;
    sim.components.monster_list[0].component.position = pt(300, 300);
    sim.components.monster_list[0].component.velocity = pt(5, 5);
    let id = sim.components.monster_list[0].component.id;
    sim.components.initialize(vec![shield(id), go(50, 50), wait()], waits());
    sim.components.do_control();
    sim.components.do_shield();
    assert_eq!(sim.components.component_of(id).unwrap().shield_life, 13);
    sim.components.move_hero();
    assert_eq!(sim.components.player_list[0].hero_list[1].component.position, pt(50, 50));
    let gains = sim.components.attack_monster();
    assert_eq!(gains[0].all_mana, 6);
    sim.do_wind();
    sim.components.move_monster();
    assert_eq!(sim.components.monster_list[0].component.position, pt(305, 305));
    sim.components.countdown_shield();
    assert_eq!(sim.components.component_of(id).unwrap().shield_life, 12);
    sim.adjust_monster();
    assert_eq!(sim.components.monster_list.len(), 4);
}

#[test]
fn the_registry_lists_heroes_before_monsters() {
    let sim = with_monsters(0);
    let all = sim.components.component_iter();
    assert_eq!(all.len(), 10);
    assert_eq!(sim.components.component_len(), 10);
    let ids: Vec<i32> = all.iter().map(|c| c.id).collect();
    assert_eq!(ids, vec![0, 2, 4, 1, 3, 5, 6, 7, 8, 9]);
    for (i, c) in all.iter().enumerate() {
        assert_eq!(sim.components.component_at(i).id, c.id);
        assert_eq!(sim.components.locate(c.id), Some(i));
        assert_eq!(sim.components.component_of(c.id).unwrap().id, c.id);
        assert!(sim.components.find_component(c.id));
    }
    assert_eq!(sim.components.locate(10), None);
    assert!(!sim.components.find_component(-1));
    assert_eq!(sim.components.player().base, pt(0, 0));
    assert_eq!(sim.components.opponent().base, pt(17630, 9000));
}

#[test]
fn is_valid_finds_what_is_out_of_order() {
    let sim = with_monsters(0);
    assert!(sim.is_valid());
    let mut s = with_monsters(0);
    s.components.monster_list[1].component.id = 0;
    assert!(!s.is_valid());
    let mut s = with_monsters(0);
    s.components.monster_list[0].health = 0;
    assert!(!s.is_valid());
    let mut s = with_monsters(0);
    s.components.player_list[0].mana = -1;
    assert!(!s.is_valid());
    let mut s = with_monsters(0);
    s.components.player_list[1].hero_list[0].component.position = pt(17631, 0);
    assert!(!s.is_valid());
    let mut s = with_monsters(0);
    s.components.player_list[0].hero_list.pop();
    assert!(!s.is_valid());
    let mut s = with_monsters(0);
    s.system.unique_id = 9;
    assert!(!s.is_valid());
    let mut s = with_monsters(0);
    s.components.player_list[0].mana = i32::MAX - 23;
    assert!(!s.is_valid());
    s.components.player_list[0].mana = i32::MAX - 24;
    assert!(s.is_valid());
    let mut s = with_monsters(0);
    s.system.spread[7] = pt(500, 0);
    assert!(!s.is_valid());
}

#[test]
fn every_way_that_leads_anywhere_crosses_a_leg() {
    use_go_outside(pt(3000, 3000), pt(3000, 3000), false);
    use_go_outside(pt(3000, 3000), pt(3001, 3000), true);
    use_go_outside(pt(3000, 3000), pt(3000, 2999), true);
    use_go_outside(pt(9000, 4500), pt(9200, 4700), true);
    use_go_outside(pt(-500, 100), pt(100, 100), true);
    use_go_outside(pt(17000, 8000), pt(19200, 8000), true);
}

fn use_go_outside(p: Point, np: Point, expected: bool) {
    assert_eq!(simulator::wind::go_outside_around_base(&p, &np), expected, "{:?} {:?}", p, np);
}

#[test]
fn a_way_out_of_the_radius_of_a_base_leaves_the_base() {
    let check = |p: Point, np: Point, expected: bool| {
        assert_eq!(simulator::wind::go_out_from_base(&p, &np), expected, "{:?} {:?}", p, np);
    };
    check(pt(6000, 0), pt(6001, 0), true);
    check(pt(3000, 3000), pt(5000, 5000), true);
    check(pt(3000, 3000), pt(4000, 4000), false);
    check(pt(6001, 0), pt(9000, 0), false);
    check(pt(9000, 0), pt(3000, 0), false);
    check(pt(17630, 3000), pt(17630, 2999), true);
    check(pt(17630, 3000), pt(17630, 3001), false);
}

#[test]
fn snap_to_game_zone_clamps_each_coordinate() {
    assert_eq!(snap_to_game_zone(pt(5, 7)), pt(5, 7));
    assert_eq!(snap_to_game_zone(pt(-1, 9000)), pt(0, 8999));
    assert_eq!(snap_to_game_zone(pt(17630, -3)), pt(17629, 0));
    assert_eq!(snap_to_game_zone(pt(i32::MIN, i32::MAX)), pt(0, 8999));
}

#[test]
fn a_pair_of_monsters_is_made_with_the_next_ids() {
    let mut sim = simulator(0);
    sim.turn = 50;
    sim.create_monster(pt(100, 200), pt(30, -40));
    let m = &sim.components.monster_list;
    assert_eq!(m.len(), 2);
    assert_eq!((m[0].component.id, m[1].component.id), (6, 7));
    assert_eq!(m[0].component.position, pt(100, 200));
    assert_eq!(m[1].component.position, pt(17530, 8800));
    assert_eq!(m[0].component.velocity, pt(30, -40));
    assert_eq!(m[1].component.velocity, pt(-30, 40));
    assert_eq!((m[0].health, m[1].health), (15, 15));
    assert_eq!(sim.system.unique_id, 8);
    assert_eq!(sim.system.create_id(), 8);
    assert_eq!(sim.system.unique_id, 9);
    assert_eq!(simulator::entity::Monster::max_health(0), 10);
    assert_eq!(simulator::entity::Monster::max_health(1), 10);
    assert_eq!(simulator::entity::Monster::max_health(43), 31);
    assert_eq!(simulator::entity::Monster::max_health(-1), 9);
    assert_eq!(simulator::entity::Monster::max_health(-3), 8);
    assert_eq!(simulator::entity::Monster::max_health(-21), 0);
    assert_eq!(simulator::entity::Monster::max_health(-22), -1);
    assert_eq!(simulator::entity::Monster::max_health(i32::MAX), 10 + i32::MAX / 2);
    assert_eq!(simulator::entity::Monster::max_health(i32::MIN), 10 + i32::MIN / 2);
}

#[test]
fn the_fallen_are_removed_in_order() {
    let mut sim = with_monsters(0);
    sim.components.monster_list[0].health = 0;
    sim.components.monster_list[2].health = -5;
    sim.components.monster_list[3].component.position = pt(0, 9800);
    assert!(!sim.components.monster_list[0].survives());
    assert!(sim.components.monster_list[1].survives());
    assert!(sim.components.monster_list[0].move_canceled());
    assert!(!sim.components.monster_list[1].move_canceled());
    simulator::simulator::remove_fallen(&mut sim.components.monster_list);
    let ids: Vec<i32> = sim.components.monster_list.iter().map(|m| m.component.id).collect();
    assert_eq!(ids, vec![7]);
    simulator::simulator::remove_fallen(&mut sim.components.monster_list);
    assert_eq!(sim.components.monster_list.len(), 1);
}

#[test]
fn the_places_where_monsters_appear() {
    assert_eq!(simulator::simulator::spawn_place(0), pt(8815, -799));
    assert_eq!(simulator::simulator::spawn_place(1), pt(12815, -799));
    assert_eq!(simulator::rules::center_point(), pt(8815, 4500));
}

#[test]
fn the_draws_for_a_velocity() {
    let mut sim = simulator(0);
    assert_eq!(sim.draw_spawn_velocity(0), pt(347, 199));
    assert_eq!(sim.system.random.index(), 1);
    sim.turn = 200;
    // the draws 3064836094, 1795157210 and 3007520341: the point (4281, 2507)
    assert_eq!(sim.draw_spawn_velocity(1), pt(12815, -799).heading(&pt(4281, 2507), 400));
    assert_eq!(sim.system.random.index(), 4);
}

#[test]
fn a_wind_pushes_the_unprotected_of_the_other_side() {
    let sim = with_monsters(0);
    let mine = &sim.components.player_list[0].hero_list[0].component;
    let theirs = &sim.components.player_list[1].hero_list[0].component;
    let monster = &sim.components.monster_list[0].component;
    let from_first = Wind { side: 0, origin: pt(8000, 4000), push: pt(2200, 0) };
    let from_second = Wind { side: 1, origin: pt(100, 100), push: pt(0, -2200) };
    assert!(from_first.applies(monster));
    assert!(!from_first.applies(mine));
    assert!(!from_first.applies(theirs));
    assert!(!from_second.applies(monster));
    assert!(from_second.applies(mine));
    let near_theirs = Wind { side: 0, origin: pt(17630, 9000 - 1280), push: pt(1, 1) };
    assert!(near_theirs.applies(theirs));
    let winds = vec![from_first, from_second, from_first];
    assert_eq!(push_on(&winds, monster), (2, pt(4400, 0)));
    assert_eq!(push_on(&winds, mine), (1, pt(0, -2200)));
    assert_eq!(push_on(&winds, theirs), (0, pt(0, 0)));
    assert_eq!(push_on(&vec![], monster), (0, pt(0, 0)));
}

#[test]
fn the_winds_that_land_are_listed_in_the_order_of_their_casters() {
    let mut sim = with_monsters(0);
    sim.components.player_list[0].mana = 20;
    sim.components.player_list[1].mana = 10;
    sim.components.initialize(
        vec![wind(100, 0), wind(0, 0), wind(0, 100)],
        vec![wind(0, 0), wait(), wind(17630, 0)],
    );
    let winds = sim.components.cast_winds();
    let found: Vec<(usize, Point, Point)> = winds.iter().map(|w| (w.side, w.origin, w.push)).collect();
    assert_eq!(
        found,
        vec![
            (0, pt(0, 0), pt(2200, 0)),
            (0, pt(0, 0), pt(0, 2200)),
            (1, pt(17630, 9000), pt(-1959, -1000))
        ]
    );
    assert_eq!(sim.components.player_list[0].mana, 0);
    assert_eq!(sim.components.player_list[1].mana, 0);
}

#[test]
fn a_whole_game_stays_in_order() {
    let mut sim = simulator(2022);
    let mut turns = 0;
    while !sim.finish_game() {
        let t = sim.turn as i32;
        let target = sim.components.monster_list.first().map(|m| m.component.id).unwrap_or(0);
        let first = vec![
            go(2000 + 37 * t, 1500 + 11 * t),
            wind(8815, 4500),
            control(target, 17630, 9000),
        ];
        let second = vec![
            go(15000 - 23 * t, 7000 - 13 * t),
            shield(target),
            wind(0, 0),
        ];
        advance(&mut sim, first, second);
        turns += 1;
        for side in 0..2 {
            assert!(sim.components.player_list[side].mana >= 0);
        }
    }
    assert_eq!(turns, 220);
    assert_eq!(sim.turn, 220);
    // 40 waves of four before the sudden death, 20 in it
    assert_eq!(sim.system.unique_id, 6 + 4 * 40 + 4 * 20);
    assert_eq!(sim.system.random.index(), 2 * 40 + 6 * 20);
}
