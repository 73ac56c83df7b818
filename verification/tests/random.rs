use simulator::random::{CachedRandom, XorShift};

#[test]
fn xorshift_state_after_warm_up() {
    let g = XorShift::new(0);
    assert_eq!(g.state, [16756394996236168072, 11693517090802188533]);
    let g = XorShift::new(1);
    assert_eq!(g.state, [17777162085833943602, 17262069334579738984]);
}

#[test]
fn xorshift_numbers_for_seed_0() {
    let mut g = XorShift::new(0);
    let expected: [u64; 6] = [
        1814894141010713250,
        13163370791839455420,
        7710141512243549020,
        12917201510106090465,
        18138941111495579254,
        1552725409950123644,
    ];
    for e in expected.iter() {
        assert_eq!(g.next(), *e);
    }
}

#[test]
fn xorshift_numbers_for_seed_42() {
    let mut g = XorShift::new(42);
    assert_eq!(g.next(), 5904630696562214028);
    assert_eq!(g.next(), 7635360435792465319);
    assert_eq!(g.next(), 365866286734660941);
}

#[test]
fn xorshift_takes_the_largest_seed() {
    let mut g = XorShift::new(u64::MAX);
    assert_eq!(g.state, [1619721226455341462, 1448638066258322946]);
    assert_eq!(g.next(), 131757674118746193);
    assert_eq!(g.next(), 11010189056997546016);
}

#[test]
fn xorshift_same_seed_same_numbers() {
    let mut a = XorShift::new(2022);
    let mut b = XorShift::new(2022);
    for _ in 0..1000 {
        assert_eq!(a.next(), b.next());
    }
}

#[test]
fn table_holds_the_upper_halves() {
    let mut r = CachedRandom::new(6, 0);
    assert_eq!(r.len(), 6);
    let expected: [u32; 6] =
        [422562971, 3064836094, 1795157210, 3007520341, 4223301334, 361522056];
    for (i, e) in expected.iter().enumerate() {
        assert_eq!(r.entry(i), *e);
    }
    for e in expected.iter() {
        assert_eq!(r.next_int(), *e);
    }
}

#[test]
fn draws_wrap_exactly_at_the_table_size() {
    let mut r = CachedRandom::new(3, 1);
    let first = [r.next_int(), r.next_int(), r.next_int()];
    assert_eq!(first, [871189055, 730379792, 1492368948]);
    assert_eq!(r.index(), 0);
    for round in 0..5 {
        for i in 0..3 {
            assert_eq!(r.index(), i);
            assert_eq!(r.next_int(), first[i], "round {}", round);
        }
    }
}

#[test]
fn a_table_of_one_entry_repeats_it() {
    let mut r = CachedRandom::new(1, 42);
    for _ in 0..4 {
        assert_eq!(r.next_int(), 1374778965);
        assert_eq!(r.index(), 0);
    }
}

#[test]
fn an_empty_table_is_made_but_not_drawn_from() {
    let r = CachedRandom::new(0, 7);
    assert_eq!(r.len(), 0);
    assert_eq!(r.index(), 0);
}

#[test]
fn next_int64_joins_two_draws() {
    let mut r = CachedRandom::new(6, 0);
    assert_eq!(r.next_int64(), (422562971u64 << 32) + 3064836094u64);
    assert_eq!(r.index(), 2);
    assert_eq!(r.next_int64(), (1795157210u64 << 32) + 3007520341u64);
}

#[test]
fn next_int_range_scales_the_draw() {
    let mut r = CachedRandom::new(8, 0);
    let expected: [u32; 8] = [590, 4281, 2507, 4201, 5899, 505, 2360, 3456];
    for e in expected.iter() {
        assert_eq!(r.next_int_range(0, 6000), *e);
    }
    // wrapped: the first draw again, now scaled into [100, 6100)
    assert_eq!(r.next_int_range(100, 6100), 690);
}

#[test]
fn next_int_range_of_an_empty_range_is_its_left_end() {
    let mut r = CachedRandom::new(4, 0);
    assert_eq!(r.next_int_range(5, 5), 5);
    assert_eq!(r.index(), 1);
    assert_eq!(r.next_int_range(0, 1), 0);
    assert_eq!(r.next_int_range(u32::MAX - 1, u32::MAX), u32::MAX - 1);
}

#[test]
fn next_int_range_stays_in_the_range() {
    let mut r = CachedRandom::new(1000, 99);
    for _ in 0..3000 {
        let v = r.next_int_range(17, 23);
        assert!(17 <= v && v < 23);
    }
}

#[test]
fn next_boolean_is_true_for_the_lower_half() {
    let mut r = CachedRandom::new(8, 0);
    let expected = [true, false, true, false, false, true, true, false];
    for e in expected.iter() {
        assert_eq!(r.next_boolean(), *e);
    }
}

#[test]
fn next_boolean_agrees_with_the_fraction_of_the_draw() {
    let mut r = CachedRandom::new(500, 5);
    for i in 0..500 {
        let fraction = (r.entry(i) as f64) / (u32::MAX as f64);
        assert_eq!(r.next_boolean(), fraction <= 0.5);
    }
}

#[test]
fn same_seed_same_table() {
    let a = CachedRandom::new(65535, 123456789);
    let b = CachedRandom::new(65535, 123456789);
    for i in 0..65535 {
        assert_eq!(a.entry(i), b.entry(i));
    }
}
