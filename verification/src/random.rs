//! The deterministic random source: a two-word xorshift core and a cyclic
//! table of 32-bit draws filled from it.
use vstd::prelude::*;

verus! {

/// Number of outputs that a fresh generator discards before it is handed out.
pub const XORSHIFT_WARMUP: usize = 128;

/// One transition of the xorshift core on the pair `(state[0], state[1])`.
pub open spec fn xorshift_step(s: (u64, u64)) -> (u64, u64) {
    let a = s.0 ^ (s.0 << 23);
    let b = a ^ (a >> 17);
    let c = b ^ s.1;
    let d = c ^ (s.1 >> 26);
    (s.1, d)
}

/// The number handed out by the transition that starts in `s`: the sum of the
/// two new state words, modulo 2^64.
pub open spec fn xorshift_output(s: (u64, u64)) -> u64 {
    let n = xorshift_step(s);
    n.0.wrapping_add(n.1)
}

/// The state that a seed is expanded to, before any warm-up.
pub open spec fn xorshift_seed(seed: u64) -> (u64, u64) {
    (seed, seed.wrapping_mul(195).wrapping_add(1))
}

/// The state reached from `s` after `n` transitions.
pub open spec fn xorshift_run(s: (u64, u64), n: nat) -> (u64, u64)
    decreases n,
{
    if n == 0 {
        s
    } else {
        xorshift_step(xorshift_run(s, (n - 1) as nat))
    }
}

/// The state of a generator made from `seed` after it has handed out `n` numbers.
pub open spec fn xorshift_state(seed: u64, n: nat) -> (u64, u64) {
    xorshift_run(xorshift_seed(seed), XORSHIFT_WARMUP as nat + n)
}

/// The `i`-th entry (from 0) of the table that `seed` generates: the upper half
/// of the `i`-th number of the warmed-up generator.
pub open spec fn table_entry(seed: u64, i: nat) -> u32 {
    (xorshift_output(xorshift_state(seed, i)) >> 32) as u32
}

/// The whole table of `size` entries generated by `seed`.
pub open spec fn random_table(seed: u64, size: nat) -> Seq<u32> {
    Seq::new(size, |i: int| table_entry(seed, i as nat))
}

/// A xorshift generator of two 64-bit words.
#[derive(Debug)]
pub struct XorShift {
    pub state: [u64; 2],
}

impl View for XorShift {
    type V = (u64, u64);

    open spec fn view(&self) -> (u64, u64) {
        (self.state[0], self.state[1])
    }
}

impl XorShift {
    /// A generator seeded with `seed` and warmed up.
    pub fn new(seed: u64) -> (ret: Self)
        ensures
            ret@ == xorshift_state(seed, 0),
    {
        let mut ret = XorShift { state: [seed, seed.wrapping_mul(195).wrapping_add(1)] };
        let mut i: usize = 0;
        while i < XORSHIFT_WARMUP
            invariant
                i <= XORSHIFT_WARMUP,
                ret@ == xorshift_run(xorshift_seed(seed), i as nat),
            decreases XORSHIFT_WARMUP - i,
        {
            ret.next();
            i += 1;
        }
        ret
    }

    /// Advances the generator by one transition and returns its number.
    pub fn next(&mut self) -> (ret: u64)
        ensures
            final(self)@ == xorshift_step(old(self)@),
            ret == xorshift_output(old(self)@),
    {
        let mut s1: u64 = self.state[0];
        let s0: u64 = self.state[1];
        self.state[0] = s0;
        s1 ^= s1 << 23;
        s1 ^= s1 >> 17;
        s1 ^= s0;
        s1 ^= s0 >> 26;
        self.state[1] = s1;
        match s0.checked_add(s1) {
            Some(v) => v,
            None => s0 - (u64::MAX - s1) - 1,
        }
    }
}

/// What a `CachedRandom` stands for: the table and the position of the next draw.
pub struct RandomView {
    pub table: Seq<u32>,
    pub index: nat,
}

impl RandomView {
    /// The value that the next draw returns.
    pub open spec fn peek(self) -> u32 {
        self.table[self.index as int]
    }

    /// The source after one draw: the position moves on and returns to 0 at
    /// the end of the table.
    pub open spec fn advance(self) -> RandomView {
        RandomView {
            table: self.table,
            index: if self.index + 1 == self.table.len() {
                0
            } else {
                self.index + 1
            },
        }
    }

    /// The source after `n` draws.
    pub open spec fn skip(self, n: nat) -> RandomView
        decreases n,
    {
        if n == 0 {
            self
        } else {
            self.skip((n - 1) as nat).advance()
        }
    }

    /// The value returned by the draw that follows `n` earlier draws.
    pub open spec fn draw(self, n: nat) -> u32 {
        self.skip(n).peek()
    }

    /// A position inside a non-empty table.
    pub open spec fn wf(self) -> bool {
        self.index < self.table.len()
    }
}

/// The source that `CachedRandom::new(size, seed)` builds.
pub open spec fn fresh_random(size: nat, seed: u64) -> RandomView {
    RandomView { table: random_table(seed, size), index: 0 }
}

/// The integer in `[left, right)` that a 32-bit draw `value` is scaled to.
pub open spec fn scale_draw(left: u32, right: u32, value: u32) -> int {
    left + ((right - left) * value) / 0x1_0000_0000
}

/// Whether a 32-bit draw counts as `true`: its fraction of `u32::MAX` is at
/// most one half.
pub open spec fn draw_is_true(value: u32) -> bool {
    2 * value <= u32::MAX
}

/// A table of 32-bit draws that is walked through again and again.
#[derive(Debug)]
pub struct CachedRandom {
    int_table: Vec<u32>,
    index: usize,
}

impl View for CachedRandom {
    type V = RandomView;

    closed spec fn view(&self) -> RandomView {
        RandomView { table: self.int_table@, index: self.index as nat }
    }
}

impl CachedRandom {
    /// A draw is possible: the table is non-empty and the position lies inside it.
    pub open spec fn wf(&self) -> bool {
        self@.wf()
    }

    /// Fills a table of `size` entries from a generator seeded with `seed`.
    pub fn new(size: usize, seed: u64) -> (ret: CachedRandom)
        ensures
            ret@ == fresh_random(size as nat, seed),
            ret.wf() <==> size > 0,
    {
        let mut ret = CachedRandom { int_table: Vec::new(), index: 0 };
        let mut rand = XorShift::new(seed);
        let mut i: usize = 0;
        while i < size
            invariant
                i <= size,
                ret.index == 0,
                ret.int_table@.len() == i,
                rand@ == xorshift_state(seed, i as nat),
                forall|j: int| 0 <= j < i ==> ret.int_table@[j] == table_entry(seed, j as nat),
            decreases size - i,
        {
            let word: u64 = rand.next();
            assert((word >> 32) <= 0xffff_ffff) by (bit_vector);
            let val: u32 = (word >> 32) as u32;
            ret.int_table.push(val);
            i += 1;
        }
        assert(ret.int_table@ =~= random_table(seed, size as nat));
        ret
    }

    /// Number of entries in the table.
    pub fn len(&self) -> (n: usize)
        ensures
            n == self@.table.len(),
    {
        self.int_table.len()
    }

    /// Position of the next draw.
    pub fn index(&self) -> (i: usize)
        ensures
            i == self@.index,
    {
        self.index
    }

    /// The table entry at position `i`.
    pub fn entry(&self, i: usize) -> (v: u32)
        requires
            i < self@.table.len(),
        ensures
            v == self@.table[i as int],
    {
        self.int_table[i]
    }

    fn update(&mut self)
        requires
            old(self).wf(),
        ensures
            final(self)@ == old(self)@.advance(),
            final(self).wf(),
    {
        let len: usize = self.int_table.len();
        self.index += 1;
        if self.index == len {
            self.index = 0;
        }
    }

    /// Draws the next 32-bit value.
    pub fn next_int(&mut self) -> (ret: u32)
        requires
            old(self).wf(),
        ensures
            ret == old(self)@.peek(),
            final(self)@ == old(self)@.advance(),
            final(self).wf(),
    {
        let ret: u32 = self.int_table[self.index];
        self.update();
        ret
    }

    /// Draws `true` or `false`; consumes one draw.
    pub fn next_boolean(&mut self) -> (ret: bool)
        requires
            old(self).wf(),
        ensures
            ret == draw_is_true(old(self)@.peek()),
            final(self)@ == old(self)@.advance(),
            final(self).wf(),
    {
        self.next_int() <= 0x7fff_ffff
    }

    /// Draws a 64-bit value: two draws, the first in the upper half.
    pub fn next_int64(&mut self) -> (ret: u64)
        requires
            old(self).wf(),
        ensures
            ret == old(self)@.draw(0) * 0x1_0000_0000 + old(self)@.draw(1),
            final(self)@ == old(self)@.skip(2),
            final(self).wf(),
    {
        proof {
            reveal_with_fuel(RandomView::skip, 3);
        }
        let v1: u32 = self.next_int();
        let v2: u32 = self.next_int();
        let hi: u64 = v1 as u64;
        let lo: u64 = v2 as u64;
        assert((hi << 32) == hi * 0x1_0000_0000 && (hi << 32) + lo <= u64::MAX) by (bit_vector)
            requires
                hi <= 0xffff_ffff,
                lo <= 0xffff_ffff,
        ;
        (hi << 32) + lo
    }

    /// Draws an integer in `[left, right)`; consumes one draw. With
    /// `left == right` the result is `left`.
    pub fn next_int_range(&mut self, left: u32, right: u32) -> (ret: u32)
        requires
            old(self).wf(),
            left <= right,
        ensures
            ret == scale_draw(left, right, old(self)@.peek()),
            left < right ==> left <= ret < right,
            final(self)@ == old(self)@.advance(),
            final(self).wf(),
    {
        let span: u64 = (right - left) as u64;
        let value: u64 = self.next_int() as u64;
        assert(span * value <= 0xffff_ffff * 0xffff_ffff) by (nonlinear_arith)
            requires
                span <= 0xffff_ffff,
                value <= 0xffff_ffff,
        ;
        let product: u64 = span * value;
        assert((product >> 32) == product / 0x1_0000_0000) by (bit_vector);
        assert(product / 0x1_0000_0000 <= span && (span > 0 ==> product / 0x1_0000_0000 < span))
            by (nonlinear_arith)
            requires
                product == span * value,
                value < 0x1_0000_0000,
        ;
        (product >> 32) as u32 + left
    }
}

/// Draws wrap exactly at the table size: `n` draws move the position by `n`
/// modulo the length of the table, and never change the table.
pub proof fn lemma_skip_position(r: RandomView, n: nat)
    requires
        r.wf(),
    ensures
        r.skip(n).table == r.table,
        r.skip(n).index == (r.index + n) % r.table.len(),
        r.skip(n).wf(),
    decreases n,
{
    let len = r.table.len() as int;
    if n == 0 {
        assert((r.index as int) % len == r.index) by (nonlinear_arith)
            requires
                0 <= r.index < len,
        ;
    } else {
        lemma_skip_position(r, (n - 1) as nat);
        let before = r.skip((n - 1) as nat);
        let total = r.index + n - 1;
        assert(before.index == total % len);
        if before.index + 1 == len {
            assert((total + 1) % len == 0) by (nonlinear_arith)
                requires
                    len > 0,
                    total >= 0,
                    total % len + 1 == len,
            ;
        } else {
            assert((total + 1) % len == total % len + 1) by (nonlinear_arith)
                requires
                    len > 0,
                    total >= 0,
                    total % len + 1 < len,
            ;
        }
    }
}

/// Draws add up: `b` draws after `a` draws are `a + b` draws.
pub proof fn lemma_skip_add(r: RandomView, a: nat, b: nat)
    ensures
        r.skip(a).skip(b) == r.skip(a + b),
    decreases b,
{
    if b > 0 {
        lemma_skip_add(r, a, (b - 1) as nat);
    }
}

/// A full round of draws brings the source back to where it was.
pub proof fn lemma_skip_full_round(r: RandomView)
    requires
        r.wf(),
    ensures
        r.skip(r.table.len()) == r,
{
    let len = r.table.len() as int;
    lemma_skip_position(r, r.table.len());
    assert((r.index + len) % len == r.index) by (nonlinear_arith)
        requires
            0 <= r.index < len,
    ;
}

/// Draw sequences depend only on the seed and the number of earlier draws: the
/// draw that follows `n` earlier ones on a fresh source is the table entry at
/// `n` modulo the table size, and so repeats after `size` draws.
pub proof fn lemma_draws_depend_on_seed_and_count(size: nat, seed: u64, n: nat)
    requires
        size > 0,
    ensures
        fresh_random(size, seed).draw(n) == table_entry(seed, n % size),
        fresh_random(size, seed).draw(n + size) == fresh_random(size, seed).draw(n),
{
    let r = fresh_random(size, seed);
    lemma_skip_position(r, n);
    lemma_skip_position(r, n + size);
    assert(0 <= (n as int) % (size as int) < size) by (nonlinear_arith)
        requires
            size > 0,
    ;
    assert((n + size) as int % (size as int) == (n as int) % (size as int)) by (nonlinear_arith)
        requires
            size > 0,
            n >= 0,
    ;
}

} // verus!
