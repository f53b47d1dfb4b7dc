//! The random effect: a table of pseudo-random numbers, drawn once, lays out
//! alternating windows of two child effects along the time axis.

use vstd::prelude::*;

use crate::model::RandomEffect;

verus! {

/// The number of entries of the table.
pub const RANDOM_TABLE_SIZE: usize = 16384;

/// Table entries are fractions of this.
pub const RANDOM_SCALE: u64 = 4096;

/// The prime that spreads seeds over the time axis.
pub const LARGE_PRIME: u64 = 4294967291;

/// A table of fractions `numbers[i] / RANDOM_SCALE` in `[0, 1)` with the sums
/// of the entries at even and at odd positions.
pub struct RandomTable {
    pub numbers: Vec<u64>,
    pub even_sum: u64,
    pub odd_sum: u64,
}

/// The sum of the entries of `s` at positions of the given parity.
pub open spec fn parity_sum(s: Seq<u64>, parity: int) -> int
    decreases s.len(),
{
    if s.len() == 0 {
        0
    } else {
        parity_sum(s.drop_last(), parity) + if (s.len() - 1) % 2 == parity {
            s.last() as int
        } else {
            0
        }
    }
}

impl RandomTable {
    /// Full length, entries below the scale, and sums that match the entries.
    pub open spec fn wf(&self) -> bool {
        &&& self.numbers@.len() == RANDOM_TABLE_SIZE
        &&& forall|i: int| 0 <= i < self.numbers@.len() ==> self.numbers@[i] < RANDOM_SCALE
        &&& self.even_sum == parity_sum(self.numbers@, 0)
        &&& self.odd_sum == parity_sum(self.numbers@, 1)
    }
}

/// Each entry of a random table: the low twelve bits of a drawn number.
pub open spec fn entry_of(raw: u32) -> u64 {
    (raw % 4096) as u64
}

proof fn lemma_parity_sum_bounded(s: Seq<u64>, parity: int)
    requires
        forall|i: int| 0 <= i < s.len() ==> s[i] < RANDOM_SCALE,
    ensures
        0 <= parity_sum(s, parity) <= s.len() * 4095,
    decreases s.len(),
{
    if s.len() > 0 {
        lemma_parity_sum_bounded(s.drop_last(), parity);
    }
}

impl RandomTable {
    /// The table made of the low twelve bits of each drawn number.
    pub fn from_raw(raw: &Vec<u32>) -> (r: RandomTable)
        requires
            raw@.len() == RANDOM_TABLE_SIZE,
        ensures
            r.wf(),
            forall|i: int| 0 <= i < RANDOM_TABLE_SIZE ==> r.numbers@[i] == entry_of(raw@[i]),
    {
        let mut numbers: Vec<u64> = Vec::new();
        let mut even_sum: u64 = 0;
        let mut odd_sum: u64 = 0;
        let mut i: usize = 0;
        while i < raw.len()
            invariant
                0 <= i <= raw.len(),
                raw@.len() == RANDOM_TABLE_SIZE,
                numbers@.len() == i,
                forall|j: int| 0 <= j < i ==> numbers@[j] == entry_of(raw@[j]),
                forall|j: int| 0 <= j < i ==> numbers@[j] < RANDOM_SCALE,
                even_sum == parity_sum(numbers@, 0),
                odd_sum == parity_sum(numbers@, 1),
            decreases raw.len() - i,
        {
            let n: u64 = (raw[i] % 4096) as u64;
            proof {
                lemma_parity_sum_bounded(numbers@, 0);
                lemma_parity_sum_bounded(numbers@, 1);
            }
            let ghost before = numbers@;
            numbers.push(n);
            assert(numbers@.drop_last() =~= before);
            if i % 2 == 0 {
                even_sum = even_sum + n;
            } else {
                odd_sum = odd_sum + n;
            }
            i = i + 1;
        }
        RandomTable { numbers, even_sum, odd_sum }
    }

    /// A freshly drawn table.
    pub fn generate() -> (r: RandomTable)
        ensures
            r.wf(),
    {
        let mut raw: Vec<u32> = Vec::new();
        let mut i: usize = 0;
        while i < RANDOM_TABLE_SIZE
            invariant
                0 <= i <= RANDOM_TABLE_SIZE,
                raw@.len() == i,
            decreases RANDOM_TABLE_SIZE - i,
        {
            raw.push(draw_u32());
            i = i + 1;
        }
        RandomTable::from_raw(&raw)
    }
}

/// Relies on `rand::random::<u32>`, which draws a number from the thread's
/// generator; nothing is assumed of its value.
#[verifier::external_body]
fn draw_u32() -> (r: u32) {
    rand::random::<u32>()
}

// ---------------------------------------------------------------- windows

/// The width of the window at position `i` for entry `n`, scaled by
/// `RANDOM_SCALE`: `n·variation + min·RANDOM_SCALE`, with effect a's
/// parameters at even positions and effect b's at odd ones.
pub open spec fn slot_width(n: u64, i: int, e: RandomEffect) -> int {
    if i % 2 == 0 {
        n * e.effect_a_variation + RANDOM_SCALE * e.effect_a_min
    } else {
        n * e.effect_b_variation + RANDOM_SCALE * e.effect_b_min
    }
}

/// The summed widths of the windows of the entries of `s`.
pub open spec fn total_width(s: Seq<u64>, e: RandomEffect) -> int
    decreases s.len(),
{
    if s.len() == 0 {
        0
    } else {
        total_width(s.drop_last(), e) + slot_width(s.last(), s.len() - 1, e)
    }
}

/// The length of the time axis that the windows cover, in milliseconds.
pub open spec fn window_of(s: Seq<u64>, e: RandomEffect) -> int {
    total_width(s, e) / RANDOM_SCALE as int
}

/// The point of the time axis at `system_t` for `seed`:
/// `(system_t + P·(P·seed + random_seed)) mod window`, in wrapping arithmetic.
pub open spec fn effect_time(system_t: u64, seed: u64, random_seed: u32, window: int) -> int {
    let inner = vstd::wrapping::u64_specs::wrapping_add(
        vstd::wrapping::u64_specs::wrapping_mul(LARGE_PRIME, seed),
        random_seed as u64,
    );
    let shifted = vstd::wrapping::u64_specs::wrapping_add(
        system_t,
        vstd::wrapping::u64_specs::wrapping_mul(LARGE_PRIME, inner),
    );
    shifted as int % window
}

/// The first window, from position `k` on, whose end (the running sum of the
/// widths) exceeds `t`.
pub open spec fn pick_from(s: Seq<u64>, e: RandomEffect, t: int, k: int) -> Option<int>
    decreases s.len() - k,
{
    if k < 0 || k >= s.len() {
        None
    } else if t * RANDOM_SCALE < total_width(s.take(k + 1), e) {
        Some(k)
    } else {
        pick_from(s, e, t, k + 1)
    }
}

/// Where `t` lies in the window `[prev, cur)` (both scaled), as a fraction
/// of `u32::MAX`, rounded down; 0 before its start.
pub open spec fn sub_time(t: int, prev: int, cur: int) -> int {
    if t * RANDOM_SCALE <= prev {
        0
    } else {
        (t * RANDOM_SCALE - prev) * (u32::MAX as int) / (cur - prev)
    }
}

/// Which child effect runs and how far into it.
#[derive(Clone, Copy, Debug, PartialEq, Eq, Structural)]
pub struct RandomChoice {
    /// Effect b (an odd window) rather than effect a.
    pub use_b: bool,
    /// Progress within the window, over `u32::MAX` milliseconds.
    pub sub_effect_t: u64,
}

/// The child effect and its progress at `system_t` for `seed`; `None` where
/// the windows cover no time.
pub open spec fn random_choice(s: Seq<u64>, e: RandomEffect, system_t: u64, seed: u64) -> Option<RandomChoice> {
    let w = window_of(s, e);
    if w <= 0 {
        None
    } else {
        let t = effect_time(system_t, seed, e.seed, w);
        match pick_from(s, e, t, 0) {
            Some(i) => Some(
                RandomChoice {
                    use_b: i % 2 == 1,
                    sub_effect_t: sub_time(t, total_width(s.take(i), e), total_width(s.take(i + 1), e)) as u64,
                },
            ),
            None => None,
        }
    }
}

proof fn lemma_total_width_bounded(s: Seq<u64>, e: RandomEffect)
    requires
        forall|i: int| 0 <= i < s.len() ==> s[i] < RANDOM_SCALE,
    ensures
        0 <= total_width(s, e) <= s.len() * (8191 * 0xffff_ffff),
    decreases s.len(),
{
    if s.len() > 0 {
        lemma_total_width_bounded(s.drop_last(), e);
        let n = s.last();
        assert(0 <= slot_width(n, s.len() - 1, e) <= 8191 * 0xffff_ffff) by (nonlinear_arith)
            requires
                n < 4096,
                e.effect_a_variation <= 0xffff_ffff,
                e.effect_b_variation <= 0xffff_ffff,
                e.effect_a_min <= 0xffff_ffff,
                e.effect_b_min <= 0xffff_ffff,
                slot_width(n, s.len() - 1, e) == if (s.len() - 1) % 2 == 0 {
                    n * e.effect_a_variation + 4096 * e.effect_a_min
                } else {
                    n * e.effect_b_variation + 4096 * e.effect_b_min
                },
        ;
        assert((s.len() - 1) * (8191 * 0xffff_ffff) + 8191 * 0xffff_ffff == s.len() * (8191 * 0xffff_ffff)) by (nonlinear_arith);
    }
}

fn width_at(n: u64, i: usize, e: &RandomEffect) -> (r: u64)
    requires
        n < RANDOM_SCALE,
    ensures
        r == slot_width(n, i as int, *e),
        r <= 8191 * 0xffff_ffff,
{
    let (var, min) = if i % 2 == 0 {
        (e.effect_a_variation, e.effect_a_min)
    } else {
        (e.effect_b_variation, e.effect_b_min)
    };
    assert(n * var <= 4095 * 0xffff_ffff) by (nonlinear_arith)
        requires
            n < 4096,
            var <= 0xffff_ffff,
    ;
    n * var as u64 + 4096 * min as u64
}

/// The length of the time axis that the windows of `random_effect` cover.
pub fn window_size(table: &RandomTable, random_effect: &RandomEffect) -> (r: u64)
    requires
        table.wf(),
    ensures
        r == window_of(table.numbers@, *random_effect),
{
    let s = &table.numbers;
    let mut total: u64 = 0;
    let mut i: usize = 0;
    while i < s.len()
        invariant
            table.wf(),
            s@ == table.numbers@,
            0 <= i <= s.len(),
            total == total_width(s@.take(i as int), *random_effect),
            total <= i * (8191 * 0xffff_ffff),
        decreases s.len() - i,
    {
        assert(s@.take(i as int + 1).drop_last() =~= s@.take(i as int));
        assert(s@[i as int] < RANDOM_SCALE);
        assert(i < 16384);
        let w = width_at(s[i], i, random_effect);
        assert(total + w <= (i + 1) * (8191 * 0xffff_ffff) <= 16384 * (8191 * 0xffff_ffff)) by (nonlinear_arith)
            requires
                total <= i * (8191 * 0xffff_ffff),
                w <= 8191 * 0xffff_ffff,
                i < 16384,
        ;
        total = total + w;
        i = i + 1;
    }
    assert(s@.take(i as int) =~= s@);
    total / 4096
}

/// The pick of a window scanning from position `k` is the pick from 0 when
/// no earlier window ends past `t`.
proof fn lemma_pick_from_step(s: Seq<u64>, e: RandomEffect, t: int, k: int)
    requires
        0 <= k < s.len(),
        t * RANDOM_SCALE >= total_width(s.take(k + 1), e),
    ensures
        pick_from(s, e, t, k) == pick_from(s, e, t, k + 1),
{
}

/// The child effect and its progress at `system_t` for `seed`.
pub fn pick_random(table: &RandomTable, random_effect: &RandomEffect, system_t: u64, seed: u64) -> (r: Option<RandomChoice>)
    requires
        table.wf(),
    ensures
        r == random_choice(table.numbers@, *random_effect, system_t, seed),
{
    let window = window_size(table, random_effect);
    if window == 0 {
        return None;
    }
    let inner: u64 = LARGE_PRIME.wrapping_mul(seed).wrapping_add(random_effect.seed as u64);
    let shifted: u64 = system_t.wrapping_add(LARGE_PRIME.wrapping_mul(inner));
    let t: u64 = shifted % window;
    assert(t == effect_time(system_t, seed, random_effect.seed, window as int));
    let s = &table.numbers;
    let mut counter: u64 = 0;
    let mut i: usize = 0;
    while i < s.len()
        invariant
            table.wf(),
            s@ == table.numbers@,
            0 <= i <= s.len(),
            t < window,
            window == window_of(s@, *random_effect),
            t == effect_time(system_t, seed, random_effect.seed, window as int),
            counter == total_width(s@.take(i as int), *random_effect),
            counter <= i * (8191 * 0xffff_ffff),
            t * RANDOM_SCALE >= counter,
            pick_from(s@, *random_effect, t as int, 0) == pick_from(s@, *random_effect, t as int, i as int),
        decreases s.len() - i,
    {
        assert(s@.take(i as int + 1).drop_last() =~= s@.take(i as int));
        let prev = counter;
        assert(s@[i as int] < RANDOM_SCALE);
        assert(i < 16384);
        let w = width_at(s[i], i, random_effect);
        assert(counter + w <= (i + 1) * (8191 * 0xffff_ffff) <= 16384 * (8191 * 0xffff_ffff)) by (nonlinear_arith)
            requires
                counter <= i * (8191 * 0xffff_ffff),
                w <= 8191 * 0xffff_ffff,
                i < 16384,
        ;
        counter = counter + w;
        assert(s@.take(i as int + 1).last() == s@[i as int]);
        assert(counter == total_width(s@.take(i as int + 1), *random_effect));
        if (t as u128) * 4096 < counter as u128 {
            assert(pick_from(s@, *random_effect, t as int, i as int) == Some(i as int));
            let sub: u64 = if (t as u128) * 4096 <= prev as u128 {
                0
            } else {
                let num: u128 = (t as u128 * 4096 - prev as u128) * 0xffff_ffff;
                let den: u128 = counter as u128 - prev as u128;
                assert(num / den <= 0xffff_ffff) by (nonlinear_arith)
                    requires
                        num == (t * 4096 - prev) * 0xffff_ffff,
                        den == counter - prev,
                        0 < t * 4096 - prev <= den,
                {
                    vstd::arithmetic::div_mod::lemma_div_is_ordered(num as int, den * 0xffff_ffff, den as int);
                    vstd::arithmetic::div_mod::lemma_div_multiples_vanish(0xffff_ffff, den as int);
                    assert(den * 0xffff_ffff == den as int * 0xffff_ffff);
                }
                (num / den) as u64
            };
            assert(sub == sub_time(t as int, prev as int, counter as int));
            return Some(RandomChoice { use_b: i % 2 == 1, sub_effect_t: sub });
        }
        proof {
            lemma_pick_from_step(s@, *random_effect, t as int, i as int);
        }
        i = i + 1;
    }
    None
}

} // verus!
