//! A 48-bit linear congruential generator that reproduces `java.util.Random`
//! bit for bit, so that seeded sequences line up with the game's own.

use vstd::arithmetic::div_mod::{
    lemma_add_mod_noop, lemma_mod_mod, lemma_mod_multiples_vanish, lemma_mul_mod_noop_right,
    lemma_small_mod,
};
use vstd::arithmetic::power2::{lemma2_to64, lemma2_to64_rest, lemma_pow2_pos, lemma_pow2_unfold, pow2};
use vstd::prelude::*;

verus! {

/// The multiplier of the generator.
pub const MULTIPLIER: u64 = 0x5DEECE66D;

/// The increment of the generator.
pub const INCREMENT: u64 = 0xB;

/// The low 48 bits.
pub const MASK: u64 = 0xFFFF_FFFF_FFFF;

/// The number of states, two to the power of 48.
pub open spec fn modulus() -> int {
    0x1_0000_0000_0000
}

/// One step of the generator.
pub open spec fn step(state: int) -> int {
    (state * 0x5DEECE66D + 0xB) % modulus()
}

/// The state after `n` steps.
pub open spec fn steps(state: int, n: nat) -> int
    decreases n,
{
    if n == 0 {
        state
    } else {
        step(steps(state, (n - 1) as nat))
    }
}

/// The state that a seed stands for: the seed scrambled with the multiplier,
/// cut to 48 bits.
pub open spec fn scrambled(seed: i64) -> int {
    ((seed as u64 ^ MULTIPLIER) & MASK) as int
}

/// The 31 high bits of a state.
pub open spec fn high_bits(state: int) -> int {
    state / 0x2_0000
}

/// The low 32 bits of a number, as a signed number.
pub open spec fn signed_32(value: int) -> int {
    let low = value % 0x1_0000_0000;
    if low < 0x8000_0000 {
        low
    } else {
        low - 0x1_0000_0000
    }
}

/// Whether a sample of 31 bits lies below the largest multiple of `bound`
/// that 31 bits can hold. The others would favour small remainders.
pub open spec fn accepted(sample: int, bound: int) -> bool {
    sample - sample % bound + (bound - 1) < 0x8000_0000
}

/// Whether step `n` from `state` is the first one whose sample is accepted.
pub open spec fn first_accepted(state: int, bound: int, n: nat) -> bool {
    &&& n >= 1
    &&& accepted(high_bits(steps(state, n)), bound)
    &&& forall|i: nat|
        1 <= i < n ==> !accepted(high_bits(#[trigger] steps(state, i)), bound)
}

/// Whether exactly one bit of `bound` is set.
pub open spec fn power_of_two(bound: i32) -> bool {
    bound > 0 && bound & (bound - 1) as i32 == 0
}

/// The generator. Its state is always below `modulus()`.
pub struct JavaRandom {
    seed: u64,
}

impl JavaRandom {
    /// The state, which decides every later draw.
    pub closed spec fn state(&self) -> int {
        self.seed as int
    }

    pub open spec fn wf(&self) -> bool {
        0 <= self.state() < modulus()
    }

    /// A generator for `seed`.
    pub fn new(seed: i64) -> (rng: Self)
        ensures
            rng.wf(),
            rng.state() == scrambled(seed),
    {
        let mut rng = JavaRandom { seed: 0 };
        rng.set_seed(seed);
        rng
    }

    /// A generator for the seed that `moment` stands for: the seconds and the
    /// nanoseconds within the second since the epoch, added; zero for a clock
    /// that stands before the epoch.
    pub fn from_moment(moment: Option<(u64, u32)>) -> (rng: Self)
        ensures
            rng.wf(),
            rng.state() == scrambled(moment_seed(moment)),
    {
        let seed: i64 = match moment {
            Some((secs, nanos)) => (nanos as i64).wrapping_add(secs as i64),
            None => 0,
        };
        Self::new(seed)
    }

    /// A generator seeded by the clock, for draws whose exact sequence does
    /// not matter.
    pub fn from_time() -> (rng: Self)
        ensures
            rng.wf(),
            exists|moment: Option<(u64, u32)>|
                rng.state() == scrambled(#[trigger] moment_seed(moment)),
    {
        let moment = since_epoch();
        Self::from_moment(moment)
    }

    /// Restarts the generator from `seed`.
    pub fn set_seed(&mut self, seed: i64)
        ensures
            final(self).wf(),
            final(self).state() == scrambled(seed),
    {
        self.seed = (seed as u64 ^ MULTIPLIER) & MASK;
        let ghost mixed = seed as u64 ^ MULTIPLIER;
        assert(mixed & 0xFFFF_FFFF_FFFF < 0x1_0000_0000_0000) by (bit_vector);
    }

    /// Steps once and returns the high `bits` bits of the new state, cut to a
    /// signed number of 32 bits.
    pub fn next(&mut self, bits: u32) -> (sample: i32)
        requires
            old(self).wf(),
            bits <= 48,
        ensures
            final(self).wf(),
            final(self).state() == step(old(self).state()),
            sample == signed_32(final(self).state() / (pow2((48 - bits) as nat) as int)),
            bits <= 31 ==> sample == final(self).state() / (pow2((48 - bits) as nat) as int),
            bits <= 31 ==> 0 <= sample < pow2(bits as nat),
    {
        let ghost before = self.seed;
        let product: u64 = self.seed.wrapping_mul(MULTIPLIER);
        let sum: u64 = product.wrapping_add(INCREMENT);
        self.seed = sum & MASK;
        proof {
            assert(sum & 0xFFFF_FFFF_FFFF == sum % 0x1_0000_0000_0000) by (bit_vector);
            lemma_step_of_wrapping(before, product, sum);
        }
        let shift: u32 = 48 - bits;
        let shifted: u64 = self.seed >> shift as u64;
        proof {
            lemma_high_part(self.seed, bits, shifted);
            lemma_cut_to_32(shifted);
        }
        shifted as i32
    }

    /// A draw from `0..bound`. A power of two takes the high bits of one
    /// sample; any other bound takes the remainder of the first sample that
    /// favours no remainder.
    pub fn next_int(&mut self, bound: i32) -> (drawn: i32)
        requires
            old(self).wf(),
            bound > 0,
        ensures
            final(self).wf(),
            0 <= drawn < bound,
            power_of_two(bound) ==> {
                &&& final(self).state() == step(old(self).state())
                &&& drawn == bound * high_bits(final(self).state()) / 0x8000_0000
            },
            !power_of_two(bound) ==> exists|n: nat| #[trigger]
                first_accepted(old(self).state(), bound as int, n) && final(self).state() == steps(
                    old(self).state(),
                    n,
                ) && drawn == high_bits(final(self).state()) % (bound as int),
    {
        let ghost start = self.state();
        proof {
            lemma2_to64();
        }
        if bound & (bound - 1) == 0 {
            let sample: i32 = self.next(31);
            assert(0 <= bound * sample <= 0x7FFF_FFFF * 0x7FFF_FFFF) by (nonlinear_arith)
                requires
                    0 < bound <= 0x7FFF_FFFF,
                    0 <= sample <= 0x7FFF_FFFF,
            ;
            let product: i64 = bound as i64 * sample as i64;
            assert(0 <= product ==> product >> 31 == product / 0x8000_0000) by (bit_vector);
            let drawn: i64 = product >> 31;
            assert(0 <= drawn < bound) by (nonlinear_arith)
                requires
                    product == bound * sample,
                    0 < bound,
                    0 <= sample < 0x8000_0000,
                    drawn == product / 0x8000_0000,
            ;
            return drawn as i32;
        }
        let ghost mut n: nat = 0;
        assert(steps(start, 0) == start);
        loop
            invariant
                self.wf(),
                0 <= start < modulus(),
                start == old(self).state(),
                self.state() == steps(start, n),
                bound > 0,
                !power_of_two(bound),
                n <= pow2(47),
                pow2(31) == 0x8000_0000,
                pow2(17) == 0x2_0000,
                forall|i: nat|
                    1 <= i <= n ==> !accepted(
                        high_bits(#[trigger] steps(start, i)),
                        bound as int,
                    ),
            decreases pow2(47) + 1 - n,
        {
            let sample: i32 = self.next(31);
            proof {
                n = n + 1;
                assert(steps(start, n) == step(steps(start, (n - 1) as nat)));
                assert(sample == high_bits(self.state()));
            }
            let remainder: i32 = sample % bound;
            assert(remainder == sample as int % bound as int);
            let base: i32 = sample.wrapping_sub(remainder);
            if base.wrapping_add(bound - 1) >= 0 {
                assert(accepted(high_bits(steps(start, n)), bound as int));
                assert(first_accepted(start, bound as int, n));
                return remainder;
            }
            proof {
                assert(!accepted(high_bits(steps(start, n)), bound as int));
                if n > pow2(47) {
                    lemma_some_sample_accepted(start, bound as int);
                    let i = choose|i: nat|
                        1 <= i <= pow2(47) + 1 && accepted(
                            high_bits(#[trigger] steps(start, i)),
                            bound as int,
                        );
                    assert(false);
                }
            }
        }
    }
}

/// The seed of a clock reading, as seconds and nanoseconds since the epoch.
pub open spec fn moment_seed(moment: Option<(u64, u32)>) -> i64 {
    match moment {
        Some((secs, nanos)) => (nanos as i64).wrapping_add(secs as i64),
        None => 0,
    }
}

/// Reads the clock with `std::time::SystemTime::now` and
/// `SystemTime::duration_since`: the whole seconds and the nanoseconds within
/// the second since the epoch, or nothing for a clock set before the epoch.
/// Nothing is claimed of the reading.
#[verifier::external_body]
fn since_epoch() -> (moment: Option<(u64, u32)>)
{
    std::time::SystemTime::now()
        .duration_since(std::time::UNIX_EPOCH)
        .ok()
        .map(|d| (d.as_secs(), d.subsec_nanos()))
}

proof fn lemma_step_of_wrapping(seed: u64, product: u64, sum: u64)
    requires
        seed < modulus(),
        product == seed.wrapping_mul(MULTIPLIER),
        sum == product.wrapping_add(INCREMENT),
    ensures
        sum as int % modulus() == step(seed as int),
{
    let full = seed as int * 0x5DEECE66D;
    let wide = 0x1_0000_0000_0000_0000int;
    assert(wide == modulus() * 0x1_0000);
    assert(product as int == full % wide);
    assert(sum as int == (product as int + 0xB) % wide);
    lemma_add_mod_noop(full, 0xB, wide);
    assert(0xBint % wide == 0xB);
    assert(sum as int == (full + 0xB) % wide);
    lemma_mod_mod(full + 0xB, modulus(), 0x1_0000);
}

proof fn lemma_high_part(seed: u64, bits: u32, shifted: u64)
    requires
        seed < modulus(),
        bits <= 48,
        shifted == seed >> ((48 - bits) as u32) as u64,
    ensures
        shifted as int == seed as int / (pow2((48 - bits) as nat) as int),
        shifted < pow2(bits as nat),
        bits <= 31 ==> shifted <= 0x7FFF_FFFF,
{
    let shift = (48 - bits) as u64;
    vstd::bits::lemma_u64_shr_is_div(seed, shift);
    vstd::arithmetic::power2::lemma_pow2_adds(bits as nat, shift as nat);
    lemma2_to64();
    lemma2_to64_rest();
    lemma_pow2_pos(shift as nat);
    assert(pow2(48) == modulus());
    assert(shifted < pow2(bits as nat)) by (nonlinear_arith)
        requires
            shifted as int == seed as int / (pow2(shift as nat) as int),
            seed < pow2(bits as nat) * pow2(shift as nat),
            pow2(shift as nat) > 0,
    ;
    if bits < 31 {
        vstd::arithmetic::power2::lemma_pow2_strictly_increases(bits as nat, 31);
    }
}

/// A cast to 32 bits keeps the low bits, the highest of them as the sign.
proof fn lemma_cut_to_32(value: u64)
    ensures
        value as i32 == signed_32(value as int),
{
    let low = value % 0x1_0000_0000;
    assert(low < 0x8000_0000 ==> value as i32 == low) by (bit_vector)
        requires
            low == value % 0x1_0000_0000,
    ;
    assert(low >= 0x8000_0000 ==> value as i32 == low - 0x1_0000_0000) by (bit_vector)
        requires
            low == value % 0x1_0000_0000,
    ;
}

/// Steps add up.
pub proof fn steps_add(state: int, m: nat, n: nat)
    ensures
        steps(steps(state, m), n) == steps(state, m + n),
    decreases n,
{
    if n > 0 {
        steps_add(state, m, (n - 1) as nat);
        assert((m + n - 1) as nat == m + (n - 1) as nat);
    }
}

/// Whether `2^j` steps act on every state as multiplying by `a` and adding `c`.
spec fn acts_as(j: nat, a: int, c: int) -> bool {
    forall|state: int|
        #![trigger steps(state, pow2(j))]
        steps(state, pow2(j)) % modulus() == (a * state + c) % modulus()
}

/// `2^j` steps multiply by one more than a multiple of `2^(j+2)` and add an
/// odd multiple of `2^j`.
proof fn lemma_power_steps(j: nat) -> (r: (int, int, int, int))
    ensures
        acts_as(j, r.0, r.1),
        r.0 == 1 + pow2(j) * 4 * r.2,
        r.1 == pow2(j) * (2 * r.3 + 1),
    decreases j,
{
    if j == 0 {
        lemma2_to64();
        assert forall|state: int|
            #![trigger steps(state, pow2(0))]
            steps(state, pow2(0)) % modulus() == (0x5DEECE66D * state + 0xB) % modulus() by {
            reveal_with_fuel(steps, 2);
            assert(state * 0x5DEECE66D == 0x5DEECE66D * state);
        }
        (0x5DEECE66D, 0xB, 6303725979, 5)
    } else {
        let i = (j - 1) as nat;
        let (a, c, k, m) = lemma_power_steps(i);
        let p = pow2(i) as int;
        lemma_pow2_unfold(j);
        assert(pow2(j) == 2 * p);
        let a2 = a * a;
        let c2 = c * (a + 1);
        assert forall|state: int|
            #![trigger steps(state, pow2(j))]
            steps(state, pow2(j)) % modulus() == (a2 * state + c2) % modulus() by {
            let mid = steps(state, pow2(i));
            steps_add(state, pow2(i), pow2(i));
            assert(pow2(i) + pow2(i) == pow2(j));
            assert(steps(mid, pow2(i)) % modulus() == (a * mid + c) % modulus());
            assert(mid % modulus() == (a * state + c) % modulus());
            lemma_affine_congruent(a, c, mid, a * state + c);
            assert(a * (a * state + c) + c == a2 * state + c2) by (nonlinear_arith)
                requires
                    a2 == a * a,
                    c2 == c * (a + 1),
            ;
        }
        let k2 = k + 2 * p * k * k;
        assert(a2 == 1 + 2 * p * 4 * k2) by (nonlinear_arith)
            requires
                a2 == a * a,
                a == 1 + p * 4 * k,
                k2 == k + 2 * p * k * k,
        ;
        let m2 = m + p * k * (2 * m + 1);
        assert(c2 == 2 * p * (2 * m2 + 1)) by (nonlinear_arith)
            requires
                c2 == c * (a + 1),
                a == 1 + p * 4 * k,
                c == p * (2 * m + 1),
                m2 == m + p * k * (2 * m + 1),
        ;
        (a2, c2, k2, m2)
    }
}

proof fn lemma_affine_congruent(a: int, c: int, x: int, y: int)
    requires
        x % modulus() == y % modulus(),
    ensures
        (a * x + c) % modulus() == (a * y + c) % modulus(),
{
    lemma_mul_mod_noop_right(a, x, modulus());
    lemma_mul_mod_noop_right(a, y, modulus());
    lemma_add_mod_noop(a * x, c, modulus());
    lemma_add_mod_noop(a * y, c, modulus());
}

/// Half a period on, the state differs in its highest bit alone.
pub proof fn half_period_flips_the_high_bit(state: int)
    requires
        0 <= state < modulus(),
    ensures
        steps(state, pow2(47)) == (state + 0x8000_0000_0000) % modulus(),
{
    let (a, c, k, m) = lemma_power_steps(47);
    lemma2_to64_rest();
    let half = 0x8000_0000_0000int;
    assert(pow2(47) == half);
    lemma_steps_in_range(state, pow2(47));
    let whole = 2 * k * state + m;
    assert(a * state + c == state + half + modulus() * whole) by (nonlinear_arith)
        requires
            a == 1 + half * 4 * k,
            c == half * (2 * m + 1),
            half == 0x8000_0000_0000int,
            modulus() == 2 * half,
            whole == 2 * k * state + m,
    ;
    lemma_mod_multiples_vanish(whole, state + half, modulus());
    lemma_small_mod(steps(state, pow2(47)) as nat, modulus() as nat);
}

/// A whole period leads back to the state it started from.
pub proof fn whole_period_returns(state: int)
    requires
        0 <= state < modulus(),
    ensures
        steps(state, pow2(48)) == state,
{
    half_period_flips_the_high_bit(state);
    let mid = steps(state, pow2(47));
    half_period_flips_the_high_bit(mid);
    lemma_pow2_unfold(48);
    steps_add(state, pow2(47), pow2(47));
    assert(pow2(47) + pow2(47) == pow2(48));
}

proof fn lemma_steps_in_range(state: int, n: nat)
    requires
        0 <= state < modulus(),
    ensures
        0 <= steps(state, n) < modulus(),
    decreases n,
{
    if n > 0 {
        lemma_steps_in_range(state, (n - 1) as nat);
    }
}

/// Among the samples of half a period and one step more, one is accepted.
proof fn lemma_some_sample_accepted(state: int, bound: int)
    requires
        0 <= state < modulus(),
        0 < bound < 0x8000_0000,
    ensures
        exists|i: nat|
            1 <= i <= pow2(47) + 1 && accepted(
                high_bits(#[trigger] steps(state, i)),
                bound,
            ),
{
    let one = steps(state, 1);
    lemma_steps_in_range(state, 1);
    if one < 0x8000_0000_0000 {
        lemma_low_sample_accepted(one, bound);
        lemma_pow2_pos(47);
        assert(accepted(high_bits(steps(state, 1)), bound));
    } else {
        let far = steps(one, pow2(47));
        half_period_flips_the_high_bit(one);
        steps_add(state, 1, pow2(47));
        assert(far < 0x8000_0000_0000);
        lemma_low_sample_accepted(far, bound);
        assert(accepted(high_bits(steps(state, 1 + pow2(47))), bound));
    }
}

/// A sample whose highest bit is clear is accepted under every bound.
proof fn lemma_low_sample_accepted(state: int, bound: int)
    requires
        0 <= state < 0x8000_0000_0000,
        0 < bound < 0x8000_0000,
    ensures
        accepted(high_bits(state), bound),
{
    let sample = high_bits(state);
    assert(0 <= sample < 0x4000_0000);
    let r = sample % bound;
    assert(0 <= r <= sample && r < bound) by (nonlinear_arith)
        requires
            r == sample % bound,
            0 < bound,
            0 <= sample,
    ;
    assert(sample - r + (bound - 1) < 0x8000_0000) by (nonlinear_arith)
        requires
            r == sample % bound,
            0 < bound < 0x8000_0000,
            0 <= sample < 0x4000_0000,
    {
        if bound > sample {
            assert(sample % bound == sample);
        }
    }
}

/// A step is that of the linear congruential generator with 48 bits, the multiplier
/// 25214903917 and the increment 11; seeds that differ in their low 48 bits begin in
/// different states.
pub proof fn seeds_are_told_apart(a: i64, b: i64, state: int)
    ensures
        step(state) == (25214903917 * state + 11) % 281474976710656,
        scrambled(a) == scrambled(b) <==> a as u64 % 281474976710656 == b as u64
            % 281474976710656,
        0 <= scrambled(a) < 281474976710656,
{
    let (x, y) = (a as u64, b as u64);
    assert(((x ^ MULTIPLIER) & MASK) == ((y ^ MULTIPLIER) & MASK) <==> x % 281474976710656 == y
        % 281474976710656) by (bit_vector)
        requires
            MULTIPLIER == 0x5DEECE66Du64,
            MASK == 0xFFFF_FFFF_FFFFu64,
    ;
    assert(((x ^ MULTIPLIER) & MASK) < 281474976710656) by (bit_vector)
        requires
            MASK == 0xFFFF_FFFF_FFFFu64,
    ;
}

} // verus!
