//! The pseudo-random generator: a seeded xorshift64 word, and unbiased
//! sampling from a range on top of it.

use vstd::prelude::*;
use vstd::arithmetic::div_mod::{
    lemma_div_pos_is_pos, lemma_fundamental_div_mod, lemma_fundamental_div_mod_converse,
};
use vstd::arithmetic::mul::lemma_mul_inequality;
use vstd::relations::injective_on;
use vstd::set_lib::{lemma_int_range, lemma_map_size, set_int_range};
use crate::error::GameError;
use crate::xorshift::{
    lemma_upper_run_bounded, lemma_upper_run_decreases, lemma_xorshift64_nonzero, upper_run,
    xorshift64, xorshift64_iter, UPPER_HALF,
};

verus! {

/// The state that a generator starts from when seeded with `seed`. Zero is a
/// fixed point of the recurrence, so a zero seed is replaced by one.
pub open spec fn seed_state(seed: u64) -> u64 {
    if seed == 0 {
        1
    } else {
        seed
    }
}

/// The first `n` words that a generator in state `state` hands out.
pub open spec fn stream(state: u64, n: nat) -> Seq<u64> {
    Seq::new(n, |i: int| xorshift64_iter(state, (i + 1) as nat))
}

/// Samples at or above this bound are drawn again when sampling from a range
/// of `range` values: the largest multiple of `range` that is at most 2^64.
pub open spec fn rejection_limit(range: int) -> int {
    (0x1_0000_0000_0000_0000int / range) * range
}

/// The first word below `limit` that a generator in state `state` hands out.
pub open spec fn first_below(state: u64, limit: int) -> u64
    decreases upper_run(xorshift64(state), 65),
    when limit >= UPPER_HALF
    via first_below_decreases
{
    let x = xorshift64(state);
    if x < limit {
        x
    } else {
        first_below(x, limit)
    }
}

/// A word at or above the limit lies in the upper half, so the run of such
/// words that follows it is shorter than the run it begins.
#[via_fn]
proof fn first_below_decreases(state: u64, limit: int) {
    let x = xorshift64(state);
    if x >= limit {
        lemma_upper_run_decreases(x);
    }
}

/// The state of a generator after one sample from `min..=max`, when it was
/// in state `state` before.
pub open spec fn range_state(state: u64, min: u64, max: u64) -> u64 {
    if min == 0 && max == u64::MAX {
        xorshift64(state)
    } else {
        first_below(state, rejection_limit(max - min + 1))
    }
}

/// The sample from `min..=max` that a generator in state `state` hands out.
pub open spec fn range_value(state: u64, min: u64, max: u64) -> int {
    if min == 0 && max == u64::MAX {
        xorshift64(state) as int
    } else {
        min + (range_state(state, min, max) as int) % (max - min + 1)
    }
}

/// The generator. Its state is a single nonzero 64-bit word.
#[derive(Debug, Clone, Copy)]
pub struct Randler {
    seed: u64,
}

impl View for Randler {
    type V = u64;

    /// The state of the generator.
    closed spec fn view(&self) -> u64 {
        self.seed
    }
}

impl Randler {
    /// The state is never zero.
    #[verifier::type_invariant]
    spec fn nonzero(self) -> bool {
        self.seed != 0
    }

    /// A generator seeded with `seed`.
    pub fn new(seed: u64) -> (generator: Randler)
        ensures
            generator@ == seed_state(seed),
    {
        if seed == 0 {
            Randler { seed: 1 }
        } else {
            Randler { seed }
        }
    }

    /// Turns what the system's random source gave into a seed: the word
    /// itself, or one in place of zero. Fails when the source gave nothing.
    pub fn get_base_random_udev(entropy: Option<u64>) -> (seed: Result<u64, GameError>)
        ensures
            match entropy {
                Some(word) => seed == Ok::<u64, GameError>(seed_state(word)),
                None => seed == Err::<u64, GameError>(GameError::EntropyUnavailable),
            },
    {
        match entropy {
            Some(word) => {
                if word == 0 {
                    Ok(1)
                } else {
                    Ok(word)
                }
            },
            None => Err(GameError::EntropyUnavailable),
        }
    }

    /// A generator seeded from the system's random source, of which
    /// `entropy` is the word that was read, if any was.
    pub fn urandom_seed_init(entropy: Option<u64>) -> (generator: Result<Randler, GameError>)
        ensures
            match entropy {
                Some(word) => generator is Ok && generator->Ok_0@ == seed_state(word),
                None => generator == Err::<Randler, GameError>(GameError::EntropyUnavailable),
            },
    {
        match Randler::get_base_random_udev(entropy) {
            Ok(seed) => Ok(Randler::new(seed)),
            Err(error) => Err(error),
        }
    }

    /// The next word of the stream. It becomes the state of the generator,
    /// and is never zero.
    pub fn rand(&mut self) -> (x: u64)
        ensures
            x == xorshift64(old(self)@),
            final(self)@ == x,
            x != 0,
    {
        proof {
            use_type_invariant(&*self);
            lemma_xorshift64_nonzero(self.seed);
        }
        let mut x: u64 = self.seed;
        x ^= x << 12;
        x ^= x >> 25;
        x ^= x << 27;
        self.seed = x;
        x
    }

    /// A sample from `min..=max`, each value being as likely as any other;
    /// none when `min` exceeds `max`.
    ///
    /// Unless the range is all of `u64`, words are drawn until one falls
    /// below `rejection_limit`, and that word is reduced modulo the size of
    /// the range.
    pub fn rand_range(&mut self, min: u64, max: u64) -> (sample: Option<u64>)
        ensures
            min > max ==> sample is None && final(self)@ == old(self)@,
            min <= max ==> sample == Some(range_value(old(self)@, min, max) as u64),
            min <= max ==> final(self)@ == range_state(old(self)@, min, max),
            min <= max ==> min <= range_value(old(self)@, min, max) <= max,
            final(self)@ != 0,
    {
        proof {
            use_type_invariant(&*self);
        }
        if min > max {
            return None;
        }
        if min == 0 && max == u64::MAX {
            return Some(self.rand());
        }
        let range: u64 = max - min + 1;
        proof {
            lemma_rejection_limit(range as int);
        }
        let limit: u128 = (0x1_0000_0000_0000_0000u128 / (range as u128)) * (range as u128);
        let ghost start = self@;
        let mut x: u64 = self.rand();
        while x as u128 >= limit
            invariant
                x == self@,
                x != 0,
                limit == rejection_limit(range as int),
                limit >= UPPER_HALF,
                first_below(start, limit as int) == if x < limit {
                    x
                } else {
                    first_below(x, limit as int)
                },
            decreases upper_run(x, 65),
        {
            proof {
                lemma_upper_run_decreases(x);
            }
            x = self.rand();
        }
        Some((x % range) + min)
    }
}

/// The rejection bound of a range that is not all of `u64` lies in the upper
/// half of the word range, and leaves out fewer words than the range holds.
pub proof fn lemma_rejection_limit(range: int)
    requires
        0 < range <= u64::MAX,
    ensures
        UPPER_HALF <= rejection_limit(range) <= 0x1_0000_0000_0000_0000,
        rejection_limit(range) > 0x1_0000_0000_0000_0000 - range,
        rejection_limit(range) % range == 0,
{
    let whole = 0x1_0000_0000_0000_0000int;
    let q = whole / range;
    lemma_fundamental_div_mod(whole, range);
    assert(whole == range * q + whole % range);
    assert(range * q == q * range) by (nonlinear_arith);
    assert(0 <= whole % range < range);
    if range > UPPER_HALF {
        assert(q >= 1) by (nonlinear_arith)
            requires
                whole == range * q + whole % range,
                whole % range < range,
                range < whole,
                range > 0,
        ;
        lemma_mul_inequality(1, q, range);
    }
    assert((q * range) % range == 0) by (nonlinear_arith)
        requires
            range > 0,
    ;
}

/// Whether the `k`-th word after `state` is the first one below `limit`.
pub open spec fn is_first_below(state: u64, limit: int, k: nat) -> bool {
    &&& k >= 1
    &&& xorshift64_iter(state, k) < limit
    &&& forall|j: nat| 1 <= j < k ==> #[trigger] xorshift64_iter(state, j) >= limit
}

/// Sampling is over after sixty-five draws at most: with a limit in the
/// upper half of the range, one of the first sixty-five words falls below
/// it, and the first that does is the word that is taken.
pub proof fn lemma_first_below_soon(state: u64, limit: int)
    requires
        limit >= UPPER_HALF,
    ensures
        exists|k: nat|
            #[trigger] is_first_below(state, limit, k) && k <= upper_run(xorshift64(state), 65)
                + 1 && k <= 65 && first_below(state, limit) == xorshift64_iter(state, k),
    decreases upper_run(xorshift64(state), 65),
{
    let x = xorshift64(state);
    lemma_upper_run_bounded(x);
    assert(xorshift64_iter(state, 1) == x) by {
        assert(xorshift64_iter(x, 0) == x);
    }
    if x < limit {
        assert(is_first_below(state, limit, 1));
    } else {
        lemma_upper_run_decreases(x);
        lemma_first_below_soon(x, limit);
        let rest = choose|k: nat|
            #[trigger] is_first_below(x, limit, k) && k <= upper_run(xorshift64(x), 65) + 1
                && k <= 65 && first_below(x, limit) == xorshift64_iter(x, k);
        let k = rest + 1;
        assert(xorshift64_iter(state, k) == xorshift64_iter(x, rest));
        assert(is_first_below(state, limit, k)) by {
            assert forall|j: nat| 1 <= j < k implies #[trigger] xorshift64_iter(state, j)
                >= limit by {
                if j > 1 {
                    assert(xorshift64_iter(state, j) == xorshift64_iter(x, (j - 1) as nat));
                }
            }
        }
    }
}

/// The words below the rejection limit of a range of `range` values that
/// give the value `value` of the range.
pub open spec fn accepted_words(range: int, value: int) -> Set<int> {
    Set::new(|word: int| 0 <= word < rejection_limit(range) && word % range == value)
}

/// Rejection takes the bias out of the remainder: of the words below the
/// limit, every value of the range is the remainder of equally many.
pub proof fn lemma_rejection_is_unbiased(range: int, value: int)
    requires
        0 < range,
        0 <= value < range,
    ensures
        accepted_words(range, value).finite(),
        accepted_words(range, value).len() == 0x1_0000_0000_0000_0000int / range,
{
    let whole = 0x1_0000_0000_0000_0000int;
    let rounds = whole / range;
    let nth = |k: int| k * range + value;
    let numbers = set_int_range(0, rounds);
    let words = accepted_words(range, value);
    assert(rounds >= 0) by {
        lemma_div_pos_is_pos(whole, range);
    }
    lemma_int_range(0, rounds);
    assert(injective_on(nth, numbers)) by {
        assert forall|a: int, b: int|
            numbers.contains(a) && numbers.contains(b) && #[trigger] nth(a) == #[trigger] nth(
                b,
            ) implies a == b by {
            assert(a * range == b * range ==> a == b) by (nonlinear_arith)
                requires
                    range > 0,
            ;
        }
    }
    assert(numbers.map(nth) =~= words) by {
        assert forall|word: int| words.contains(word) implies numbers.map(nth).contains(
            word,
        ) by {
            let k = word / range;
            lemma_fundamental_div_mod(word, range);
            assert(0 <= k < rounds) by (nonlinear_arith)
                requires
                    word == range * k + value,
                    0 <= word < rounds * range,
                    0 <= value < range,
                    range > 0,
            ;
            assert(range * k == k * range) by (nonlinear_arith);
            assert(numbers.contains(k) && word == nth(k));
        }
        assert forall|word: int| numbers.map(nth).contains(word) implies words.contains(
            word,
        ) by {
            let k = choose|k: int| numbers.contains(k) && word == nth(k);
            assert(0 <= k * range + value < rounds * range) by (nonlinear_arith)
                requires
                    0 <= k < rounds,
                    0 <= value < range,
            ;
            lemma_fundamental_div_mod_converse(word, range, k, value);
        }
    }
    lemma_map_size(numbers, words, nth);
}

/// A sample from a range lies in the range.
pub proof fn lemma_range_value_bounds(state: u64, min: u64, max: u64)
    requires
        min <= max,
    ensures
        min <= range_value(state, min, max) <= max,
{
}

/// The stream of a generator is its first word followed by the stream of
/// the state that this word leaves behind: it is what successive calls of
/// `rand` return.
pub proof fn lemma_stream_unfold(state: u64, n: nat)
    ensures
        stream(state, n + 1) == seq![xorshift64(state)] + stream(xorshift64(state), n),
{
    assert(xorshift64_iter(state, 1) == xorshift64(state)) by {
        assert(xorshift64_iter(xorshift64(state), 0) == xorshift64(state));
    }
    assert(stream(state, n + 1) =~= seq![xorshift64(state)] + stream(xorshift64(state), n));
}

/// The stream is a function of the seed alone: generators seeded alike hand
/// out the same words, and a zero seed stands for the seed one.
pub proof fn lemma_stream_determined_by_seed(a: u64, b: u64, n: nat)
    requires
        a == b || (a == 0 && b == 1),
    ensures
        seed_state(a) != 0,
        stream(seed_state(a), n) == stream(seed_state(b), n),
{
}

} // verus!
