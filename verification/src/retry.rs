//! Waiting between tries: each wait is twice the last, up to a ceiling, with
//! a random part on top so that many clients do not try again in step.

use vstd::prelude::*;
use rand::rngs::StdRng;

verus! {

/// After how many doublings the wait stops growing.
pub const MAX_DOUBLINGS: usize = 10;

/// `rand::rngs::StdRng`: a random number generator. Opaque here.
#[verifier::external_type_specification]
#[verifier::external_body]
pub struct ExStdRng(StdRng);

/// Two to the power `k`.
pub open spec fn pow2(k: nat) -> nat
    decreases k,
{
    if k == 0 {
        1
    } else {
        2 * pow2((k - 1) as nat)
    }
}

/// The smaller of two numbers.
pub open spec fn least(a: int, b: int) -> int {
    if a <= b {
        a
    } else {
        b
    }
}

/// The wait before try number `attempt + 1`, without its random part:
/// `base_delay_ms`, doubled once for each try so far but no more than
/// `MAX_DOUBLINGS` times, and no more than a `u64` holds.
pub open spec fn backoff_ms(base_delay_ms: u64, attempt: nat) -> int {
    least(base_delay_ms * pow2(least(attempt as int, MAX_DOUBLINGS as int) as nat), u64::MAX as int)
}

/// The most that the random part of a wait can be: half the wait.
pub open spec fn max_jitter(base_delay_ms: u64, attempt: nat) -> int {
    backoff_ms(base_delay_ms, attempt) / 2
}

/// The whole wait, with the random part `jitter`, and no more than a `u64`
/// holds.
pub open spec fn delay_ms(base_delay_ms: u64, attempt: nat, jitter: u64) -> int {
    least(backoff_ms(base_delay_ms, attempt) + jitter, u64::MAX as int)
}

/// Whether `ms` is a wait before try number `attempt + 1`: the doubled wait
/// and a random part of at most half of it.
pub open spec fn waits_for(base_delay_ms: u64, attempt: nat, ms: u64) -> bool {
    exists|jitter: u64|
        jitter <= max_jitter(base_delay_ms, attempt) && ms == #[trigger] delay_ms(
            base_delay_ms,
            attempt,
            jitter,
        )
}

/// Powers of two grow with the exponent.
proof fn lemma_pow2_grows(a: nat, b: nat)
    requires
        a <= b,
    ensures
        1 <= pow2(a) <= pow2(b),
    decreases b,
{
    if a < b {
        lemma_pow2_grows(a, (b - 1) as nat);
    } else if a > 0 {
        lemma_pow2_grows((a - 1) as nat, (a - 1) as nat);
    }
}

/// Bounds on powers of two.
proof fn lemma_pow2_bounds(k: nat)
    requires
        k <= 10,
    ensures
        1 <= pow2(k) <= 1024,
{
    lemma_pow2_grows(k, 10);
    assert(pow2(10) == 1024) by {
        reveal_with_fuel(pow2, 11);
    }
}

/// A generator seeded by the system, from rand's `StdRng::from_entropy`.
/// Trusted; nothing is claimed of it. rand panics where the system gives no
/// entropy.
#[verifier::external_body]
pub(crate) fn fresh_rng() -> (rng: StdRng) {
    <StdRng as rand::SeedableRng>::from_entropy()
}

/// A random number below `bound`, from rand's `Rng::gen_range` over
/// `0..bound`. Trusted: the number lies in that range. rand panics on an
/// empty range, so `bound` is not 0.
#[verifier::external_body]
pub(crate) fn draw_below(rng: &mut StdRng, bound: u64) -> (r: u64)
    requires
        bound > 0,
    ensures
        r < bound,
{
    rand::Rng::gen_range(rng, 0..bound)
}

/// The wait before try number `attempt + 1`, without its random part.
pub fn backoff(base_delay_ms: u64, attempt: usize) -> (wait: u64)
    ensures
        wait == backoff_ms(base_delay_ms, attempt as nat),
{
    let doublings: usize = if attempt < MAX_DOUBLINGS {
        attempt
    } else {
        MAX_DOUBLINGS
    };
    let mut factor: u64 = 1;
    let mut k: usize = 0;
    while k < doublings
        invariant
            k <= doublings <= 10,
            factor == pow2(k as nat),
            factor <= 1024,
        decreases doublings - k,
    {
        proof {
            lemma_pow2_bounds((k + 1) as nat);
        }
        factor = factor * 2;
        k = k + 1;
    }
    proof {
        assert(base_delay_ms * factor <= 0xffff_ffff_ffff_ffff * 1024) by (nonlinear_arith)
            requires
                base_delay_ms <= 0xffff_ffff_ffff_ffff,
                factor <= 1024,
        ;
    }
    let wide: u128 = (base_delay_ms as u128) * (factor as u128);
    if wide > 0xffff_ffff_ffff_ffff {
        0xffff_ffff_ffff_ffff
    } else {
        wide as u64
    }
}

/// The whole wait before try number `attempt + 1`, with the random part
/// `jitter`.
pub fn delay_with_jitter(base_delay_ms: u64, attempt: usize, jitter: u64) -> (wait: u64)
    ensures
        wait == delay_ms(base_delay_ms, attempt as nat, jitter),
{
    let expo: u64 = backoff(base_delay_ms, attempt);
    if jitter > 0xffff_ffff_ffff_ffff - expo {
        0xffff_ffff_ffff_ffff
    } else {
        expo + jitter
    }
}

/// The schedule of one operation that is tried again when it fails.
pub struct Backoff {
    rng: StdRng,
    attempt: usize,
    max_retries: usize,
    base_delay_ms: u64,
}

impl Backoff {
    /// How many tries have failed and been followed by a wait.
    pub closed spec fn attempt(&self) -> nat {
        self.attempt as nat
    }

    /// How many times the operation is tried again at most.
    pub closed spec fn max_retries(&self) -> nat {
        self.max_retries as nat
    }

    /// The first wait, without its random part.
    pub closed spec fn base_delay_ms(&self) -> u64 {
        self.base_delay_ms
    }

    /// A schedule for an operation that has not been tried yet.
    pub fn new(max_retries: usize, base_delay_ms: u64) -> (b: Backoff)
        ensures
            b.attempt() == 0,
            b.max_retries() == max_retries,
            b.base_delay_ms() == base_delay_ms,
    {
        Backoff { rng: fresh_rng(), attempt: 0, max_retries, base_delay_ms }
    }

    /// Says what follows a failed try: `None` where the operation has been
    /// tried again as often as it may, so that the failure stands; else the
    /// milliseconds to wait before the next try. The wait's random part is
    /// at most half of the rest.
    pub fn next_delay(&mut self) -> (wait: Option<u64>)
        ensures
            final(self).max_retries() == old(self).max_retries(),
            final(self).base_delay_ms() == old(self).base_delay_ms(),
            old(self).attempt() >= old(self).max_retries() ==> wait is None,
            old(self).attempt() >= old(self).max_retries() ==> final(self).attempt() == old(
                self,
            ).attempt(),
            old(self).attempt() < old(self).max_retries() ==> final(self).attempt() == old(
                self,
            ).attempt() + 1,
            old(self).attempt() < old(self).max_retries() ==> (wait matches Some(ms)
                && waits_for(old(self).base_delay_ms(), old(self).attempt(), ms)),
    {
        if self.attempt >= self.max_retries {
            return None;
        }
        let expo: u64 = backoff(self.base_delay_ms, self.attempt);
        let jitter: u64 = draw_below(&mut self.rng, expo / 2 + 1);
        let wait: u64 = delay_with_jitter(self.base_delay_ms, self.attempt, jitter);
        self.attempt = self.attempt + 1;
        Some(wait)
    }
}

} // verus!
