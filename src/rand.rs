//! Small-state pseudo-random generator (Bob Jenkins' "small PRNG").
use crate::clock::since_unix_epoch;
use std::time::SystemTime;
use vstd::prelude::*;

verus! {

/// The four state words `(a, b, c, d)` of a generator.
pub type RandState = (u32, u32, u32, u32);

/// Constant placed in the first state word when seeding.
pub const SEED_TAG: u32 = 0xf1ea5eed;

/// Number of mixing rounds run when seeding, to spread a weak seed.
pub const WARMUP_ROUNDS: u32 = 20;

/// Left rotation of a 32-bit word by `k` bits, `0 < k < 32`.
pub open spec fn rotl(x: u32, k: u32) -> u32 {
    ((x << k) | (x >> (32 - k) as u32)) as u32
}

/// One mixing step of the generator.
pub open spec fn step(s: RandState) -> RandState {
    let e = s.0.wrapping_sub(rotl(s.1, 27));
    let a = s.1 ^ rotl(s.2, 17);
    let b = s.2.wrapping_add(s.3);
    let c = s.3.wrapping_add(e);
    let d = e.wrapping_add(a);
    (a, b, c, d)
}

/// The state after `n` mixing steps.
pub open spec fn advance(s: RandState, n: nat) -> RandState
    decreases n,
{
    if n == 0 {
        s
    } else {
        step(advance(s, (n - 1) as nat))
    }
}

/// The state before warm-up.
pub open spec fn initial(seed: u32) -> RandState {
    (SEED_TAG, seed, seed, seed)
}

/// The state of a freshly seeded generator.
pub open spec fn seeded(seed: u32) -> RandState {
    advance(initial(seed), WARMUP_ROUNDS as nat)
}

/// The value that the draw numbered `n` (counting from 0) returns, from state `s`.
pub open spec fn draw_at(s: RandState, n: nat) -> u32 {
    advance(s, n + 1).3
}

/// The first `n` values drawn from state `s`.
pub open spec fn draws(s: RandState, n: nat) -> Seq<u32>
    decreases n,
{
    if n == 0 {
        Seq::empty()
    } else {
        draws(s, (n - 1) as nat).push(draw_at(s, (n - 1) as nat))
    }
}

/// A generator of 32-bit words. Two generators in the same state give the same
/// sequence; each rendering worker owns one.
#[derive(Clone, Copy, Debug)]
pub struct Rand {
    a: u32,
    b: u32,
    c: u32,
    d: u32,
}

impl View for Rand {
    type V = RandState;

    closed spec fn view(&self) -> RandState {
        (self.a, self.b, self.c, self.d)
    }
}

fn rotate(x: u32, k: u32) -> (r: u32)
    requires
        0 < k < 32,
    ensures
        r == rotl(x, k),
{
    (x << k) | (x >> (32 - k))
}

impl Rand {
    /// A generator seeded with `seed`: the state `(SEED_TAG, seed, seed, seed)`
    /// after `WARMUP_ROUNDS` mixing steps.
    pub fn new(seed: u32) -> (r: Rand)
        ensures
            r@ == seeded(seed),
    {
        let mut rand = Rand { a: SEED_TAG, b: seed, c: seed, d: seed };
        let mut i: u32 = 0;
        while i < WARMUP_ROUNDS
            invariant
                i <= WARMUP_ROUNDS,
                rand@ == advance(initial(seed), i as nat),
            decreases WARMUP_ROUNDS - i,
        {
            rand.next();
            i = i + 1;
        }
        rand
    }

    /// A generator seeded with the whole seconds since the Unix epoch, cut to
    /// 32 bits (seed 0 when the clock reads a time before the epoch).
    pub fn new_from_time() -> (r: Rand)
        ensures
            exists|seed: u32| r@ == #[trigger] seeded(seed),
    {
        let now = SystemTime::now();
        let secs: u64 = match since_unix_epoch(&now) {
            Ok(elapsed) => elapsed.as_secs(),
            Err(_) => 0,
        };
        Rand::new(secs as u32)
    }

    /// The generator of rendering worker `worker` in a run whose base seed is
    /// `base_seed`: seeded with their wrapping sum, so that each worker has a
    /// stream of its own and a run is reproducible from its base seed.
    pub fn for_worker(base_seed: u32, worker: u32) -> (r: Rand)
        ensures
            r@ == seeded(base_seed.wrapping_add(worker)),
    {
        Rand::new(base_seed.wrapping_add(worker))
    }

    /// Advances the state by one mixing step and returns its last word.
    pub fn next(&mut self) -> (r: u32)
        ensures
            final(self)@ == step(old(self)@),
            r == final(self)@.3,
    {
        let e = self.a.wrapping_sub(rotate(self.b, 27));
        self.a = self.b ^ rotate(self.c, 17);
        self.b = self.c.wrapping_add(self.d);
        self.c = self.d.wrapping_add(e);
        self.d = e.wrapping_add(self.a);
        self.d
    }
}

/// A generator is determined by its state: two with the same state are equal.
pub proof fn lemma_state_determines_generator(a: Rand, b: Rand)
    requires
        a@ == b@,
    ensures
        a == b,
{
}

/// Every prefix of the draws from `s` is the shorter run of draws from `s`:
/// drawing more values never changes the ones drawn before.
proof fn lemma_draws_prefix(s: RandState, n: nat, m: nat)
    requires
        n <= m,
    ensures
        draws(s, m).len() == m,
        draws(s, m).subrange(0, n as int) == draws(s, n),
    decreases m,
{
    if m > 0 {
        let k = (m - 1) as nat;
        if n < m {
            lemma_draws_prefix(s, n, k);
            assert(draws(s, m).subrange(0, n as int) =~= draws(s, k).subrange(0, n as int));
        } else {
            lemma_draws_prefix(s, k, k);
            assert(draws(s, m).subrange(0, n as int) =~= draws(s, m));
        }
    } else {
        assert(draws(s, m).subrange(0, n as int) =~= draws(s, n));
    }
}

/// Same seed, same sequence: after seeding with `seed`, the first `m` draws
/// are fixed by `seed` alone, and the value at position `n` is `draw_at(seeded(seed), n)`
/// however many values are drawn in all. That value is what `next` returns
/// when called on a generator made by `Rand::new(seed)` that has already
/// been advanced `n` times.
pub proof fn lemma_same_seed_same_sequence(seed: u32, n: nat, m: nat)
    requires
        n < m,
    ensures
        draw_at(seeded(seed), n) == step(advance(seeded(seed), n)).3,
        draws(seeded(seed), m).len() == m,
        draws(seeded(seed), m)[n as int] == draw_at(seeded(seed), n),
        draws(seeded(seed), m).subrange(0, n as int) == draws(seeded(seed), n),
{
    let s = seeded(seed);
    lemma_draws_prefix(s, n, m);
    lemma_draws_prefix(s, n + 1, m);
    assert(draws(s, m)[n as int] == draws(s, m).subrange(0, (n + 1) as int)[n as int]);
}

} // verus!
