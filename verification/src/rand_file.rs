//! A small deterministic pseudo-random generator and the random file names
//! built from it.

use vstd::prelude::*;
use vstd::string::StringExecFns;
use crate::lexeme::push_char;

verus! {

/// The modulus of the generator.
pub const RAND_MODULUS: u128 = 2796203;

/// The multiplier of the generator.
pub const RAND_MULTIPLIER: u128 = 125;

/// One step of the generator.
pub open spec fn rand_step(state: u128) -> u128 {
    ((state * RAND_MULTIPLIER) % (RAND_MODULUS as int)) as u128
}

/// `n` steps of the generator.
pub open spec fn rand_iter(state: u128, n: nat) -> u128
    decreases n,
{
    if n == 0 {
        state % RAND_MODULUS
    } else {
        rand_step(rand_iter(state, (n - 1) as nat))
    }
}

/// The capital letter a generator state picks: `A` plus the state modulo 26.
pub open spec fn letter_of(state: u128) -> char {
    (('A' as u8) + (state % 26) as u8) as char
}

/// A multiplicative congruential pseudo-random generator.  Successive values
/// follow deterministically from the seed; the seed itself is taken from the
/// clock, so two generators made at different moments differ.
pub struct Rand {
    state: u128,
}

impl Rand {
    /// The current state, always below the modulus.
    pub closed spec fn state_spec(self) -> u128 {
        self.state
    }

    pub closed spec fn wf(self) -> bool {
        self.state < RAND_MODULUS
    }

    /// A generator seeded from the clock.  Reducing the seed modulo the
    /// modulus leaves every value the generator ever hands out unchanged.
    pub fn new() -> (r: Rand)
        ensures
            r.wf(),
    {
        Rand { state: millis_since_epoch() % RAND_MODULUS }
    }

    /// A generator with a fixed seed, for reproducible sequences.
    pub fn from_seed(seed: u128) -> (r: Rand)
        ensures
            r.wf(),
            r.state_spec() == rand_iter(seed, 0),
    {
        Rand { state: seed % RAND_MODULUS }
    }

    /// Advances the generator and returns the new state.
    pub fn next(&mut self) -> (r: u128)
        requires
            old(self).wf(),
        ensures
            final(self).wf(),
            r == rand_step(old(self).state_spec()),
            final(self).state_spec() == r,
    {
        self.state = (self.state * RAND_MULTIPLIER) % RAND_MODULUS;
        self.state
    }
}

/// Relies on `SystemTime::now` and `SystemTime::duration_since`: the
/// milliseconds since the Unix epoch, or 0 should the clock read earlier
/// than the epoch.  Nothing is promised of the value: it is the time.
#[verifier::external_body]
fn millis_since_epoch() -> u128 {
    match std::time::SystemTime::now().duration_since(std::time::SystemTime::UNIX_EPOCH) {
        Ok(duration) => duration.as_millis(),
        Err(_) => 0,
    }
}

/// Builds a name of eight random capital letters, each drawn from one step
/// of the generator.
pub fn make_random_filename(rand: &mut Rand) -> (r: String)
    requires
        old(rand).wf(),
    ensures
        final(rand).wf(),
        r@.len() == 8,
        forall|i: int| 0 <= i < 8 ==> #[trigger] r@[i] == letter_of(
            rand_iter(old(rand).state_spec(), (i + 1) as nat),
        ),
        final(rand).state_spec() == rand_iter(old(rand).state_spec(), 8),
{
    let mut result = String::new();
    let mut n: usize = 0;
    while n < 8
        invariant
            rand.wf(),
            0 <= n <= 8,
            result@.len() == n,
            rand.state_spec() == rand_iter(old(rand).state_spec(), n as nat),
            forall|i: int| 0 <= i < n ==> #[trigger] result@[i] == letter_of(
                rand_iter(old(rand).state_spec(), (i + 1) as nat),
            ),
        decreases 8 - n,
    {
        let value = rand.next();
        let letter_index: u8 = (value % 26) as u8;
        let letter: char = (65u8 + letter_index) as char;
        proof {
            assert(letter == letter_of(rand.state_spec()));
        }
        push_char(&mut result, letter);
        n = n + 1;
    }
    result
}

/// Builds a random file name with the given extension: eight random capital
/// letters, a dot, then the extension.
pub fn make_random_filename_with_extension(rand: &mut Rand, extension: &str) -> (r: String)
    requires
        old(rand).wf(),
    ensures
        final(rand).wf(),
        r@ == make_random_filename_spec(old(rand).state_spec()) + seq!['.'] + extension@,
        final(rand).state_spec() == rand_iter(old(rand).state_spec(), 8),
{
    let mut result = make_random_filename(rand);
    proof {
        assert(result@ =~= make_random_filename_spec(old(rand).state_spec()));
    }
    push_char(&mut result, '.');
    result.append(extension);
    proof {
        assert(result@ =~= make_random_filename_spec(old(rand).state_spec()) + seq!['.']
            + extension@);
    }
    result
}

/// The eight letters that `make_random_filename` draws from a given state.
pub open spec fn make_random_filename_spec(state: u128) -> Seq<char> {
    Seq::new(8, |i: int| letter_of(rand_iter(state, (i + 1) as nat)))
}

} // verus!
