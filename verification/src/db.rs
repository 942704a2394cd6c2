//! Shared service state: the seeded random engine behind paste-identifier
//! generation, modeled so that every identifier is a function of the seed and
//! of how many draws came before it.

use crate::config::Config;
use crate::config::SocketSpec;
use vstd::prelude::*;
use vstd::string::StrSliceExecFns;
use vstd::string::StringExecFns;

verus! {

broadcast use vstd::string::group_string_axioms;

/// A paste identifier is this many characters long.
pub const UID_LENGTH: usize = 5;

/// The identifier alphabet has this many characters.
pub const ALPHABET_LEN: usize = 62;

/// The characters an identifier is drawn from, as a sequence.
pub open spec fn alphabet_view() -> Seq<char> {
    "ABCDEFGHIJKLMNOPQRSTUVWXYZabcdefghijklmnopqrstuvwxyz0123456789"@
}

/// A character belongs to the identifier alphabet.
pub open spec fn is_alphanum_char(c: char) -> bool {
    alphabet_view().contains(c)
}

/// The value of the `index`-th bounded draw made on an engine seeded with
/// `seed`, when every draw on that engine is bounded by the same limit.
/// Uninterpreted: the engine's arithmetic is the outside crate's business;
/// only determinism is relied on.
pub uninterp spec fn draw_of(seed: u64, index: nat) -> usize;

/// The external type behind identifier generation.
#[verifier::external_type_specification]
#[verifier::external_body]
pub struct ExWyrand(tinyrand::Wyrand);

/// A seeded pseudo-random engine together with a ghost account of how it was
/// seeded and how many bounded draws it has served.
pub struct Prng {
    engine: tinyrand::StdRand,
    seed: Ghost<u64>,
    draws: Ghost<nat>,
}

impl Prng {
    /// The seed this engine was created from.
    pub closed spec fn seed(self) -> u64 {
        self.seed@
    }

    /// How many bounded draws this engine has served so far.
    pub closed spec fn draws(self) -> nat {
        self.draws@
    }

    /// Relies on tinyrand's `Seeded::seed` for `StdRand` (the Wyrand engine):
    /// seeding is deterministic, so the initial engine state is a pure
    /// function of the seed.
    #[verifier::external_body]
    fn seeded_engine(seed: u64) -> tinyrand::StdRand {
        <tinyrand::StdRand as tinyrand::Seeded>::seed(seed)
    }

    pub fn new(seed: u64) -> (p: Prng)
        ensures
            p.seed() == seed,
            p.draws() == 0,
    {
        Prng { engine: Self::seeded_engine(seed), seed: Ghost(seed), draws: Ghost(0nat) }
    }

    /// Relies on tinyrand's `Rand::next_lim_u64` for `StdRand` (the Wyrand
    /// engine): the result is in `0..lim`, and it is a pure function of the
    /// engine state and the limit, the same on every machine. The state after
    /// seeding is a pure function of the seed and, as long as every draw uses
    /// one and the same limit, of the number of draws served; the `requires`
    /// pins that limit, so the ghost pair (seed, draws) determines the engine
    /// state wherever this is callable. A zero limit, on which the call
    /// panics, is excluded.
    #[verifier::external_body]
    fn draw_below(&mut self, lim: usize) -> (r: usize)
        requires
            lim == ALPHABET_LEN,
        ensures
            r < lim,
            r == draw_of(old(self).seed(), old(self).draws()),
            final(self).seed() == old(self).seed(),
            final(self).draws() == old(self).draws() + 1,
    {
        <tinyrand::StdRand as tinyrand::Rand>::next_lim_u64(&mut self.engine, lim as u64) as usize
    }
}

/// The identifier produced by an engine seeded with `seed` whose first
/// `start` draws have already been served.
pub open spec fn uid_of(seed: u64, start: nat) -> Seq<char> {
    Seq::new(UID_LENGTH as nat, |i: int| alphabet_view()[draw_of(seed, (start + i) as nat) as int])
}

/// The sequence of the first `n` identifiers a generator seeded with `seed`
/// produces, each consuming its five draws.
pub open spec fn uid_sequence(seed: u64, n: nat) -> Seq<Seq<char>>
    decreases n,
{
    if n == 0 {
        Seq::empty()
    } else {
        uid_sequence(seed, (n - 1) as nat).push(
            uid_of(seed, ((n - 1) * (UID_LENGTH as nat)) as nat),
        )
    }
}

/// Two generator instances seeded identically produce an identical sequence
/// of identifiers: each identifier is a function of the seed and its place
/// in the sequence alone.
pub proof fn lemma_identical_sequences(seed_a: u64, seed_b: u64, n: nat)
    requires
        seed_a == seed_b,
    ensures
        uid_sequence(seed_a, n) == uid_sequence(seed_b, n),
{
}

/// A generated identifier is never the sentinel: the two differ in length.
pub proof fn lemma_uid_not_sentinel(seed: u64, start: nat)
    ensures
        uid_of(seed, start) != crate::handlers::sentinel(),
{
    reveal_strlit("pwdtest");
    assert(crate::handlers::sentinel().len() == 7);
    assert(uid_of(seed, start).len() == 5);
}

/// The alphabet holds one character per possible draw.
pub proof fn lemma_alphabet_len()
    ensures
        alphabet_view().len() == ALPHABET_LEN,
{
    reveal_strlit("ABCDEFGHIJKLMNOPQRSTUVWXYZabcdefghijklmnopqrstuvwxyz0123456789");
}

proof fn lemma_alphabet_ascii()
    ensures
        vstd::utf8::is_ascii_chars(alphabet_view()),
{
    reveal_strlit("ABCDEFGHIJKLMNOPQRSTUVWXYZabcdefghijklmnopqrstuvwxyz0123456789");
}

/// The shared per-process state this library owns: the seeded generator an
/// identifier comes from, and the resolved listening socket.
pub struct Data {
    rand: Prng,
    socket: SocketSpec,
}

impl Data {
    /// The seed the generator was created from.
    pub closed spec fn seed(self) -> u64 {
        self.rand.seed()
    }

    /// How many bounded draws the generator has served.
    pub closed spec fn draws(self) -> nat {
        self.rand.draws()
    }

    /// The listening socket the service was configured with.
    pub closed spec fn socket_spec(self) -> SocketSpec {
        self.socket
    }

    pub fn from_config(config: &Config) -> (d: Data)
        ensures
            d.seed() == config.seed,
            d.draws() == 0,
            d.socket_spec() == config.socket,
    {
        Data { rand: Prng::new(config.seed), socket: config.socket }
    }

    pub fn get_socket(&self) -> (s: SocketSpec)
        ensures
            s == self.socket_spec(),
    {
        self.socket
    }

    /// Produce a fresh paste identifier: five characters drawn from the
    /// 62-character alphanumeric alphabet by the seeded generator. The result
    /// is a pure function of the seed and of how many draws came before, and
    /// exactly five draws are served.
    pub fn generate_uid(&mut self) -> (uid: String)
        ensures
            uid@ == uid_of(old(self).seed(), old(self).draws()),
            uid@.len() == UID_LENGTH,
            forall|i: int| 0 <= i < uid@.len() ==> is_alphanum_char(#[trigger] uid@[i]),
            final(self).seed() == old(self).seed(),
            final(self).draws() == old(self).draws() + UID_LENGTH,
            final(self).socket_spec() == old(self).socket_spec(),
    {
        let alphabet: &str = "ABCDEFGHIJKLMNOPQRSTUVWXYZabcdefghijklmnopqrstuvwxyz0123456789";
        proof {
            lemma_alphabet_len();
            lemma_alphabet_ascii();
        }
        let ghost seed = self.seed();
        let ghost start = self.draws();
        let ghost sock = self.socket_spec();
        let mut uid = String::new();
        let mut k: usize = 0;
        while k < UID_LENGTH
            invariant
                k <= UID_LENGTH,
                alphabet@ == alphabet_view(),
                alphabet.is_ascii(),
                alphabet@.len() == ALPHABET_LEN,
                self.seed() == seed,
                self.draws() == start + k,
                self.socket_spec() == sock,
                uid@.len() == k,
                forall|j: int| 0 <= j < k ==> uid@[j] == uid_of(seed, start)[j],
                forall|j: int| 0 <= j < k ==> is_alphanum_char(#[trigger] uid@[j]),
            decreases UID_LENGTH - k,
        {
            let d = self.rand.draw_below(ALPHABET_LEN);
            let piece = alphabet.substring_ascii(d, d + 1);
            assert(piece@ =~= seq![alphabet_view()[d as int]]);
            assert(is_alphanum_char(alphabet_view()[d as int]));
            uid.append(piece);
            assert(uid_of(seed, start)[k as int] == alphabet_view()[draw_of(
                seed,
                (start + k) as nat,
            ) as int]);
            k = k + 1;
        }
        proof {
            assert(uid@ =~= uid_of(seed, start));
        }
        uid
    }
}

} // verus!
