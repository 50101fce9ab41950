//! The 128-bit XXH3 hash, as a hasher that is fed bytes piece by piece.

use vstd::prelude::*;
use xxhash_rust::xxh3::Xxh3;

verus! {

/// `xxhash_rust::xxh3::Xxh3`: the streaming state of the hash.
#[verifier::external_type_specification]
#[verifier::external_body]
pub struct ExXxh3(Xxh3);

/// The bytes that a state has been fed since it was made, in order.
pub uninterp spec fn xxh3_bytes(state: Xxh3) -> Seq<u8>;

/// Whether a state works with seed 0 and the default secret.
pub uninterp spec fn xxh3_plain(state: Xxh3) -> bool;

/// The 128-bit XXH3 digest (seed 0, default secret) of a byte string.
pub uninterp spec fn xxh3_128(bytes: Seq<u8>) -> u128;

/// `Xxh3::new` makes a state with seed 0 and the default secret that has been fed nothing.
pub assume_specification[ Xxh3::new ]() -> (state: Xxh3)
    ensures
        xxh3_plain(state),
        xxh3_bytes(state) == Seq::<u8>::empty(),
;

/// `Xxh3::update` feeds a state the bytes of its argument, after those it was fed before. Seed and
/// secret stay as they are.
pub assume_specification[ Xxh3::update ](state: &mut Xxh3, input: &[u8])
    ensures
        xxh3_bytes(*final(state)) == xxh3_bytes(*old(state)) + input@,
        xxh3_plain(*final(state)) == xxh3_plain(*old(state)),
;

/// `Xxh3::digest128` is the digest of all bytes fed so far, however they were cut into pieces. What
/// it is with another seed or secret is not said.
pub assume_specification[ Xxh3::digest128 ](state: &Xxh3) -> (digest: u128)
    ensures
        xxh3_plain(*state) ==> digest == xxh3_128(xxh3_bytes(*state)),
;

/// A hasher with seed 0 and the default secret.
pub struct Xxh3Hasher {
    state: Xxh3,
}

/// The bytes that a hasher has been fed since it was made, in order.
pub closed spec fn xxh3_fed(hasher: Xxh3Hasher) -> Seq<u8> {
    xxh3_bytes(hasher.state)
}

impl Xxh3Hasher {
    #[verifier::type_invariant]
    spec fn is_plain(self) -> bool {
        xxh3_plain(self.state)
    }

    /// A hasher that has been fed nothing.
    pub fn new() -> (r: Xxh3Hasher)
        ensures
            xxh3_fed(r) == Seq::<u8>::empty(),
    {
        Xxh3Hasher { state: Xxh3::new() }
    }

    /// Feeds bytes as they are.
    pub fn update(&mut self, bytes: &[u8])
        ensures
            xxh3_fed(*final(self)) == xxh3_fed(*old(self)) + bytes@,
    {
        proof {
            use_type_invariant(&*self);
        }
        let mut state: Xxh3 = Xxh3::new();
        std::mem::swap(&mut state, &mut self.state);
        state.update(bytes);
        self.state = state;
    }

    /// The digest of all bytes fed so far.
    pub fn digest128(&self) -> (r: u128)
        ensures
            r == xxh3_128(xxh3_fed(*self)),
    {
        proof {
            use_type_invariant(self);
        }
        self.state.digest128()
    }
}

} // verus!
