use rand::Rng;
use vstd::prelude::*;

verus! {

/// Number of bytes in a freshly filled buffer. Larger than common image row
/// lengths and not a multiple of them, so that any pattern left by the wrap
/// around falls on a diagonal rather than a column.
pub const BUCKET_SIZE: usize = 8533;

/// Relies on `rand::thread_rng` and `Rng::fill`: a buffer of `len` bytes,
/// each drawn at random. Nothing is known of the values.
#[verifier::external_body]
fn random_bytes(len: usize) -> (r: Vec<u8>)
    ensures
        r@.len() == len,
{
    let mut values = vec![0u8; len];
    rand::thread_rng().fill(&mut values[..]);
    values
}

/// The byte that a source in state `r` (its bytes and the position of the
/// next one) hands out next.
pub open spec fn next_byte(r: (Seq<u8>, nat)) -> u8 {
    r.0[r.1 as int]
}

/// The state of a source after it has handed out one byte.
pub open spec fn advance(r: (Seq<u8>, nat)) -> (Seq<u8>, nat) {
    (r.0, (r.1 + 1) % r.0.len())
}

/// A cheap source of random bits: a buffer of random bytes handed out in
/// turn, wrapping around at the end.
pub struct RollingRandom {
    values: Vec<u8>,
    index: usize,
}

impl View for RollingRandom {
    /// The bytes and the position of the next one.
    type V = (Seq<u8>, nat);

    closed spec fn view(&self) -> (Seq<u8>, nat) {
        (self.values@, self.index as nat)
    }
}

impl RollingRandom {
    #[verifier::type_invariant]
    spec fn inv(self) -> bool {
        self.index < self.values@.len()
    }

    /// The buffer is not empty and the position lies inside it.
    pub open spec fn wf(&self) -> bool {
        self@.1 < self@.0.len()
    }

    /// A buffer of `BUCKET_SIZE` random bytes, read from the start.
    pub fn new() -> (r: Self)
        ensures
            r.wf(),
            r@.0.len() == BUCKET_SIZE,
            r@.1 == 0,
    {
        let values = random_bytes(BUCKET_SIZE);
        RollingRandom { values, index: 0 }
    }

    /// A source that hands out the given bytes in turn, from the first; for
    /// reproducible runs. `None` when there are no bytes.
    pub fn from_bytes(values: Vec<u8>) -> (r: Option<Self>)
        ensures
            values@.len() == 0 <==> r is None,
            r matches Some(rr) ==> rr.wf() && rr@.0 == values@ && rr@.1 == 0,
    {
        if values.len() == 0 {
            None
        } else {
            Some(RollingRandom { values, index: 0 })
        }
    }

    /// The next byte, moving on by one and wrapping at the end.
    pub fn random_u8(&mut self) -> (r: u8)
        ensures
            final(self).wf(),
            r == next_byte(old(self)@),
            final(self)@ == advance(old(self)@),
    {
        proof {
            use_type_invariant(&*self);
        }
        let value = self.values[self.index];
        let len = self.values.len();
        if self.index >= len - 1 {
            self.index = 0;
            proof {
                vstd::arithmetic::div_mod::lemma_mod_self_0(len as int);
            }
        } else {
            self.index = self.index + 1;
            proof {
                vstd::arithmetic::div_mod::lemma_small_mod(self.index as nat, len as nat);
            }
        }
        proof {
            use_type_invariant(&*self);
        }
        value
    }

    /// Whether the next byte is even, moving on by one.
    pub fn random_bool(&mut self) -> (r: bool)
        ensures
            final(self).wf(),
            r == (next_byte(old(self)@) % 2 == 0),
            final(self)@ == advance(old(self)@),
    {
        self.random_u8() % 2 == 0
    }
}

} // verus!
