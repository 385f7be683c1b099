use vstd::prelude::*;

verus! {

/// One magnetic moment of the lattice: `spin` is `+1` (up) or `-1` (down).
pub struct SpinAgent {
    pub spin: i8,
}

/// Relies on `rand::random::<bool>`: a fair coin from the thread-local
/// generator. Nothing is promised of which side comes up.
#[verifier::external_body]
pub(crate) fn random_bool() -> (r: bool) {
    rand::random::<bool>()
}

impl SpinAgent {
    /// A spin is well formed when it points up or down.
    pub open spec fn wf(&self) -> bool {
        self.spin == 1 || self.spin == -1
    }

    /// The spin that a coin toss gives: up for `true`, down for `false`.
    pub fn from_coin(up: bool) -> (r: Self)
        ensures
            r.spin == (if up {
                1i8
            } else {
                -1i8
            }),
            r.wf(),
    {
        SpinAgent { spin: if up { 1 } else { -1 } }
    }

    /// A spin pointing up or down, each with probability one half: the
    /// spin of a fair coin toss (see `from_coin`).
    pub fn new() -> (r: Self)
        ensures
            r.wf(),
    {
        SpinAgent::from_coin(random_bool())
    }

    /// Reverses the spin.
    pub fn flip(&mut self)
        requires
            old(self).spin > i8::MIN,
        ensures
            final(self).spin == -old(self).spin,
    {
        self.spin = -self.spin;
    }
}

} // verus!
