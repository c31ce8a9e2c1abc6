//! The circular functions.
//!
//! Sine, cosine and inverse sine have no definition in the real arithmetic
//! that the proofs reason in. The geometry therefore takes them as a
//! [`Trig`]: a cosine, a sine, an inverse sine and the angle of a half turn.
//! Nothing is taken for granted of a `Trig`. A law that needs an identity of
//! the circular functions asks for it by name, and then holds of every
//! `Trig` that has it: of the circular functions themselves in particular.

use vstd::prelude::*;

verus! {

/// A cosine, a sine, an inverse sine, and the angle of a half turn.
pub struct Trig {
    pub cosine: spec_fn(real) -> real,
    pub sine: spec_fn(real) -> real,
    pub arcsine: spec_fn(real) -> real,
    pub half_turn: real,
}

impl Trig {
    /// The cosine of the angle `x`.
    pub open spec fn cos(self, x: real) -> real {
        (self.cosine)(x)
    }

    /// The sine of the angle `x`.
    pub open spec fn sin(self, x: real) -> real {
        (self.sine)(x)
    }

    /// The angle between minus a quarter turn and a quarter turn whose sine is `x`.
    pub open spec fn asin(self, x: real) -> real {
        (self.arcsine)(x)
    }

    /// The angle of a half turn.
    pub open spec fn pi(self) -> real {
        self.half_turn
    }

    /// The squares of cosine and sine add up to one.
    pub open spec fn pythagorean(self) -> bool {
        forall|x: real|
            #[trigger] self.cos(x) * self.cos(x) + self.sin(x) * self.sin(x) == 1 as real
    }

    /// The angle zero has the cosine one and the sine zero.
    pub open spec fn starts_at_zero(self) -> bool {
        self.cos(0 as real) == 1 as real && self.sin(0 as real) == 0 as real
    }

    /// The half turn has the cosine minus one and the sine zero.
    pub open spec fn turns_back(self) -> bool {
        self.cos(self.pi()) == -(1 as real) && self.sin(self.pi()) == 0 as real
    }

    /// Cosine and sine of an angle, from those of half the angle.
    pub open spec fn doubles(self) -> bool {
        forall|x: real|
            {
                let c = #[trigger] self.cos(x / (2 as real));
                let s = self.sin(x / (2 as real));
                self.cos(x) == c * c - s * s && self.sin(x) == (2 as real) * (s * c)
            }
    }

    /// Between minus a quarter turn and a quarter turn, the inverse sine
    /// gives back the angle of a sine.
    pub open spec fn inverts_sine(self) -> bool {
        forall|x: real|
            -(self.pi() / (2 as real)) <= x <= self.pi() / (2 as real) ==> self.asin(
                #[trigger] self.sin(x),
            ) == x
    }
}

} // verus!
