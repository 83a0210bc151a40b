//! Angles, held by their cosine and sine.

use vstd::prelude::*;

verus! {

/// The mathematical value of an [`Angle`]: cosine `cos / den` and sine
/// `sin / den`.
pub struct Turn {
    pub cos: int,
    pub sin: int,
    pub den: int,
}

impl Turn {
    /// The denominator is positive, and cosine and sine lie between -1 and 1.
    pub open spec fn wf(self) -> bool {
        &&& self.den > 0
        &&& -self.den <= self.cos <= self.den
        &&& -self.den <= self.sin <= self.den
    }

    /// Every field lies within `limit` of zero.
    pub open spec fn within(self, limit: int) -> bool {
        &&& -limit <= self.cos <= limit
        &&& -limit <= self.sin <= limit
        &&& -limit <= self.den <= limit
    }

    /// The angle whose cosine is 1 and whose sine is 0.
    pub open spec fn is_zero(self) -> bool {
        &&& self.den > 0
        &&& self.cos == self.den
        &&& self.sin == 0
    }
}

/// An angle, held as the fractions `cos / den` and `sin / den`.
///
/// The library never computes a cosine: whoever makes an `Angle` chooses the
/// fractions, and the nearer `cos² + sin²` is to `den²`, the nearer a turn by
/// it is to a rigid rotation.
#[derive(Clone, Copy, Debug, PartialEq, Eq, Structural)]
pub struct Angle {
    pub cos: i16,
    pub sin: i16,
    pub den: i16,
}

impl View for Angle {
    type V = Turn;

    open spec fn view(&self) -> Turn {
        Turn { cos: self.cos as int, sin: self.sin as int, den: self.den as int }
    }
}

impl Angle {
    /// The denominator is positive, and cosine and sine lie between -1 and 1.
    pub open spec fn wf(self) -> bool {
        self@.wf()
    }

    /// Whether the denominator is positive, and cosine and sine lie between -1
    /// and 1.
    pub fn is_wf(&self) -> (ok: bool)
        ensures
            ok == self.wf(),
    {
        self.den > 0 && -self.den <= self.cos && self.cos <= self.den && -self.den <= self.sin
            && self.sin <= self.den
    }

    /// The angle zero, as `1 / 1` and `0 / 1`.
    pub fn zero() -> (a: Angle)
        ensures
            a == (Angle { cos: 1, sin: 0, den: 1 }),
            a.wf(),
            a@.is_zero(),
    {
        Angle { cos: 1, sin: 0, den: 1 }
    }

    /// The angle with cosine `cos / den` and sine `sin / den`, where these are
    /// the fractions of an angle.
    pub fn new(cos: i16, sin: i16, den: i16) -> (a: Option<Angle>)
        ensures
            a == (if (Turn { cos: cos as int, sin: sin as int, den: den as int }).wf() {
                Some(Angle { cos, sin, den })
            } else {
                None
            }),
    {
        let a = Angle { cos, sin, den };
        if a.is_wf() {
            Some(a)
        } else {
            None
        }
    }
}

} // verus!
