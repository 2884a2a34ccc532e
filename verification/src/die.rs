//! The atomic unit of randomness: a die with a fixed face count and, after a
//! roll, a shortfall ("points") value. Rolling a die with `f` faces draws a
//! value uniformly from `{1..f}`; the die's points is `f` minus the rolled
//! value, so points lies in `[0, f-1]` and lower points is better.

use vstd::prelude::*;

use crate::rng::draw_below;

verus! {

/// The face counts a die may have. Six is the default face count; the
/// others mark the "distinguished" dice of the default composition.
#[derive(Clone, Copy, PartialEq, Eq, Structural)]
pub enum Faces {
    Six,
    Eight,
    Ten,
    Twelve,
}

/// The number of faces, as an integer.
pub open spec fn spec_faces_value(f: Faces) -> u8 {
    match f {
        Faces::Six => 6,
        Faces::Eight => 8,
        Faces::Ten => 10,
        Faces::Twelve => 12,
    }
}

impl Faces {
    /// The number of faces, as an integer.
    pub fn value(&self) -> (v: u8)
        ensures
            v == spec_faces_value(*self),
    {
        match self {
            Faces::Six => 6,
            Faces::Eight => 8,
            Faces::Ten => 10,
            Faces::Twelve => 12,
        }
    }
}

/// A die: a face count, fixed at creation, and the shortfall of its most
/// recent roll. A freshly created die carries its face count as points,
/// which any roll overwrites.
#[derive(Clone, Copy)]
pub struct Die {
    pub faces: Faces,
    pub points: u8,
}

/// A die's points never exceeds its face count: fresh dice carry exactly
/// the face count, and every roll leaves strictly less.
pub open spec fn die_wf(d: Die) -> bool {
    d.points <= spec_faces_value(d.faces)
}

/// A die whose points was set by a roll: strictly below the face count.
pub open spec fn die_rolled(d: Die) -> bool {
    d.points < spec_faces_value(d.faces)
}

impl Die {
    /// A fresh six-faced die.
    pub fn six() -> (d: Die)
        ensures
            d == (Die { faces: Faces::Six, points: 6u8 }),
    {
        Die { faces: Faces::Six, points: 6 }
    }

    /// A fresh eight-faced die.
    pub fn eight() -> (d: Die)
        ensures
            d == (Die { faces: Faces::Eight, points: 8u8 }),
    {
        Die { faces: Faces::Eight, points: 8 }
    }

    /// A fresh ten-faced die.
    pub fn ten() -> (d: Die)
        ensures
            d == (Die { faces: Faces::Ten, points: 10u8 }),
    {
        Die { faces: Faces::Ten, points: 10 }
    }

    /// A fresh twelve-faced die.
    pub fn twelve() -> (d: Die)
        ensures
            d == (Die { faces: Faces::Twelve, points: 12u8 }),
    {
        Die { faces: Faces::Twelve, points: 12 }
    }

    /// The same die with its points replaced.
    pub fn with_points(self, points: u8) -> (d: Die)
        ensures
            d == (Die { faces: self.faces, points }),
    {
        Die { faces: self.faces, points }
    }

    /// The shortfall of the most recent roll.
    pub fn points(&self) -> (p: u8)
        ensures
            p == self.points,
    {
        self.points
    }

    /// Roll the die: draw a fresh uniform value and keep the shortfall,
    /// discarding any prior points. The face count never changes.
    pub fn roll(&mut self, rng: &mut rand::rngs::SmallRng)
        ensures
            final(self).faces == old(self).faces,
            die_rolled(*final(self)),
    {
        let bound = self.faces.value();
        self.points = draw_below(rng, bound);
    }
}

/// Every die of the pool has points at most its face count.
pub open spec fn dice_wf(s: Seq<Die>) -> bool {
    forall|i: int| 0 <= i < s.len() ==> die_wf(#[trigger] s[i])
}

/// Every die of the pool carries the shortfall of a roll.
pub open spec fn dice_rolled(s: Seq<Die>) -> bool {
    forall|i: int| 0 <= i < s.len() ==> die_rolled(#[trigger] s[i])
}

} // verus!
