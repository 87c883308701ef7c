use vstd::prelude::*;

verus! {

/// The eight piece features, four mutually exclusive pairs. Each feature
/// occupies one bit of a piece's feature byte: `Tall` is bit 0, `Short`
/// bit 1, and so on up to `Solid` at bit 7.
#[derive(Debug, Clone, Copy, PartialEq, Eq, Structural)]
pub enum Feature {
    Tall,
    Short,
    Red,
    Blue,
    Square,
    Round,
    Hollow,
    Solid,
}

impl Feature {
    /// The single bit this feature occupies in a feature byte.
    pub open spec fn spec_mask(self) -> u8 {
        match self {
            Feature::Tall => 0b00000001,
            Feature::Short => 0b00000010,
            Feature::Red => 0b00000100,
            Feature::Blue => 0b00001000,
            Feature::Square => 0b00010000,
            Feature::Round => 0b00100000,
            Feature::Hollow => 0b01000000,
            Feature::Solid => 0b10000000,
        }
    }

    /// The feature's bit as a byte mask.
    #[verifier::when_used_as_spec(spec_mask)]
    pub fn mask(self) -> (r: u8)
        ensures
            r == self.spec_mask(),
    {
        match self {
            Feature::Tall => 0b00000001,
            Feature::Short => 0b00000010,
            Feature::Red => 0b00000100,
            Feature::Blue => 0b00001000,
            Feature::Square => 0b00010000,
            Feature::Round => 0b00100000,
            Feature::Hollow => 0b01000000,
            Feature::Solid => 0b10000000,
        }
    }
}

} // verus!
