//! The detector families that a packet header can name.

use vstd::prelude::*;

verus! {

/// The detector family carried in the `det_type` byte of a packet header.
#[derive(Clone, Copy, Debug, PartialEq, Eq, Structural)]
pub enum SlsDetectorType {
    Generic,
    Eiger,
    Gotthard,
    Jungfrau,
    ChipTestBoard,
    Moench,
    Mythen3,
    Gotthard2,
}

impl SlsDetectorType {
    /// The wire code of this family.
    pub open spec fn code(self) -> u8 {
        match self {
            SlsDetectorType::Generic => 0,
            SlsDetectorType::Eiger => 1,
            SlsDetectorType::Gotthard => 2,
            SlsDetectorType::Jungfrau => 3,
            SlsDetectorType::ChipTestBoard => 4,
            SlsDetectorType::Moench => 5,
            SlsDetectorType::Mythen3 => 6,
            SlsDetectorType::Gotthard2 => 7,
        }
    }

    /// The family that a wire code names, if it names one.
    pub open spec fn from_code(value: u8) -> Option<SlsDetectorType> {
        match value {
            0 => Some(SlsDetectorType::Generic),
            1 => Some(SlsDetectorType::Eiger),
            2 => Some(SlsDetectorType::Gotthard),
            3 => Some(SlsDetectorType::Jungfrau),
            4 => Some(SlsDetectorType::ChipTestBoard),
            5 => Some(SlsDetectorType::Moench),
            6 => Some(SlsDetectorType::Mythen3),
            7 => Some(SlsDetectorType::Gotthard2),
            _ => None,
        }
    }

    /// Returns the wire code of this family.
    pub fn to_u8(self) -> (code: u8)
        ensures
            code == self.code(),
    {
        match self {
            SlsDetectorType::Generic => 0,
            SlsDetectorType::Eiger => 1,
            SlsDetectorType::Gotthard => 2,
            SlsDetectorType::Jungfrau => 3,
            SlsDetectorType::ChipTestBoard => 4,
            SlsDetectorType::Moench => 5,
            SlsDetectorType::Mythen3 => 6,
            SlsDetectorType::Gotthard2 => 7,
        }
    }
}

impl TryFrom<u8> for SlsDetectorType {
    type Error = ();

    /// Reads a wire code: `Ok` with the family that has this code, `Err` when
    /// the code is above 7 and names none.
    fn try_from(value: u8) -> (result: Result<Self, ()>) {
        match value {
            0 => Ok(SlsDetectorType::Generic),
            1 => Ok(SlsDetectorType::Eiger),
            2 => Ok(SlsDetectorType::Gotthard),
            3 => Ok(SlsDetectorType::Jungfrau),
            4 => Ok(SlsDetectorType::ChipTestBoard),
            5 => Ok(SlsDetectorType::Moench),
            6 => Ok(SlsDetectorType::Mythen3),
            7 => Ok(SlsDetectorType::Gotthard2),
            _ => Err(()),
        }
    }
}

impl vstd::std_specs::convert::TryFromSpecImpl<u8> for SlsDetectorType {
    open spec fn obeys_try_from_spec() -> bool {
        true
    }

    open spec fn try_from_spec(value: u8) -> Result<Self, ()> {
        match SlsDetectorType::from_code(value) {
            Some(family) => Ok(family),
            None => Err(()),
        }
    }
}

/// A wire code names a family exactly when it is at most 7, and the family
/// read from a code has that code again.
pub proof fn lemma_detector_code_read(value: u8)
    ensures
        value <= 7 <==> SlsDetectorType::from_code(value) is Some,
        SlsDetectorType::from_code(value) matches Some(family) ==> family.code() == value,
{
}

/// Reading the code of a family gives that family back.
pub proof fn lemma_detector_code_round_trip(family: SlsDetectorType)
    ensures
        family.code() <= 7,
        SlsDetectorType::from_code(family.code()) == Some(family),
{
}

} // verus!
