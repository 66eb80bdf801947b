//! Crypto-suite identifiers.

use vstd::prelude::*;

verus! {

/// A supported crypto suite.
#[allow(non_camel_case_types)]
#[derive(Debug, Clone, Copy, PartialEq, Eq, Structural)]
pub enum SuiteID {
    /// Classic X25519 / Ed25519 / ChaCha20-Poly1305.
    CLASSIC,
    /// Classic with an ML-KEM contribution to the handshake.
    PQ_HYBRID,
    /// Post-quantum handshake and sparse post-quantum ratchet.
    PQ_RATCHET,
}

/// The suite a number names.
pub open spec fn suite_of(id: u16) -> Option<SuiteID> {
    if id == 1 {
        Some(SuiteID::CLASSIC)
    } else if id == 2 {
        Some(SuiteID::PQ_HYBRID)
    } else if id == 3 {
        Some(SuiteID::PQ_RATCHET)
    } else {
        None
    }
}

impl SuiteID {
    /// The number of a suite on the wire.
    pub open spec fn number(self) -> u16 {
        match self {
            SuiteID::CLASSIC => 1,
            SuiteID::PQ_HYBRID => 2,
            SuiteID::PQ_RATCHET => 3,
        }
    }

    /// The name of a suite.
    pub open spec fn label(self) -> Seq<char> {
        match self {
            SuiteID::CLASSIC => "CLASSIC"@,
            SuiteID::PQ_HYBRID => "PQ_HYBRID"@,
            SuiteID::PQ_RATCHET => "PQ_RATCHET"@,
        }
    }

    /// The suite `id` names; an unsupported number comes back.
    pub fn new(id: u16) -> (r: Result<SuiteID, u16>)
        ensures
            r == (match suite_of(id) {
                Some(s) => Ok::<SuiteID, u16>(s),
                None => Err::<SuiteID, u16>(id),
            }),
    {
        match id {
            1 => Ok(SuiteID::CLASSIC),
            2 => Ok(SuiteID::PQ_HYBRID),
            3 => Ok(SuiteID::PQ_RATCHET),
            _ => Err(id),
        }
    }

    /// The suite of a number already known to name one.
    pub fn from_u16_unchecked(id: u16) -> (r: SuiteID)
        requires
            suite_of(id) is Some,
        ensures
            suite_of(id) == Some(r),
    {
        match id {
            1 => SuiteID::CLASSIC,
            2 => SuiteID::PQ_HYBRID,
            _ => SuiteID::PQ_RATCHET,
        }
    }

    /// Whether `id` names a suite.
    pub fn is_supported(id: u16) -> (r: bool)
        ensures
            r == suite_of(id) is Some,
    {
        id == 1 || id == 2 || id == 3
    }

    /// The number of a suite on the wire.
    pub fn as_u16(&self) -> (r: u16)
        ensures
            r == self.number(),
    {
        match self {
            SuiteID::CLASSIC => 1,
            SuiteID::PQ_HYBRID => 2,
            SuiteID::PQ_RATCHET => 3,
        }
    }

    /// The name of a suite.
    pub fn name(&self) -> (r: &'static str)
        ensures
            r@ == self.label(),
    {
        match self {
            SuiteID::CLASSIC => "CLASSIC",
            SuiteID::PQ_HYBRID => "PQ_HYBRID",
            SuiteID::PQ_RATCHET => "PQ_RATCHET",
        }
    }

    /// Whether this is the classic suite.
    pub fn is_classic(&self) -> (r: bool)
        ensures
            r == (self.number() == 1),
    {
        *self == SuiteID::CLASSIC
    }

    /// Whether this is the hybrid suite.
    pub fn is_pq_hybrid(&self) -> (r: bool)
        ensures
            r == (self.number() == 2),
    {
        *self == SuiteID::PQ_HYBRID
    }

    /// Whether this is the post-quantum ratchet suite.
    pub fn is_pq_ratchet(&self) -> (r: bool)
        ensures
            r == (self.number() == 3),
    {
        *self == SuiteID::PQ_RATCHET
    }
}

impl TryFrom<u16> for SuiteID {
    type Error = u16;

    fn try_from(id: u16) -> (r: Result<SuiteID, u16>) {
        SuiteID::new(id)
    }
}

impl vstd::std_specs::convert::TryFromSpecImpl<u16> for SuiteID {
    open spec fn obeys_try_from_spec() -> bool {
        true
    }

    open spec fn try_from_spec(id: u16) -> Result<SuiteID, u16> {
        match suite_of(id) {
            Some(s) => Ok(s),
            None => Err(id),
        }
    }
}

impl From<SuiteID> for u16 {
    fn from(suite: SuiteID) -> (r: u16) {
        suite.as_u16()
    }
}

impl vstd::std_specs::convert::FromSpecImpl<SuiteID> for u16 {
    open spec fn obeys_from_spec() -> bool {
        true
    }

    open spec fn from_spec(suite: SuiteID) -> u16 {
        suite.number()
    }
}

/// Exactly 1, 2 and 3 name a suite, and a suite's number names it again.
pub proof fn suites_are_numbered_one_to_three(id: u16)
    ensures
        suite_of(id) is Some <==> 1 <= id <= 3,
        suite_of(id) matches Some(s) ==> s.number() == id,
{
}

/// A suite and its number determine each other.
pub proof fn suite_numbers_round_trip(s: SuiteID)
    ensures
        suite_of(s.number()) == Some(s),
{
}

/// A suite is of exactly one kind: classic, hybrid or with a post-quantum ratchet.
pub proof fn a_suite_is_of_one_kind(s: SuiteID)
    ensures
        s.number() == 1 || s.number() == 2 || s.number() == 3,
        s.number() == 1 <==> s is CLASSIC,
        s.number() == 2 <==> s is PQ_HYBRID,
        s.number() == 3 <==> s is PQ_RATCHET,
{
}

} // verus!
