use vstd::prelude::*;
use crate::family::AddrFamily;

verus! {

/// A setting of a session, as the engine names it.
#[derive(Copy, Clone, Debug, PartialEq, Eq, Structural)]
pub enum PingOption {
    Timeout,
    Ttl,
    Af,
    Data,
    Source,
    Device,
    Qos,
}

impl PingOption {
    pub open spec fn spec_code(self) -> u32 {
        match self {
            PingOption::Timeout => 1,
            PingOption::Ttl => 2,
            PingOption::Af => 4,
            PingOption::Data => 8,
            PingOption::Source => 16,
            PingOption::Device => 32,
            PingOption::Qos => 64,
        }
    }

    /// The engine's numeric tag for this option.
    pub fn code(self) -> (r: u32)
        ensures
            r == self.spec_code(),
    {
        match self {
            PingOption::Timeout => 1,
            PingOption::Ttl => 2,
            PingOption::Af => 4,
            PingOption::Data => 8,
            PingOption::Source => 16,
            PingOption::Device => 32,
            PingOption::Qos => 64,
        }
    }
}

/// The last value the engine accepted for each option; `None` where none was
/// set and the engine's default applies. The timeout is the bit pattern of an
/// IEEE-754 double, in seconds.
#[derive(Copy, Clone, Debug, PartialEq, Eq, Structural)]
pub struct OptionSet {
    pub timeout_bits: Option<u64>,
    pub ttl: Option<i32>,
    pub family: Option<AddrFamily>,
    pub qos: Option<u8>,
}

impl OptionSet {
    pub open spec fn spec_unset() -> OptionSet {
        OptionSet { timeout_bits: None, ttl: None, family: None, qos: None }
    }

    pub open spec fn spec_with_timeout(self, v: u64) -> OptionSet {
        OptionSet { timeout_bits: Some(v), ..self }
    }

    pub open spec fn spec_with_ttl(self, v: i32) -> OptionSet {
        OptionSet { ttl: Some(v), ..self }
    }

    pub open spec fn spec_with_family(self, v: AddrFamily) -> OptionSet {
        OptionSet { family: Some(v), ..self }
    }

    pub open spec fn spec_with_qos(self, v: u8) -> OptionSet {
        OptionSet { qos: Some(v), ..self }
    }

    /// This set with the timeout replaced.
    #[verifier::when_used_as_spec(spec_with_timeout)]
    pub fn with_timeout(self, v: u64) -> (r: OptionSet)
        ensures
            r == self.spec_with_timeout(v),
    {
        OptionSet { timeout_bits: Some(v), ..self }
    }

    /// This set with the time-to-live replaced.
    #[verifier::when_used_as_spec(spec_with_ttl)]
    pub fn with_ttl(self, v: i32) -> (r: OptionSet)
        ensures
            r == self.spec_with_ttl(v),
    {
        OptionSet { ttl: Some(v), ..self }
    }

    /// This set with the address family replaced.
    #[verifier::when_used_as_spec(spec_with_family)]
    pub fn with_family(self, v: AddrFamily) -> (r: OptionSet)
        ensures
            r == self.spec_with_family(v),
    {
        OptionSet { family: Some(v), ..self }
    }

    /// This set with the QoS byte replaced.
    #[verifier::when_used_as_spec(spec_with_qos)]
    pub fn with_qos(self, v: u8) -> (r: OptionSet)
        ensures
            r == self.spec_with_qos(v),
    {
        OptionSet { qos: Some(v), ..self }
    }

    /// No option set.
    #[verifier::when_used_as_spec(spec_unset)]
    pub fn unset() -> (r: OptionSet)
        ensures
            r == Self::spec_unset(),
    {
        OptionSet { timeout_bits: None, ttl: None, family: None, qos: None }
    }
}

} // verus!
