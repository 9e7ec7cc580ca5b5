use vstd::prelude::*;

verus! {

/// Address family of a host or of the sockets a session opens.
#[derive(Copy, Clone, Debug, PartialEq, Eq, Structural)]
pub enum AddrFamily {
    IPV4,
    IPV6,
}

impl Default for AddrFamily {
    fn default() -> (r: AddrFamily)
        ensures
            r == AddrFamily::IPV4,
    {
        AddrFamily::IPV4
    }
}

/// The platform's numeric constants for the two address families, as the
/// engine reads and reports them.
#[derive(Copy, Clone, Debug, PartialEq, Eq, Structural)]
pub struct FamilyCodes {
    pub inet: i32,
    pub inet6: i32,
}

/// Relies on `libc::AF_INET` and `libc::AF_INET6`: two distinct constants on
/// every target that libc defines them for.
#[verifier::external_body]
fn platform_family_codes() -> (r: (i32, i32))
    ensures
        r.0 != r.1,
{
    (libc::AF_INET, libc::AF_INET6)
}

impl FamilyCodes {
    /// Both codes differ, so each family has a code of its own.
    pub open spec fn wf(&self) -> bool {
        self.inet != self.inet6
    }

    /// The family that a numeric code stands for. Only the IPv6 code reads as
    /// IPv6; every other value, known or not, reads as IPv4.
    pub open spec fn spec_family_of(&self, code: i32) -> AddrFamily {
        if code == self.inet6 {
            AddrFamily::IPV6
        } else {
            AddrFamily::IPV4
        }
    }

    pub open spec fn spec_code_of(&self, af: AddrFamily) -> i32 {
        match af {
            AddrFamily::IPV4 => self.inet,
            AddrFamily::IPV6 => self.inet6,
        }
    }

    /// The codes of the platform this library was built for.
    pub fn native() -> (r: FamilyCodes)
        ensures
            r.wf(),
    {
        let (inet, inet6) = platform_family_codes();
        FamilyCodes { inet, inet6 }
    }

    pub fn code_of(&self, af: AddrFamily) -> (r: i32)
        ensures
            r == self.spec_code_of(af),
    {
        match af {
            AddrFamily::IPV4 => self.inet,
            AddrFamily::IPV6 => self.inet6,
        }
    }

    pub fn family_of(&self, code: i32) -> (r: AddrFamily)
        ensures
            r == self.spec_family_of(code),
    {
        if code == self.inet6 {
            AddrFamily::IPV6
        } else {
            AddrFamily::IPV4
        }
    }

    /// Encoding a family and reading the code back gives the same family.
    pub proof fn lemma_code_round_trip(&self, af: AddrFamily)
        requires
            self.wf(),
        ensures
            self.spec_family_of(self.spec_code_of(af)) == af,
    {
    }
}

} // verus!
