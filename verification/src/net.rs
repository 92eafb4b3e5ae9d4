//! Ranges of Internet addresses.

use vstd::prelude::*;

verus! {

/// The addresses from `first` to `last`, of version 4 or of version 6, each as a
/// number.
#[derive(Debug, Clone, Copy, PartialEq, Eq, Structural)]
pub struct AddressRange {
    pub v6: bool,
    pub first: u128,
    pub last: u128,
}

impl AddressRange {
    /// Whether every address of `other` is one of this range.
    pub open spec fn covers(self, other: AddressRange) -> bool {
        self.v6 == other.v6 && self.first <= other.first && other.last <= self.last
    }

    /// Whether the range is a single address.
    pub open spec fn is_single(self) -> bool {
        self.first == self.last
    }

    /// Whether every address of `other` is one of this range.
    pub fn contains(&self, other: &AddressRange) -> (r: bool)
        ensures
            r == self.covers(*other),
    {
        self.v6 == other.v6 && self.first <= other.first && other.last <= self.last
    }
}

/// The range that `ipnet::IpNet` reads a text as: an address, a slash and the
/// length of the prefix.
pub uninterp spec fn network(text: Seq<char>) -> Option<AddressRange>;

/// `ipnet::IpNet::from_str`, and `network` and `broadcast` of what it reads: the
/// first and the last address of the network. The outcome depends on the text
/// alone, and the first address is never behind the last.
#[verifier::external_body]
pub(crate) fn parse_network(text: &str) -> (r: Option<AddressRange>)
    ensures
        r == network(text@),
        r matches Some(x) ==> x.first <= x.last,
{
    match text.parse::<ipnet::IpNet>().ok()? {
        ipnet::IpNet::V4(n) => Some(AddressRange {
            v6: false,
            first: u32::from(n.network()).into(),
            last: u32::from(n.broadcast()).into(),
        }),
        ipnet::IpNet::V6(n) => Some(AddressRange {
            v6: true,
            first: n.network().into(),
            last: n.broadcast().into(),
        }),
    }
}

/// The address that the standard library reads a text as.
pub uninterp spec fn address(text: Seq<char>) -> Option<AddressRange>;

/// `IpAddr::from_str` of the standard library, as the parameter of
/// `ipnet::IpNet::new` calls for it; the address is that of the network it makes.
/// The outcome depends on the text alone.
#[verifier::external_body]
pub(crate) fn parse_address(text: &str) -> (r: Option<AddressRange>)
    ensures
        r == address(text@),
        r matches Some(x) ==> x.is_single(),
{
    let (v6, addr): (bool, u128) = match ipnet::IpNet::new(text.parse().ok()?, 0).ok()? {
        ipnet::IpNet::V4(n) => (false, u32::from(n.addr()).into()),
        ipnet::IpNet::V6(n) => (true, n.addr().into()),
    };
    Some(AddressRange { v6, first: addr, last: addr })
}

} // verus!
