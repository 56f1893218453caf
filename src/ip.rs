//! Network addresses as plain octets.
use vstd::prelude::*;

verus! {

/// An IPv4 or IPv6 address, held as its octets in network order.
#[derive(Debug, Clone, Copy, PartialEq, Eq)]
pub enum IpAddress {
    V4([u8; 4]),
    V6([u8; 16]),
}

impl View for IpAddress {
    /// The octets; their number tells the family.
    type V = Seq<u8>;

    open spec fn view(&self) -> Seq<u8> {
        match *self {
            IpAddress::V4(a) => a@,
            IpAddress::V6(a) => a@,
        }
    }
}

/// Whether `b` is the octet string of an IPv4 or IPv6 address.
pub open spec fn is_address(b: Seq<u8>) -> bool {
    b.len() == 4 || b.len() == 16
}

/// The address-family number that prefixes an address of `n` octets.
pub open spec fn family_of_len(n: nat) -> u8 {
    if n == 4 {
        1
    } else {
        2
    }
}

impl IpAddress {
    pub proof fn lemma_view_is_address(&self)
        ensures
            is_address(self@),
    {
    }

    /// Number of octets: 4 or 16.
    pub fn octet_count(&self) -> (r: usize)
        ensures
            r == self@.len(),
            r == 4 || r == 16,
    {
        match self {
            IpAddress::V4(_) => 4,
            IpAddress::V6(_) => 16,
        }
    }

    /// The address-family number: 1 for IPv4, 2 for IPv6.
    pub fn family(&self) -> (r: u8)
        ensures
            r == family_of_len(self@.len()),
    {
        match self {
            IpAddress::V4(_) => 1,
            IpAddress::V6(_) => 2,
        }
    }

    /// Appends the octets.
    pub fn push_octets(&self, out: &mut Vec<u8>)
        ensures
            final(out)@ == old(out)@ + self@,
    {
        match self {
            IpAddress::V4(a) => crate::codec::push_all(out, a.as_slice()),
            IpAddress::V6(a) => crate::codec::push_all(out, a.as_slice()),
        }
    }

    /// The address whose octets are `b[at..at + n]`, for `n` of 4 or 16.
    pub fn from_octets(b: &[u8], at: usize, n: usize) -> (r: IpAddress)
        requires
            n == 4 || n == 16,
            at + n <= b@.len(),
        ensures
            r@ == b@.subrange(at as int, at + n),
    {
        let len = b.len();
        if n == 4 {
            let a: [u8; 4] = [b[at], b[at + 1], b[at + 2], b[at + 3]];
            assert(a@ =~= b@.subrange(at as int, at + n));
            IpAddress::V4(a)
        } else {
            let a: [u8; 16] = [
                b[at],
                b[at + 1],
                b[at + 2],
                b[at + 3],
                b[at + 4],
                b[at + 5],
                b[at + 6],
                b[at + 7],
                b[at + 8],
                b[at + 9],
                b[at + 10],
                b[at + 11],
                b[at + 12],
                b[at + 13],
                b[at + 14],
                b[at + 15],
            ];
            assert(a@ =~= b@.subrange(at as int, at + n));
            IpAddress::V6(a)
        }
    }
}

} // verus!
