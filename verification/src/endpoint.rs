//! Transport endpoints: where a switchport is reached.

use vstd::prelude::*;

verus! {

/// A transport endpoint: an IPv4 address, held as the number that its four
/// bytes spell, and a UDP port.
#[derive(Clone, Copy, Debug, PartialEq, Eq, Hash, Structural)]
pub struct Endpoint {
    pub ip: u32,
    pub port: u16,
}

/// The address that the four bytes of `octets` spell, the first byte being
/// the most significant.
pub open spec fn ipv4_of(octets: Seq<u8>) -> u32
    recommends
        octets.len() == 4,
{
    (((octets[0] as int * 256 + octets[1] as int) * 256 + octets[2] as int) * 256
        + octets[3] as int) as u32
}

/// The four bytes that spell the address `ip`.
pub open spec fn ipv4_octets_of(ip: u32) -> Seq<u8> {
    let v: int = ip as int;
    seq![
        (v / 256 / 256 / 256 % 256) as u8,
        (v / 256 / 256 % 256) as u8,
        (v / 256 % 256) as u8,
        (v % 256) as u8,
    ]
}

impl Endpoint {
    /// The endpoint at the IPv4 address spelled by `octets` and at `port`.
    pub fn v4(octets: [u8; 4], port: u16) -> (endpoint: Endpoint)
        ensures
            endpoint.ip == ipv4_of(octets@),
            endpoint.port == port,
    {
        let a: u32 = octets[0] as u32;
        let b: u32 = octets[1] as u32;
        let c: u32 = octets[2] as u32;
        let d: u32 = octets[3] as u32;
        Endpoint { ip: ((a * 256 + b) * 256 + c) * 256 + d, port }
    }

    /// The four bytes that spell this endpoint's address.
    pub fn octets(&self) -> (octets: [u8; 4])
        ensures
            octets@ == ipv4_octets_of(self.ip),
    {
        let b3: u32 = self.ip;
        let b2: u32 = b3 / 256;
        let b1: u32 = b2 / 256;
        let b0: u32 = b1 / 256;
        [(b0 % 256) as u8, (b1 % 256) as u8, (b2 % 256) as u8, (b3 % 256) as u8]
    }
}

/// An address is the one that its four bytes spell.
pub proof fn lemma_ipv4_of_octets_of(ip: u32)
    ensures
        ipv4_of(ipv4_octets_of(ip)) == ip,
{
    let tail3: int = ip as int;
    let tail2: int = tail3 / 256;
    let tail1: int = tail2 / 256;
    let tail0: int = tail1 / 256;
    assert(tail0 < 256);
    assert(tail1 == tail0 % 256 * 256 + tail1 % 256);
    assert(tail2 == tail1 * 256 + tail2 % 256);
    assert(tail3 == tail2 * 256 + tail3 % 256);
}

/// Four bytes are the bytes of the address that they spell.
pub proof fn lemma_octets_of_ipv4_of(octets: Seq<u8>)
    requires
        octets.len() == 4,
    ensures
        ipv4_octets_of(ipv4_of(octets)) == octets,
{
    let head1: int = octets[0] as int;
    let head2: int = head1 * 256 + octets[1] as int;
    let head3: int = head2 * 256 + octets[2] as int;
    let v: int = ipv4_of(octets) as int;
    assert(v == head3 * 256 + octets[3] as int);
    assert(v / 256 == head3);
    assert(head3 / 256 == head2);
    assert(head2 / 256 == head1);
    assert(ipv4_octets_of(ipv4_of(octets)) =~= octets);
}

} // verus!
