//! MAC addresses.

use vstd::prelude::*;

verus! {

/// Length of a MAC address, in bytes.
pub const MAC_LEN: usize = 6;

/// The number that the six bytes of the broadcast address spell.
pub const BROADCAST_VALUE: u64 = 0xffff_ffff_ffff;

/// A MAC address, held as the number that its six bytes spell, the first byte
/// being the most significant. Only a number of at most 48 bits is an
/// address: see [`MacAddr::valid`].
#[derive(Clone, Copy, Debug, PartialEq, Eq, Hash, Structural)]
pub struct MacAddr {
    pub value: u64,
}

/// The address that the six bytes of `bytes` spell.
pub open spec fn mac_of(bytes: Seq<u8>) -> MacAddr
    recommends
        bytes.len() == MAC_LEN,
{
    MacAddr {
        value: (((((bytes[0] as int * 256 + bytes[1] as int) * 256 + bytes[2] as int) * 256
            + bytes[3] as int) * 256 + bytes[4] as int) * 256 + bytes[5] as int) as u64,
    }
}

/// The six bytes that spell the address `mac`.
pub open spec fn octets_of(mac: MacAddr) -> Seq<u8> {
    let v: int = mac.value as int;
    seq![
        (v / 256 / 256 / 256 / 256 / 256 % 256) as u8,
        (v / 256 / 256 / 256 / 256 % 256) as u8,
        (v / 256 / 256 / 256 % 256) as u8,
        (v / 256 / 256 % 256) as u8,
        (v / 256 % 256) as u8,
        (v % 256) as u8,
    ]
}

/// The reserved address of all ones, to which broadcast frames are sent.
pub open spec fn broadcast_mac() -> MacAddr {
    MacAddr { value: BROADCAST_VALUE }
}

impl MacAddr {
    /// Whether this is an address: a number that six bytes can spell, which
    /// is one no greater than that of the broadcast address.
    pub open spec fn valid(self) -> bool {
        self.value <= BROADCAST_VALUE
    }

    /// The address spelled by the six bytes of `bytes` that start at `offset`.
    pub fn read(bytes: &[u8], offset: usize) -> (mac: MacAddr)
        requires
            offset + MAC_LEN <= bytes@.len(),
        ensures
            mac == mac_of(bytes@.subrange(offset as int, offset + MAC_LEN)),
            mac.valid(),
    {
        let b0: u64 = bytes[offset] as u64;
        let b1: u64 = bytes[offset + 1] as u64;
        let b2: u64 = bytes[offset + 2] as u64;
        let b3: u64 = bytes[offset + 3] as u64;
        let b4: u64 = bytes[offset + 4] as u64;
        let b5: u64 = bytes[offset + 5] as u64;
        MacAddr { value: ((((b0 * 256 + b1) * 256 + b2) * 256 + b3) * 256 + b4) * 256 + b5 }
    }

    /// The address spelled by six bytes.
    pub fn from_octets(octets: [u8; MAC_LEN]) -> (mac: MacAddr)
        ensures
            mac == mac_of(octets@),
            mac.valid(),
    {
        MacAddr::read(octets.as_slice(), 0)
    }

    /// The six bytes that spell this address.
    pub fn octets(&self) -> (octets: [u8; MAC_LEN])
        requires
            self.valid(),
        ensures
            octets@ == octets_of(*self),
            mac_of(octets@) == *self,
    {
        proof {
            lemma_mac_of_octets_of(*self);
        }
        let b5: u64 = self.value;
        let b4: u64 = b5 / 256;
        let b3: u64 = b4 / 256;
        let b2: u64 = b3 / 256;
        let b1: u64 = b2 / 256;
        let b0: u64 = b1 / 256;
        [
            (b0 % 256) as u8,
            (b1 % 256) as u8,
            (b2 % 256) as u8,
            (b3 % 256) as u8,
            (b4 % 256) as u8,
            (b5 % 256) as u8,
        ]
    }

    /// The broadcast address.
    pub fn broadcast() -> (mac: MacAddr)
        ensures
            mac == broadcast_mac(),
            mac.valid(),
    {
        MacAddr { value: BROADCAST_VALUE }
    }

    /// Whether this is the broadcast address.
    pub fn is_broadcast(&self) -> (yes: bool)
        requires
            self.valid(),
        ensures
            yes == (*self == broadcast_mac()),
    {
        self.value == BROADCAST_VALUE
    }
}

/// Six bytes are the bytes that spell the address they spell.
pub proof fn lemma_octets_of_mac_of(bytes: Seq<u8>)
    requires
        bytes.len() == MAC_LEN,
    ensures
        octets_of(mac_of(bytes)) == bytes,
{
    let head1: int = bytes[0] as int;
    let head2: int = head1 * 256 + bytes[1] as int;
    let head3: int = head2 * 256 + bytes[2] as int;
    let head4: int = head3 * 256 + bytes[3] as int;
    let head5: int = head4 * 256 + bytes[4] as int;
    let v: int = mac_of(bytes).value as int;
    assert(v == head5 * 256 + bytes[5] as int);
    assert(v / 256 == head5);
    assert(head5 / 256 == head4);
    assert(head4 / 256 == head3);
    assert(head3 / 256 == head2);
    assert(head2 / 256 == head1);
    assert(octets_of(mac_of(bytes)) =~= bytes);
}

/// An address is the one that its six bytes spell.
pub proof fn lemma_mac_of_octets_of(mac: MacAddr)
    requires
        mac.valid(),
    ensures
        mac_of(octets_of(mac)) == mac,
{
    let tail5: int = mac.value as int;
    let tail4: int = tail5 / 256;
    let tail3: int = tail4 / 256;
    let tail2: int = tail3 / 256;
    let tail1: int = tail2 / 256;
    let tail0: int = tail1 / 256;
    assert(tail0 < 256);
    assert(tail1 == tail0 % 256 * 256 + tail1 % 256);
    assert(tail2 == tail1 * 256 + tail2 % 256);
    assert(tail3 == tail2 * 256 + tail3 % 256);
    assert(tail4 == tail3 * 256 + tail4 % 256);
    assert(tail5 == tail4 * 256 + tail5 % 256);
}

/// What six bytes spell is an address.
pub proof fn lemma_mac_of_fits(bytes: Seq<u8>)
    requires
        bytes.len() == MAC_LEN,
    ensures
        mac_of(bytes).valid(),
{
}

/// Two addresses are equal only if they are spelled by the same six bytes.
pub proof fn lemma_mac_of_injective(a: Seq<u8>, b: Seq<u8>)
    requires
        a.len() == MAC_LEN,
        b.len() == MAC_LEN,
        mac_of(a) == mac_of(b),
    ensures
        a == b,
{
    lemma_octets_of_mac_of(a);
    lemma_octets_of_mac_of(b);
}

/// The broadcast address is the one spelled by six bytes of all ones.
pub proof fn lemma_broadcast_octets(bytes: Seq<u8>)
    requires
        bytes.len() == MAC_LEN,
    ensures
        mac_of(bytes) == broadcast_mac() <==> (forall|i: int| 0 <= i < MAC_LEN ==> bytes[i] == 0xff),
{
    let ones = seq![0xffu8, 0xffu8, 0xffu8, 0xffu8, 0xffu8, 0xffu8];
    assert(mac_of(ones) == broadcast_mac());
    if mac_of(bytes) == broadcast_mac() {
        lemma_mac_of_injective(bytes, ones);
    }
    if forall|i: int| 0 <= i < MAC_LEN ==> bytes[i] == 0xff {
        assert(bytes =~= ones);
    }
}

} // verus!
