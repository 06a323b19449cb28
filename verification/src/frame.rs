//! Ethernet II frames as byte sequences: sizes, header fields, validity and
//! padding.
//!
//! A frame starts with the destination address and the source address, six
//! bytes each, and the EtherType, two bytes. The payload follows.

use vstd::prelude::*;
use crate::mac::{mac_of, MacAddr, MAC_LEN};

verus! {

/// Largest frame carried, in bytes.
pub const ETHER_MTU: usize = 1518;

/// Smallest valid frame on the wire, in bytes.
pub const ETHER_MIN: usize = 64;

/// Length of the header: destination address, source address and EtherType.
pub const ETHER_HDR: usize = 14;

/// Length of the frame check sequence that trails a frame on the wire.
pub const ETHER_FCS: usize = 4;

/// Smallest payload of a valid frame.
pub const ETHER_DATA_MIN: usize = ETHER_MIN - ETHER_HDR - ETHER_FCS;

/// Smallest frame, header and payload, that is sent without padding.
pub const ETHER_PAD_MIN: usize = ETHER_HDR + ETHER_DATA_MIN;

/// The destination address of a frame: its first six bytes.
pub open spec fn dst_mac_of(frame: Seq<u8>) -> MacAddr
    recommends
        frame.len() >= MAC_LEN,
{
    mac_of(frame.subrange(0, MAC_LEN as int))
}

/// The source address of a frame: its second six bytes.
pub open spec fn src_mac_of(frame: Seq<u8>) -> MacAddr
    recommends
        frame.len() >= 2 * MAC_LEN,
{
    mac_of(frame.subrange(MAC_LEN as int, 2 * MAC_LEN))
}

/// The EtherType of a frame: bytes 12 and 13, the first being the most
/// significant.
pub open spec fn ether_type_of(frame: Seq<u8>) -> nat
    recommends
        frame.len() >= ETHER_HDR,
{
    frame[12] as nat * 256 + frame[13] as nat
}

/// Whether a frame of `len` bytes is a runt: shorter than the smallest valid
/// frame.
pub open spec fn runt_len(len: nat) -> bool {
    len < ETHER_MIN
}

/// The length of a frame of `len` bytes once it has been padded.
pub open spec fn padded_len(len: nat) -> nat {
    if len < ETHER_PAD_MIN {
        ETHER_PAD_MIN as nat
    } else {
        len
    }
}

/// The content of a buffer whose first `len` bytes hold a frame, once the
/// frame has been padded: the bytes from `len` up to the padding threshold are
/// zero, every other byte is as it was.
pub open spec fn padded(buffer: Seq<u8>, len: nat) -> Seq<u8> {
    Seq::new(
        buffer.len(),
        |i: int|
            if len <= i < ETHER_PAD_MIN {
                0u8
            } else {
                buffer[i]
            },
    )
}

/// The destination address of `frame`.
pub fn dst_mac(frame: &[u8]) -> (mac: MacAddr)
    requires
        frame@.len() >= MAC_LEN,
    ensures
        mac == dst_mac_of(frame@),
        mac.valid(),
{
    MacAddr::read(frame, 0)
}

/// The source address of `frame`.
pub fn src_mac(frame: &[u8]) -> (mac: MacAddr)
    requires
        frame@.len() >= 2 * MAC_LEN,
    ensures
        mac == src_mac_of(frame@),
        mac.valid(),
{
    MacAddr::read(frame, MAC_LEN)
}

/// The EtherType of `frame`.
pub fn ether_type(frame: &[u8]) -> (ty: u16)
    requires
        frame@.len() >= ETHER_HDR,
    ensures
        ty == ether_type_of(frame@),
{
    let hi: u16 = frame[12] as u16;
    let lo: u16 = frame[13] as u16;
    assert(hi << 8 == hi * 256) by (bit_vector)
        requires
            hi < 256,
    ;
    (hi << 8) + lo
}

/// Tells whether `frame` is a runt: shorter than the smallest valid frame.
pub fn is_runt(frame: &[u8]) -> (runt: bool)
    ensures
        runt == runt_len(frame@.len()),
{
    frame.len() < ETHER_MIN
}

/// Pads the frame held in the first `length` bytes of `buffer` with zeros up
/// to the padding threshold, and returns the length of the frame afterwards.
/// A frame that is long enough is left as it is.
pub fn pad_if_undersized(buffer: &mut [u8; ETHER_MTU], length: usize) -> (padded_length: usize)
    ensures
        padded_length == padded_len(length as nat),
        final(buffer)@ == padded(old(buffer)@, length as nat),
{
    if length < ETHER_PAD_MIN {
        let mut i: usize = length;
        while i < ETHER_PAD_MIN
            invariant
                length <= i <= ETHER_PAD_MIN,
                forall|j: int|
                    0 <= j < ETHER_MTU ==> buffer@[j] == if length <= j < i {
                        0u8
                    } else {
                        old(buffer)@[j]
                    },
            decreases ETHER_PAD_MIN - i,
        {
            buffer[i] = 0;
            i += 1;
        }
        ETHER_PAD_MIN
    } else {
        length
    }
}

} // verus!
