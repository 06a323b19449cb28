//! The switchport's duplex bridge between a TAP device and the switch.
//!
//! Two directions run side by side. One reads frames from the device, pads
//! those that are too short and sends them to the switch. The other receives
//! datagrams from the switch, discards runts and writes the rest to the
//! device. The caller reads, sends, receives and writes; the functions here
//! decide what is done with each frame and which outcomes are fatal.

use vstd::prelude::*;
use crate::frame::{
    is_runt, pad_if_undersized, padded, padded_len, runt_len, ETHER_MIN, ETHER_MTU, ETHER_PAD_MIN,
};

verus! {

/// A fault that ends a forwarding direction.
#[derive(Clone, Copy, Debug, PartialEq, Eq, Structural)]
pub enum BridgeError {
    /// A read from the device returned no bytes.
    DeviceEof,
    /// The socket took fewer or more bytes than the frame holds.
    ShortSend { submitted: usize, sent: usize },
    /// The device took fewer or more bytes than the datagram held.
    ShortWrite { received: usize, written: usize },
}

/// What is done with a datagram received from the switch.
#[derive(Clone, Copy, Debug, PartialEq, Eq, Structural)]
pub enum Inbound {
    /// The datagram is a runt: it is discarded and the direction goes on.
    Discard,
    /// The datagram is written to the device, whole and in one write.
    Deliver,
}

/// The frame that is sent to the switch when the device has handed
/// `bytes_read` bytes into `buffer`: the frame read, padded where it was too
/// short.
pub open spec fn outbound_frame(buffer: Seq<u8>, bytes_read: nat) -> Seq<u8> {
    padded(buffer, bytes_read).take(padded_len(bytes_read) as int)
}

/// What is done with a datagram of `len` bytes that the switch has sent.
pub open spec fn inbound_action(len: nat) -> Inbound {
    if runt_len(len) {
        Inbound::Discard
    } else {
        Inbound::Deliver
    }
}

/// Takes a read of `bytes_read` bytes from the device into `buffer`, and
/// returns the length of the frame to send to the switch, which then stands
/// at the start of `buffer`. A read of no bytes is fatal; a frame that is too
/// short is padded with zeros.
pub fn frame_from_device(buffer: &mut [u8; ETHER_MTU], bytes_read: usize) -> (frame_len: Result<
    usize,
    BridgeError,
>)
    ensures
        match frame_len {
            Ok(len) => bytes_read > 0 && len == padded_len(bytes_read as nat) && final(buffer)@
                == padded(old(buffer)@, bytes_read as nat) && final(buffer)@.take(len as int)
                == outbound_frame(old(buffer)@, bytes_read as nat),
            Err(e) => bytes_read == 0 && e == BridgeError::DeviceEof && final(buffer)@ == old(
                buffer,
            )@,
        },
{
    if bytes_read == 0 {
        return Err(BridgeError::DeviceEof);
    }
    Ok(pad_if_undersized(buffer, bytes_read))
}

/// Checks that the socket took the whole frame: a send of any other number
/// of bytes than the frame holds is fatal.
pub fn check_sent(frame_len: usize, bytes_sent: usize) -> (outcome: Result<(), BridgeError>)
    ensures
        match outcome {
            Ok(_) => bytes_sent == frame_len,
            Err(e) => bytes_sent != frame_len && e == (BridgeError::ShortSend {
                submitted: frame_len,
                sent: bytes_sent,
            }),
        },
{
    if bytes_sent != frame_len {
        Err(BridgeError::ShortSend { submitted: frame_len, sent: bytes_sent })
    } else {
        Ok(())
    }
}

/// Decides what is done with a datagram received from the switch: a runt is
/// discarded, any other frame is written to the device.
pub fn frame_from_switch(frame: &[u8]) -> (action: Inbound)
    ensures
        action == inbound_action(frame@.len()),
{
    if is_runt(frame) {
        Inbound::Discard
    } else {
        Inbound::Deliver
    }
}

/// Checks that the device took the whole frame: a write of any other number
/// of bytes than were received is fatal.
pub fn check_written(frame_len: usize, bytes_written: usize) -> (outcome: Result<(), BridgeError>)
    ensures
        match outcome {
            Ok(_) => bytes_written == frame_len,
            Err(e) => bytes_written != frame_len && e == (BridgeError::ShortWrite {
                received: frame_len,
                written: bytes_written,
            }),
        },
{
    if bytes_written != frame_len {
        Err(BridgeError::ShortWrite { received: frame_len, written: bytes_written })
    } else {
        Ok(())
    }
}

/// A frame of fewer bytes than the padding threshold leaves for the switch
/// with exactly that many bytes: those read, in their places, and zeros after
/// them.
pub proof fn lemma_short_frame_is_padded(buffer: Seq<u8>, bytes_read: nat)
    requires
        buffer.len() == ETHER_MTU,
        bytes_read < ETHER_PAD_MIN,
    ensures
        outbound_frame(buffer, bytes_read).len() == ETHER_PAD_MIN,
        forall|i: int| 0 <= i < bytes_read ==> outbound_frame(buffer, bytes_read)[i] == buffer[i],
        forall|i: int| bytes_read <= i < ETHER_PAD_MIN ==> outbound_frame(buffer, bytes_read)[i] == 0,
{
}

/// A frame that reaches the padding threshold leaves for the switch as it was
/// read.
pub proof fn lemma_long_frame_is_kept(buffer: Seq<u8>, bytes_read: nat)
    requires
        buffer.len() == ETHER_MTU,
        ETHER_PAD_MIN <= bytes_read <= ETHER_MTU,
    ensures
        outbound_frame(buffer, bytes_read) == buffer.take(bytes_read as int),
{
}

/// A datagram of fewer than 64 bytes is never written to the device, and its
/// arrival is no fault.
pub proof fn lemma_runt_is_discarded(len: nat)
    ensures
        len < ETHER_MIN <==> inbound_action(len) == Inbound::Discard,
{
}

} // verus!
