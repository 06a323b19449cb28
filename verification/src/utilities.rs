//! Text for the log: addresses and frame headers in readable form.

use vstd::prelude::*;
use vstd::string::*;
use crate::frame::{ether_type, ether_type_of, ETHER_HDR};
use crate::mac::MAC_LEN;

verus! {

/// The sixteen digits, in order of their value.
pub open spec fn digits() -> Seq<char> {
    seq!['0', '1', '2', '3', '4', '5', '6', '7', '8', '9', 'a', 'b', 'c', 'd', 'e', 'f']
}

/// A byte as two lower-case hexadecimal digits.
pub open spec fn hex_text(byte: u8) -> Seq<char> {
    seq![digits()[byte as int / 16], digits()[byte as int % 16]]
}

/// A number in decimal, without leading zeros.
pub open spec fn decimal_text(n: nat) -> Seq<char>
    decreases n,
{
    if n < 10 {
        seq![digits()[n as int]]
    } else {
        decimal_text(n / 10).push(digits()[(n % 10) as int])
    }
}

/// Bytes as pairs of hexadecimal digits with a colon between each two pairs.
pub open spec fn colon_hex_text(bytes: Seq<u8>) -> Seq<char>
    decreases bytes.len(),
{
    if bytes.len() == 0 {
        Seq::empty()
    } else if bytes.len() == 1 {
        hex_text(bytes[0])
    } else {
        colon_hex_text(bytes.drop_last()) + seq![':'] + hex_text(bytes.last())
    }
}

/// The text of a MAC address: its first six bytes, or all of them where
/// there are fewer, in hexadecimal with colons between.
pub open spec fn mac_text(mac: Seq<u8>) -> Seq<char> {
    if mac.len() <= MAC_LEN {
        colon_hex_text(mac)
    } else {
        colon_hex_text(mac.take(MAC_LEN as int))
    }
}

/// The log line of a frame: its destination address, its source address, its
/// EtherType and its length, the last two in decimal.
pub open spec fn frame_log_text(frame: Seq<u8>) -> Seq<char>
    recommends
        frame.len() >= ETHER_HDR,
{
    "dst_mac="@ + mac_text(frame.subrange(0, MAC_LEN as int)) + ", src_mac="@ + mac_text(
        frame.subrange(MAC_LEN as int, 2 * MAC_LEN),
    ) + ", type="@ + decimal_text(ether_type_of(frame)) + ", size="@ + decimal_text(frame.len())
}

/// The digit of value `d` as a string.
fn digit_str(d: u8) -> (s: &'static str)
    requires
        d < 16,
    ensures
        s@ == seq![digits()[d as int]],
{
    proof {
        reveal_strlit("0");
        reveal_strlit("1");
        reveal_strlit("2");
        reveal_strlit("3");
        reveal_strlit("4");
        reveal_strlit("5");
        reveal_strlit("6");
        reveal_strlit("7");
        reveal_strlit("8");
        reveal_strlit("9");
        reveal_strlit("a");
        reveal_strlit("b");
        reveal_strlit("c");
        reveal_strlit("d");
        reveal_strlit("e");
        reveal_strlit("f");
    }
    match d {
        0 => "0",
        1 => "1",
        2 => "2",
        3 => "3",
        4 => "4",
        5 => "5",
        6 => "6",
        7 => "7",
        8 => "8",
        9 => "9",
        10 => "a",
        11 => "b",
        12 => "c",
        13 => "d",
        14 => "e",
        _ => "f",
    }
}

/// Appends `byte` to `text` as two hexadecimal digits.
fn push_hex(text: &mut String, byte: u8)
    ensures
        final(text)@ == old(text)@ + hex_text(byte),
{
    text.append(digit_str(byte / 16));
    text.append(digit_str(byte % 16));
}

/// Appends `n` to `text` in decimal.
fn push_decimal(text: &mut String, n: usize)
    ensures
        final(text)@ == old(text)@ + decimal_text(n as nat),
    decreases n,
{
    if n >= 10 {
        push_decimal(text, n / 10);
    }
    text.append(digit_str((n % 10) as u8));
}

/// Appends the text of the MAC address `mac` to `text`.
fn push_mac(text: &mut String, mac: &[u8])
    ensures
        final(text)@ == old(text)@ + mac_text(mac@),
{
    let n: usize = if mac.len() < MAC_LEN {
        mac.len()
    } else {
        MAC_LEN
    };
    let mut i: usize = 0;
    while i < n
        invariant
            i <= n <= mac@.len(),
            text@ == old(text)@ + colon_hex_text(mac@.take(i as int)),
        decreases n - i,
    {
        if i > 0 {
            text.append(":");
        }
        push_hex(text, mac[i]);
        proof {
            reveal_strlit(":");
            assert(mac@.take(i + 1).drop_last() =~= mac@.take(i as int));
        }
        i += 1;
    }
    assert(mac@.len() <= MAC_LEN ==> mac@.take(n as int) =~= mac@);
}

/// Returns the text of the MAC address held in the first six bytes of `mac`:
/// each byte as two hexadecimal digits, with colons between the bytes. Of a
/// shorter slice all bytes are written.
pub fn mac_string(mac: &[u8]) -> (text: String)
    ensures
        text@ == mac_text(mac@),
{
    let mut text = String::new();
    push_mac(&mut text, mac);
    text
}

/// Returns the log line of `frame`, which names its destination address, its
/// source address, its EtherType and its length.
pub fn get_frame_log_msg(frame: &[u8]) -> (text: String)
    requires
        frame@.len() >= ETHER_HDR,
    ensures
        text@ == frame_log_text(frame@),
{
    let mut text = String::new();
    text.append("dst_mac=");
    push_mac(&mut text, &frame[0..MAC_LEN]);
    text.append(", src_mac=");
    push_mac(&mut text, &frame[MAC_LEN..2 * MAC_LEN]);
    text.append(", type=");
    push_decimal(&mut text, ether_type(frame) as usize);
    text.append(", size=");
    push_decimal(&mut text, frame.len());
    text
}

} // verus!
