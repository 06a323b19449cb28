//! Configuration of the TAP device: what is checked and prepared before the
//! operating system is asked for the device.

use vstd::prelude::*;
use vstd::string::*;
use vstd::utf8::is_ascii_chars;

verus! {

/// Size of the kernel's name field, in bytes. The field holds the name and
/// the zero byte that ends it, so a name is shorter than this.
pub const DEVICE_NAME_LIMIT: usize = 16;

/// The flags that ask for a TAP device, which carries Ethernet frames,
/// without a packet-information header before each frame.
pub const TAP_FLAGS: i16 = 0x1002;

/// The name of the device that a switchport uses.
pub const TAP_NAME: &'static str = "tap0";

/// Why a device could not be had.
#[derive(Clone, Copy, Debug, PartialEq, Eq, Structural)]
pub enum DeviceError {
    /// The name is not ASCII or does not fit the kernel's name field together
    /// with the zero byte that ends it. Nothing was asked of the operating
    /// system.
    InvalidDeviceName,
    /// The operating system refused to open the control node or to configure
    /// the device. Asking again does not help.
    DeviceConfigurationFailed,
}

/// What is handed to the kernel to configure a device: the name field, which
/// holds the name's bytes followed by at least one zero, and the flags.
#[derive(Clone, Copy, Debug)]
pub struct InterfaceRequest {
    pub name: [u8; DEVICE_NAME_LIMIT],
    pub flags: i16,
}

/// Whether `name` can name a device: it is ASCII and fits the kernel's name
/// field together with the zero byte that ends it.
pub open spec fn valid_device_name(name: Seq<char>) -> bool {
    is_ascii_chars(name) && name.len() < DEVICE_NAME_LIMIT
}

/// The name field for the device name `name`: its bytes, then zeros up to the
/// end of the field.
pub open spec fn name_field(name: Seq<char>) -> Seq<u8>
    recommends
        valid_device_name(name),
{
    Seq::new(
        DEVICE_NAME_LIMIT as nat,
        |i: int|
            if i < name.len() {
                name[i] as u8
            } else {
                0u8
            },
    )
}

/// The constant `IFNAMSIZ` of `nix::libc`, the size of the kernel's name
/// field. That it is 16 is read off the crate's source and believed here, not
/// proved.
#[verifier::external_body]
fn ifnamsiz() -> (limit: usize)
    ensures
        limit == DEVICE_NAME_LIMIT,
{
    nix::libc::IFNAMSIZ
}

/// The constant `IFF_TAP` of `nix::libc`, the flag that asks for a TAP
/// device. That it is 0x0002 is read off the crate's source and believed
/// here, not proved.
#[verifier::external_body]
fn iff_tap() -> (flag: i32)
    ensures
        flag == 0x0002,
{
    nix::libc::IFF_TAP
}

/// The constant `IFF_NO_PI` of `nix::libc`, the flag that asks for frames
/// without a packet-information header. That it is 0x1000 is read off the
/// crate's source and believed here, not proved.
#[verifier::external_body]
fn iff_no_pi() -> (flag: i32)
    ensures
        flag == 0x1000,
{
    nix::libc::IFF_NO_PI
}

/// Tells whether `name` can name a device.
pub fn is_valid_device_name(name: &str) -> (valid: bool)
    ensures
        valid == valid_device_name(name@),
{
    if !name.is_ascii() {
        return false;
    }
    proof {
        is_ascii_spec_bytes(name);
    }
    name.as_bytes().len() < ifnamsiz()
}

/// Prepares the request that configures the device `name` as a TAP device
/// without packet information. A name that is not valid is refused.
pub fn tap_request(name: &str) -> (request: Result<InterfaceRequest, DeviceError>)
    ensures
        match request {
            Ok(r) => {
                &&& valid_device_name(name@)
                &&& r.name@ == name_field(name@)
                &&& r.name@[DEVICE_NAME_LIMIT - 1] == 0
                &&& r.flags == TAP_FLAGS
            },
            Err(e) => !valid_device_name(name@) && e == DeviceError::InvalidDeviceName,
        },
{
    if !is_valid_device_name(name) {
        return Err(DeviceError::InvalidDeviceName);
    }
    proof {
        is_ascii_spec_bytes(name);
    }
    let bytes = name.as_bytes();
    let mut field = [0u8; DEVICE_NAME_LIMIT];
    let mut i: usize = 0;
    while i < bytes.len()
        invariant
            i <= bytes@.len() < DEVICE_NAME_LIMIT,
            forall|j: int|
                0 <= j < DEVICE_NAME_LIMIT ==> field@[j] == if j < i {
                    bytes@[j]
                } else {
                    0u8
                },
        decreases bytes.len() - i,
    {
        field[i] = bytes[i];
        i += 1;
    }
    let tap: i32 = iff_tap();
    let no_pi: i32 = iff_no_pi();
    assert(tap | no_pi == 0x1002) by (bit_vector)
        requires
            tap == 0x0002,
            no_pi == 0x1000,
    ;
    let flags: i16 = (tap | no_pi) as i16;
    Ok(InterfaceRequest { name: field, flags })
}

/// The switchport's own device name is valid: a request for it is never
/// refused.
pub proof fn lemma_tap_name_is_valid()
    ensures
        valid_device_name(TAP_NAME@),
{
    reveal_strlit("tap0");
}

} // verus!
