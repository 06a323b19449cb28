use l2vpn::mac::{MacAddr, BROADCAST_VALUE, MAC_LEN};

#[test]
fn address_has_six_bytes() {
    assert_eq!(MAC_LEN, 6);
}

#[test]
fn address_is_spelled_most_significant_byte_first() {
    assert_eq!(
        MacAddr::from_octets([0x01, 0x02, 0x03, 0x04, 0x05, 0x06]),
        MacAddr { value: 0x0102_0304_0506 }
    );
    assert_eq!(MacAddr::from_octets([0, 0, 0, 0, 0, 1]), MacAddr { value: 1 });
    assert_eq!(MacAddr::from_octets([1, 0, 0, 0, 0, 0]), MacAddr { value: 0x0100_0000_0000 });
    assert_eq!(MacAddr::from_octets([0; 6]), MacAddr { value: 0 });
}

#[test]
fn what_six_bytes_spell_is_no_greater_than_broadcast() {
    assert_eq!(MacAddr::from_octets([0xff; 6]).value, BROADCAST_VALUE);
    for octets in [
        [0u8; 6],
        [0xff, 0, 0, 0, 0, 0],
        [0, 0, 0, 0, 0, 0xff],
        [0xff, 0xff, 0xff, 0xff, 0xff, 0xfe],
        [0x12, 0x34, 0x56, 0x78, 0x9a, 0xbc],
    ] {
        assert!(MacAddr::from_octets(octets).value <= BROADCAST_VALUE);
        assert!(MacAddr::read(&octets, 0).value <= BROADCAST_VALUE);
    }
    assert!(MacAddr::broadcast().value <= BROADCAST_VALUE);
}

#[test]
fn address_is_read_at_an_offset() {
    let bytes = [0x99, 0x10, 0x20, 0x30, 0x40, 0x50, 0x60, 0x77];
    assert_eq!(MacAddr::read(&bytes, 0), MacAddr { value: 0x9910_2030_4050 });
    assert_eq!(MacAddr::read(&bytes, 1), MacAddr { value: 0x1020_3040_5060 });
    assert_eq!(MacAddr::read(&bytes, 2), MacAddr { value: 0x2030_4050_6077 });
}

#[test]
fn octets_spell_the_address_back() {
    for octets in [
        [0u8; 6],
        [0xff; 6],
        [0x01, 0x02, 0x03, 0x04, 0x05, 0x06],
        [0xde, 0xad, 0xbe, 0xef, 0x00, 0x01],
        [0x80, 0x00, 0x00, 0x00, 0x00, 0x00],
        [0x00, 0x00, 0x00, 0x00, 0x00, 0x80],
    ] {
        assert_eq!(MacAddr::from_octets(octets).octets(), octets);
    }
    assert_eq!(
        MacAddr { value: 0x0a0b_0c0d_0e0f }.octets(),
        [0x0a, 0x0b, 0x0c, 0x0d, 0x0e, 0x0f]
    );
}

#[test]
fn broadcast_is_all_ones() {
    assert_eq!(BROADCAST_VALUE, 0xffff_ffff_ffff);
    assert_eq!(MacAddr::broadcast(), MacAddr::from_octets([0xff; 6]));
    assert!(MacAddr::broadcast().is_broadcast());
    assert!(MacAddr::from_octets([0xff; 6]).is_broadcast());
    assert!(!MacAddr::from_octets([0xff, 0xff, 0xff, 0xff, 0xff, 0xfe]).is_broadcast());
    assert!(!MacAddr::from_octets([0x7f, 0xff, 0xff, 0xff, 0xff, 0xff]).is_broadcast());
    assert!(!MacAddr::from_octets([0; 6]).is_broadcast());
}

#[test]
fn different_octets_give_different_addresses() {
    let base = [0x10u8, 0x20, 0x30, 0x40, 0x50, 0x60];
    for i in 0..6 {
        let mut other = base;
        other[i] ^= 0x01;
        assert_ne!(MacAddr::from_octets(base), MacAddr::from_octets(other));
    }
    assert_eq!(MacAddr::from_octets(base), MacAddr::from_octets(base));
}
