use l2vpn::frame::ETHER_MTU;
use l2vpn::vport::{
    check_sent, check_written, frame_from_device, frame_from_switch, BridgeError, Inbound,
};

#[test]
fn forty_byte_frame_leaves_as_sixty_zero_padded_bytes() {
    let mut buffer = [0u8; ETHER_MTU];
    for (i, b) in buffer.iter_mut().enumerate() {
        *b = (i % 251) as u8 + 1;
    }
    let read = buffer;
    let frame_len = frame_from_device(&mut buffer, 40).unwrap();
    assert_eq!(frame_len, 60);
    let datagram = &buffer[..frame_len];
    assert_eq!(datagram.len(), 60);
    assert_eq!(&datagram[..40], &read[..40]);
    assert_eq!(&datagram[40..], &[0u8; 20]);
}

#[test]
fn every_short_read_is_padded_to_sixty() {
    for bytes_read in 1..60usize {
        let mut buffer = [0xeeu8; ETHER_MTU];
        assert_eq!(frame_from_device(&mut buffer, bytes_read), Ok(60));
        assert!(buffer[..bytes_read].iter().all(|b| *b == 0xee));
        assert!(buffer[bytes_read..60].iter().all(|b| *b == 0));
        assert!(buffer[60..].iter().all(|b| *b == 0xee));
    }
}

#[test]
fn long_enough_read_is_sent_as_it_is() {
    for bytes_read in [60usize, 64, 590, 1518] {
        let mut buffer = [0x11u8; ETHER_MTU];
        assert_eq!(frame_from_device(&mut buffer, bytes_read), Ok(bytes_read));
        assert!(buffer.iter().all(|b| *b == 0x11));
    }
}

#[test]
fn empty_read_is_fatal() {
    let mut buffer = [0x77u8; ETHER_MTU];
    assert_eq!(frame_from_device(&mut buffer, 0), Err(BridgeError::DeviceEof));
    assert!(buffer.iter().all(|b| *b == 0x77));
}

#[test]
fn whole_send_is_accepted() {
    assert_eq!(check_sent(60, 60), Ok(()));
    assert_eq!(check_sent(1518, 1518), Ok(()));
}

#[test]
fn short_send_is_fatal() {
    assert_eq!(check_sent(60, 59), Err(BridgeError::ShortSend { submitted: 60, sent: 59 }));
    assert_eq!(check_sent(100, 0), Err(BridgeError::ShortSend { submitted: 100, sent: 0 }));
    assert_eq!(check_sent(60, 61), Err(BridgeError::ShortSend { submitted: 60, sent: 61 }));
}

#[test]
fn runt_from_the_switch_is_discarded() {
    assert_eq!(frame_from_switch(&[]), Inbound::Discard);
    assert_eq!(frame_from_switch(&[0u8; 12]), Inbound::Discard);
    assert_eq!(frame_from_switch(&[0u8; 60]), Inbound::Discard);
    assert_eq!(frame_from_switch(&[0u8; 63]), Inbound::Discard);
}

#[test]
fn full_frame_from_the_switch_is_delivered() {
    assert_eq!(frame_from_switch(&[0u8; 64]), Inbound::Deliver);
    assert_eq!(frame_from_switch(&[0u8; 65]), Inbound::Deliver);
    assert_eq!(frame_from_switch(&[0u8; 1518]), Inbound::Deliver);
}

#[test]
fn whole_write_is_accepted() {
    assert_eq!(check_written(64, 64), Ok(()));
}

#[test]
fn short_write_is_fatal() {
    assert_eq!(
        check_written(64, 10),
        Err(BridgeError::ShortWrite { received: 64, written: 10 })
    );
    assert_eq!(
        check_written(64, 65),
        Err(BridgeError::ShortWrite { received: 64, written: 65 })
    );
}
