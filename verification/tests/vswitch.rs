use l2vpn::mac::MacAddr;
use l2vpn::endpoint::Endpoint;
use l2vpn::vswitch::{Forwarding, MacTable};

const BROADCAST: [u8; 6] = [0xff; 6];
const MAC_A: [u8; 6] = [0xaa; 6];
const MAC_B: [u8; 6] = [0xbb; 6];
const MAC_C: [u8; 6] = [0xcc; 6];
const MAC_D: [u8; 6] = [0xdd; 6];

fn endpoint(last: u8, port: u16) -> Endpoint {
    Endpoint::v4([10, 0, 0, last], port)
}

fn frame(dst: [u8; 6], src: [u8; 6]) -> Vec<u8> {
    let mut bytes = vec![0u8; 64];
    bytes[0..6].copy_from_slice(&dst);
    bytes[6..12].copy_from_slice(&src);
    bytes[12] = 0x08;
    bytes
}

fn sorted(mut endpoints: Vec<Endpoint>) -> Vec<(u32, u16)> {
    let mut pairs: Vec<(u32, u16)> = endpoints.drain(..).map(|e| (e.ip, e.port)).collect();
    pairs.sort();
    pairs
}

fn table_abc() -> MacTable {
    let mut table = MacTable::new();
    assert!(table.learn(MacAddr::from_octets(MAC_A), endpoint(1, 9000)));
    assert!(table.learn(MacAddr::from_octets(MAC_B), endpoint(2, 9000)));
    assert!(table.learn(MacAddr::from_octets(MAC_C), endpoint(3, 9000)));
    table
}

#[test]
fn endpoint_holds_address_most_significant_byte_first() {
    assert_eq!(Endpoint::v4([10, 0, 0, 1], 9000), Endpoint { ip: 0x0a00_0001, port: 9000 });
    assert_eq!(Endpoint::v4([255, 255, 255, 255], 65535), Endpoint { ip: 0xffff_ffff, port: 65535 });
    assert_eq!(Endpoint::v4([1, 2, 3, 4], 0), Endpoint { ip: 0x0102_0304, port: 0 });
}

#[test]
fn endpoint_octets_spell_the_address_back() {
    assert_eq!(Endpoint::v4([192, 168, 1, 20], 5000).octets(), [192, 168, 1, 20]);
    assert_eq!(Endpoint::v4([0, 0, 0, 0], 1).octets(), [0, 0, 0, 0]);
    assert_eq!(Endpoint::v4([255, 254, 253, 252], 1).octets(), [255, 254, 253, 252]);
    assert_eq!(Endpoint { ip: 0x7f00_0001, port: 80 }.octets(), [127, 0, 0, 1]);
}

#[test]
fn new_table_is_empty() {
    let table = MacTable::new();
    assert_eq!(table.len(), 0);
    assert_eq!(table.lookup(MacAddr::from_octets(MAC_A)), None);
}

#[test]
fn first_broadcast_frame_is_learned_and_sent_nowhere() {
    let mut table = MacTable::new();
    let done = table.dispatch(&frame(BROADCAST, MAC_A), endpoint(1, 9000));
    assert!(done.learned);
    assert_eq!(table.len(), 1);
    assert_eq!(table.lookup(MacAddr::from_octets(MAC_A)), Some(endpoint(1, 9000)));
    assert!(matches!(done.forwarding, Forwarding::Flood(_)));
    assert_eq!(done.forwarding.into_destinations(), vec![]);
}

#[test]
fn same_pair_is_learned_once() {
    let mut table = MacTable::new();
    let mut changes = 0;
    for _ in 0..7 {
        let before = table.len();
        if table.learn(MacAddr::from_octets(MAC_A), endpoint(1, 9000)) {
            changes += 1;
        } else {
            assert_eq!(table.len(), before);
        }
        assert_eq!(table.lookup(MacAddr::from_octets(MAC_A)), Some(endpoint(1, 9000)));
    }
    assert_eq!(changes, 1);
    assert_eq!(table.len(), 1);
}

#[test]
fn same_frame_dispatched_again_learns_nothing() {
    let mut table = MacTable::new();
    assert!(table.dispatch(&frame(MAC_B, MAC_A), endpoint(1, 9000)).learned);
    for _ in 0..5 {
        assert!(!table.dispatch(&frame(MAC_B, MAC_A), endpoint(1, 9000)).learned);
    }
    assert_eq!(table.len(), 1);
}

#[test]
fn new_endpoint_overrides_the_old() {
    let mut table = MacTable::new();
    assert!(table.learn(MacAddr::from_octets(MAC_A), endpoint(1, 9000)));
    assert!(table.learn(MacAddr::from_octets(MAC_B), endpoint(2, 9000)));
    assert!(table.learn(MacAddr::from_octets(MAC_A), endpoint(7, 9000)));
    assert_eq!(table.lookup(MacAddr::from_octets(MAC_A)), Some(endpoint(7, 9000)));
    assert_eq!(table.lookup(MacAddr::from_octets(MAC_B)), Some(endpoint(2, 9000)));
    assert_eq!(table.len(), 2);
}

#[test]
fn change_of_port_alone_overrides() {
    let mut table = MacTable::new();
    assert!(table.learn(MacAddr::from_octets(MAC_A), endpoint(1, 9000)));
    assert!(table.learn(MacAddr::from_octets(MAC_A), endpoint(1, 9001)));
    assert_eq!(table.lookup(MacAddr::from_octets(MAC_A)), Some(endpoint(1, 9001)));
}

#[test]
fn broadcast_source_is_never_learned() {
    let mut table = MacTable::new();
    assert!(!table.learn(MacAddr::broadcast(), endpoint(1, 9000)));
    assert_eq!(table.len(), 0);
    let done = table.dispatch(&frame(MAC_A, BROADCAST), endpoint(1, 9000));
    assert!(!done.learned);
    assert_eq!(table.lookup(MacAddr::broadcast()), None);
    assert_eq!(table.len(), 0);
}

#[test]
fn known_destination_gets_the_frame_alone() {
    let mut table = MacTable::new();
    assert!(table.learn(MacAddr::from_octets(MAC_A), endpoint(1, 9000)));
    let done = table.dispatch(&frame(MAC_A, MAC_B), endpoint(2, 9000));
    assert!(matches!(done.forwarding, Forwarding::Unicast(e) if e == endpoint(1, 9000)));
    assert_eq!(done.forwarding.into_destinations(), vec![endpoint(1, 9000)]);
}

#[test]
fn unicast_is_decided_after_learning() {
    let mut table = MacTable::new();
    let done = table.dispatch(&frame(MAC_A, MAC_A), endpoint(1, 9000));
    assert!(done.learned);
    assert_eq!(done.forwarding.into_destinations(), vec![endpoint(1, 9000)]);
}

#[test]
fn broadcast_goes_to_every_other_endpoint() {
    let mut table = table_abc();
    let done = table.dispatch(&frame(BROADCAST, MAC_A), endpoint(1, 9000));
    assert!(!done.learned);
    assert!(matches!(done.forwarding, Forwarding::Flood(_)));
    assert_eq!(
        sorted(done.forwarding.into_destinations()),
        sorted(vec![endpoint(2, 9000), endpoint(3, 9000)])
    );
}

#[test]
fn broadcast_from_a_new_port_goes_to_all_known() {
    let mut table = table_abc();
    let done = table.dispatch(&frame(BROADCAST, MAC_D), endpoint(4, 9000));
    assert!(done.learned);
    assert_eq!(
        sorted(done.forwarding.into_destinations()),
        sorted(vec![endpoint(1, 9000), endpoint(2, 9000), endpoint(3, 9000)])
    );
}

#[test]
fn flood_names_each_endpoint_once() {
    let mut table = MacTable::new();
    assert!(table.learn(MacAddr::from_octets(MAC_A), endpoint(1, 9000)));
    assert!(table.learn(MacAddr::from_octets(MAC_B), endpoint(2, 9000)));
    assert!(table.learn(MacAddr::from_octets(MAC_C), endpoint(2, 9000)));
    let sends = table.forward(MacAddr::from_octets(MAC_A), MacAddr::broadcast()).into_destinations();
    assert_eq!(sends, vec![endpoint(2, 9000)]);
}

#[test]
fn flood_leaves_out_the_senders_endpoint_whatever_address_holds_it() {
    let mut table = MacTable::new();
    assert!(table.learn(MacAddr::from_octets(MAC_A), endpoint(1, 9000)));
    assert!(table.learn(MacAddr::from_octets(MAC_B), endpoint(1, 9000)));
    assert!(table.learn(MacAddr::from_octets(MAC_C), endpoint(3, 9000)));
    let sends = table.forward(MacAddr::from_octets(MAC_A), MacAddr::broadcast()).into_destinations();
    assert_eq!(sends, vec![endpoint(3, 9000)]);
}

#[test]
fn unknown_destination_is_dropped() {
    let mut table = table_abc();
    let done = table.dispatch(&frame(MAC_D, MAC_A), endpoint(1, 9000));
    assert!(matches!(done.forwarding, Forwarding::Drop));
    assert_eq!(done.forwarding.into_destinations(), vec![]);
}

#[test]
fn unknown_destination_is_dropped_by_an_empty_table() {
    let table = MacTable::new();
    let forwarding = table.forward(MacAddr::from_octets(MAC_A), MacAddr::from_octets(MAC_B));
    assert!(matches!(forwarding, Forwarding::Drop));
}

#[test]
fn frame_of_twelve_bytes_is_dispatched() {
    let mut table = MacTable::new();
    let mut bytes = vec![0u8; 12];
    bytes[..6].copy_from_slice(&MAC_B);
    bytes[6..].copy_from_slice(&MAC_A);
    let done = table.dispatch(&bytes, endpoint(1, 9000));
    assert!(done.learned);
    assert!(matches!(done.forwarding, Forwarding::Drop));
}

#[test]
fn addresses_that_differ_in_one_byte_are_kept_apart() {
    let mut table = MacTable::new();
    let near_a = [0xaa, 0xaa, 0xaa, 0xaa, 0xaa, 0xab];
    assert!(table.learn(MacAddr::from_octets(MAC_A), endpoint(1, 9000)));
    assert!(table.learn(MacAddr::from_octets(near_a), endpoint(2, 9000)));
    assert_eq!(table.lookup(MacAddr::from_octets(MAC_A)), Some(endpoint(1, 9000)));
    assert_eq!(table.lookup(MacAddr::from_octets(near_a)), Some(endpoint(2, 9000)));
    assert_eq!(table.len(), 2);
}

#[test]
fn entries_of_an_empty_table_are_none() {
    assert!(MacTable::new().entries().is_empty());
}

#[test]
fn entries_list_what_was_learned() {
    let table = table_abc();
    let mut entries: Vec<(u64, u32, u16)> =
        table.entries().iter().map(|(mac, e)| (mac.value, e.ip, e.port)).collect();
    entries.sort();
    assert_eq!(
        entries,
        vec![
            (0xaaaa_aaaa_aaaa, 0x0a00_0001, 9000),
            (0xbbbb_bbbb_bbbb, 0x0a00_0002, 9000),
            (0xcccc_cccc_cccc, 0x0a00_0003, 9000),
        ]
    );
}
