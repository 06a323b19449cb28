//! The switch: MAC learning and the forwarding decision.
//!
//! The switch keeps one table, from the source address of each frame it has
//! seen to the endpoint that the frame came from. For every frame it first
//! learns, then decides: a frame for a known address goes to that address's
//! endpoint alone, a broadcast frame goes to every other known endpoint, and
//! any other frame is dropped.

use std::collections::HashMap;
use vstd::prelude::*;
use vstd::std_specs::hash::{spec_hash_map_iter, spec_values_iter};
use vstd::std_specs::iter::IteratorSpec;
use crate::endpoint::Endpoint;
use crate::frame::{dst_mac, dst_mac_of, src_mac, src_mac_of};
use crate::mac::{broadcast_mac, MacAddr, MAC_LEN};

verus! {

/// Where a frame is sent.
#[derive(Debug)]
pub enum Forwarding {
    /// To the one endpoint that the destination address was learned from.
    Unicast(Endpoint),
    /// To each of these endpoints once: a broadcast.
    Flood(Vec<Endpoint>),
    /// Nowhere: the destination is unknown.
    Drop,
}

/// What the switch did with one frame.
#[derive(Debug)]
pub struct Dispatch {
    /// Whether the frame changed the table.
    pub learned: bool,
    /// Where the frame is sent.
    pub forwarding: Forwarding,
}

/// The forwarding table: for each known address, the endpoint most recently
/// seen as the source of a frame that bore it.
pub struct MacTable {
    entries: HashMap<u64, Endpoint>,
}

/// The property that every forwarding table has: what it holds an endpoint
/// for is an address, and the broadcast address is not in it.
pub open spec fn table_valid(table: Map<MacAddr, Endpoint>) -> bool {
    &&& !table.contains_key(broadcast_mac())
    &&& forall|mac: MacAddr| table.contains_key(mac) ==> mac.valid()
}

/// Whether a frame from the address `src`, received from `source`, changes
/// the table: it does unless `src` is the broadcast address or the table
/// already holds `source` for it.
pub open spec fn learning_changes(
    table: Map<MacAddr, Endpoint>,
    src: MacAddr,
    source: Endpoint,
) -> bool {
    src != broadcast_mac() && !(table.contains_key(src) && table[src] == source)
}

/// The table after a frame from the address `src` was received from `source`.
pub open spec fn learned(table: Map<MacAddr, Endpoint>, src: MacAddr, source: Endpoint) -> Map<
    MacAddr,
    Endpoint,
> {
    if learning_changes(table, src, source) {
        table.insert(src, source)
    } else {
        table
    }
}

/// The endpoints that a broadcast frame from the address `src` is sent to:
/// every endpoint in the table but the one that the table holds for `src`.
pub open spec fn flood_targets(table: Map<MacAddr, Endpoint>, src: MacAddr) -> Set<Endpoint> {
    Set::new(
        |e: Endpoint| table.values().contains(e) && !(table.contains_key(src) && table[src] == e),
    )
}

/// Whether `forwarding` is what the table asks for a frame from the address
/// `src` to the address `dst`. The order in which a flood names its
/// endpoints is left open.
pub open spec fn forwards(
    table: Map<MacAddr, Endpoint>,
    src: MacAddr,
    dst: MacAddr,
    forwarding: Forwarding,
) -> bool {
    if table.contains_key(dst) {
        forwarding matches Forwarding::Unicast(e) && e == table[dst]
    } else if dst == broadcast_mac() {
        forwarding matches Forwarding::Flood(targets) && targets@.no_duplicates()
            && targets@.to_set() == flood_targets(table, src)
    } else {
        forwarding is Drop
    }
}

/// The endpoints that a frame is sent to, in the order of sending.
pub open spec fn destinations_of(forwarding: Forwarding) -> Seq<Endpoint> {
    match forwarding {
        Forwarding::Unicast(e) => seq![e],
        Forwarding::Flood(targets) => targets@,
        Forwarding::Drop => Seq::empty(),
    }
}

impl Forwarding {
    /// The endpoints that the frame is sent to, in the order of sending.
    pub fn into_destinations(self) -> (sends: Vec<Endpoint>)
        ensures
            sends@ == destinations_of(self),
    {
        match self {
            Forwarding::Unicast(e) => {
                let mut sends: Vec<Endpoint> = Vec::new();
                sends.push(e);
                sends
            },
            Forwarding::Flood(targets) => targets,
            Forwarding::Drop => Vec::new(),
        }
    }
}

impl View for MacTable {
    type V = Map<MacAddr, Endpoint>;

    closed spec fn view(&self) -> Map<MacAddr, Endpoint> {
        Map::new(
            |mac: MacAddr| self.entries@.contains_key(mac.value),
            |mac: MacAddr| self.entries@[mac.value],
        )
    }
}

/// Whether `targets` is the flood gathered from the endpoints `seen`: each of
/// them once, but for `own`.
spec fn gathered(seen: Seq<Endpoint>, own: Option<Endpoint>, targets: Seq<Endpoint>) -> bool {
    &&& targets.no_duplicates()
    &&& forall|e: Endpoint| targets.contains(e) <==> seen.contains(e) && own != Some(e)
}

/// The flood gathered from some endpoints and one more is the same flood, with
/// that endpoint at its end if it is neither `own` nor already there.
proof fn lemma_gathered_next(
    seen: Seq<Endpoint>,
    own: Option<Endpoint>,
    targets: Seq<Endpoint>,
    next: Endpoint,
)
    requires
        gathered(seen, own, targets),
    ensures
        own == Some(next) || targets.contains(next) ==> gathered(seen.push(next), own, targets),
        own != Some(next) && !targets.contains(next) ==> gathered(
            seen.push(next),
            own,
            targets.push(next),
        ),
{
    let more = seen.push(next);
    assert(more[seen.len() as int] == next);
    assert forall|e: Endpoint| more.contains(e) <==> seen.contains(e) || e == next by {
        if seen.contains(e) {
            let i = choose|i: int| 0 <= i < seen.len() && seen[i] == e;
            assert(more[i] == e);
        }
    }
    if own != Some(next) && !targets.contains(next) {
        let longer = targets.push(next);
        assert(longer[targets.len() as int] == next);
        assert forall|e: Endpoint| longer.contains(e) <==> targets.contains(e) || e == next by {
            if targets.contains(e) {
                let i = choose|i: int| 0 <= i < targets.len() && targets[i] == e;
                assert(longer[i] == e);
            }
        }
    }
}

/// Whether `e` occurs in `list`.
fn contains_endpoint(list: &Vec<Endpoint>, e: Endpoint) -> (found: bool)
    ensures
        found == list@.contains(e),
{
    let mut i: usize = 0;
    while i < list.len()
        invariant
            i <= list.len(),
            forall|j: int| 0 <= j < i ==> list@[j] != e,
        decreases list.len() - i,
    {
        if list[i] == e {
            return true;
        }
        i += 1;
    }
    false
}

impl MacTable {
    /// The endpoints held in the table are those held in its map.
    proof fn lemma_values(&self)
        ensures
            self@.values() == self.entries@.values(),
    {
        assert forall|e: Endpoint| self.entries@.values().contains(e) implies self@.values().contains(
            e,
        ) by {
            let value = choose|value: u64|
                self.entries@.contains_key(value) && self.entries@[value] == e;
            assert(self@.contains_key(MacAddr { value }));
        }
        assert(self@.values() =~= self.entries@.values());
    }

    /// An empty table.
    pub fn new() -> (table: MacTable)
        ensures
            table@ == Map::<MacAddr, Endpoint>::empty(),
    {
        MacTable { entries: HashMap::new() }
    }

    /// The table holds as many addresses as its map holds keys.
    proof fn lemma_dom_len(&self)
        requires
            self.entries@.dom().finite(),
        ensures
            self@.dom().finite(),
            self@.dom().len() == self.entries@.dom().len(),
    {
        let wrap = |value: u64| MacAddr { value };
        assert forall|mac: MacAddr| self@.dom().contains(mac) implies self.entries@.dom().map(
            wrap,
        ).contains(mac) by {
            assert(wrap(mac.value) == mac);
        }
        assert(self.entries@.dom().map(wrap) =~= self@.dom());
        vstd::set_lib::lemma_map_size(self.entries@.dom(), self@.dom(), wrap);
    }

    /// The number of addresses that the table holds.
    pub fn len(&self) -> (n: usize)
        ensures
            self@.dom().finite(),
            n == self@.dom().len(),
    {
        broadcast use vstd::std_specs::hash::group_hash_axioms;

        proof {
            self.lemma_dom_len();
        }
        self.entries.len()
    }

    /// What the table holds: each address with its endpoint, once, in no
    /// particular order.
    pub fn entries(&self) -> (list: Vec<(MacAddr, Endpoint)>)
        ensures
            list@.len() == self@.dom().len(),
            list@.no_duplicates(),
            forall|mac: MacAddr, e: Endpoint|
                list@.contains((mac, e)) <==> self@.contains_key(mac) && self@[mac] == e,
            table_valid(self@) ==> forall|i: int|
                0 <= i < list@.len() ==> (#[trigger] list@[i]).0.valid(),
    {
        broadcast use vstd::std_specs::hash::group_hash_axioms;

        let mut list: Vec<(MacAddr, Endpoint)> = Vec::new();
        let ghost all: Seq<(u64, Endpoint)> = spec_hash_map_iter(&self.entries).remaining().unref();
        let ghost mut idx: int = 0;
        for pair in it: self.entries.iter()
            invariant
                idx == it.index(),
                it.seq().unref() == all,
                it.seq().no_duplicates(),
                list@.len() == idx,
                forall|i: int|
                    0 <= i < idx ==> #[trigger] list@[i] == (MacAddr { value: all[i].0 }, all[i].1),
        {
            let (value, e) = pair;
            list.push((MacAddr { value: *value }, *e));
            proof {
                idx = idx + 1;
            }
        }
        proof {
            self.lemma_dom_len();
            assert forall|i: int, j: int| 0 <= i < j < list@.len() implies list@[i] != list@[j] by {
                assert(all[i] != all[j]);
            }
            assert forall|mac: MacAddr, e: Endpoint|
                self@.contains_key(mac) && self@[mac] == e implies list@.contains((mac, e)) by {
                assert(all.to_set().contains((mac.value, e)));
                let i = choose|i: int| 0 <= i < all.len() && all[i] == (mac.value, e);
                assert(list@[i] == (mac, e));
            }
            assert forall|mac: MacAddr, e: Endpoint| list@.contains((mac, e)) implies self@.contains_key(
                mac,
            ) && self@[mac] == e by {
                let i = choose|i: int| 0 <= i < list@.len() && list@[i] == (mac, e);
                assert(all.to_set().contains(all[i]));
            }
        }
        list
    }

    /// The endpoint that the table holds for `mac`, if any.
    pub fn lookup(&self, mac: MacAddr) -> (endpoint: Option<Endpoint>)
        requires
            mac.valid(),
        ensures
            endpoint == if self@.contains_key(mac) {
                Some(self@[mac])
            } else {
                None
            },
    {
        broadcast use vstd::std_specs::hash::group_hash_axioms;

        match self.entries.get(&mac.value) {
            Some(e) => Some(*e),
            None => None,
        }
    }

    /// Learns from a frame that bore the source address `src` and came from
    /// `source`: records `source` for `src` unless the table holds it
    /// already, or `src` is the broadcast address. Returns whether the table
    /// changed.
    pub fn learn(&mut self, src: MacAddr, source: Endpoint) -> (changed: bool)
        requires
            src.valid(),
        ensures
            changed == learning_changes(old(self)@, src, source),
            final(self)@ == learned(old(self)@, src, source),
            table_valid(old(self)@) ==> table_valid(final(self)@),
    {
        broadcast use vstd::std_specs::hash::group_hash_axioms;

        if src.is_broadcast() || self.lookup(src) == Some(source) {
            return false;
        }
        self.entries.insert(src.value, source);
        true
    }

    /// Decides where a frame from the address `src` to the address `dst` is
    /// sent.
    pub fn forward(&self, src: MacAddr, dst: MacAddr) -> (forwarding: Forwarding)
        requires
            src.valid(),
            dst.valid(),
        ensures
            forwards(self@, src, dst, forwarding),
    {
        match self.lookup(dst) {
            Some(e) => Forwarding::Unicast(e),
            None => {
                if dst.is_broadcast() {
                    Forwarding::Flood(self.flood(src))
                } else {
                    Forwarding::Drop
                }
            },
        }
    }

    /// The endpoints that a broadcast frame from the address `src` is sent
    /// to, each once.
    fn flood(&self, src: MacAddr) -> (targets: Vec<Endpoint>)
        requires
            src.valid(),
        ensures
            targets@.no_duplicates(),
            targets@.to_set() == flood_targets(self@, src),
    {
        broadcast use vstd::std_specs::hash::group_hash_axioms;

        let own = self.lookup(src);
        let mut targets: Vec<Endpoint> = Vec::new();
        let ghost all: Seq<Endpoint> = spec_values_iter(&self.entries).remaining().unref();
        let ghost mut idx: int = 0;
        for e in it: self.entries.values()
            invariant
                idx == it.index(),
                it.seq().unref() == all,
                gathered(all.take(idx), own, targets@),
        {
            proof {
                lemma_gathered_next(all.take(idx), own, targets@, *e);
                assert(all.take(idx + 1) =~= all.take(idx).push(*e));
                idx = idx + 1;
            }
            if own != Some(*e) && !contains_endpoint(&targets, *e) {
                targets.push(*e);
            }
        }
        proof {
            self.lemma_values();
            assert(all.take(idx) =~= all);
        }
        targets
    }

    /// Handles one frame received from `source`: learns from its source
    /// address, then decides where it is sent by the table as it stands after
    /// learning.
    pub fn dispatch(&mut self, frame: &[u8], source: Endpoint) -> (done: Dispatch)
        requires
            frame@.len() >= 2 * MAC_LEN,
        ensures
            done.learned == learning_changes(old(self)@, src_mac_of(frame@), source),
            final(self)@ == learned(old(self)@, src_mac_of(frame@), source),
            table_valid(old(self)@) ==> table_valid(final(self)@),
            forwards(final(self)@, src_mac_of(frame@), dst_mac_of(frame@), done.forwarding),
    {
        let dst = dst_mac(frame);
        let src = src_mac(frame);
        let learned = self.learn(src, source);
        let forwarding = self.forward(src, dst);
        Dispatch { learned, forwarding }
    }
}

/// The table after `n` consecutive frames from the address `src` were
/// received from `source`.
pub open spec fn learned_repeatedly(
    table: Map<MacAddr, Endpoint>,
    src: MacAddr,
    source: Endpoint,
    n: nat,
) -> Map<MacAddr, Endpoint>
    decreases n,
{
    if n == 0 {
        table
    } else {
        learned(learned_repeatedly(table, src, source, (n - 1) as nat), src, source)
    }
}

/// How many of `n` consecutive frames from the address `src`, received from
/// `source`, change the table.
pub open spec fn changes_repeatedly(
    table: Map<MacAddr, Endpoint>,
    src: MacAddr,
    source: Endpoint,
    n: nat,
) -> nat
    decreases n,
{
    if n == 0 {
        0
    } else {
        let earlier: nat = (n - 1) as nat;
        changes_repeatedly(table, src, source, earlier) + if learning_changes(
            learned_repeatedly(table, src, source, earlier),
            src,
            source,
        ) {
            1nat
        } else {
            0nat
        }
    }
}

/// The table of a switch that has received the frames of `history` in order,
/// each given by its source address and the endpoint that it came from.
pub open spec fn table_after(history: Seq<(MacAddr, Endpoint)>) -> Map<MacAddr, Endpoint>
    decreases history.len(),
{
    if history.len() == 0 {
        Map::empty()
    } else {
        learned(table_after(history.drop_last()), history.last().0, history.last().1)
    }
}

/// Whether frame `i` of `history` is the last that bore the source address
/// `mac`.
pub open spec fn last_from(history: Seq<(MacAddr, Endpoint)>, mac: MacAddr, i: int) -> bool {
    &&& 0 <= i < history.len()
    &&& history[i].0 == mac
    &&& forall|j: int| i < j < history.len() ==> history[j].0 != mac
}

/// The latest source wins: whatever frames a switch has received, its table
/// holds exactly the source addresses seen, but for the broadcast address,
/// and for each of them the endpoint that the last frame from it came from.
pub proof fn lemma_latest_source_wins(history: Seq<(MacAddr, Endpoint)>, mac: MacAddr)
    requires
        forall|i: int| 0 <= i < history.len() ==> (#[trigger] history[i]).0.valid(),
    ensures
        table_valid(table_after(history)),
        table_after(history).contains_key(mac) <==> mac != broadcast_mac() && exists|i: int|
            last_from(history, mac, i),
        forall|i: int|
            mac != broadcast_mac() && last_from(history, mac, i) ==> table_after(history)[mac]
                == history[i].1,
    decreases history.len(),
{
    if history.len() > 0 {
        let earlier = history.drop_last();
        let last: int = history.len() - 1;
        lemma_latest_source_wins(earlier, mac);
        if history[last].0 == mac {
            assert(last_from(history, mac, last));
        } else {
            assert forall|i: int| last_from(history, mac, i) <==> last_from(earlier, mac, i) by {
                if last_from(earlier, mac, i) {
                    assert forall|j: int| i < j < history.len() implies history[j].0 != mac by {
                        if j < last {
                            assert(earlier[j] == history[j]);
                        }
                    }
                }
                if last_from(history, mac, i) {
                    assert forall|j: int| i < j < earlier.len() implies earlier[j].0 != mac by {
                        assert(earlier[j] == history[j]);
                    }
                }
            }
        }
    }
}

/// The broadcast address is never learned, nor anything that is no address:
/// a table that holds neither holds neither after any frame.
pub proof fn lemma_broadcast_never_learned(
    table: Map<MacAddr, Endpoint>,
    src: MacAddr,
    source: Endpoint,
)
    requires
        table_valid(table),
        src.valid(),
    ensures
        table_valid(learned(table, src, source)),
{
}

/// Learning is idempotent: once a frame from `src` was received from
/// `source`, a second one changes nothing.
pub proof fn lemma_learning_idempotent(
    table: Map<MacAddr, Endpoint>,
    src: MacAddr,
    source: Endpoint,
)
    ensures
        !learning_changes(learned(table, src, source), src, source),
        learned(learned(table, src, source), src, source) == learned(table, src, source),
{
}

/// Of `n` consecutive frames with the same source address and the same
/// endpoint only the first can change the table, and it does so exactly when
/// the table did not hold that endpoint for that address before. Every frame
/// after the first is a no-op.
pub proof fn lemma_repeated_learning(
    table: Map<MacAddr, Endpoint>,
    src: MacAddr,
    source: Endpoint,
    n: nat,
)
    requires
        n >= 1,
    ensures
        learned_repeatedly(table, src, source, n) == learned(table, src, source),
        !learning_changes(learned_repeatedly(table, src, source, n), src, source),
        changes_repeatedly(table, src, source, n) == if learning_changes(table, src, source) {
            1nat
        } else {
            0nat
        },
    decreases n,
{
    if n == 1 {
        assert(learned_repeatedly(table, src, source, 0) == table);
        assert(changes_repeatedly(table, src, source, 0) == 0);
    } else {
        lemma_repeated_learning(table, src, source, (n - 1) as nat);
    }
}

/// Learning overrides: a frame from an address that the table holds under
/// another endpoint changes the table, which holds the new endpoint for that
/// address afterwards and everything else as before.
pub proof fn lemma_learning_overrides(
    table: Map<MacAddr, Endpoint>,
    src: MacAddr,
    before: Endpoint,
    source: Endpoint,
)
    requires
        table_valid(table),
        table.contains_key(src),
        table[src] == before,
        source != before,
    ensures
        learning_changes(table, src, source),
        learned(table, src, source) == table.insert(src, source),
        learned(table, src, source)[src] == source,
{
}

/// A frame for an address that the table holds is sent to the endpoint held
/// for it and to no other.
pub proof fn lemma_unicast(
    table: Map<MacAddr, Endpoint>,
    src: MacAddr,
    dst: MacAddr,
    forwarding: Forwarding,
)
    requires
        table.contains_key(dst),
        forwards(table, src, dst, forwarding),
    ensures
        destinations_of(forwarding) == seq![table[dst]],
{
}

/// A broadcast frame is sent once to every endpoint in the table but the one
/// held for its source address, and to no other.
pub proof fn lemma_broadcast(
    table: Map<MacAddr, Endpoint>,
    src: MacAddr,
    forwarding: Forwarding,
)
    requires
        table_valid(table),
        table.contains_key(src),
        forwards(table, src, broadcast_mac(), forwarding),
    ensures
        destinations_of(forwarding).no_duplicates(),
        forall|e: Endpoint| #[trigger]
            destinations_of(forwarding).contains(e) <==> e != table[src] && exists|mac: MacAddr|
                table.contains_key(mac) && table[mac] == e,
{
    let sends = destinations_of(forwarding);
    assert forall|e: Endpoint| #[trigger] sends.contains(e) <==> e != table[src] && exists|
        mac: MacAddr,
    |
        table.contains_key(mac) && table[mac] == e by {
        assert(sends.contains(e) <==> sends.to_set().contains(e));
        assert(table.values().contains(e) <==> exists|mac: MacAddr|
            table.contains_key(mac) && table[mac] == e);
    }
}

/// A broadcast frame is never sent back to the endpoint that it came from.
pub proof fn lemma_no_echo(
    table: Map<MacAddr, Endpoint>,
    src: MacAddr,
    source: Endpoint,
    forwarding: Forwarding,
)
    requires
        table_valid(table),
        src.valid(),
        src != broadcast_mac(),
        forwards(learned(table, src, source), src, broadcast_mac(), forwarding),
    ensures
        !destinations_of(forwarding).contains(source),
{
    lemma_broadcast(learned(table, src, source), src, forwarding);
}

/// A frame for an address that the table does not hold, and that is not the
/// broadcast address, is sent nowhere.
pub proof fn lemma_unknown_unicast(
    table: Map<MacAddr, Endpoint>,
    src: MacAddr,
    dst: MacAddr,
    forwarding: Forwarding,
)
    requires
        !table.contains_key(dst),
        dst != broadcast_mac(),
        forwards(table, src, dst, forwarding),
    ensures
        destinations_of(forwarding) == Seq::<Endpoint>::empty(),
{
}

} // verus!
