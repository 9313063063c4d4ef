//! The peer table and the discovery-service core: the state and the
//! decisions of the advertiser, listener and janitor loops, free of any
//! socket work.
//!
//! The table maps node identifiers to the most recently accepted
//! advertisement, last write wins. It never holds an entry for the local
//! node itself, and the janitor pass removes every entry whose timestamp has
//! fallen out of the staleness window.

use crate::advert::{
    parse_advertisement, serialize_advertisement, spec_parse_advertisement, spec_ser_adv, AdvView,
    NodeAdvertisement, NodeCapabilities, NodeStatus, NodeType,
};
use crate::NODE_TIMEOUT_SECS;
use vstd::pervasive::VecAdditionalExecFns;
use vstd::prelude::*;

verus! {

/// A timestamp still counts as fresh at `now` when it is younger than the
/// staleness window. A timestamp ahead of `now` is fresh.
pub open spec fn fresh_at(ts: u64, now: u64) -> bool {
    now - ts < NODE_TIMEOUT_SECS
}

/// The janitor's and listener's freshness test as a predicate on records.
pub open spec fn fresh_pred(now: u64) -> spec_fn(NodeAdvertisement) -> bool {
    |a: NodeAdvertisement| fresh_at(a.timestamp, now)
}

fn is_fresh(ts: u64, now: u64) -> (r: bool)
    ensures
        r == fresh_at(ts, now),
{
    if ts >= now {
        true
    } else {
        now - ts < NODE_TIMEOUT_SECS
    }
}

/// No two records of the sequence share a node identifier.
pub open spec fn ids_unique(s: Seq<NodeAdvertisement>) -> bool {
    forall|i: int, j: int| 0 <= i < j < s.len() ==> s[i].node_id@ != s[j].node_id@
}

/// Some record of the sequence carries this node identifier.
pub open spec fn seq_has_id(s: Seq<NodeAdvertisement>, id: Seq<char>) -> bool {
    exists|i: int| 0 <= i < s.len() && s[i].node_id@ == id
}

/// The position of the record carrying this identifier.
pub open spec fn seq_find(s: Seq<NodeAdvertisement>, id: Seq<char>) -> int {
    choose|i: int| 0 <= i < s.len() && s[i].node_id@ == id
}

/// The record carrying this identifier.
pub open spec fn seq_lookup(s: Seq<NodeAdvertisement>, id: Seq<char>) -> NodeAdvertisement {
    s[seq_find(s, id)]
}

/// With unique identifiers, the record found for `s[i]`'s identifier is
/// `s[i]` itself.
proof fn lemma_seq_lookup_at(s: Seq<NodeAdvertisement>, i: int)
    requires
        ids_unique(s),
        0 <= i < s.len(),
    ensures
        seq_has_id(s, s[i].node_id@),
        seq_find(s, s[i].node_id@) == i,
        seq_lookup(s, s[i].node_id@) == s[i],
{
    let id = s[i].node_id@;
    assert(seq_has_id(s, id));
    let j = seq_find(s, id);
    assert(0 <= j < s.len() && s[j].node_id@ == id);
    if i < j {
        assert(s[i].node_id@ != s[j].node_id@);
    } else if j < i {
        assert(s[j].node_id@ != s[i].node_id@);
    }
}

/// The table of peers heard from on the network, keyed by node identifier.
pub struct PeerTable {
    local_id: String,
    entries: Vec<NodeAdvertisement>,
}

impl PeerTable {
    /// The identifier of the node owning this table.
    pub closed spec fn local_id(&self) -> Seq<char> {
        self.local_id@
    }

    /// The records currently held, in insertion order.
    pub closed spec fn entries(&self) -> Seq<NodeAdvertisement> {
        self.entries@
    }

    /// Table invariant: identifiers are unique, and the local node's own
    /// identifier never appears.
    pub open spec fn wf(&self) -> bool {
        &&& ids_unique(self.entries())
        &&& forall|i: int|
            0 <= i < self.entries().len() ==> (#[trigger] self.entries()[i]).node_id@
                != self.local_id()
    }

    pub open spec fn has_id(&self, id: Seq<char>) -> bool {
        seq_has_id(self.entries(), id)
    }

    pub open spec fn lookup(&self, id: Seq<char>) -> NodeAdvertisement {
        seq_lookup(self.entries(), id)
    }

    pub fn new(local_id: String) -> (t: PeerTable)
        ensures
            t.wf(),
            t.local_id() == local_id@,
            t.entries() == Seq::<NodeAdvertisement>::empty(),
    {
        let t = PeerTable { local_id, entries: Vec::new() };
        assert(t.entries() =~= Seq::<NodeAdvertisement>::empty());
        t
    }

    fn find_index(&self, id: &String) -> (r: Option<usize>)
        ensures
            match r {
                Some(i) => i < self.entries().len() && self.entries()[i as int].node_id@ == id@,
                None => !self.has_id(id@),
            },
    {
        let n = self.entries.len();
        let mut i: usize = 0;
        while i < n
            invariant
                n == self.entries().len(),
                i <= n,
                forall|j: int| 0 <= j < i ==> (#[trigger] self.entries()[j]).node_id@ != id@,
            decreases n - i,
        {
            if self.entries[i].node_id == *id {
                return Some(i);
            }
            i += 1;
        }
        None
    }

    /// Whether the table currently holds a record under this identifier.
    pub fn contains_id(&self, id: &String) -> (r: bool)
        ensures
            r == self.has_id(id@),
    {
        match self.find_index(id) {
            Some(_) => true,
            None => false,
        }
    }

    /// How many peers the table currently holds.
    pub fn len(&self) -> (n: usize)
        ensures
            n == self.entries().len(),
    {
        self.entries.len()
    }

    /// The listener's decision on one received record: discard it when it
    /// claims to be the local node or its timestamp has already gone stale,
    /// otherwise upsert it, last write wins.
    pub fn record_advertisement(&mut self, adv: NodeAdvertisement, now: u64) -> (accepted: bool)
        requires
            old(self).wf(),
        ensures
            final(self).wf(),
            final(self).local_id() == old(self).local_id(),
            accepted == (adv.node_id@ != old(self).local_id() && fresh_at(adv.timestamp, now)),
            !accepted ==> *final(self) == *old(self),
            accepted ==> final(self).has_id(adv.node_id@) && final(self).lookup(adv.node_id@)
                == adv,
            accepted ==> forall|id: Seq<char>|
                id != adv.node_id@ ==> (#[trigger] final(self).has_id(id) == old(self).has_id(id)),
            accepted ==> forall|id: Seq<char>|
                id != adv.node_id@ && old(self).has_id(id) ==> #[trigger] final(self).lookup(id)
                    == old(self).lookup(id),
    {
        if adv.node_id == self.local_id {
            return false;
        }
        if !is_fresh(adv.timestamp, now) {
            return false;
        }
        let ghost oldseq = self.entries();
        match self.find_index(&adv.node_id) {
            Some(i) => {
                self.entries.set(i, adv);
                proof {
                    let newseq = self.entries();
                    assert(newseq == oldseq.update(i as int, adv));
                    assert(newseq[i as int] == adv);
                    assert forall|k: int| 0 <= k < newseq.len() implies (
                    #[trigger] newseq[k]).node_id@ == oldseq[k].node_id@ by {}
                    assert(ids_unique(newseq));
                    lemma_seq_lookup_at(newseq, i as int);
                    assert forall|id: Seq<char>| id != adv.node_id@ implies (#[trigger] self.has_id(
                        id,
                    ) == old(self).has_id(id)) by {
                        if seq_has_id(oldseq, id) {
                            let k = seq_find(oldseq, id);
                            assert(newseq[k].node_id@ == id);
                        }
                        if seq_has_id(newseq, id) {
                            let k = seq_find(newseq, id);
                            assert(oldseq[k].node_id@ == id);
                        }
                    }
                    assert forall|id: Seq<char>|
                        id != adv.node_id@ && old(self).has_id(id) implies #[trigger] self.lookup(
                        id,
                    ) == old(self).lookup(id) by {
                        let k = seq_find(oldseq, id);
                        assert(0 <= k < oldseq.len() && oldseq[k].node_id@ == id);
                        lemma_seq_lookup_at(oldseq, k);
                        assert(k != i);
                        assert(newseq[k] == oldseq[k]);
                        lemma_seq_lookup_at(newseq, k);
                    }
                }
                true
            },
            None => {
                self.entries.push(adv);
                proof {
                    let newseq = self.entries();
                    assert(newseq == oldseq.push(adv));
                    assert(newseq[newseq.len() - 1] == adv);
                    assert forall|k: int| 0 <= k < oldseq.len() implies #[trigger] newseq[k]
                        == oldseq[k] by {}
                    assert(ids_unique(newseq)) by {
                        assert forall|x: int, y: int|
                            0 <= x < y < newseq.len() implies newseq[x].node_id@
                            != newseq[y].node_id@ by {
                            if y == newseq.len() - 1 {
                                assert(!seq_has_id(oldseq, adv.node_id@));
                                assert(oldseq[x].node_id@ != adv.node_id@);
                            }
                        }
                    }
                    lemma_seq_lookup_at(newseq, newseq.len() - 1);
                    assert forall|id: Seq<char>| id != adv.node_id@ implies (#[trigger] self.has_id(
                        id,
                    ) == old(self).has_id(id)) by {
                        if seq_has_id(oldseq, id) {
                            let k = seq_find(oldseq, id);
                            assert(newseq[k].node_id@ == id);
                        }
                        if seq_has_id(newseq, id) {
                            let k = seq_find(newseq, id);
                            assert(0 <= k < newseq.len() && newseq[k].node_id@ == id);
                            assert(k != newseq.len() - 1);
                            assert(oldseq[k].node_id@ == id);
                        }
                    }
                    assert forall|id: Seq<char>|
                        id != adv.node_id@ && old(self).has_id(id) implies #[trigger] self.lookup(
                        id,
                    ) == old(self).lookup(id) by {
                        let k = seq_find(oldseq, id);
                        lemma_seq_lookup_at(oldseq, k);
                        assert(newseq[k] == oldseq[k]);
                        lemma_seq_lookup_at(newseq, k);
                    }
                }
                true
            },
        }
    }

    /// The janitor pass: keep exactly the entries whose timestamps are still
    /// inside the staleness window at `now`.
    pub fn remove_stale(&mut self, now: u64)
        requires
            old(self).wf(),
        ensures
            final(self).wf(),
            final(self).local_id() == old(self).local_id(),
            final(self).entries() == old(self).entries().filter(fresh_pred(now)),
            forall|i: int|
                0 <= i < final(self).entries().len() ==> fresh_at(
                    (#[trigger] final(self).entries()[i]).timestamp,
                    now,
                ),
            forall|i: int|
                0 <= i < old(self).entries().len() && fresh_at(
                    (#[trigger] old(self).entries()[i]).timestamp,
                    now,
                ) ==> final(self).entries().contains(old(self).entries()[i]),
    {
        let ghost pred = fresh_pred(now);
        let n = self.entries.len();
        let mut kept: Vec<NodeAdvertisement> = Vec::new();
        let mut i: usize = 0;
        proof {
            reveal(Seq::filter);
            assert(self.entries().take(0) =~= Seq::<NodeAdvertisement>::empty());
            assert(kept@ =~= self.entries().take(0).filter(pred));
        }
        while i < n
            invariant
                n == self.entries().len(),
                i <= n,
                kept@ == self.entries().take(i as int).filter(pred),
                pred == fresh_pred(now),
            decreases n - i,
        {
            let keep = is_fresh(self.entries[i].timestamp, now);
            let ghost prefix = self.entries().take(i as int);
            let ghost prefix1 = self.entries().take(i as int + 1);
            proof {
                reveal(Seq::filter);
                assert(prefix1.drop_last() =~= prefix);
                assert(prefix1.last() == self.entries()[i as int]);
            }
            if keep {
                let e = self.entries[i].clone();
                kept.push(e);
            }
            proof {
                reveal(Seq::filter);
                assert(kept@ == prefix1.filter(pred));
            }
            i += 1;
        }
        proof {
            assert(self.entries().take(n as int) =~= self.entries());
        }
        self.entries = kept;
        proof {
            let oldseq = old(self).entries();
            let newseq = self.entries();
            assert(newseq == oldseq.filter(pred));
            assert forall|k: int| 0 <= k < newseq.len() implies fresh_at(
                (#[trigger] newseq[k]).timestamp,
                now,
            ) by {
                oldseq.lemma_filter_pred(pred, k);
            }
            assert forall|k: int|
                0 <= k < oldseq.len() && fresh_at((#[trigger] oldseq[k]).timestamp, now) implies
            newseq.contains(oldseq[k]) by {
                oldseq.lemma_filter_contains(pred, k);
            }
            lemma_filter_keeps_unique(oldseq, pred);
            lemma_filter_from(oldseq, pred);
            assert forall|k: int| 0 <= k < newseq.len() implies (#[trigger] newseq[k]).node_id@
                != self.local_id() by {
                let j = choose|j: int| 0 <= j < oldseq.len() && oldseq[j] == newseq[k];
            }
        }
    }

    /// A snapshot of every record currently held.
    pub fn snapshot(&self) -> (r: Vec<NodeAdvertisement>)
        ensures
            r@ == self.entries(),
    {
        let n = self.entries.len();
        let mut out: Vec<NodeAdvertisement> = Vec::new();
        let mut i: usize = 0;
        while i < n
            invariant
                n == self.entries().len(),
                i <= n,
                out@ =~= self.entries().take(i as int),
            decreases n - i,
        {
            let e = self.entries[i].clone();
            out.push(e);
            proof {
                assert(out@ =~= self.entries().take(i as int + 1));
            }
            i += 1;
        }
        proof {
            assert(self.entries().take(n as int) =~= self.entries());
        }
        out
    }
}

/// Filtering keeps identifiers unique: every kept record already stood in
/// the original sequence.
proof fn lemma_filter_from(s: Seq<NodeAdvertisement>, pred: spec_fn(NodeAdvertisement) -> bool)
    ensures
        forall|k: int|
            0 <= k < s.filter(pred).len() ==> s.contains(#[trigger] s.filter(pred)[k]),
    decreases s.len(),
{
    reveal(Seq::filter);
    if s.len() > 0 {
        lemma_filter_from(s.drop_last(), pred);
        let out = s.filter(pred);
        let sub = s.drop_last().filter(pred);
        assert forall|k: int| 0 <= k < out.len() implies s.contains(#[trigger] out[k]) by {
            if pred(s.last()) && k == out.len() - 1 {
                assert(s[s.len() - 1] == out[k]);
            } else {
                assert(out[k] == sub[k]);
                assert(s.drop_last().contains(sub[k]));
                let j = choose|j: int|
                    0 <= j < s.drop_last().len() && s.drop_last()[j] == sub[k];
                assert(s[j] == sub[k]);
            }
        }
    }
}

proof fn lemma_filter_keeps_unique(
    s: Seq<NodeAdvertisement>,
    pred: spec_fn(NodeAdvertisement) -> bool,
)
    requires
        ids_unique(s),
    ensures
        ids_unique(s.filter(pred)),
    decreases s.len(),
{
    reveal(Seq::filter);
    if s.len() > 0 {
        assert(ids_unique(s.drop_last())) by {
            assert forall|i: int, j: int|
                0 <= i < j < s.drop_last().len() implies s.drop_last()[i].node_id@
                != s.drop_last()[j].node_id@ by {
                assert(s[i].node_id@ != s[j].node_id@);
            }
        }
        lemma_filter_keeps_unique(s.drop_last(), pred);
        let out = s.filter(pred);
        let sub = s.drop_last().filter(pred);
        if pred(s.last()) {
            lemma_filter_from(s.drop_last(), pred);
            assert forall|i: int, j: int|
                0 <= i < j < out.len() implies out[i].node_id@ != out[j].node_id@ by {
                if j == out.len() - 1 {
                    assert(out[j] == s.last());
                    assert(out[i] == sub[i]);
                    assert(s.drop_last().contains(sub[i]));
                    let k = choose|k: int|
                        0 <= k < s.drop_last().len() && s.drop_last()[k] == sub[i];
                    assert(s[k] == out[i]);
                    assert(s[k].node_id@ != s[s.len() - 1].node_id@);
                } else {
                    assert(out[i] == sub[i] && out[j] == sub[j]);
                }
            }
        }
    }
}

/// Picks the records of one node kind.
pub open spec fn type_pred(t: NodeType) -> spec_fn(NodeAdvertisement) -> bool {
    |a: NodeAdvertisement| a.node_type == t
}

/// Picks the rental nodes that are currently accepting work.
pub open spec fn available_rental_pred() -> spec_fn(NodeAdvertisement) -> bool {
    |a: NodeAdvertisement| a.node_type == NodeType::Rental && a.status == NodeStatus::Available
}

impl PeerTable {
    /// Every record of one node kind, in table order.
    pub fn nodes_by_type(&self, node_type: NodeType) -> (r: Vec<NodeAdvertisement>)
        ensures
            r@ == self.entries().filter(type_pred(node_type)),
    {
        let ghost pred = type_pred(node_type);
        let n = self.entries.len();
        let mut out: Vec<NodeAdvertisement> = Vec::new();
        let mut i: usize = 0;
        proof {
            reveal(Seq::filter);
            assert(self.entries().take(0) =~= Seq::<NodeAdvertisement>::empty());
            assert(out@ =~= self.entries().take(0).filter(pred));
        }
        while i < n
            invariant
                n == self.entries().len(),
                i <= n,
                out@ == self.entries().take(i as int).filter(pred),
                pred == type_pred(node_type),
            decreases n - i,
        {
            let ghost prefix = self.entries().take(i as int);
            let ghost prefix1 = self.entries().take(i as int + 1);
            proof {
                reveal(Seq::filter);
                assert(prefix1.drop_last() =~= prefix);
                assert(prefix1.last() == self.entries()[i as int]);
            }
            if type_matches(&self.entries[i], node_type) {
                let e = self.entries[i].clone();
                out.push(e);
            }
            proof {
                reveal(Seq::filter);
                assert(out@ == prefix1.filter(pred));
            }
            i += 1;
        }
        proof {
            assert(self.entries().take(n as int) =~= self.entries());
        }
        out
    }

    /// Every rental record whose status is available, in table order.
    pub fn available_rentals(&self) -> (r: Vec<NodeAdvertisement>)
        ensures
            r@ == self.entries().filter(available_rental_pred()),
    {
        let ghost pred = available_rental_pred();
        let n = self.entries.len();
        let mut out: Vec<NodeAdvertisement> = Vec::new();
        let mut i: usize = 0;
        proof {
            reveal(Seq::filter);
            assert(self.entries().take(0) =~= Seq::<NodeAdvertisement>::empty());
            assert(out@ =~= self.entries().take(0).filter(pred));
        }
        while i < n
            invariant
                n == self.entries().len(),
                i <= n,
                out@ == self.entries().take(i as int).filter(pred),
                pred == available_rental_pred(),
            decreases n - i,
        {
            let ghost prefix = self.entries().take(i as int);
            let ghost prefix1 = self.entries().take(i as int + 1);
            proof {
                reveal(Seq::filter);
                assert(prefix1.drop_last() =~= prefix);
                assert(prefix1.last() == self.entries()[i as int]);
            }
            if is_available_rental(&self.entries[i]) {
                let e = self.entries[i].clone();
                out.push(e);
            }
            proof {
                reveal(Seq::filter);
                assert(out@ == prefix1.filter(pred));
            }
            i += 1;
        }
        proof {
            assert(self.entries().take(n as int) =~= self.entries());
        }
        out
    }
}

fn type_matches(a: &NodeAdvertisement, t: NodeType) -> (r: bool)
    ensures
        r == type_pred(t)(*a),
{
    a.node_type == t
}

fn is_available_rental(a: &NodeAdvertisement) -> (r: bool)
    ensures
        r == available_rental_pred()(*a),
{
    a.node_type == NodeType::Rental && a.status == NodeStatus::Available
}

/// The table can never hold the local node's own identifier: the listener
/// discards such records before they reach it.
pub proof fn lemma_peer_table_excludes_self(t: &PeerTable)
    requires
        t.wf(),
    ensures
        !t.has_id(t.local_id()),
{
    if seq_has_id(t.entries(), t.local_id()) {
        let i = seq_find(t.entries(), t.local_id());
        assert(t.entries()[i].node_id@ != t.local_id());
    }
}

/// What the discovery side reports when it fails: the service could not
/// bind its endpoint, or a directed probe got no well-formed reply in time.
#[derive(Debug, Clone, PartialEq, Eq)]
pub enum DiscoveryError {
    /// The discovery port or the multicast group was unavailable; the text
    /// says what the host reported.
    BindError(String),
    /// A directed probe got no reply, or a malformed one, within its wait.
    PeerTimeout,
}

/// The bytes of the fixed probe request token.
pub open spec fn probe_token() -> Seq<u8> {
    seq![68u8, 73u8, 83u8, 67u8, 79u8, 86u8, 69u8, 82u8]
}

/// Whether a datagram is a directed probe request rather than an
/// advertisement. The token spells `DISCOVER`.
pub fn is_probe_request(data: &[u8]) -> (r: bool)
    ensures
        r == (data@ == probe_token()),
{
    let r = data.len() == 8 && data[0] == 68 && data[1] == 73 && data[2] == 83 && data[3] == 67
        && data[4] == 79 && data[5] == 86 && data[6] == 69 && data[7] == 82;
    proof {
        if r {
            assert(data@ =~= probe_token());
        }
        if data@ == probe_token() {
            assert(data@.len() == 8);
            assert(data@[0] == 68 && data@[1] == 73 && data@[2] == 83 && data@[3] == 67
                && data@[4] == 79 && data@[5] == 86 && data@[6] == 69 && data@[7] == 82);
        }
    }
    r
}

/// The in-memory core of the discovery service: the local node's own record
/// and the table of peers. The background loops around it do only socket
/// work; every decision they take stands here.
pub struct DiscoveryService {
    local_node: NodeAdvertisement,
    peers: PeerTable,
}

impl DiscoveryService {
    /// The local node's record as currently advertised.
    pub closed spec fn local(&self) -> AdvView {
        self.local_node@
    }

    /// The peer table.
    pub closed spec fn table(&self) -> PeerTable {
        self.peers
    }

    /// Service invariant: the table is well formed and screens out exactly
    /// this node's identifier.
    pub open spec fn wf(&self) -> bool {
        &&& self.table().wf()
        &&& self.table().local_id() == self.local().node_id
    }

    /// Set up the service around the local node's record, with no peers
    /// known yet.
    pub fn new(local_node: NodeAdvertisement) -> (s: DiscoveryService)
        ensures
            s.wf(),
            s.local() == local_node@,
            s.table().entries() == Seq::<NodeAdvertisement>::empty(),
    {
        let local_id = local_node.node_id.clone();
        DiscoveryService { local_node, peers: PeerTable::new(local_id) }
    }

    /// A snapshot of all currently known peers.
    pub fn get_discovered_nodes(&self) -> (r: Vec<NodeAdvertisement>)
        ensures
            r@ == self.table().entries(),
    {
        self.peers.snapshot()
    }

    /// The known peers of one kind.
    pub fn get_nodes_by_type(&self, node_type: NodeType) -> (r: Vec<NodeAdvertisement>)
        ensures
            r@ == self.table().entries().filter(type_pred(node_type)),
    {
        self.peers.nodes_by_type(node_type)
    }

    /// Exactly the known peers that are rental nodes and available.
    pub fn get_available_rentals(&self) -> (r: Vec<NodeAdvertisement>)
        ensures
            r@ == self.table().entries().filter(available_rental_pred()),
    {
        self.peers.available_rentals()
    }

    /// Update the local record's status and refresh its timestamp. The peer
    /// table is untouched.
    pub fn update_status(&mut self, status: NodeStatus, now: u64)
        requires
            old(self).wf(),
        ensures
            final(self).wf(),
            final(self).local() == (AdvView { status, timestamp: now, ..old(self).local() }),
            final(self).table() == old(self).table(),
    {
        self.local_node.status = status;
        self.local_node.timestamp = now;
    }

    /// Update the local record's capability snapshot and refresh its
    /// timestamp. The peer table is untouched.
    pub fn update_capabilities(&mut self, capabilities: NodeCapabilities, now: u64)
        requires
            old(self).wf(),
        ensures
            final(self).wf(),
            final(self).local() == (AdvView {
                capabilities,
                timestamp: now,
                ..old(self).local()
            }),
            final(self).table() == old(self).table(),
    {
        self.local_node.capabilities = capabilities;
        self.local_node.timestamp = now;
    }

    /// One advertiser tick: refresh the local record's timestamp and encode
    /// it as the datagram payload to broadcast.
    pub fn advertisement_payload(&mut self, now: u64) -> (out: Vec<u8>)
        requires
            old(self).wf(),
        ensures
            final(self).wf(),
            final(self).local() == (AdvView { timestamp: now, ..old(self).local() }),
            final(self).table() == old(self).table(),
            out@ == spec_ser_adv(final(self).local()),
    {
        self.local_node.timestamp = now;
        serialize_advertisement(&self.local_node)
    }

    /// The listener's handling of one received datagram: decode it and, if
    /// it is a well-formed advertisement from some other node that is not
    /// yet stale, upsert it into the peer table.
    pub fn handle_datagram(&mut self, data: &[u8], now: u64) -> (accepted: bool)
        requires
            old(self).wf(),
        ensures
            final(self).wf(),
            final(self).local() == old(self).local(),
            match spec_parse_advertisement(data@) {
                None => !accepted && final(self).table() == old(self).table(),
                Some(v) => {
                    &&& accepted == (v.node_id != old(self).local().node_id && fresh_at(
                        v.timestamp,
                        now,
                    ))
                    &&& !accepted ==> final(self).table() == old(self).table()
                    &&& accepted ==> final(self).table().has_id(v.node_id)
                        && final(self).table().lookup(v.node_id)@ == v
                    &&& accepted ==> forall|id: Seq<char>|
                        id != v.node_id ==> (#[trigger] final(self).table().has_id(id)
                            == old(self).table().has_id(id))
                    &&& accepted ==> forall|id: Seq<char>|
                        id != v.node_id && old(self).table().has_id(id)
                            ==> #[trigger] final(self).table().lookup(id)
                            == old(self).table().lookup(id)
                },
            },
    {
        match parse_advertisement(data) {
            None => false,
            Some(adv) => self.peers.record_advertisement(adv, now),
        }
    }

    /// One janitor pass: evict every peer entry whose timestamp has fallen
    /// out of the staleness window at `now`.
    pub fn cleanup(&mut self, now: u64)
        requires
            old(self).wf(),
        ensures
            final(self).wf(),
            final(self).local() == old(self).local(),
            final(self).table().entries() == old(self).table().entries().filter(fresh_pred(now)),
            forall|i: int|
                0 <= i < final(self).table().entries().len() ==> fresh_at(
                    (#[trigger] final(self).table().entries()[i]).timestamp,
                    now,
                ),
            forall|i: int|
                0 <= i < old(self).table().entries().len() && fresh_at(
                    (#[trigger] old(self).table().entries()[i]).timestamp,
                    now,
                ) ==> final(self).table().entries().contains(old(self).table().entries()[i]),
    {
        self.peers.remove_stale(now);
    }
}

} // verus!
