//! The coordinator: a storage service that keeps no record itself and sends
//! each operation to the node that owns the key, or to every node for a
//! listing.
use crate::address::{digits_value, host_part, parse_hostnames, port_part, valid_address};
use crate::error::HashServiceError;
use crate::hashfunction::{hash, short_code_of};
use crate::models::{page_of, paginate, LinkInfo, QueryParams};
use crate::ring::{owner_node, HashRing, Node};
use crate::settings::Coordinator;
use crate::storage::{inserted, keys_unique, Entries};
use vstd::prelude::*;

verus! {

/// Virtual positions per node on the coordinator's ring.
pub const VIRTUAL_NODES: usize = 10;

/// Where the coordinator stands in its start-up.
#[derive(Debug, Clone, Copy, PartialEq, Eq, Structural)]
pub enum CoordinatorState {
    Uninitialized,
    Initializing,
    Ready,
    Failed,
}

pub struct CoordinatorHashService {
    coordinator_config: Coordinator,
    nodes: Vec<Node>,
    hash_ring: Option<HashRing>,
    state: CoordinatorState,
}

impl CoordinatorHashService {
    pub closed spec fn state(&self) -> CoordinatorState {
        self.state
    }

    /// The configured node addresses.
    pub closed spec fn hostnames(&self) -> Seq<String> {
        self.coordinator_config.hostnames@
    }

    /// The nodes read from the configuration, once start-up has read them.
    pub closed spec fn nodes(&self) -> Seq<Node> {
        self.nodes@
    }

    pub closed spec fn wf(&self) -> bool {
        self.state == CoordinatorState::Ready ==> {
            &&& self.hash_ring is Some
            &&& self.hash_ring->0.wf()
            &&& self.hash_ring->0.nodes() == self.nodes@
            &&& self.hash_ring->0.replicas() == VIRTUAL_NODES as nat
        }
    }

    /// The node that owns `key` once the coordinator is ready: the owner on
    /// a ring over its nodes with `VIRTUAL_NODES` positions each.
    pub open spec fn owner(&self, key: Seq<char>) -> Node {
        owner_node(self.nodes(), VIRTUAL_NODES as nat, key)
    }

    /// Where start-up stands.
    pub fn current_state(&self) -> (r: CoordinatorState)
        ensures
            r == self.state(),
    {
        self.state
    }

    /// A coordinator for the configured nodes, not yet started.
    pub fn new(config: &Coordinator) -> (r: CoordinatorHashService)
        ensures
            r.wf(),
            r.state() == CoordinatorState::Uninitialized,
            r.hostnames() == config.hostnames@,
            r.nodes() == Seq::<Node>::empty(),
    {
        CoordinatorHashService {
            coordinator_config: config.duplicate(),
            nodes: Vec::new(),
            hash_ring: None,
            state: CoordinatorState::Uninitialized,
        }
    }

    /// First step of start-up: reads the configured nodes, which are then to
    /// be probed in order. A malformed address fails start-up.
    pub fn begin_init(&mut self) -> (r: Result<Vec<Node>, HashServiceError>)
        requires
            old(self).state() == CoordinatorState::Uninitialized,
        ensures
            final(self).wf(),
            final(self).hostnames() == old(self).hostnames(),
            r is Ok <==> forall|i: int|
                0 <= i < old(self).hostnames().len() ==> valid_address(
                    #[trigger] old(self).hostnames()[i]@,
                ),
            r matches Ok(nodes) ==> {
                &&& final(self).state() == CoordinatorState::Initializing
                &&& final(self).nodes() == nodes@
                &&& nodes@.len() == old(self).hostnames().len()
                &&& forall|i: int|
                    0 <= i < nodes@.len() ==> (#[trigger] nodes@[i]).host@ == host_part(
                        old(self).hostnames()[i]@,
                    ) && nodes@[i].port as nat == digits_value(port_part(old(self).hostnames()[i]@))
            },
            r matches Err(e) ==> e == HashServiceError::InvalidNodeAddress && final(self).state()
                == CoordinatorState::Failed,
    {
        self.state = CoordinatorState::Initializing;
        match parse_hostnames(&self.coordinator_config.hostnames) {
            Ok(nodes) => {
                let mut copy: Vec<Node> = Vec::new();
                let mut i: usize = 0;
                while i < nodes.len()
                    invariant
                        i <= nodes@.len(),
                        copy@ == nodes@.subrange(0, i as int),
                    decreases nodes@.len() - i,
                {
                    copy.push(nodes[i].duplicate());
                    assert(nodes@.subrange(0, i + 1) =~= nodes@.subrange(0, i as int).push(
                        nodes@[i as int],
                    ));
                    i = i + 1;
                }
                assert(nodes@.subrange(0, nodes@.len() as int) =~= nodes@);
                self.nodes = copy;
                Ok(nodes)
            },
            Err(e) => {
                self.state = CoordinatorState::Failed;
                Err(e)
            },
        }
    }

    /// Last step of start-up, given for each node in order whether it
    /// answered the health probe: the coordinator is ready only when there is
    /// a node and every node answered.
    #[verifier::loop_isolation(false)]
    pub fn finish_init(&mut self, reachable: Vec<bool>) -> (r: Result<(), HashServiceError>)
        requires
            old(self).state() == CoordinatorState::Initializing,
            reachable@.len() == old(self).nodes().len(),
        ensures
            final(self).wf(),
            final(self).nodes() == old(self).nodes(),
            final(self).hostnames() == old(self).hostnames(),
            r is Ok <==> (old(self).nodes().len() > 0 && forall|i: int|
                0 <= i < reachable@.len() ==> #[trigger] reachable@[i]),
            r is Ok ==> final(self).state() == CoordinatorState::Ready,
            r matches Err(e) ==> final(self).state() == CoordinatorState::Failed && (if old(
                self,
            ).nodes().len() == 0 {
                e == HashServiceError::EmptyNodeSet
            } else {
                e == HashServiceError::NodeSetIncomplete
            }),
    {
        let mut i: usize = 0;
        while i < reachable.len()
            invariant
                i <= reachable@.len(),
                forall|j: int| 0 <= j < i ==> #[trigger] reachable@[j],
                self.nodes@ == old(self).nodes@,
                self.coordinator_config.hostnames@ == old(self).coordinator_config.hostnames@,
            decreases reachable@.len() - i,
        {
            if !reachable[i] {
                self.state = CoordinatorState::Failed;
                if self.nodes.len() == 0 {
                    return Err(HashServiceError::EmptyNodeSet);
                }
                return Err(HashServiceError::NodeSetIncomplete);
            }
            i = i + 1;
        }
        let mut copy: Vec<Node> = Vec::new();
        let mut k: usize = 0;
        while k < self.nodes.len()
            invariant
                self.nodes@ == old(self).nodes@,
                self.coordinator_config.hostnames@ == old(self).coordinator_config.hostnames@,
                k <= self.nodes@.len(),
                copy@ == self.nodes@.subrange(0, k as int),
            decreases self.nodes@.len() - k,
        {
            copy.push(self.nodes[k].duplicate());
            assert(self.nodes@.subrange(0, k + 1) =~= self.nodes@.subrange(0, k as int).push(
                self.nodes@[k as int],
            ));
            k = k + 1;
        }
        assert(self.nodes@.subrange(0, self.nodes@.len() as int) =~= self.nodes@);
        match HashRing::build(copy, VIRTUAL_NODES) {
            Ok(ring) => {
                self.hash_ring = Some(ring);
                self.state = CoordinatorState::Ready;
                Ok(())
            },
            Err(e) => {
                self.state = CoordinatorState::Failed;
                Err(e)
            },
        }
    }

    /// The node that owns `key`.
    pub fn owner_of(&self, key: &str) -> (r: Node)
        requires
            self.wf(),
            self.state() == CoordinatorState::Ready,
        ensures
            r == self.owner(key@),
            self.nodes().contains(r),
    {
        let ring = match &self.hash_ring {
            Some(ring) => ring,
            None => {
                assert(false);
                return Node { host: String::new(), port: 0 };
            },
        };
        proof {
            crate::ring::lemma_locate_is_member(*ring, key@);
        }
        ring.locate(key).duplicate()
    }

    /// Where a long URL goes: its short code and the node that owns that code.
    pub fn plan_insert(&self, long_url: &str) -> (r: (String, Node))
        requires
            self.wf(),
            self.state() == CoordinatorState::Ready,
        ensures
            r.0@ == short_code_of(long_url@),
            r.1 == self.owner(short_code_of(long_url@)),
            self.nodes().contains(r.1),
    {
        let code = hash(long_url);
        let owner = self.owner_of(code.as_str());
        (code, owner)
    }

    /// The nodes, in configured order.
    pub fn node_list(&self) -> (r: &Vec<Node>)
        ensures
            r@ == self.nodes(),
    {
        &self.nodes
    }
}

/// The result of an insert, given the owner's reply (`None`: the owner could
/// not be reached).
pub fn insert_reply(reply: Option<LinkInfo>) -> (r: Result<LinkInfo, HashServiceError>)
    ensures
        reply matches Some(l) ==> r == Ok::<LinkInfo, HashServiceError>(l),
        reply is None ==> r == Err::<LinkInfo, HashServiceError>(HashServiceError::NodeUnreachable),
{
    match reply {
        Some(l) => Ok(l),
        None => Err(HashServiceError::NodeUnreachable),
    }
}

/// The result of a lookup, given the owner's reply (`None`: the owner could
/// not be reached; `Some(None)`: the owner holds no such record).
pub fn find_reply(reply: Option<Option<LinkInfo>>) -> (r: Result<Option<LinkInfo>, HashServiceError>)
    ensures
        reply matches Some(found) ==> r == Ok::<Option<LinkInfo>, HashServiceError>(found),
        reply is None ==> r == Err::<Option<LinkInfo>, HashServiceError>(
            HashServiceError::NodeUnreachable,
        ),
{
    match reply {
        Some(found) => Ok(found),
        None => Err(HashServiceError::NodeUnreachable),
    }
}

/// The result of a delete, given the owner's reply (`None`: the owner could
/// not be reached; `Some(removed)`: whether a record was removed).
pub fn delete_reply(reply: Option<bool>) -> (r: Result<bool, HashServiceError>)
    ensures
        reply matches Some(removed) ==> r == Ok::<bool, HashServiceError>(removed),
        reply is None ==> r == Err::<bool, HashServiceError>(HashServiceError::NodeUnreachable),
{
    match reply {
        Some(removed) => Ok(removed),
        None => Err(HashServiceError::NodeUnreachable),
    }
}

/// An HTTP status in the success range.
pub open spec fn is_success(status: u16) -> bool {
    200 <= status <= 299
}

/// The owner's reply to an insert, from the status it answered with and the
/// record read from the body (`None` where none could be read): a record only
/// on success.
pub fn insert_status_reply(status: u16, record: Option<LinkInfo>) -> (r: Option<LinkInfo>)
    ensures
        r == (if is_success(status) {
            record
        } else {
            None
        }),
{
    if 200 <= status && status <= 299 {
        record
    } else {
        None
    }
}

/// The owner's reply to a lookup: 404 means it holds no such record, success
/// with a readable record means that record, anything else that it could not
/// be reached.
pub fn find_status_reply(status: u16, record: Option<LinkInfo>) -> (r: Option<Option<LinkInfo>>)
    ensures
        status == 404 ==> r == Some(None::<LinkInfo>),
        status != 404 && is_success(status) && record is Some ==> r == Some(record),
        status != 404 && !(is_success(status) && record is Some) ==> r is None,
{
    if status == 404 {
        Some(None)
    } else if 200 <= status && status <= 299 {
        match record {
            Some(l) => Some(Some(l)),
            None => None,
        }
    } else {
        None
    }
}

/// The owner's reply to a delete: 404 means nothing was removed, success
/// that a record was removed, anything else that it could not be reached.
pub fn delete_status_reply(status: u16) -> (r: Option<bool>)
    ensures
        status == 404 ==> r == Some(false),
        is_success(status) ==> r == Some(true),
        status != 404 && !is_success(status) ==> r is None,
{
    if status == 404 {
        Some(false)
    } else if 200 <= status && status <= 299 {
        Some(true)
    } else {
        None
    }
}

/// One node's reply to a listing: the records read from the body, only on
/// success.
pub fn listing_status_reply(status: u16, records: Option<Vec<LinkInfo>>) -> (r: Option<Vec<LinkInfo>>)
    ensures
        r == (if is_success(status) {
            records
        } else {
            None
        }),
{
    if 200 <= status && status <= 299 {
        records
    } else {
        None
    }
}

/// The records of the nodes that answered, in node order; nodes that could
/// not be reached (`None`) add nothing.
pub open spec fn answered(replies: Seq<Option<Vec<LinkInfo>>>) -> Seq<LinkInfo>
    decreases replies.len(),
{
    if replies.len() == 0 {
        Seq::empty()
    } else {
        answered(replies.drop_last()) + match replies.last() {
            Some(v) => v@,
            None => Seq::empty(),
        }
    }
}

/// A listing over all nodes: the records of every node that answered, in
/// node order, then paged by `query`. Unreachable nodes are left out rather
/// than failing the listing.
pub fn merge_listings(replies: Vec<Option<Vec<LinkInfo>>>, query: Option<QueryParams>) -> (r: Vec<LinkInfo>)
    ensures
        r@ == page_of(answered(replies@), query),
{
    let ghost all = replies@;
    let mut merged: Vec<LinkInfo> = Vec::new();
    let mut rest = replies;
    let n = rest.len();
    let mut i: usize = 0;
    while i < n
        invariant
            n == all.len(),
            i <= n,
            rest@ == all.subrange(i as int, n as int),
            merged@ == answered(all.subrange(0, i as int)),
        decreases n - i,
    {
        let item = rest.remove(0);
        assert(item == all[i as int]);
        let ghost before = merged@;
        match item {
            Some(mut v) => merged.append(&mut v),
            None => {},
        }
        proof {
            let next = all.subrange(0, i + 1);
            assert(next.drop_last() =~= all.subrange(0, i as int));
            assert(next.last() == all[i as int]);
            assert(merged@ =~= answered(next));
            assert(rest@ =~= all.subrange(i + 1, n as int));
        }
        i = i + 1;
    }
    assert(all.subrange(0, n as int) =~= all);
    paginate(merged, query)
}

/// A node that could not be reached adds nothing to a listing: the records
/// gathered are those of the other nodes, in the same order.
pub proof fn lemma_unreachable_node_adds_nothing(replies: Seq<Option<Vec<LinkInfo>>>, i: int)
    requires
        0 <= i < replies.len(),
        replies[i] is None,
    ensures
        answered(replies) == answered(replies.remove(i)),
    decreases replies.len(),
{
    let rest = replies.remove(i);
    if i == replies.len() - 1 {
        assert(rest =~= replies.drop_last());
        assert(answered(replies) =~= answered(replies.drop_last()));
    } else {
        let shorter = replies.drop_last();
        lemma_unreachable_node_adds_nothing(shorter, i);
        assert(shorter.remove(i) =~= rest.drop_last());
        assert(rest.last() == replies.last());
    }
}

/// How a listing treats the answers of several nodes.
#[derive(Debug, Clone, Copy, PartialEq, Eq, Structural)]
pub enum ListingPolicy {
    /// Every record of every node that answered, in node order.
    MergeAll,
    /// Only the records of the first node, in node order, that answered with
    /// at least one record; meant for nodes that hold copies of one another.
    FirstNonEmpty,
}

/// The records of the first node that answered with at least one record.
pub open spec fn first_non_empty(replies: Seq<Option<Vec<LinkInfo>>>) -> Seq<LinkInfo>
    decreases replies.len(),
{
    if replies.len() == 0 {
        Seq::empty()
    } else {
        match replies[0] {
            Some(v) => if v@.len() > 0 {
                v@
            } else {
                first_non_empty(replies.drop_first())
            },
            None => first_non_empty(replies.drop_first()),
        }
    }
}

/// The records a listing under `policy` gathers from the replies.
pub open spec fn gathered(policy: ListingPolicy, replies: Seq<Option<Vec<LinkInfo>>>) -> Seq<LinkInfo> {
    match policy {
        ListingPolicy::MergeAll => answered(replies),
        ListingPolicy::FirstNonEmpty => first_non_empty(replies),
    }
}

/// A listing over all nodes under `policy`, paged by `query`.
pub fn reconcile_listings(
    policy: ListingPolicy,
    replies: Vec<Option<Vec<LinkInfo>>>,
    query: Option<QueryParams>,
) -> (r: Vec<LinkInfo>)
    ensures
        r@ == page_of(gathered(policy, replies@), query),
{
    match policy {
        ListingPolicy::MergeAll => merge_listings(replies, query),
        ListingPolicy::FirstNonEmpty => {
            let ghost all = replies@;
            let mut rest = replies;
            while rest.len() > 0
                invariant
                    policy == ListingPolicy::FirstNonEmpty,
                    all == replies@,
                    first_non_empty(rest@) == first_non_empty(all),
                decreases rest@.len(),
            {
                let ghost before = rest@;
                let item = rest.remove(0);
                assert(item == before[0]);
                assert(rest@ =~= before.drop_first());
                match item {
                    Some(v) => {
                        if v.len() > 0 {
                            assert(first_non_empty(before) == v@);
                            return paginate(v, query);
                        }
                    },
                    None => {},
                }
            }
            paginate(Vec::new(), query)
        },
    }
}

/// Inserting the same long URL twice through a ready coordinator: both
/// inserts go to the same node, one of the coordinator's nodes, under the same
/// short code, and the second leaves that node's records as the first left them.
pub proof fn lemma_insert_idempotent_through_coordinator(
    c: CoordinatorHashService,
    owner_entries: Entries,
    long_url: Seq<char>,
)
    requires
        c.wf(),
        c.state() == CoordinatorState::Ready,
        keys_unique(owner_entries),
    ensures
        c.nodes().contains(c.owner(short_code_of(long_url))),
        inserted(inserted(owner_entries, long_url), long_url) == inserted(owner_entries, long_url),
{
    crate::ring::lemma_locate_is_member(c.hash_ring->0, short_code_of(long_url));
    crate::storage::lemma_insert_idempotent(owner_entries, long_url);
}

} // verus!
