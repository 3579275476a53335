//! Placement of keys on storage nodes by a consistent-hash ring with virtual
//! positions.
use crate::error::HashServiceError;
use crate::text::{decimal, decimal_string};
use vstd::prelude::*;

verus! {

/// One storage node, reached at `host:port`.
#[derive(Debug, Clone, PartialEq)]
pub struct Node {
    pub host: String,
    pub port: u16,
}

/// The identity string `host:port` of a node.
pub open spec fn identity_of(n: Node) -> Seq<char> {
    n.host@ + seq![':'] + decimal(n.port as nat)
}

/// The identities of a sequence of nodes, in the same order.
pub open spec fn identities(nodes: Seq<Node>) -> Seq<Seq<char>> {
    nodes.map_values(|n: Node| identity_of(n))
}

impl Node {
    /// An equal copy.
    pub fn duplicate(&self) -> (r: Node)
        ensures
            r == *self,
    {
        Node { host: self.host.clone(), port: self.port }
    }

    /// The identity string `host:port`, used as the placement key on the ring.
    pub fn identity(&self) -> (r: String)
        ensures
            r@ == identity_of(*self),
    {
        let mut s = self.host.clone();
        s.append(":");
        proof {
            reveal_strlit(":");
        }
        let port = decimal_string(self.port as u64);
        s.append(port.as_str());
        s
    }
}

/// The ring of the outside crate, over node identities. Verus cannot take the
/// ring's type itself: its hasher parameter, std's `BuildHasherDefault` over
/// twox-hash's `XxHash64`, is not supported, so the ring is held opaquely.
#[verifier::external_body]
pub struct NodeRing {
    ring: hash_ring::HashRing<String>,
}

/// The identities a ring was built from, in the order they were added.
pub uninterp spec fn ring_identities(r: NodeRing) -> Seq<Seq<char>>;

/// The number of virtual positions per identity that a ring was built with.
pub uninterp spec fn ring_replicas(r: NodeRing) -> nat;

/// The identity that a ring built from `ids` with `replicas` positions each
/// assigns to `key`.
pub uninterp spec fn ring_owner(ids: Seq<Seq<char>>, replicas: nat, key: Seq<char>) -> Seq<char>;

/// Relies on hash_ring::HashRing::new: the ring adds each identity in turn,
/// with `replicas` positions each, and every position maps to one of them.
#[verifier::external_body]
fn new_node_ring(ids: Vec<String>, replicas: usize) -> (r: NodeRing)
    requires
        replicas <= isize::MAX,
    ensures
        ring_identities(r) == ids@.map_values(|s: String| s@),
        ring_replicas(r) == replicas as nat,
        ring_identities(r).len() > 0 && ring_replicas(r) > 0 ==> forall|key: Seq<char>|
            ring_identities(r).contains(
                #[trigger] ring_owner(ring_identities(r), ring_replicas(r), key),
            ),
{
    NodeRing { ring: hash_ring::HashRing::new(ids, replicas as isize) }
}

/// Relies on hash_ring::HashRing::get_node: no identity on an empty ring;
/// otherwise one of the identities added, fixed by the identities, the number
/// of positions and the key.
#[verifier::external_body]
fn node_ring_get(r: &NodeRing, key: &str) -> (o: Option<String>)
    ensures
        o is Some <==> (ring_identities(*r).len() > 0 && ring_replicas(*r) > 0),
        o matches Some(id) ==> ring_identities(*r).contains(id@) && id@ == ring_owner(
            ring_identities(*r),
            ring_replicas(*r),
            key@,
        ),
{
    r.ring.get_node(key.to_string()).cloned()
}

/// `i` is the first position of `id` in `ids`.
pub open spec fn is_first_index(ids: Seq<Seq<char>>, id: Seq<char>, i: int) -> bool {
    &&& 0 <= i < ids.len()
    &&& ids[i] == id
    &&& forall|j: int| 0 <= j < i ==> ids[j] != id
}

/// The first position of `id` in `ids`.
pub open spec fn first_index(ids: Seq<Seq<char>>, id: Seq<char>) -> int {
    choose|i: int| is_first_index(ids, id, i)
}

proof fn lemma_first_index_exists(ids: Seq<Seq<char>>, id: Seq<char>)
    requires
        ids.contains(id),
    ensures
        is_first_index(ids, id, first_index(ids, id)),
    decreases ids.len(),
{
    let k = choose|k: int| 0 <= k < ids.len() && ids[k] == id;
    if exists|j: int| 0 <= j < k && ids[j] == id {
        let j = choose|j: int| 0 <= j < k && ids[j] == id;
        let prefix = ids.subrange(0, k);
        assert(prefix[j] == id);
        lemma_first_index_exists(prefix, id);
        let m = first_index(prefix, id);
        assert forall|l: int| 0 <= l < m implies ids[l] != id by {
            assert(prefix[l] == ids[l]);
        }
        assert(prefix[m] == ids[m]);
        assert(is_first_index(ids, id, m));
    } else {
        assert(is_first_index(ids, id, k));
    }
}

/// The node that a ring over `nodes` with `replicas` positions per node
/// assigns to `key`: the first node whose identity owns the key.
pub open spec fn owner_node(nodes: Seq<Node>, replicas: nat, key: Seq<char>) -> Node {
    nodes[first_index(identities(nodes), ring_owner(identities(nodes), replicas, key))]
}

/// A consistent-hash ring over a fixed, non-empty set of nodes.
pub struct HashRing {
    nodes: Vec<Node>,
    replicas: usize,
    ring: NodeRing,
}

impl HashRing {
    /// The nodes the ring was built from, in order.
    pub closed spec fn nodes(&self) -> Seq<Node> {
        self.nodes@
    }

    /// The number of virtual positions per node.
    pub closed spec fn replicas(&self) -> nat {
        self.replicas as nat
    }

    pub closed spec fn wf(&self) -> bool {
        &&& self.nodes@.len() > 0
        &&& self.replicas > 0
        &&& ring_identities(self.ring) == identities(self.nodes@)
        &&& ring_replicas(self.ring) == self.replicas as nat
        &&& forall|key: Seq<char>|
            identities(self.nodes@).contains(
                #[trigger] ring_owner(identities(self.nodes@), self.replicas as nat, key),
            )
    }

    /// The node that `locate` gives for `key`.
    pub open spec fn owner(&self, key: Seq<char>) -> Node {
        owner_node(self.nodes(), self.replicas(), key)
    }

    /// Builds the ring with `virtual_count` positions per node; a ring with
    /// no node or no position per node is refused.
    pub fn build(nodes: Vec<Node>, virtual_count: usize) -> (r: Result<HashRing, HashServiceError>)
        requires
            virtual_count <= isize::MAX,
        ensures
            match r {
                Ok(ring) => {
                    &&& ring.wf()
                    &&& ring.nodes() == nodes@
                    &&& ring.replicas() == virtual_count as nat
                },
                Err(e) => e == HashServiceError::EmptyNodeSet,
            },
            r is Err <==> (nodes@.len() == 0 || virtual_count == 0),
    {
        if nodes.len() == 0 || virtual_count == 0 {
            return Err(HashServiceError::EmptyNodeSet);
        }
        let mut ids: Vec<String> = Vec::new();
        let mut i: usize = 0;
        while i < nodes.len()
            invariant
                i <= nodes@.len(),
                ids@.map_values(|s: String| s@) =~= identities(nodes@.subrange(0, i as int)),
            decreases nodes@.len() - i,
        {
            let id = nodes[i].identity();
            let ghost before = ids@;
            ids.push(id);
            proof {
                assert(nodes@.subrange(0, i + 1) =~= nodes@.subrange(0, i as int).push(nodes@[i as int]));
                assert(ids@ == before.push(id));
                assert(ids@.map_values(|s: String| s@) =~= before.map_values(|s: String| s@).push(id@));
                assert(identities(nodes@.subrange(0, i + 1)) =~= identities(nodes@.subrange(0, i as int)).push(identity_of(nodes@[i as int])));
            }
            i = i + 1;
        }
        assert(nodes@.subrange(0, nodes@.len() as int) =~= nodes@);
        let ring = new_node_ring(ids, virtual_count);
        Ok(HashRing { nodes, replicas: virtual_count, ring })
    }

    /// The position in `nodes()` of the node that owns `key`.
    pub fn locate_index(&self, key: &str) -> (i: usize)
        requires
            self.wf(),
        ensures
            i < self.nodes().len(),
            self.nodes()[i as int] == self.owner(key@),
    {
        let ids = Ghost(identities(self.nodes@));
        let found = node_ring_get(&self.ring, key);
        let id = match found {
            Some(id) => id,
            None => {
                assert(false);
                String::new()
            },
        };
        proof {
            lemma_first_index_exists(ids@, id@);
        }
        let ghost target = first_index(ids@, id@);
        let mut i: usize = 0;
        while i < self.nodes.len()
            invariant
                self.wf(),
                ids@ == identities(self.nodes@),
                is_first_index(ids@, id@, target),
                target == first_index(ids@, id@),
                id@ == ring_owner(ids@, self.replicas as nat, key@),
                i <= target,
            decreases self.nodes@.len() - i,
        {
            let candidate = self.nodes[i].identity();
            if candidate == id {
                assert(ids@[i as int] == id@);
                assert(i == target);
                return i;
            }
            assert(ids@[i as int] != id@);
            i = i + 1;
        }
        assert(false);
        0
    }

    /// The node that owns `key`.
    pub fn locate(&self, key: &str) -> (r: &Node)
        requires
            self.wf(),
        ensures
            *r == self.owner(key@),
            self.nodes().contains(*r),
    {
        let i = self.locate_index(key);
        &self.nodes[i]
    }

    /// The nodes, in the order the ring was built from.
    pub fn node_list(&self) -> (r: &Vec<Node>)
        ensures
            r@ == self.nodes(),
    {
        &self.nodes
    }
}

/// Placement is a function of the node list, the number of positions and the
/// key alone: two rings built alike send every key to the same node.
pub proof fn lemma_locate_is_pure(a: HashRing, b: HashRing, key: Seq<char>)
    requires
        a.wf(),
        b.wf(),
        a.nodes() == b.nodes(),
        a.replicas() == b.replicas(),
    ensures
        a.owner(key) == b.owner(key),
{
}

/// The node that a ring assigns to any key is one of the nodes it was built from.
pub proof fn lemma_locate_is_member(ring: HashRing, key: Seq<char>)
    requires
        ring.wf(),
    ensures
        ring.nodes().contains(ring.owner(key)),
{
    let ids = identities(ring.nodes());
    let id = ring_owner(ids, ring.replicas(), key);
    assert(ids.contains(id));
    lemma_first_index_exists(ids, id);
    let i = first_index(ids, id);
    assert(ring.nodes()[i] == ring.owner(key));
}

} // verus!
