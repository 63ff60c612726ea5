//! The Merkle tree that seals a window of audit events: leaves hash an
//! event's bytes, internal nodes hash their two children, and a window's
//! leaves are joined pairwise, level by level, into one root.

use vstd::prelude::*;
use crate::audit::events::AuditError;
use crate::audit::poseidon::{is_element, le_value, leaf_hash_spec, node_hash_spec, PoseidonHasher};

verus! {

/// A node of the tree.
pub struct MerkleNode {
    pub hash: Vec<u8>,
    pub timestamp: i64,
    pub left_child: Option<Box<MerkleNode>>,
    pub right_child: Option<Box<MerkleNode>>,
    pub event_data: Option<Vec<u8>>,
}

/// The larger of two timestamps.
pub open spec fn later(a: i64, b: i64) -> i64 {
    if a >= b {
        a
    } else {
        b
    }
}

/// Whether every internal node under `n` (and `n` itself) has both
/// children, hashes their hashes, and carries the later of their
/// timestamps, and every leaf's hash is a field element.
pub open spec fn well_hashed(n: MerkleNode) -> bool
    decreases n,
{
    match (n.left_child, n.right_child) {
        (Some(l), Some(r)) => {
            &&& well_hashed(*l)
            &&& well_hashed(*r)
            &&& is_element(n.hash@)
            &&& le_value(n.hash@) == node_hash_spec(l.hash@, r.hash@)
            &&& n.timestamp == later(l.timestamp, r.timestamp)
        },
        (None, None) => is_element(n.hash@),
        _ => false,
    }
}

/// The leaves under `n`, left to right.
pub open spec fn leaves_of(n: MerkleNode) -> Seq<MerkleNode>
    decreases n,
{
    match (n.left_child, n.right_child) {
        (Some(l), Some(r)) => leaves_of(*l) + leaves_of(*r),
        _ => seq![n],
    }
}

impl MerkleNode {
    /// The leaf for an event's bytes at `timestamp`. It never fails.
    pub fn new_leaf(data: &[u8], timestamp: i64) -> (r: Result<MerkleNode, AuditError>)
        ensures
            r matches Ok(n) && {
                &&& is_element(n.hash@)
                &&& le_value(n.hash@) == leaf_hash_spec(data@)
                &&& n.timestamp == timestamp
                &&& n.left_child is None
                &&& n.right_child is None
                &&& n.event_data matches Some(d) && d@ == data@
                &&& well_hashed(n)
            },
    {
        let hasher = match PoseidonHasher::new() {
            Ok(h) => h,
            Err(e) => return Err(e),
        };
        let hash = hasher.hash_leaf(data);
        let mut event: Vec<u8> = Vec::new();
        crate::xdr::push_bytes(&mut event, data);
        Ok(
            MerkleNode {
                hash,
                timestamp,
                left_child: None,
                right_child: None,
                event_data: Some(event),
            },
        )
    }

    /// The node joining `left` and `right`: it hashes their hashes and
    /// carries the later of their timestamps. It never fails.
    pub fn new_internal(left: MerkleNode, right: MerkleNode) -> (r: Result<MerkleNode, AuditError>)
        ensures
            r matches Ok(n) && {
                &&& is_element(n.hash@)
                &&& le_value(n.hash@) == node_hash_spec(left.hash@, right.hash@)
                &&& n.timestamp == later(left.timestamp, right.timestamp)
                &&& n.left_child == Some(Box::new(left))
                &&& n.right_child == Some(Box::new(right))
                &&& n.event_data is None
                &&& (well_hashed(left) && well_hashed(right) ==> well_hashed(n))
                &&& leaves_of(n) == leaves_of(left) + leaves_of(right)
            },
    {
        let hasher = match PoseidonHasher::new() {
            Ok(h) => h,
            Err(e) => return Err(e),
        };
        let hash = hasher.hash_nodes(left.hash.as_slice(), right.hash.as_slice());
        let timestamp = if left.timestamp >= right.timestamp {
            left.timestamp
        } else {
            right.timestamp
        };
        Ok(
            MerkleNode {
                hash,
                timestamp,
                left_child: Some(Box::new(left)),
                right_child: Some(Box::new(right)),
                event_data: None,
            },
        )
    }
}

/// The leaves under each of `ns`, in order.
pub open spec fn all_leaves(ns: Seq<MerkleNode>) -> Seq<MerkleNode>
    decreases ns.len(),
{
    if ns.len() == 0 {
        seq![]
    } else {
        all_leaves(ns.drop_last()) + leaves_of(ns.last())
    }
}

/// The latest timestamp among `ns`, which must not be empty.
pub open spec fn latest(ns: Seq<MerkleNode>) -> i64
    decreases ns.len(),
{
    if ns.len() <= 1 {
        ns[0].timestamp
    } else {
        later(latest(ns.drop_last()), ns.last().timestamp)
    }
}

proof fn lemma_latest_concat(a: Seq<MerkleNode>, b: Seq<MerkleNode>)
    requires
        a.len() > 0,
        b.len() > 0,
    ensures
        latest(a + b) == later(latest(a), latest(b)),
    decreases b.len(),
{
    if b.len() == 1 {
        assert((a + b).drop_last() =~= a);
        assert((a + b).last() == b[0]);
    } else {
        lemma_latest_concat(a, b.drop_last());
        assert((a + b).drop_last() =~= a + b.drop_last());
        assert((a + b).last() == b.last());
    }
}

/// Every node carries the latest timestamp of the leaves under it; in
/// particular a window's root carries the time of its latest event.
pub proof fn lemma_timestamp_is_latest(n: MerkleNode)
    requires
        well_hashed(n),
    ensures
        leaves_of(n).len() > 0,
        n.timestamp == latest(leaves_of(n)),
    decreases n,
{
    match (n.left_child, n.right_child) {
        (Some(l), Some(r)) => {
            lemma_timestamp_is_latest(*l);
            lemma_timestamp_is_latest(*r);
            lemma_latest_concat(leaves_of(*l), leaves_of(*r));
        },
        _ => {
            assert(leaves_of(n) =~= seq![n]);
        },
    }
}

proof fn lemma_all_leaves_push(ns: Seq<MerkleNode>, n: MerkleNode)
    ensures
        all_leaves(ns.push(n)) == all_leaves(ns) + leaves_of(n),
{
    assert(ns.push(n).drop_last() =~= ns);
}

proof fn lemma_all_leaves_concat(a: Seq<MerkleNode>, b: Seq<MerkleNode>)
    ensures
        all_leaves(a + b) == all_leaves(a) + all_leaves(b),
    decreases b.len(),
{
    if b.len() == 0 {
        assert(a + b =~= a);
        assert(all_leaves(a) + all_leaves(b) =~= all_leaves(a));
    } else {
        lemma_all_leaves_concat(a, b.drop_last());
        assert((a + b).drop_last() =~= a + b.drop_last());
        assert(all_leaves(a) + (all_leaves(b.drop_last()) + leaves_of(b.last())) =~= all_leaves(a)
            + all_leaves(b.drop_last()) + leaves_of(b.last()));
    }
}

proof fn lemma_join_pair(orig: Seq<MerkleNode>, c: int, up: Seq<MerkleNode>, joined: MerkleNode)
    requires
        0 <= c,
        c + 2 <= orig.len(),
        all_leaves(up) == all_leaves(orig.subrange(0, c)),
        leaves_of(joined) == leaves_of(orig[c]) + leaves_of(orig[c + 1]),
    ensures
        all_leaves(up.push(joined)) == all_leaves(orig.subrange(0, c + 2)),
{
    lemma_all_leaves_push(up, joined);
    let seg = orig.subrange(c, c + 2);
    assert(orig.subrange(0, c + 2) =~= orig.subrange(0, c) + seg);
    lemma_all_leaves_concat(orig.subrange(0, c), seg);
    assert(seg =~= seq![orig[c]].push(orig[c + 1]));
    lemma_all_leaves_push(seq![orig[c]], orig[c + 1]);
    assert(seq![orig[c]].drop_last() =~= Seq::<MerkleNode>::empty());
    assert(all_leaves(Seq::<MerkleNode>::empty()) =~= Seq::<MerkleNode>::empty());
    assert(seq![orig[c]].last() == orig[c]);
    assert(all_leaves(seq![orig[c]]) == all_leaves(Seq::<MerkleNode>::empty()) + leaves_of(orig[c]));
    assert(all_leaves(seq![orig[c]]) =~= leaves_of(orig[c]));
    assert(all_leaves(seg) =~= leaves_of(orig[c]) + leaves_of(orig[c + 1]));
    assert(all_leaves(up.push(joined)) =~= all_leaves(orig.subrange(0, c + 2)));
}

proof fn lemma_join_single(orig: Seq<MerkleNode>, c: int, up: Seq<MerkleNode>, n: MerkleNode)
    requires
        0 <= c,
        c + 1 <= orig.len(),
        orig[c] == n,
        all_leaves(up) == all_leaves(orig.subrange(0, c)),
    ensures
        all_leaves(up.push(n)) == all_leaves(orig.subrange(0, c + 1)),
{
    lemma_all_leaves_push(up, n);
    assert(orig.subrange(0, c + 1) =~= orig.subrange(0, c).push(n));
    lemma_all_leaves_push(orig.subrange(0, c), n);
}

/// Whether every node of `ns` is well hashed.
pub open spec fn all_well_hashed(ns: Seq<MerkleNode>) -> bool {
    forall|i: int| 0 <= i < ns.len() ==> well_hashed(#[trigger] ns[i])
}

/// Whether `n` is the node that joins `l` and `r`: it hashes their hashes,
/// carries the later of their timestamps, has them as its children and
/// records no event.
pub open spec fn is_join(n: MerkleNode, l: MerkleNode, r: MerkleNode) -> bool {
    &&& is_element(n.hash@)
    &&& le_value(n.hash@) == node_hash_spec(l.hash@, r.hash@)
    &&& n.timestamp == later(l.timestamp, r.timestamp)
    &&& n.left_child == Some(Box::new(l))
    &&& n.right_child == Some(Box::new(r))
    &&& n.event_data is None
}

/// Whether `up` is the level above `ns`: node `i` joins nodes `2i` and
/// `2i + 1`, and a last odd node is carried up as it is.
pub open spec fn joins_level(up: Seq<MerkleNode>, ns: Seq<MerkleNode>) -> bool {
    &&& up.len() == (ns.len() + 1) / 2
    &&& forall|i: int| 0 <= i < ns.len() / 2 ==> is_join(#[trigger] up[i], ns[2 * i], ns[2 * i + 1])
    &&& ns.len() % 2 == 1 ==> up[up.len() - 1] == ns[ns.len() - 1]
}

/// Whether each level of `levels` after the first is the level above the
/// one before it, which has more than one node.
pub open spec fn levels_join(levels: Seq<Seq<MerkleNode>>) -> bool
    decreases levels.len(),
{
    if levels.len() <= 1 {
        true
    } else {
        &&& levels_join(levels.drop_last())
        &&& levels[levels.len() - 2].len() > 1
        &&& joins_level(levels[levels.len() - 1], levels[levels.len() - 2])
    }
}

/// Whether `levels` are the levels of the tree built on `leaves`: the
/// first is the leaves, each next one is the level above the one before
/// while that one has more than one node, and the last holds one node.
pub open spec fn tree_levels(levels: Seq<Seq<MerkleNode>>, leaves: Seq<MerkleNode>) -> bool {
    &&& levels.len() > 0
    &&& levels[0] == leaves
    &&& levels_join(levels)
    &&& levels[levels.len() - 1].len() == 1
}

proof fn lemma_levels_first(levels: Seq<Seq<MerkleNode>>)
    requires
        levels_join(levels),
        levels.len() > 1,
    ensures
        levels[0].len() > 1,
    decreases levels.len(),
{
    if levels.len() > 2 {
        lemma_levels_first(levels.drop_last());
    }
}

/// One level up the tree: neighbours joined in pairs, a last odd node
/// carried up as it is.
fn join_level(nodes: Vec<MerkleNode>) -> (r: Result<Vec<MerkleNode>, AuditError>)
    requires
        nodes@.len() > 1,
    ensures
        r matches Ok(up) && {
            &&& up@.len() == (nodes@.len() + 1) / 2
            &&& joins_level(up@, nodes@)
            &&& all_well_hashed(nodes@) ==> all_well_hashed(up@)
            &&& all_leaves(up@) == all_leaves(nodes@)
        },
{
    let ghost orig = nodes@;
    let ghost wh = all_well_hashed(orig);
    let mut rest = nodes;
    let mut up: Vec<MerkleNode> = Vec::new();
    let ghost mut consumed: int = 0;
    assert(orig.subrange(0, orig.len() as int) =~= orig);
    while rest.len() > 0
        invariant
            0 <= consumed <= orig.len(),
            consumed + rest@.len() == orig.len(),
            rest@ == orig.subrange(consumed, orig.len() as int),
            rest@.len() > 0 ==> consumed % 2 == 0,
            up@.len() == (consumed + 1) / 2,
            wh == all_well_hashed(orig),
            wh ==> all_well_hashed(up@),
            all_leaves(up@) == all_leaves(orig.subrange(0, consumed)),
            forall|i: int|
                0 <= i < consumed / 2 ==> is_join(#[trigger] up@[i], orig[2 * i], orig[2 * i + 1]),
            consumed % 2 == 1 ==> consumed == orig.len() && up@[up@.len() - 1] == orig[consumed - 1],
        decreases rest.len(),
    {
        let left = rest.remove(0);
        proof {
            assert(left == orig[consumed]);
        }
        if rest.len() > 0 {
            let right = rest.remove(0);
            proof {
                assert(right == orig[consumed + 1]);
            }
            let joined = match MerkleNode::new_internal(left, right) {
                Ok(n) => n,
                Err(e) => return Err(e),
            };
            proof {
                lemma_join_pair(orig, consumed, up@, joined);
                assert(rest@ =~= orig.subrange(consumed + 2, orig.len() as int));
            }
            let ghost before = up@;
            up.push(joined);
            proof {
                assert(is_join(joined, orig[consumed], orig[consumed + 1]));
                assert forall|i: int| 0 <= i < (consumed + 2) / 2 implies is_join(
                    #[trigger] up@[i],
                    orig[2 * i],
                    orig[2 * i + 1],
                ) by {
                    if i < consumed / 2 {
                        assert(up@[i] == before[i]);
                    } else {
                        assert(i == consumed / 2);
                        assert(2 * i == consumed);
                    }
                }
                consumed = consumed + 2;
            }
        } else {
            proof {
                lemma_join_single(orig, consumed, up@, left);
            }
            let ghost before = up@;
            up.push(left);
            proof {
                assert forall|i: int| 0 <= i < (consumed + 1) / 2 implies is_join(
                    #[trigger] up@[i],
                    orig[2 * i],
                    orig[2 * i + 1],
                ) by {
                    assert(up@[i] == before[i]);
                }
                assert(rest@.len() == 0);
                consumed = consumed + 1;
            }
        }
    }
    assert(orig.subrange(0, orig.len() as int) =~= orig);
    Ok(up)
}

/// The root of a window's tree: the leaves joined pairwise, level by
/// level, a last odd node carried up as it is; an error when there are no
/// leaves.
pub fn build_tree_from_leaves(leaves: Vec<MerkleNode>) -> (r: Result<MerkleNode, AuditError>)
    ensures
        leaves@.len() == 0 ==> (r matches Err(AuditError::EventProcessingError(m))
            && m@ == "No leaves found in current window"@),
        leaves@.len() > 0 ==> (r matches Ok(root) && {
            &&& exists|levels: Seq<Seq<MerkleNode>>|
                #[trigger] tree_levels(levels, leaves@) && root == levels[levels.len() - 1][0]
            &&& leaves@.len() == 1 ==> root == leaves@[0]
            &&& leaves_of(root) == all_leaves(leaves@)
            &&& all_well_hashed(leaves@) ==> well_hashed(root)
        }),
{
    if leaves.len() == 0 {
        return Err(AuditError::EventProcessingError("No leaves found in current window".to_owned()));
    }
    let ghost orig = leaves@;
    let mut nodes = leaves;
    let ghost mut levels: Seq<Seq<MerkleNode>> = seq![orig];
    while nodes.len() > 1
        invariant
            nodes@.len() >= 1,
            all_leaves(nodes@) == all_leaves(orig),
            all_well_hashed(orig) ==> all_well_hashed(nodes@),
            levels.len() > 0,
            levels[0] == orig,
            levels_join(levels),
            levels[levels.len() - 1] == nodes@,
        decreases nodes@.len(),
    {
        let ghost below = nodes@;
        nodes = match join_level(nodes) {
            Ok(up) => up,
            Err(e) => return Err(e),
        };
        proof {
            let old_levels = levels;
            levels = levels.push(nodes@);
            assert(levels.drop_last() =~= old_levels);
            assert(levels[levels.len() - 2] == below);
        }
    }
    proof {
        assert(nodes@.len() == 1);
        assert(tree_levels(levels, orig));
        if levels.len() > 1 {
            lemma_levels_first(levels);
        }
    }
    let ghost single = nodes@;
    let root = nodes.remove(0);
    proof {
        assert(single.drop_last() =~= Seq::<MerkleNode>::empty());
        assert(all_leaves(Seq::<MerkleNode>::empty()) =~= Seq::<MerkleNode>::empty());
        assert(single.last() == root);
        assert(all_leaves(single) =~= leaves_of(root));
        if all_well_hashed(orig) {
            assert(well_hashed(single[0]));
        }
    }
    Ok(root)
}

/// The events recorded under `n`, in pre-order: a node's own event (with
/// its timestamp) before those of its left and then its right subtree.
pub open spec fn events_of(n: MerkleNode) -> Seq<(i64, Seq<u8>)>
    decreases n,
{
    let own = match n.event_data {
        Some(d) => seq![(n.timestamp, d@)],
        None => seq![],
    };
    let left = match n.left_child {
        Some(l) => events_of(*l),
        None => seq![],
    };
    let right = match n.right_child {
        Some(r) => events_of(*r),
        None => seq![],
    };
    own + left + right
}

fn collect_into(node: &MerkleNode, events: &mut Vec<(i64, Vec<u8>)>)
    ensures
        final(events)@.map_values(|e: (i64, Vec<u8>)| (e.0, e.1@)) == old(events)@.map_values(
            |e: (i64, Vec<u8>)| (e.0, e.1@),
        ) + events_of(*node),
    decreases *node,
{
    let ghost before = events@.map_values(|e: (i64, Vec<u8>)| (e.0, e.1@));
    match &node.event_data {
        Some(d) => {
            let mut copy: Vec<u8> = Vec::new();
            crate::xdr::push_bytes(&mut copy, d.as_slice());
            events.push((node.timestamp, copy));
        },
        None => {},
    }
    let ghost own = match &node.event_data {
        Some(d) => seq![(node.timestamp, d@)],
        None => Seq::<(i64, Seq<u8>)>::empty(),
    };
    assert(events@.map_values(|e: (i64, Vec<u8>)| (e.0, e.1@)) =~= before + own);
    match &node.left_child {
        Some(l) => collect_into(l, events),
        None => {},
    }
    let ghost after_left = events@.map_values(|e: (i64, Vec<u8>)| (e.0, e.1@));
    match &node.right_child {
        Some(r) => collect_into(r, events),
        None => {},
    }
    assert(events@.map_values(|e: (i64, Vec<u8>)| (e.0, e.1@)) =~= before + events_of(*node));
}

/// The events recorded under a window's root, with their timestamps.
pub fn collect_events_from_node(node: &MerkleNode) -> (r: Vec<(i64, Vec<u8>)>)
    ensures
        r@.map_values(|e: (i64, Vec<u8>)| (e.0, e.1@)) == events_of(*node),
{
    let mut events: Vec<(i64, Vec<u8>)> = Vec::new();
    collect_into(node, &mut events);
    assert(Seq::<(i64, Vec<u8>)>::empty().map_values(|e: (i64, Vec<u8>)| (e.0, e.1@)) + events_of(
        *node,
    ) =~= events_of(*node));
    events
}

fn bytes_eq(a: &[u8], b: &[u8]) -> (r: bool)
    ensures
        r == (a@ == b@),
{
    if a.len() != b.len() {
        return false;
    }
    let mut i: usize = 0;
    while i < a.len()
        invariant
            i <= a@.len(),
            a@.len() == b@.len(),
            forall|k: int| 0 <= k < i ==> a@[k] == b@[k],
        decreases a@.len() - i,
    {
        if a[i] != b[i] {
            return false;
        }
        i += 1;
    }
    assert(a@ =~= b@);
    true
}

/// Whether some node of a window carries the hash `target`: the proof that
/// an event was recorded.
pub fn verify_merkle_proof(hashes: &Vec<Vec<u8>>, target: &[u8]) -> (b: bool)
    ensures
        b == exists|i: int| 0 <= i < hashes@.len() && #[trigger] hashes@[i]@ == target@,
{
    let mut i: usize = 0;
    while i < hashes.len()
        invariant
            i <= hashes@.len(),
            forall|k: int| 0 <= k < i ==> #[trigger] hashes@[k]@ != target@,
        decreases hashes@.len() - i,
    {
        if bytes_eq(hashes[i].as_slice(), target) {
            return true;
        }
        i += 1;
    }
    false
}

/// Whether a run of window roots, in the order read, never repeats a hash
/// from one root to the next.
pub fn verify_historical_consistency(roots: &Vec<Vec<u8>>) -> (b: bool)
    ensures
        b == forall|i: int| 0 <= i < roots@.len() - 1 ==> #[trigger] roots@[i]@ != roots@[i + 1]@,
{
    if roots.len() < 2 {
        return true;
    }
    let last = roots.len() - 1;
    let mut i: usize = 0;
    while i < last
        invariant
            last == roots@.len() - 1,
            i <= last,
            forall|k: int| 0 <= k < i ==> #[trigger] roots@[k]@ != roots@[k + 1]@,
        decreases roots@.len() - i,
    {
        if bytes_eq(roots[i].as_slice(), roots[i + 1].as_slice()) {
            return false;
        }
        i += 1;
    }
    true
}

} // verus!
