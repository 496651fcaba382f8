use crate::buffer::Buffer;
use crate::error::Error;
use crate::memory::{booked, grown, has_room, Alloc, CpuPtr};
use crate::node::{nodes_of, Node, Request};
use vstd::prelude::*;

verus! {

/// What the cache keeps for one node: the node and the region allocated
/// for it.  The region's length is the node's.
#[derive(Debug, Clone, Copy, PartialEq, Eq)]
pub struct CacheEntry {
    pub node: Node,
    pub ptr: CpuPtr,
}

/// The regions that `entries` files, by node.
pub open spec fn filed(entries: Seq<CacheEntry>) -> Map<Node, CpuPtr>
    decreases entries.len(),
{
    if entries.len() == 0 {
        Map::empty()
    } else {
        filed(entries.drop_last()).insert(entries.last().node, entries.last().ptr)
    }
}

/// What a retrieval of `node` finds in `entries`: the region cached for
/// the node, if there is one.  A node with the same index and another
/// length or other parents is another node.
pub open spec fn lookup(entries: Map<Node, CpuPtr>, node: Node) -> Option<CpuPtr> {
    if entries.contains_key(node) {
        Some(entries[node])
    } else {
        None
    }
}

/// The entries after a retrieval of `node` that succeeded, where `fresh` is
/// the region that the backend provides if one is needed.
pub open spec fn retrieved(entries: Map<Node, CpuPtr>, node: Node, fresh: CpuPtr) -> Map<
    Node,
    CpuPtr,
> {
    if entries.contains_key(node) {
        entries
    } else {
        entries.insert(node, fresh)
    }
}

/// The region that a retrieval of `node` which succeeded hands out.
pub open spec fn served(entries: Map<Node, CpuPtr>, node: Node, fresh: CpuPtr) -> CpuPtr {
    if entries.contains_key(node) {
        entries[node]
    } else {
        fresh
    }
}

/// The addresses of the regions that `entries` holds.
pub open spec fn cached_ptrs(entries: Map<Node, CpuPtr>) -> Set<usize> {
    Set::new(
        |a: usize| exists|node: Node| entries.contains_key(node) && #[trigger] entries[node].0 == a,
    )
}

/// Whether `ptrs` are the regions that `entries` holds, one for each entry.
pub open spec fn hands_out(entries: Map<Node, CpuPtr>, ptrs: Seq<CpuPtr>) -> bool {
    &&& ptrs.len() == entries.dom().len()
    &&& forall|a: usize|
        cached_ptrs(entries).contains(a) <==> exists|k: int|
            0 <= k < ptrs.len() && (#[trigger] ptrs[k]).0 == a
}

/// Every entry has a live region of the node's length in `heap`, and no two
/// entries share a region.
pub open spec fn backed<T>(entries: Map<Node, CpuPtr>, heap: Map<usize, Seq<T>>) -> bool {
    &&& forall|node: Node| #[trigger]
        entries.contains_key(node) ==> heap.contains_key(entries[node].0)
            && heap[entries[node].0].len() == node.len
    &&& forall|m: Node, n: Node|
        entries.contains_key(m) && entries.contains_key(n) && m != n ==> #[trigger] entries[m]
            != #[trigger] entries[n]
}

/// The entries after the retrievals of `nodes`, made in order, all
/// succeeded; `fresh[i]` is the region that the backend provides for the
/// i-th of them if one is needed.
pub open spec fn retrieved_all(
    entries: Map<Node, CpuPtr>,
    nodes: Seq<Node>,
    fresh: Seq<CpuPtr>,
) -> Map<Node, CpuPtr>
    decreases nodes.len(),
{
    if nodes.len() == 0 {
        entries
    } else {
        retrieved(
            retrieved_all(entries, nodes.drop_last(), fresh.drop_last()),
            nodes.last(),
            fresh.last(),
        )
    }
}

/// No two of `nodes` are the same.
pub open spec fn distinct_nodes(nodes: Seq<Node>) -> bool {
    forall|i: int, j: int|
        0 <= i < nodes.len() && 0 <= j < nodes.len() && i != j ==> #[trigger] nodes[i]
            != #[trigger] nodes[j]
}

/// A region is used again.  Once a node was retrieved, retrieving the same
/// node again is a hit on the region that the first retrieval handed out,
/// and leaves the cache as it is, whatever the backend would provide.
pub proof fn lemma_pointer_reuse(
    entries: Map<Node, CpuPtr>,
    node: Node,
    fresh: CpuPtr,
    other: CpuPtr,
)
    ensures
        lookup(retrieved(entries, node, fresh), node) == Some(served(entries, node, fresh)),
        served(retrieved(entries, node, fresh), node, other) == served(entries, node, fresh),
        retrieved(retrieved(entries, node, fresh), node, other) == retrieved(entries, node, fresh),
{
}

/// A node with the index of a cached one and another length or other
/// parents is a miss: it gets a region of its own, and what was cached
/// stays.
pub proof fn lemma_diverged_is_miss(
    entries: Map<Node, CpuPtr>,
    cached: Node,
    node: Node,
    fresh: CpuPtr,
)
    requires
        entries.contains_key(cached),
        !entries.contains_key(node),
        cached.idx == node.idx,
    ensures
        lookup(entries, node) is None,
        retrieved(entries, node, fresh) == entries.insert(node, fresh),
        retrieved(entries, node, fresh)[cached] == entries[cached],
        retrieved(entries, node, fresh)[node] == fresh,
{
}

/// What an empty cache holds after retrievals of distinct nodes: each node
/// with the region provided for it.
pub proof fn lemma_retrieved_all_distinct(nodes: Seq<Node>, fresh: Seq<CpuPtr>)
    requires
        nodes.len() == fresh.len(),
        distinct_nodes(nodes),
    ensures
        retrieved_all(Map::empty(), nodes, fresh).dom().finite(),
        retrieved_all(Map::empty(), nodes, fresh).dom().len() == nodes.len(),
        forall|i: int|
            0 <= i < nodes.len() ==> retrieved_all(Map::empty(), nodes, fresh).contains_key(
                #[trigger] nodes[i],
            ) && retrieved_all(Map::empty(), nodes, fresh)[nodes[i]] == fresh[i],
        forall|n: Node| #[trigger]
            retrieved_all(Map::empty(), nodes, fresh).contains_key(n) ==> exists|i: int|
                0 <= i < nodes.len() && #[trigger] nodes[i] == n,
    decreases nodes.len(),
{
    if nodes.len() > 0 {
        let init = nodes.drop_last();
        let prev = retrieved_all(Map::empty(), init, fresh.drop_last());
        let all = retrieved_all(Map::empty(), nodes, fresh);
        assert(distinct_nodes(init)) by {
            assert forall|i: int, j: int|
                0 <= i < init.len() && 0 <= j < init.len() && i != j implies #[trigger] init[i]
                != #[trigger] init[j] by {
                assert(nodes[i] != nodes[j]);
            }
        }
        lemma_retrieved_all_distinct(init, fresh.drop_last());
        assert(!prev.contains_key(nodes.last())) by {
            if prev.contains_key(nodes.last()) {
                let i = choose|i: int| 0 <= i < init.len() && #[trigger] init[i] == nodes.last();
                assert(nodes[i] != nodes[nodes.len() - 1]);
            }
        }
        assert(all == prev.insert(nodes.last(), fresh.last()));
        assert forall|i: int| 0 <= i < nodes.len() implies all.contains_key(#[trigger] nodes[i])
            && all[nodes[i]] == fresh[i] by {
            if i < init.len() {
                assert(init[i] == nodes[i]);
                assert(prev.contains_key(init[i]));
                assert(nodes[i] != nodes[nodes.len() - 1]);
            }
        }
        assert forall|n: Node| #[trigger] all.contains_key(n) implies exists|i: int|
            0 <= i < nodes.len() && #[trigger] nodes[i] == n by {
            if n == nodes.last() {
                assert(nodes[nodes.len() - 1] == n);
            } else {
                assert(prev.contains_key(n));
                let i = choose|i: int| 0 <= i < init.len() && #[trigger] init[i] == n;
                assert(nodes[i] == n);
            }
        }
    }
}

/// Retrievals of nodes that are all cached leave the cache as it is.
pub proof fn lemma_retrieved_all_cached(
    entries: Map<Node, CpuPtr>,
    nodes: Seq<Node>,
    fresh: Seq<CpuPtr>,
)
    requires
        forall|i: int| 0 <= i < nodes.len() ==> entries.contains_key(#[trigger] nodes[i]),
    ensures
        retrieved_all(entries, nodes, fresh) == entries,
    decreases nodes.len(),
{
    if nodes.len() > 0 {
        let init = nodes.drop_last();
        assert forall|i: int| 0 <= i < init.len() implies entries.contains_key(
            #[trigger] init[i],
        ) by {
            assert(init[i] == nodes[i]);
        }
        lemma_retrieved_all_cached(entries, init, fresh.drop_last());
        assert(entries.contains_key(nodes[nodes.len() - 1]));
    }
}

/// After the retrievals of distinct nodes from an empty cache, the cache
/// holds as many regions as there were retrievals.  Dropping the buffers
/// changes nothing in the cache, so the number stays.
pub proof fn lemma_cache_size(nodes: Seq<Node>, fresh: Seq<CpuPtr>)
    requires
        nodes.len() == fresh.len(),
        distinct_nodes(nodes),
    ensures
        retrieved_all(Map::empty(), nodes, fresh).dom().finite(),
        retrieved_all(Map::empty(), nodes, fresh).dom().len() == nodes.len(),
{
    lemma_retrieved_all_distinct(nodes, fresh);
}

/// The nodes of one pass have distinct indices, so they are distinct.
pub proof fn lemma_pass_nodes(requests: Seq<Request>)
    requires
        requests.len() <= usize::MAX,
    ensures
        distinct_nodes(nodes_of(requests)),
{
    assert forall|i: int, j: int|
        0 <= i < requests.len() && 0 <= j < requests.len() && i != j implies #[trigger] nodes_of(
        requests,
    )[i] != #[trigger] nodes_of(requests)[j] by {
        assert(nodes_of(requests)[i].idx == i);
        assert(nodes_of(requests)[j].idx == j);
    }
}

/// After a pass of so many retrievals from an empty cache, the cache holds
/// so many regions.
pub proof fn lemma_pass_fills_cache(requests: Seq<Request>, fresh: Seq<CpuPtr>)
    requires
        requests.len() <= usize::MAX,
        requests.len() == fresh.len(),
    ensures
        retrieved_all(Map::empty(), nodes_of(requests), fresh).dom().finite(),
        retrieved_all(Map::empty(), nodes_of(requests), fresh).dom().len() == requests.len(),
{
    lemma_pass_nodes(requests);
    lemma_cache_size(nodes_of(requests), fresh);
}

/// Where a pass retrieved distinct nodes from an empty cache, a second pass
/// that retrieves the same nodes hits every time on the region of the
/// first pass, and leaves the cache, and so its size, as the first pass
/// left it.
pub proof fn lemma_second_pass(nodes: Seq<Node>, fresh: Seq<CpuPtr>, other: Seq<CpuPtr>)
    requires
        nodes.len() == fresh.len(),
        distinct_nodes(nodes),
    ensures
        forall|i: int|
            0 <= i < nodes.len() ==> lookup(
                retrieved_all(Map::empty(), nodes, fresh),
                #[trigger] nodes[i],
            ) == Some(fresh[i]),
        retrieved_all(retrieved_all(Map::empty(), nodes, fresh), nodes, other) == retrieved_all(
            Map::empty(),
            nodes,
            fresh,
        ),
        retrieved_all(retrieved_all(Map::empty(), nodes, fresh), nodes, other).dom().len()
            == nodes.len(),
{
    lemma_retrieved_all_distinct(nodes, fresh);
    lemma_retrieved_all_cached(retrieved_all(Map::empty(), nodes, fresh), nodes, other);
}

/// No two of `entries` have the same node.
pub open spec fn distinct_entries(entries: Seq<CacheEntry>) -> bool {
    forall|i: int, j: int|
        0 <= i < entries.len() && 0 <= j < entries.len() && i != j ==> (#[trigger] entries[i]).node
            != (#[trigger] entries[j]).node
}

/// Entries with distinct nodes file as many regions as there are entries,
/// each under its node.
pub proof fn lemma_filed(entries: Seq<CacheEntry>)
    requires
        distinct_entries(entries),
    ensures
        filed(entries).dom().finite(),
        filed(entries).dom().len() == entries.len(),
        forall|i: int|
            0 <= i < entries.len() ==> filed(entries).contains_key((#[trigger] entries[i]).node)
                && filed(entries)[entries[i].node] == entries[i].ptr,
        forall|node: Node| #[trigger]
            filed(entries).contains_key(node) ==> exists|i: int|
                0 <= i < entries.len() && (#[trigger] entries[i]).node == node,
    decreases entries.len(),
{
    if entries.len() > 0 {
        let init = entries.drop_last();
        let last = entries.last();
        assert(distinct_entries(init)) by {
            assert forall|i: int, j: int|
                0 <= i < init.len() && 0 <= j < init.len() && i != j implies (#[trigger] init[i]).node
                != (#[trigger] init[j]).node by {
                assert(entries[i].node != entries[j].node);
            }
        }
        lemma_filed(init);
        assert(!filed(init).contains_key(last.node)) by {
            if filed(init).contains_key(last.node) {
                let i = choose|i: int| 0 <= i < init.len() && (#[trigger] init[i]).node == last.node;
                assert(entries[i].node != entries[entries.len() - 1].node);
            }
        }
        assert forall|i: int| 0 <= i < entries.len() implies filed(entries).contains_key(
            (#[trigger] entries[i]).node,
        ) && filed(entries)[entries[i].node] == entries[i].ptr by {
            if i < init.len() {
                assert(init[i] == entries[i]);
                assert(entries[i].node != entries[entries.len() - 1].node);
            }
        }
        assert forall|node: Node| #[trigger] filed(entries).contains_key(node) implies exists|
            i: int,
        |
            0 <= i < entries.len() && (#[trigger] entries[i]).node == node by {
            if node == last.node {
                assert(entries[entries.len() - 1].node == node);
            } else {
                let i = choose|i: int| 0 <= i < init.len() && (#[trigger] init[i]).node == node;
                assert(entries[i].node == node);
            }
        }
    }
}

/// The allocation cache of one device: for each node that was retrieved,
/// the region allocated for it.  A node is known by its index, its length
/// and its parents together, and no node is filed twice.
///
/// Nothing leaves the cache before `clear`.
pub struct CPUCache {
    nodes: Vec<CacheEntry>,
}

impl View for CPUCache {
    type V = Map<Node, CpuPtr>;

    closed spec fn view(&self) -> Map<Node, CpuPtr> {
        filed(self.nodes@)
    }
}

impl CPUCache {
    /// No node is filed twice.
    pub closed spec fn wf(&self) -> bool {
        distinct_entries(self.nodes@)
    }

    /// The cache holds finitely many regions.
    pub proof fn lemma_finite(&self)
        requires
            self.wf(),
        ensures
            self@.dom().finite(),
    {
        lemma_filed(self.nodes@);
    }

    /// Every entry has a live region of the node's length on `device`, and
    /// no two entries share a region.
    pub open spec fn backed_by<D: Alloc>(&self, device: &D) -> bool {
        backed(self@, device.heap())
    }

    /// An empty cache.
    pub fn new() -> (cache: CPUCache)
        ensures
            cache.wf(),
            cache@ == Map::<Node, CpuPtr>::empty(),
    {
        CPUCache { nodes: Vec::new() }
    }

    /// Number of cached regions.
    pub fn len(&self) -> (n: usize)
        requires
            self.wf(),
        ensures
            n == self@.dom().len(),
    {
        proof {
            lemma_filed(self.nodes@);
        }
        self.nodes.len()
    }

    /// What a retrieval of `node` finds: the region cached for it, if there
    /// is one.
    pub fn find(&self, node: &Node) -> (r: Option<CpuPtr>)
        ensures
            r == lookup(self@, *node),
    {
        let mut i = self.nodes.len();
        assert(self.nodes@.take(i as int) == self.nodes@);
        while i > 0
            invariant
                i <= self.nodes@.len(),
                filed(self.nodes@).contains_key(*node) == filed(
                    self.nodes@.take(i as int),
                ).contains_key(*node),
                filed(self.nodes@).contains_key(*node) ==> filed(self.nodes@)[*node] == filed(
                    self.nodes@.take(i as int),
                )[*node],
            decreases i,
        {
            let ghost upto = self.nodes@.take(i as int);
            assert(upto.drop_last() == self.nodes@.take(i - 1));
            assert(upto.last() == self.nodes@[i - 1]);
            i = i - 1;
            if self.nodes[i].node.same_identity(node) {
                return Some(self.nodes[i].ptr);
            }
        }
        None
    }

    /// Files the region at `ptr`, which the caller allocated for `node`.
    /// Fails, and changes nothing, where a region is filed for the node
    /// already.
    pub fn file(&mut self, node: Node, ptr: CpuPtr) -> (r: Result<(), Error>)
        requires
            old(self).wf(),
        ensures
            final(self).wf(),
            r == (if old(self)@.contains_key(node) {
                Err::<(), Error>(Error::StaleCache)
            } else {
                Ok::<(), Error>(())
            }),
            final(self)@ == (if old(self)@.contains_key(node) {
                old(self)@
            } else {
                old(self)@.insert(node, ptr)
            }),
    {
        if self.find(&node).is_some() {
            return Err(Error::StaleCache);
        }
        proof {
            lemma_filed(self.nodes@);
        }
        self.nodes.push(CacheEntry { node, ptr });
        assert(self.nodes@.drop_last() == old(self).nodes@);
        Ok(())
    }

    /// Allocates a region for `node` on `device` and files it.  Where a
    /// region is filed for the node already, nothing is allocated and the
    /// call fails.
    pub fn add_node<D: Alloc>(&mut self, device: &mut D, node: Node) -> (r: Result<
        Buffer<D::Elem>,
        Error,
    >)
        requires
            old(self).wf(),
            old(device).wf(),
        ensures
            final(self).wf(),
            final(device).wf(),
            booked(old(device), final(device), if r is Ok {
                1nat
            } else {
                0nat
            }),
            grown(old(device), final(device), if r is Ok {
                node.len as int
            } else {
                0int
            }),
            old(self).backed_by(old(device)) ==> final(self).backed_by(final(device)),
            r is Ok <==> !old(self)@.contains_key(node) && has_room(old(device), node.len),
            match r {
                Ok(buf) => {
                    &&& buf == Buffer::<D::Elem>::cached(old(device).id(), buf.ptr, node)
                    &&& buf.ptr.0 != 0
                    &&& !old(device).heap().contains_key(buf.ptr.0)
                    &&& final(device).heap() == old(device).heap().insert(
                        buf.ptr.0,
                        final(device).heap()[buf.ptr.0],
                    )
                    &&& final(device).heap()[buf.ptr.0].len() == node.len
                    &&& final(self)@ == old(self)@.insert(node, buf.ptr)
                },
                Err(e) => {
                    &&& e == (if old(self)@.contains_key(node) {
                        Error::StaleCache
                    } else {
                        Error::Allocation
                    })
                    &&& final(self)@ == old(self)@
                    &&& final(device).heap() == old(device).heap()
                },
            },
    {
        if self.find(&node).is_some() {
            return Err(Error::StaleCache);
        }
        let id = device.device_id();
        match device.allocate(node.len) {
            Ok(ptr) => {
                let _ = self.file(node, ptr);
                Ok(Buffer::cached(id, ptr, node))
            },
            Err(_) => Err(Error::Allocation),
        }
    }

    /// The buffer for `node`: the region cached for it, or a new region
    /// where none is cached for it.  A node whose index is cached with
    /// another length or other parents is not cached: it gets a region of
    /// its own, and the other entry stays.  Fails only where a new region
    /// is needed and the device has no room.
    pub fn get<D: Alloc>(&mut self, device: &mut D, node: Node) -> (r: Result<
        Buffer<D::Elem>,
        Error,
    >)
        requires
            old(self).wf(),
            old(device).wf(),
        ensures
            final(self).wf(),
            final(device).wf(),
            booked(old(device), final(device), if r is Ok && lookup(old(self)@, node) is None {
                1nat
            } else {
                0nat
            }),
            grown(old(device), final(device), if r is Ok && lookup(old(self)@, node) is None {
                node.len as int
            } else {
                0int
            }),
            old(self).backed_by(old(device)) ==> final(self).backed_by(final(device)),
            match lookup(old(self)@, node) {
                Some(ptr) => {
                    &&& r == Ok::<Buffer<D::Elem>, Error>(
                        Buffer::<D::Elem>::cached(old(device).id(), ptr, node),
                    )
                    &&& final(self)@ == old(self)@
                    &&& *final(device) == *old(device)
                },
                None => {
                    &&& r is Ok <==> has_room(old(device), node.len)
                    &&& match r {
                        Ok(buf) => {
                            &&& buf == Buffer::<D::Elem>::cached(old(device).id(), buf.ptr, node)
                            &&& buf.ptr.0 != 0
                            &&& !old(device).heap().contains_key(buf.ptr.0)
                            &&& final(device).heap() == old(device).heap().insert(
                                buf.ptr.0,
                                final(device).heap()[buf.ptr.0],
                            )
                            &&& final(device).heap()[buf.ptr.0].len() == node.len
                        },
                        Err(e) => {
                            &&& e == Error::Allocation
                            &&& final(self)@ == old(self)@
                            &&& final(device).heap() == old(device).heap()
                        },
                    }
                },
            },
            r matches Ok(buf) ==> final(self)@ == retrieved(old(self)@, node, buf.ptr) && buf.ptr
                == served(old(self)@, node, buf.ptr),
    {
        match self.find(&node) {
            Some(ptr) => Ok(Buffer::cached(device.device_id(), ptr, node)),
            None => self.add_node(device, node),
        }
    }

    /// Empties the cache and hands out the regions that it held, each
    /// once, for the caller to release.
    pub fn drain(&mut self) -> (ptrs: Vec<CpuPtr>)
        requires
            old(self).wf(),
        ensures
            final(self).wf(),
            final(self)@ == Map::<Node, CpuPtr>::empty(),
            hands_out(old(self)@, ptrs@),
    {
        let mut ptrs: Vec<CpuPtr> = Vec::new();
        let mut i: usize = 0;
        while i < self.nodes.len()
            invariant
                i <= self.nodes@.len(),
                self.nodes@ == old(self).nodes@,
                ptrs@.len() == i,
                forall|k: int| 0 <= k < i ==> #[trigger] ptrs@[k] == self.nodes@[k].ptr,
            decreases self.nodes@.len() - i,
        {
            ptrs.push(self.nodes[i].ptr);
            i = i + 1;
        }
        proof {
            let entries = self.nodes@;
            lemma_filed(entries);
            assert forall|a: usize| cached_ptrs(filed(entries)).contains(a) implies exists|k: int|
                0 <= k < ptrs@.len() && (#[trigger] ptrs@[k]).0 == a by {
                let node = choose|node: Node|
                    filed(entries).contains_key(node) && #[trigger] filed(entries)[node].0 == a;
                let k = choose|k: int| 0 <= k < entries.len() && (#[trigger] entries[k]).node == node;
                assert(ptrs@[k].0 == a);
            }
            assert forall|a: usize|
                (exists|k: int|
                    0 <= k < ptrs@.len() && (#[trigger] ptrs@[k]).0 == a) implies cached_ptrs(
                filed(entries),
            ).contains(a) by {
                let k = choose|k: int| 0 <= k < ptrs@.len() && (#[trigger] ptrs@[k]).0 == a;
                assert(filed(entries).contains_key(entries[k].node) && filed(
                    entries,
                )[entries[k].node].0 == a);
            }
        }
        self.nodes = Vec::new();
        ptrs
    }

    /// Releases every cached region on `device` and empties the cache.
    pub fn clear<D: Alloc>(&mut self, device: &mut D)
        requires
            old(self).wf(),
            old(device).wf(),
        ensures
            final(self).wf(),
            final(self)@ == Map::<Node, CpuPtr>::empty(),
            final(device).wf(),
            booked(old(device), final(device), 0),
            final(device).heap() == old(device).heap().remove_keys(cached_ptrs(old(self)@)),
    {
        let ghost heap = device.heap();
        let ptrs = self.drain();
        let mut i: usize = 0;
        while i < ptrs.len()
            invariant
                i <= ptrs@.len(),
                device.wf(),
                booked(old(device), device, 0),
                device.heap() == heap.remove_keys(
                    Set::new(|a: usize| exists|k: int| 0 <= k < i && (#[trigger] ptrs@[k]).0 == a),
                ),
            decreases ptrs@.len() - i,
        {
            let ghost done = Set::new(
                |a: usize| exists|k: int| 0 <= k < i && (#[trigger] ptrs@[k]).0 == a,
            );
            let ghost next = Set::new(
                |a: usize| exists|k: int| 0 <= k < i + 1 && (#[trigger] ptrs@[k]).0 == a,
            );
            let _ = device.dealloc(ptrs[i]);
            assert(next == done.insert(ptrs@[i as int].0)) by {
                assert forall|a: usize| done.insert(ptrs@[i as int].0).contains(a) implies next.contains(
                    a,
                ) by {
                    if a != ptrs@[i as int].0 {
                        let k = choose|k: int| 0 <= k < i && (#[trigger] ptrs@[k]).0 == a;
                        assert(0 <= k < i + 1 && ptrs@[k].0 == a);
                    }
                }
            }
            i = i + 1;
        }
        assert(Set::new(|a: usize| exists|k: int| 0 <= k < i && (#[trigger] ptrs@[k]).0 == a)
            == cached_ptrs(old(self)@));
    }
}

} // verus!
