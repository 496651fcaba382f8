use crate::buffer::{AllocFlag, Buffer};
use crate::cache::{backed, cached_ptrs, lookup, retrieved, served, CPUCache};
use crate::error::Error;
use crate::host::HostMemory;
use crate::kernel::{compiled, Compile, Kernel, KernelCache, KernelKey};
use crate::kernel_options::{handle_of, KernelOptions, Launch};
use crate::memory::{booked, grown, has_room, Alloc, CpuPtr};
use crate::node::{AddGraph, Graph, Node};
use std::collections::HashSet;
use vstd::prelude::*;
use vstd::std_specs::iter::IteratorSpec;

pub mod ops;

verus! {

broadcast use vstd::std_specs::hash::group_hash_axioms;

/// One compute target: a backend together with the allocation cache, the
/// graph of the current pass and the list of regions that buffers own.
///
/// The cache and the list are reached through the device only, so a region
/// in the cache is never released behind the cache's back.
pub struct Device<B: Alloc> {
    backend: B,
    cache: CPUCache,
    graph: Graph,
    /// Addresses of the regions that owned buffers answer for.
    owned: HashSet<usize>,
    kernels: KernelCache,
}

/// The device of the host: regions in main memory.
pub type CPU<T> = Device<HostMemory<T>>;

impl<B: Alloc> Device<B> {
    /// The backend as it stands.
    pub closed spec fn backend(&self) -> B {
        self.backend
    }

    /// The regions of the allocation cache, by node.
    pub closed spec fn cache(&self) -> Map<Node, CpuPtr> {
        self.cache@
    }

    /// The nodes requested so far in the current pass.
    pub closed spec fn graph(&self) -> Seq<Node> {
        self.graph@
    }

    /// Addresses of the regions that owned buffers answer for.
    pub closed spec fn owned(&self) -> Set<usize> {
        self.owned@
    }

    /// The kernels that were built for this device.
    pub closed spec fn kernels(&self) -> Map<KernelKey, usize> {
        self.kernels@
    }

    /// The number by which this device is told from others.
    pub open spec fn id(&self) -> usize {
        self.backend().id()
    }

    /// The live regions of the backend.
    pub open spec fn heap(&self) -> Map<usize, Seq<B::Elem>> {
        self.backend().heap()
    }

    /// The index that the next node gets.
    pub open spec fn count(&self) -> nat {
        self.graph().len()
    }

    pub closed spec fn wf(&self) -> bool {
        &&& self.backend.wf()
        &&& self.cache.wf()
        &&& self.graph.wf()
        &&& self.owned@.finite()
    }

    /// Cached regions are live and have their node's length, no two cache
    /// entries share a region, owned regions are live, no region is both
    /// cached and owned, and every live region is one or the other.
    pub open spec fn consistent(&self) -> bool {
        &&& backed(self.cache(), self.heap())
        &&& forall|a: usize| #[trigger] self.owned().contains(a) ==> self.heap().contains_key(a)
        &&& forall|a: usize| #[trigger]
            self.owned().contains(a) ==> !cached_ptrs(self.cache()).contains(a)
        &&& forall|a: usize| #[trigger]
            self.heap().contains_key(a) ==> cached_ptrs(self.cache()).contains(a)
                || self.owned().contains(a)
    }

    /// What comes of checking `buf` before it is used on this device.
    pub open spec fn check(&self, buf: &Buffer<B::Elem>) -> Result<(), Error> {
        if buf.device != self.id() {
            Err(Error::DeviceMismatch)
        } else if !self.heap().contains_key(buf.ptr.0) || self.heap()[buf.ptr.0].len() != buf.len {
            Err(Error::Driver)
        } else {
            Ok(())
        }
    }

    /// Whether `after` is this device with nothing changed but, perhaps,
    /// what its regions hold: the same regions with the same lengths, the
    /// same cache, graph, owned regions and kernels.
    pub open spec fn kept(&self, after: &Self) -> bool {
        &&& booked(&self.backend(), &after.backend(), 0)
        &&& grown(&self.backend(), &after.backend(), 0)
        &&& after.cache() == self.cache()
        &&& after.graph() == self.graph()
        &&& after.owned() == self.owned()
        &&& after.kernels() == self.kernels()
    }

    /// Whether `after` is this device after a retrieval of `node` that gave
    /// `r`.  A hit hands out the cached region and changes nothing but the
    /// count of nodes.  A miss allocates a region of the node's length and
    /// files it, or fails for want of room and changes nothing.  A node
    /// whose index is cached with another length or other parents is a
    /// miss like any other.
    pub open spec fn retrieval(
        &self,
        after: &Self,
        node: Node,
        r: Result<Buffer<B::Elem>, Error>,
    ) -> bool {
        let missed = r is Ok && lookup(self.cache(), node) is None;
        &&& booked(&self.backend(), &after.backend(), if missed { 1nat } else { 0nat })
        &&& grown(&self.backend(), &after.backend(), if missed { node.len as int } else { 0int })
        &&& after.kernels() == self.kernels()
        &&& after.owned() == self.owned()
        &&& after.graph() == (if r is Ok {
            self.graph().push(node)
        } else {
            self.graph()
        })
        &&& r matches Ok(buf) ==> after.cache() == retrieved(self.cache(), node, buf.ptr)
            && buf.ptr == served(self.cache(), node, buf.ptr)
        &&& match lookup(self.cache(), node) {
            Some(ptr) => {
                &&& r == Ok::<Buffer<B::Elem>, Error>(
                    Buffer::<B::Elem>::cached(self.id(), ptr, node),
                )
                &&& after.cache() == self.cache()
                &&& after.backend() == self.backend()
            },
            None => {
                &&& r is Ok <==> has_room(&self.backend(), node.len)
                &&& match r {
                    Ok(buf) => {
                        &&& buf == Buffer::<B::Elem>::cached(self.id(), buf.ptr, node)
                        &&& buf.ptr.0 != 0
                        &&& !self.heap().contains_key(buf.ptr.0)
                        &&& after.heap() == self.heap().insert(buf.ptr.0, after.heap()[buf.ptr.0])
                        &&& after.heap()[buf.ptr.0].len() == node.len
                        &&& after.cache() == self.cache().insert(node, buf.ptr)
                    },
                    Err(e) => {
                        &&& e == Error::Allocation
                        &&& after.cache() == self.cache()
                        &&& after.heap() == self.heap()
                    },
                }
            },
        }
    }

    /// Whether `after` is this device after a buffer of its own was made
    /// for `len` elements, with the outcome `r`: a new region that the
    /// buffer owns, or a failure for want of room that changes nothing.
    pub open spec fn provision(
        &self,
        after: &Self,
        len: usize,
        r: Result<Buffer<B::Elem>, Error>,
    ) -> bool {
        &&& booked(&self.backend(), &after.backend(), if r is Ok { 1nat } else { 0nat })
        &&& grown(&self.backend(), &after.backend(), if r is Ok { len as int } else { 0int })
        &&& after.kernels() == self.kernels()
        &&& after.cache() == self.cache()
        &&& after.graph() == self.graph()
        &&& r is Ok <==> has_room(&self.backend(), len)
        &&& match r {
            Ok(buf) => {
                &&& buf == Buffer::<B::Elem>::owned(self.id(), buf.ptr, len)
                &&& buf.ptr.0 != 0
                &&& !self.heap().contains_key(buf.ptr.0)
                &&& after.heap() == self.heap().insert(buf.ptr.0, after.heap()[buf.ptr.0])
                &&& after.heap()[buf.ptr.0].len() == len
                &&& after.owned() == self.owned().insert(buf.ptr.0)
            },
            Err(e) => {
                &&& e == Error::Allocation
                &&& after.heap() == self.heap()
                &&& after.owned() == self.owned()
            },
        }
    }

    /// A device on top of `backend`, with nothing cached and nothing owned.
    /// The device answers for every region only where the backend comes
    /// without any.
    pub fn with_backend(backend: B) -> (device: Self)
        requires
            backend.wf(),
        ensures
            device.wf(),
            backend.heap().dom() =~= Set::<usize>::empty() ==> device.consistent(),
            device.backend() == backend,
            device.cache() == Map::<Node, CpuPtr>::empty(),
            device.graph() == Seq::<Node>::empty(),
            device.owned() == Set::<usize>::empty(),
            device.kernels() == Map::<KernelKey, usize>::empty(),
    {
        Device {
            backend,
            cache: CPUCache::new(),
            graph: Graph::new(),
            owned: HashSet::new(),
            kernels: KernelCache::new(),
        }
    }

    /// The backend.
    pub fn memory(&self) -> (b: &B)
        ensures
            *b == self.backend(),
    {
        &self.backend
    }

    /// Number of regions in the allocation cache.
    pub fn cache_size(&self) -> (n: usize)
        requires
            self.wf(),
        ensures
            n == self.cache().dom().len(),
    {
        self.cache.len()
    }

    /// The index that the next node gets.
    pub fn get_count(&self) -> (n: usize)
        ensures
            n == self.count(),
    {
        self.graph.len()
    }

    /// Sets the index that the next node gets back to `count`; a count
    /// beyond the current one changes nothing.  A pass starts with this.
    pub fn set_count(&mut self, count: usize)
        requires
            old(self).wf(),
        ensures
            final(self).wf(),
            final(self).backend() == old(self).backend(),
            final(self).cache() == old(self).cache(),
            final(self).owned() == old(self).owned(),
            final(self).kernels() == old(self).kernels(),
            final(self).graph() == (if count <= old(self).count() {
                old(self).graph().subrange(0, count as int)
            } else {
                old(self).graph()
            }),
    {
        self.graph.set_count(count);
    }

    /// Whether `buf` names a live region of its length on this device.
    pub fn validate(&self, buf: &Buffer<B::Elem>) -> (r: Result<(), Error>)
        requires
            self.wf(),
        ensures
            r == self.check(buf),
    {
        if buf.device != self.backend.device_id() {
            return Err(Error::DeviceMismatch);
        }
        match self.backend.region_len(buf.ptr) {
            Some(len) => {
                if len == buf.len {
                    Ok(())
                } else {
                    Err(Error::Driver)
                }
            },
            None => Err(Error::Driver),
        }
    }

    /// The buffer for the next node of the pass: `len` elements, computed
    /// from what `add_node` names.  The region is the one cached for that
    /// node, or a new one where none is cached for it; a node with the same
    /// index and another length or other parents is another node.  Where
    /// the call fails, the node is not counted.
    pub fn retrieve<G: AddGraph>(&mut self, len: usize, add_node: G) -> (r: Result<
        Buffer<B::Elem>,
        Error,
    >)
        requires
            old(self).wf(),
        ensures
            final(self).wf(),
            old(self).consistent() ==> final(self).consistent(),
            old(self).retrieval(
                final(self),
                Node { idx: old(self).count() as usize, len, parents: add_node.parents() },
                r,
            ),
    {
        let count = self.graph.len();
        let node = self.graph.add(len, &add_node);
        let r = self.cache.get(&mut self.backend, node);
        if r.is_err() {
            self.graph.set_count(count);
            assert(self.graph@ == old(self).graph@);
        }
        proof {
            if old(self).consistent() {
                assert(self.owned() == old(self).owned());
                assert forall|a: usize| #[trigger] self.heap().contains_key(a) implies cached_ptrs(
                    self.cache(),
                ).contains(a) || self.owned().contains(a) by {
                    if old(self).heap().contains_key(a) {
                        if cached_ptrs(old(self).cache()).contains(a) {
                            let n = choose|n: Node|
                                old(self).cache().contains_key(n) && #[trigger] old(
                                    self,
                                ).cache()[n].0 == a;
                            assert(self.cache().contains_key(n) && self.cache()[n].0 == a);
                        }
                    } else {
                        assert(self.cache().contains_key(node) && self.cache()[node].0 == a);
                    }
                }
            }
        }
        r
    }

    /// A cached buffer of `len` elements that is computed from nothing
    /// earlier.
    pub fn cached(&mut self, len: usize) -> (r: Result<Buffer<B::Elem>, Error>)
        requires
            old(self).wf(),
        ensures
            final(self).wf(),
            old(self).consistent() ==> final(self).consistent(),
            old(self).retrieval(
                final(self),
                Node { idx: old(self).count() as usize, len, parents: None },
                r,
            ),
    {
        self.retrieve(len, ())
    }
}

impl<B: Alloc> Device<B> {
    /// A buffer that owns a new region of `len` elements, whose contents
    /// are unspecified.
    pub fn buffer(&mut self, len: usize) -> (r: Result<Buffer<B::Elem>, Error>)
        requires
            old(self).wf(),
        ensures
            final(self).wf(),
            old(self).consistent() ==> final(self).consistent(),
            old(self).provision(final(self), len, r),
    {
        match self.backend.allocate(len) {
            Ok(ptr) => {
                self.owned.insert(ptr.0);
                proof {
                    self.lemma_owned_added(old(self), ptr);
                }
                Ok(Buffer::owned(self.backend.device_id(), ptr, len))
            },
            Err(_) => {
                assert(self.owned() == old(self).owned());
                Err(Error::Allocation)
            },
        }
    }

    /// A buffer that owns a new region holding a copy of `data`.
    pub fn buffer_from(&mut self, data: &[B::Elem]) -> (r: Result<Buffer<B::Elem>, Error>)
        requires
            old(self).wf(),
        ensures
            final(self).wf(),
            old(self).consistent() ==> final(self).consistent(),
            old(self).provision(final(self), data.len(), r),
            r matches Ok(buf) ==> final(self).heap()[buf.ptr.0] == data@,
    {
        match self.backend.alloc_with_data(data) {
            Ok(ptr) => {
                self.owned.insert(ptr.0);
                proof {
                    self.lemma_owned_added(old(self), ptr);
                }
                Ok(Buffer::owned(self.backend.device_id(), ptr, data.len()))
            },
            Err(_) => {
                assert(self.owned() == old(self).owned());
                Err(Error::Allocation)
            },
        }
    }

    /// A region that is new to the heap can join the owned ones.
    proof fn lemma_owned_added(&self, before: &Self, ptr: CpuPtr)
        requires
            !before.heap().contains_key(ptr.0),
            self.heap() == before.heap().insert(ptr.0, self.heap()[ptr.0]),
            self.cache() == before.cache(),
            self.owned() == before.owned().insert(ptr.0),
        ensures
            before.consistent() ==> self.consistent(),
    {
    }

    /// Ends the life of `buf`.  The region of a buffer that owns it is
    /// released; a cached or a borrowed buffer leaves its region as it is.
    pub fn drop_buf(&mut self, buf: Buffer<B::Elem>) -> (r: Result<(), Error>)
        requires
            old(self).wf(),
        ensures
            final(self).wf(),
            final(self).id() == old(self).id(),
            booked(&old(self).backend(), &final(self).backend(), 0),
            grown(
                &old(self).backend(),
                &final(self).backend(),
                if r is Ok && buf.flag == AllocFlag::Owned && old(self).heap().contains_key(
                    buf.ptr.0,
                ) {
                    -(old(self).heap()[buf.ptr.0].len() as int)
                } else {
                    0int
                },
            ),
            final(self).kernels() == old(self).kernels(),
            final(self).cache() == old(self).cache(),
            final(self).graph() == old(self).graph(),
            old(self).consistent() ==> final(self).consistent(),
            r == (if buf.device != old(self).id() {
                Err::<(), Error>(Error::DeviceMismatch)
            } else if buf.flag == AllocFlag::Owned && !old(self).owned().contains(buf.ptr.0) {
                Err::<(), Error>(Error::Driver)
            } else {
                Ok::<(), Error>(())
            }),
            r is Ok && buf.flag == AllocFlag::Owned ==> {
                &&& final(self).heap() == old(self).heap().remove(buf.ptr.0)
                &&& final(self).owned() == old(self).owned().remove(buf.ptr.0)
            },
            !(r is Ok && buf.flag == AllocFlag::Owned) ==> {
                &&& final(self).backend() == old(self).backend()
                &&& final(self).owned() == old(self).owned()
            },
    {
        if buf.device != self.backend.device_id() {
            return Err(Error::DeviceMismatch);
        }
        match buf.flag {
            AllocFlag::Owned => {
                if self.owned.remove(&buf.ptr.0) {
                    let _ = self.backend.dealloc(buf.ptr);
                    proof {
                        if !old(self).heap().contains_key(buf.ptr.0) {
                            assert(self.heap() =~= old(self).heap());
                        }
                        if old(self).consistent() {
                            assert forall|n: Node| #[trigger]
                                self.cache().contains_key(n) implies self.cache()[n].0
                                != buf.ptr.0 by {
                                assert(cached_ptrs(old(self).cache()).contains(
                                    old(self).cache()[n].0,
                                ));
                            }
                        }
                    }
                    Ok(())
                } else {
                    assert(self.owned() == old(self).owned());
                    Err(Error::Driver)
                }
            },
            _ => {
                Ok(())
            },
        }
    }

    /// Releases every cached region and empties the allocation cache.
    /// Buffers retrieved before must not be used afterwards: their regions
    /// are gone, and every use of one fails.
    pub fn clear_cache(&mut self)
        requires
            old(self).wf(),
        ensures
            final(self).wf(),
            final(self).id() == old(self).id(),
            booked(&old(self).backend(), &final(self).backend(), 0),
            final(self).kernels() == old(self).kernels(),
            final(self).cache() == Map::<Node, CpuPtr>::empty(),
            final(self).graph() == old(self).graph(),
            final(self).owned() == old(self).owned(),
            final(self).heap() == old(self).heap().remove_keys(cached_ptrs(old(self).cache())),
            old(self).consistent() ==> final(self).consistent(),
    {
        self.cache.clear(&mut self.backend);
        proof {
            assert(self.owned() == old(self).owned());
        }
    }
}

impl<B: Alloc> Device<B> {
    /// Ends the life of the device: releases every cached region and every
    /// region that a buffer still owns, and hands the backend back.  What
    /// the backend held before the device was put on top of it is left.
    pub fn teardown(self) -> (backend: B)
        requires
            self.wf(),
        ensures
            backend.wf(),
            booked(&self.backend(), &backend, 0),
            backend.heap() == self.heap().remove_keys(cached_ptrs(self.cache()) + self.owned()),
            self.consistent() ==> backend.heap() == Map::<usize, Seq<B::Elem>>::empty(),
    {
        let mut device = self;
        device.cache.clear(&mut device.backend);
        let ghost heap = device.backend.heap();
        let Device { backend, cache, graph, owned, kernels } = device;
        let mut backend = backend;
        for addr in it: owned.iter()
            invariant
                backend.wf(),
                booked(&self.backend(), &backend, 0),
                it.seq() == owned.iter().remaining(),
                backend.heap() == heap.remove_keys(
                    Set::new(|a: usize| exists|k: int| 0 <= k < it.index() && *it.seq()[k] == a),
                ),
        {
            let _ = backend.dealloc(CpuPtr(*addr));
        }
        proof {
            vstd::std_specs::hash::axiom_spec_hash_keys_iter(&owned);
            let items = owned.iter().remaining();
            let all = Set::new(|a: usize| exists|k: int| 0 <= k < items.len() && *items[k] == a);
            assert(all == owned@) by {
                assert forall|a: usize| all.contains(a) implies owned@.contains(a) by {
                    let k = choose|k: int| 0 <= k < items.len() && *items[k] == a;
                    assert(items.unref()[k] == a);
                }
            }
        }
        backend
    }
}

impl<T: Copy + Default> Device<HostMemory<T>> {
    /// The device of the host, with the number 0 and no limit on what it
    /// holds but the address space.
    pub fn new() -> (device: Self)
        ensures
            device.wf(),
            device.consistent(),
            device.id() == 0,
            device.heap() == Map::<usize, Seq<T>>::empty(),
            device.cache() == Map::<Node, CpuPtr>::empty(),
            device.graph() == Seq::<Node>::empty(),
            device.owned() == Set::<usize>::empty(),
            device.kernels() == Map::<KernelKey, usize>::empty(),
            device.backend().capacity() == usize::MAX,
            device.backend().allocations() == 0,
    {
        Device::with_backend(HostMemory::new())
    }

    /// A device of the host with the number `id`, whose regions may hold
    /// `capacity` elements together.
    pub fn with_capacity(id: usize, capacity: usize) -> (device: Self)
        ensures
            device.wf(),
            device.consistent(),
            device.id() == id,
            device.heap() == Map::<usize, Seq<T>>::empty(),
            device.cache() == Map::<Node, CpuPtr>::empty(),
            device.graph() == Seq::<Node>::empty(),
            device.owned() == Set::<usize>::empty(),
            device.kernels() == Map::<KernelKey, usize>::empty(),
            device.backend().capacity() == capacity,
            device.backend().allocations() == 0,
    {
        Device::with_backend(HostMemory::with_capacity(id, capacity))
    }
}

impl<B: Alloc> Device<B> {
    /// The kernels that were built for this device, to work on.
    pub fn kernels_mut(&mut self) -> (kernels: &mut KernelCache)
        ensures
            kernels@ == old(self).kernels(),
            final(self).kernels() == final(kernels)@,
            final(self).backend() == old(self).backend(),
            final(self).cache() == old(self).cache(),
            final(self).graph() == old(self).graph(),
            final(self).owned() == old(self).owned(),
            old(self).wf() ==> final(self).wf(),
    {
        &mut self.kernels
    }

    /// The kernel `entry` of `source` on this device: the one that was
    /// built before, or the one that `compiler` builds now.  A kernel is
    /// built once; a build that fails is not remembered.
    pub fn kernel<C: Compile>(&mut self, compiler: &mut C, source: &str, entry: &str) -> (r: Result<
        Kernel,
        Error,
    >)
        requires
            old(self).wf(),
        ensures
            final(self).wf(),
            final(self).backend() == old(self).backend(),
            final(self).cache() == old(self).cache(),
            final(self).graph() == old(self).graph(),
            final(self).owned() == old(self).owned(),
            old(self).kernels().contains_key((source@, entry@)) ==> {
                &&& r == Ok::<Kernel, Error>(
                    Kernel {
                        device: old(self).id(),
                        handle: old(self).kernels()[(source@, entry@)],
                    },
                )
                &&& final(self).kernels() == old(self).kernels()
                &&& *final(compiler) == *old(compiler)
            },
            !old(self).kernels().contains_key((source@, entry@)) ==> match r {
                Ok(kernel) => {
                    &&& kernel.device == old(self).id()
                    &&& final(self).kernels() == old(self).kernels().insert(
                        (source@, entry@),
                        kernel.handle,
                    )
                },
                Err(e) => e is Compile && final(self).kernels() == old(self).kernels(),
            },
            compiled(
                old(self).kernels(),
                *old(compiler),
                source,
                entry,
                final(self).kernels(),
                match r {
                    Ok(kernel) => Ok(kernel.handle),
                    Err(e) => Err(e),
                },
            ),
    {
        match self.kernels.get_or_compile(compiler, source, entry) {
            Ok(handle) => Ok(Kernel { device: self.backend.device_id(), handle }),
            Err(e) => Err(e),
        }
    }

    /// Works out the launch that `options` describes, with the kernels that
    /// were built for this device.  Fails where the launch was made for
    /// another device.
    pub fn launch<'a, C: Compile>(
        &mut self,
        options: &KernelOptions<'a, B::Elem>,
        compiler: &mut C,
    ) -> (r: Result<Launch<B::Elem>, Error>) where B::Elem: Copy
        requires
            old(self).wf(),
        ensures
            final(self).wf(),
            final(self).backend() == old(self).backend(),
            final(self).cache() == old(self).cache(),
            final(self).graph() == old(self).graph(),
            final(self).owned() == old(self).owned(),
            options.device != old(self).id() ==> {
                &&& r matches Err(e)
                &&& e == Error::DeviceMismatch
                &&& final(self).kernels() == old(self).kernels()
                &&& *final(compiler) == *old(compiler)
            },
            options.device == old(self).id() ==> {
                let key = (options.src@, options.entry@);
                &&& old(self).kernels().contains_key(key) ==> {
                    &&& r matches Ok(launch)
                    &&& launch.kernel.handle == old(self).kernels()[key]
                    &&& final(self).kernels() == old(self).kernels()
                    &&& *final(compiler) == *old(compiler)
                }
                &&& !old(self).kernels().contains_key(key) ==> match r {
                    Ok(launch) => final(self).kernels() == old(self).kernels().insert(
                        key,
                        launch.kernel.handle,
                    ),
                    Err(e) => e is Compile && final(self).kernels() == old(self).kernels(),
                }
            },
            options.device == old(self).id() ==> compiled(
                old(self).kernels(),
                *old(compiler),
                options.src,
                options.entry,
                final(self).kernels(),
                handle_of(r),
            ),
            r matches Ok(launch) ==> {
                &&& launch.kernel.device == options.device
                &&& launch.args@ == options.launch_args()
                &&& launch.wd == options.wd
                &&& launch.gws == options.gws
                &&& launch.lws == options.lws
                &&& launch.offset == options.offset
                &&& (launch.out, launch.out_len) == options.result()
            },
    {
        if options.device != self.backend.device_id() {
            return Err(Error::DeviceMismatch);
        }
        options.plan(&mut self.kernels, compiler)
    }

    /// Number of kernels that were built for this device.
    pub fn kernel_count(&self) -> (n: usize)
        ensures
            n == self.kernels().dom().len(),
    {
        self.kernels.len()
    }
}

} // verus!
