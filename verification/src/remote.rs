use crate::bounds::{
    bounds_to_range, byte_span, end_of, fits, same_length, start_of, Bound, CopyPlan,
};
use crate::buffer::{AllocFlag, Buffer};
use crate::cache::{hands_out, lookup, retrieved, served, CPUCache};
use crate::error::Error;
use crate::kernel::{compiled, Compile, Kernel, KernelCache, KernelKey};
use crate::kernel_options::{handle_of, KernelOptions, Launch};
use crate::memory::CpuPtr;
use crate::node::{AddGraph, Graph, Node};
use vstd::prelude::*;

verus! {

/// An allocator whose regions are out of reach of the host.  Nothing is
/// known of what it does, so nothing is taken for granted of what it
/// returns.
pub trait RawAlloc {
    /// A new region of `bytes` bytes, or the reason why there is none.
    fn raw_alloc(&mut self, bytes: usize) -> Result<CpuPtr, Error>;

    /// Releases the region at `ptr`.
    fn raw_free(&mut self, ptr: CpuPtr);
}

/// Whether `outcome` is what a call of `raw_alloc` for `bytes` bytes gave
/// on the allocator `before`.
pub open spec fn asked<A: RawAlloc>(before: A, bytes: usize, outcome: Result<CpuPtr, Error>) -> bool {
    exists|d: &mut A| *d == before && #[trigger] call_ensures(A::raw_alloc, (d, bytes), outcome)
}

/// Whether `raw_free` was called for the region at `ptr` on the allocator
/// `before`.
pub open spec fn freed<A: RawAlloc>(before: A, ptr: CpuPtr) -> bool {
    exists|d: &mut A| *d == before && #[trigger] call_ensures(A::raw_free, (d, ptr), ())
}

/// Whether `raw_free` was called for each of the regions at `ptrs`, in
/// order, on the allocator as it stood at that time, which `states` lists.
pub open spec fn freed_all<A: RawAlloc>(states: Seq<A>, ptrs: Seq<CpuPtr>) -> bool {
    &&& states.len() == ptrs.len()
    &&& forall|k: int| 0 <= k < ptrs.len() ==> freed(#[trigger] states[k], ptrs[k])
}

/// The number of bytes that `len` elements of `T` take, where `usize`
/// counts that many.
pub open spec fn bytes_for<T>(len: usize) -> Option<usize> {
    if len * vstd::layout::size_of::<T>() <= usize::MAX {
        Some((len * vstd::layout::size_of::<T>()) as usize)
    } else {
        None
    }
}

/// The cached buffer for `node` that comes of what the allocator answered:
/// the region that it provided, unless that is the null address.
pub open spec fn settled<T>(id: usize, node: Node, outcome: Result<CpuPtr, Error>) -> Result<
    Buffer<T>,
    Error,
> {
    match outcome {
        Ok(ptr) => if ptr.0 != 0 {
            Ok(Buffer::<T>::cached(id, ptr, node))
        } else {
            Err(Error::Allocation)
        },
        Err(_) => Err(Error::Allocation),
    }
}

/// The buffer of its own for `len` elements that comes of what the
/// allocator answered.
pub open spec fn adopted<T>(id: usize, len: usize, outcome: Result<CpuPtr, Error>) -> Result<
    Buffer<T>,
    Error,
> {
    match outcome {
        Ok(ptr) => if ptr.0 != 0 {
            Ok(Buffer::<T>::owned(id, ptr, len))
        } else {
            Err(Error::Allocation)
        },
        Err(_) => Err(Error::Allocation),
    }
}

/// The number of bytes that `len` elements of `T` take, where `usize`
/// counts that many.  This is what an allocator is asked for.
pub fn alloc_bytes<T>(len: usize) -> (r: Option<usize>)
    ensures
        r == bytes_for::<T>(len),
{
    match byte_span(0, len, core::mem::size_of::<T>()) {
        Some(span) => {
            if span.1 <= usize::MAX as u64 {
                Some(span.1 as usize)
            } else {
                None
            }
        },
        None => None,
    }
}

/// A device on top of an allocator whose regions are out of reach: the
/// graph of the current pass, the allocation cache and the kernels, without
/// a model of what the regions hold.
pub struct Remote<A: RawAlloc> {
    driver: A,
    id: usize,
    graph: Graph,
    cache: CPUCache,
    kernels: KernelCache,
}

impl<A: RawAlloc> Remote<A> {
    /// The allocator as it stands.
    pub closed spec fn driver(&self) -> A {
        self.driver
    }

    /// The number by which this device is told from others.
    pub closed spec fn id(&self) -> usize {
        self.id
    }

    /// The regions of the allocation cache, by node.
    pub closed spec fn cache(&self) -> Map<Node, CpuPtr> {
        self.cache@
    }

    /// The nodes requested so far in the current pass.
    pub closed spec fn graph(&self) -> Seq<Node> {
        self.graph@
    }

    /// The kernels that were built for this device.
    pub closed spec fn kernels(&self) -> Map<KernelKey, usize> {
        self.kernels@
    }

    pub closed spec fn wf(&self) -> bool {
        self.cache.wf() && self.graph.wf()
    }

    /// What comes of checking `buf` before it is used on this device.
    pub open spec fn check<T>(&self, buf: &Buffer<T>) -> Result<(), Error> {
        if buf.device != self.id() {
            Err(Error::DeviceMismatch)
        } else {
            Ok(())
        }
    }

    /// Whether `after` is this device with the same number, graph and
    /// kernels.
    pub open spec fn kept(&self, after: &Self) -> bool {
        &&& after.id() == self.id()
        &&& after.graph() == self.graph()
        &&& after.kernels() == self.kernels()
    }

    /// Whether `after` is this device after a retrieval of `node`, for
    /// elements of `T`, that gave `r`.  A hit hands out the cached region
    /// and leaves the allocator alone.  On a miss the allocator is asked
    /// once, for the bytes that the elements take, and what it answers
    /// decides: a region is filed and handed out, a failure or the null
    /// address is an allocation error that changes nothing in the books.
    /// Where the bytes are more than `usize` counts, the allocator is not
    /// asked.
    pub open spec fn retrieval<T>(
        &self,
        after: &Self,
        node: Node,
        r: Result<Buffer<T>, Error>,
    ) -> bool {
        &&& after.id() == self.id()
        &&& after.kernels() == self.kernels()
        &&& after.graph() == (if r is Ok {
            self.graph().push(node)
        } else {
            self.graph()
        })
        &&& r matches Ok(buf) ==> after.cache() == retrieved(self.cache(), node, buf.ptr)
            && buf.ptr == served(self.cache(), node, buf.ptr)
        &&& r is Err ==> after.cache() == self.cache()
        &&& match lookup(self.cache(), node) {
            Some(ptr) => {
                &&& r == Ok::<Buffer<T>, Error>(Buffer::<T>::cached(self.id(), ptr, node))
                &&& after.driver() == self.driver()
            },
            None => match bytes_for::<T>(node.len) {
                Some(bytes) => exists|outcome: Result<CpuPtr, Error>|
                    #[trigger] asked(self.driver(), bytes, outcome) && r == settled::<T>(
                        self.id(),
                        node,
                        outcome,
                    ),
                None => r == Err::<Buffer<T>, Error>(Error::Allocation) && after.driver()
                    == self.driver(),
            },
        }
    }

    /// A device with the number `id` on top of `driver`, with nothing
    /// cached and nothing built.
    pub fn new(driver: A, id: usize) -> (device: Self)
        ensures
            device.wf(),
            device.driver() == driver,
            device.id() == id,
            device.cache() == Map::<Node, CpuPtr>::empty(),
            device.graph() == Seq::<Node>::empty(),
            device.kernels() == Map::<KernelKey, usize>::empty(),
    {
        Remote {
            driver,
            id,
            graph: Graph::new(),
            cache: CPUCache::new(),
            kernels: KernelCache::new(),
        }
    }

    /// The allocator.
    pub fn allocator(&self) -> (a: &A)
        ensures
            *a == self.driver(),
    {
        &self.driver
    }

    /// The allocator, to work on.
    pub fn allocator_mut(&mut self) -> (a: &mut A)
        ensures
            *a == old(self).driver(),
            final(self).driver() == *final(a),
            old(self).kept(final(self)),
            final(self).cache() == old(self).cache(),
            old(self).wf() ==> final(self).wf(),
    {
        &mut self.driver
    }

    /// The number by which this device is told from others.
    pub fn device_id(&self) -> (id: usize)
        ensures
            id == self.id(),
    {
        self.id
    }

    /// Number of regions in the allocation cache.
    pub fn cache_size(&self) -> (n: usize)
        requires
            self.wf(),
        ensures
            n == self.cache().dom().len(),
    {
        self.cache.len()
    }

    /// The index that the next node gets.
    pub fn get_count(&self) -> (n: usize)
        ensures
            n == self.graph().len(),
    {
        self.graph.len()
    }

    /// Sets the index that the next node gets back to `count`; a count
    /// beyond the current one changes nothing.
    pub fn set_count(&mut self, count: usize)
        requires
            old(self).wf(),
        ensures
            final(self).wf(),
            final(self).driver() == old(self).driver(),
            final(self).id() == old(self).id(),
            final(self).cache() == old(self).cache(),
            final(self).kernels() == old(self).kernels(),
            final(self).graph() == (if count <= old(self).graph().len() {
                old(self).graph().subrange(0, count as int)
            } else {
                old(self).graph()
            }),
    {
        self.graph.set_count(count);
    }

    /// Whether `buf` is a buffer of this device.
    pub fn validate<T>(&self, buf: &Buffer<T>) -> (r: Result<(), Error>)
        ensures
            r == self.check(buf),
    {
        if buf.device != self.id {
            Err(Error::DeviceMismatch)
        } else {
            Ok(())
        }
    }

    /// What moving `len` elements to or from the front of `buf` takes: the
    /// number of bytes, or the error of the check, of more elements than
    /// the buffer has, or of more bytes than `usize` counts.
    pub open spec fn transfer<T>(&self, buf: &Buffer<T>, len: usize) -> Result<usize, Error> {
        match self.check(buf) {
            Ok(_) => match bytes_for::<T>(len) {
                Some(bytes) => if len <= buf.len {
                    Ok(bytes)
                } else {
                    Err(Error::Driver)
                },
                None => Err(Error::Driver),
            },
            Err(e) => Err(e),
        }
    }

    /// The number of bytes to ask the driver for when `buf` is read.  The
    /// buffer must have a region: a buffer with the null address is not to
    /// be read.
    pub fn read_bytes<T>(&self, buf: &Buffer<T>) -> (r: Result<usize, Error>)
        requires
            buf.ptr.0 != 0,
        ensures
            r == self.transfer(buf, buf.len),
    {
        self.write_bytes(buf, buf.len)
    }

    /// The number of bytes to hand to the driver when `len` elements are
    /// written to the front of `buf`.
    pub fn write_bytes<T>(&self, buf: &Buffer<T>, len: usize) -> (r: Result<usize, Error>)
        ensures
            r == self.transfer(buf, len),
    {
        match self.validate(buf) {
            Ok(_) => {},
            Err(e) => {
                return Err(e);
            },
        }
        match alloc_bytes::<T>(len) {
            Some(bytes) => {
                if len <= buf.len {
                    Ok(bytes)
                } else {
                    Err(Error::Driver)
                }
            },
            None => Err(Error::Driver),
        }
    }

    /// The number of bytes to have the driver copy when what `src` holds is
    /// put at the front of `dst`.
    pub fn write_buf_bytes<T>(&self, dst: &Buffer<T>, src: &Buffer<T>) -> (r: Result<usize, Error>)
        ensures
            r == (match self.check(dst) {
                Ok(_) => match self.check(src) {
                    Ok(_) => self.transfer(dst, src.len),
                    Err(e) => Err::<usize, Error>(e),
                },
                Err(e) => Err::<usize, Error>(e),
            }),
    {
        match self.validate(dst) {
            Ok(_) => {},
            Err(e) => {
                return Err(e);
            },
        }
        match self.validate(src) {
            Ok(_) => {},
            Err(e) => {
                return Err(e);
            },
        }
        self.write_bytes(dst, src.len)
    }

    /// Where to have the driver copy when the elements of `source` within
    /// `source_range` go to the positions of `dest` within `dest_range`.
    /// The two ranges must have the same length; a range that does not lie
    /// within its buffer is an error, and so are more bytes than `usize`
    /// counts.
    pub fn copy_plan<T>(
        &self,
        source: &Buffer<T>,
        source_range: (Bound, Bound),
        dest: &Buffer<T>,
        dest_range: (Bound, Bound),
    ) -> (r: Result<CopyPlan, Error>)
        requires
            same_length(source_range, source.len, dest_range, dest.len),
        ensures
            match (self.check(source), self.check(dest)) {
                (Ok(_), Ok(_)) => {
                    let size = vstd::layout::size_of::<T>();
                    let len = end_of(source_range.1, source.len) - start_of(source_range.0);
                    if fits(source_range, source.len) && fits(dest_range, dest.len) && start_of(
                        source_range.0,
                    ) * size <= usize::MAX && start_of(dest_range.0) * size <= usize::MAX && len
                        * size <= usize::MAX {
                        r == Ok::<CopyPlan, Error>(
                            CopyPlan {
                                from_at: (start_of(source_range.0) * size) as usize,
                                to_at: (start_of(dest_range.0) * size) as usize,
                                bytes: (len * size) as usize,
                            },
                        )
                    } else {
                        r == Err::<CopyPlan, Error>(Error::Driver)
                    }
                },
                (Err(e), _) => r == Err::<CopyPlan, Error>(e),
                (Ok(_), Err(e)) => r == Err::<CopyPlan, Error>(e),
            },
    {
        match self.validate(source) {
            Ok(_) => {},
            Err(e) => {
                return Err(e);
            },
        }
        match self.validate(dest) {
            Ok(_) => {},
            Err(e) => {
                return Err(e);
            },
        }
        let from = match bounds_to_range(source_range, source.len) {
            Some(range) => range,
            None => {
                return Err(Error::Driver);
            },
        };
        let to = match bounds_to_range(dest_range, dest.len) {
            Some(range) => range,
            None => {
                return Err(Error::Driver);
            },
        };
        let len = from.end - from.start;
        match (alloc_bytes::<T>(from.start), alloc_bytes::<T>(to.start), alloc_bytes::<T>(len)) {
            (Some(from_at), Some(to_at), Some(bytes)) => Ok(CopyPlan { from_at, to_at, bytes }),
            _ => Err(Error::Driver),
        }
    }

    /// Takes in what the allocator answered when it was asked for a region
    /// for `node`, which is not cached: a region is filed for the node and
    /// handed out; a failure, and the null address, is an allocation error
    /// that leaves the cache as it is.
    pub fn settle<T>(&mut self, node: Node, outcome: Result<CpuPtr, Error>) -> (r: Result<
        Buffer<T>,
        Error,
    >)
        requires
            old(self).wf(),
            !old(self).cache().contains_key(node),
        ensures
            final(self).wf(),
            old(self).kept(final(self)),
            final(self).driver() == old(self).driver(),
            r == settled::<T>(old(self).id(), node, outcome),
            final(self).cache() == (match r {
                Ok(buf) => old(self).cache().insert(node, buf.ptr),
                Err(_) => old(self).cache(),
            }),
    {
        match outcome {
            Ok(ptr) => {
                if ptr.is_null() {
                    Err(Error::Allocation)
                } else {
                    let _ = self.cache.file(node, ptr);
                    Ok(Buffer::cached(self.id, ptr, node))
                }
            },
            Err(_) => Err(Error::Allocation),
        }
    }

    /// The buffer of its own for `len` elements that comes of what the
    /// allocator answered when it was asked for a region.
    pub fn adopt<T>(&self, len: usize, outcome: Result<CpuPtr, Error>) -> (r: Result<
        Buffer<T>,
        Error,
    >)
        ensures
            r == adopted::<T>(self.id(), len, outcome),
    {
        match outcome {
            Ok(ptr) => {
                if ptr.is_null() {
                    Err(Error::Allocation)
                } else {
                    Ok(Buffer::owned(self.id, ptr, len))
                }
            },
            Err(_) => Err(Error::Allocation),
        }
    }

    /// The buffer for the next node of the pass: `len` elements, computed
    /// from what `add_node` names.  The region is the one cached for that
    /// node, or one that the allocator provides now.  Where the call fails,
    /// the node is not counted.
    pub fn retrieve<T, G: AddGraph>(&mut self, len: usize, add_node: G) -> (r: Result<
        Buffer<T>,
        Error,
    >)
        requires
            old(self).wf(),
        ensures
            final(self).wf(),
            old(self).retrieval(
                final(self),
                Node { idx: old(self).graph().len() as usize, len, parents: add_node.parents() },
                r,
            ),
            lookup(old(self).cache(), Node { idx: old(self).graph().len() as usize, len, parents: add_node.parents() })
                is None ==> match bytes_for::<T>(len) {
                Some(bytes) => exists|d: &mut A, outcome: Result<CpuPtr, Error>|
                    *d == old(self).driver() && *final(d) == final(self).driver()
                        && #[trigger] call_ensures(A::raw_alloc, (d, bytes), outcome) && r
                        == settled::<T>(
                        old(self).id(),
                        Node { idx: old(self).graph().len() as usize, len, parents: add_node.parents() },
                        outcome,
                    ),
                None => true,
            },
    {
        let count = self.graph.len();
        let node = self.graph.add(len, &add_node);
        let r = match self.cache.find(&node) {
            Some(ptr) => Ok(Buffer::cached(self.id, ptr, node)),
            None => match alloc_bytes::<T>(len) {
                Some(bytes) => {
                    let ask = A::raw_alloc;
                    let outcome = ask(&mut self.driver, bytes);
                    assert(asked(old(self).driver(), bytes, outcome));
                    self.settle(node, outcome)
                },
                None => Err(Error::Allocation),
            },
        };
        if r.is_err() {
            self.graph.set_count(count);
            assert(self.graph@ == old(self).graph@);
        }
        r
    }

    /// A cached buffer of `len` elements that is computed from nothing
    /// earlier.
    pub fn cached<T>(&mut self, len: usize) -> (r: Result<Buffer<T>, Error>)
        requires
            old(self).wf(),
        ensures
            final(self).wf(),
            old(self).retrieval(
                final(self),
                Node { idx: old(self).graph().len() as usize, len, parents: None },
                r,
            ),
            lookup(old(self).cache(), Node { idx: old(self).graph().len() as usize, len, parents: None })
                is None ==> match bytes_for::<T>(len) {
                Some(bytes) => exists|d: &mut A, outcome: Result<CpuPtr, Error>|
                    *d == old(self).driver() && *final(d) == final(self).driver()
                        && #[trigger] call_ensures(A::raw_alloc, (d, bytes), outcome) && r
                        == settled::<T>(
                        old(self).id(),
                        Node { idx: old(self).graph().len() as usize, len, parents: None },
                        outcome,
                    ),
                None => true,
            },
    {
        self.retrieve(len, ())
    }

    /// A buffer that owns a region which the allocator provides now.  The
    /// allocator is asked once, for the bytes that the elements take, and
    /// not at all where those are more than `usize` counts.
    pub fn buffer<T>(&mut self, len: usize) -> (r: Result<Buffer<T>, Error>)
        ensures
            old(self).kept(final(self)),
            final(self).cache() == old(self).cache(),
            old(self).wf() ==> final(self).wf(),
            match bytes_for::<T>(len) {
                Some(bytes) => exists|d: &mut A, outcome: Result<CpuPtr, Error>|
                    *d == old(self).driver() && *final(d) == final(self).driver()
                        && #[trigger] call_ensures(A::raw_alloc, (d, bytes), outcome) && r
                        == adopted::<T>(old(self).id(), len, outcome),
                None => r == Err::<Buffer<T>, Error>(Error::Allocation) && final(self).driver()
                    == old(self).driver(),
            },
    {
        match alloc_bytes::<T>(len) {
            Some(bytes) => {
                let ask = A::raw_alloc;
                let outcome = ask(&mut self.driver, bytes);
                assert(asked(old(self).driver(), bytes, outcome));
                self.adopt(len, outcome)
            },
            None => Err(Error::Allocation),
        }
    }

    /// The region that is released when `buf` is dropped: its own, where
    /// the buffer owns it, and none where the buffer is cached, borrowed or
    /// stored inline.
    pub fn release_of<T>(&self, buf: &Buffer<T>) -> (r: Result<Option<CpuPtr>, Error>)
        ensures
            r == (match self.check(buf) {
                Ok(_) => Ok::<Option<CpuPtr>, Error>(
                    if buf.flag == AllocFlag::Owned {
                        Some(buf.ptr)
                    } else {
                        None
                    },
                ),
                Err(e) => Err::<Option<CpuPtr>, Error>(e),
            }),
    {
        match self.validate(buf) {
            Ok(_) => {},
            Err(e) => {
                return Err(e);
            },
        }
        match buf.flag {
            AllocFlag::Owned => Ok(Some(buf.ptr)),
            _ => Ok(None),
        }
    }

    /// Ends the life of `buf`.  The region of a buffer that owns it is
    /// released by one call of the allocator; a cached or a borrowed buffer
    /// leaves the allocator alone, and so does a buffer of another device.
    pub fn drop_buf<T>(&mut self, buf: Buffer<T>) -> (r: Result<(), Error>)
        ensures
            r == old(self).check(&buf),
            old(self).kept(final(self)),
            final(self).cache() == old(self).cache(),
            old(self).wf() ==> final(self).wf(),
            if r is Ok && buf.flag == AllocFlag::Owned {
                exists|d: &mut A|
                    *d == old(self).driver() && *final(d) == final(self).driver()
                        && #[trigger] call_ensures(A::raw_free, (d, buf.ptr), ())
            } else {
                final(self).driver() == old(self).driver()
            },
    {
        match self.release_of(&buf) {
            Ok(Some(ptr)) => {
                let free = A::raw_free;
                free(&mut self.driver, ptr);
                Ok(())
            },
            Ok(None) => Ok(()),
            Err(e) => Err(e),
        }
    }

    /// Empties the allocation cache and hands out the regions that it
    /// held, each once, for the caller to release.
    pub fn drain(&mut self) -> (ptrs: Vec<CpuPtr>)
        requires
            old(self).wf(),
        ensures
            final(self).wf(),
            old(self).kept(final(self)),
            final(self).driver() == old(self).driver(),
            final(self).cache() == Map::<Node, CpuPtr>::empty(),
            hands_out(old(self).cache(), ptrs@),
    {
        self.cache.drain()
    }

    /// Releases every cached region, each by one call of the allocator,
    /// and empties the allocation cache.
    pub fn clear_cache(&mut self)
        requires
            old(self).wf(),
        ensures
            final(self).wf(),
            old(self).kept(final(self)),
            final(self).cache() == Map::<Node, CpuPtr>::empty(),
            old(self).cache() == Map::<Node, CpuPtr>::empty() ==> final(self).driver() == old(
                self,
            ).driver(),
            exists|ptrs: Seq<CpuPtr>, states: Seq<A>|
                hands_out(old(self).cache(), ptrs) && #[trigger] freed_all(states, ptrs) && (
                ptrs.len() > 0 ==> states[0] == old(self).driver()),
    {
        let ptrs = self.drain();
        let ghost mut states: Seq<A> = Seq::empty();
        let mut i: usize = 0;
        while i < ptrs.len()
            invariant
                i <= ptrs@.len(),
                self.wf(),
                old(self).kept(self),
                self.cache() == Map::<Node, CpuPtr>::empty(),
                freed_all(states, ptrs@.take(i as int)),
                i == 0 ==> self.driver() == old(self).driver(),
                i > 0 ==> states[0] == old(self).driver(),
            decreases ptrs@.len() - i,
        {
            let ghost mid = self.driver();
            let free = A::raw_free;
            free(&mut self.driver, ptrs[i]);
            proof {
                assert(freed(mid, ptrs@[i as int]));
                states = states.push(mid);
            }
            i = i + 1;
        }
        assert(ptrs@.take(i as int) == ptrs@);
    }

    /// Ends the life of the device: releases every cached region, each by
    /// one call of the allocator, and hands the allocator back.
    pub fn teardown(self) -> (driver: A)
        requires
            self.wf(),
        ensures
            self.cache() == Map::<Node, CpuPtr>::empty() ==> driver == self.driver(),
            exists|ptrs: Seq<CpuPtr>, states: Seq<A>|
                hands_out(self.cache(), ptrs) && #[trigger] freed_all(states, ptrs) && (ptrs.len()
                    > 0 ==> states[0] == self.driver()),
    {
        let mut device = self;
        device.clear_cache();
        device.driver
    }

    /// The kernels that were built for this device, to work on.
    pub fn kernels_mut(&mut self) -> (kernels: &mut KernelCache)
        ensures
            kernels@ == old(self).kernels(),
            final(self).kernels() == final(kernels)@,
            final(self).driver() == old(self).driver(),
            final(self).id() == old(self).id(),
            final(self).cache() == old(self).cache(),
            final(self).graph() == old(self).graph(),
            old(self).wf() ==> final(self).wf(),
    {
        &mut self.kernels
    }

    /// The kernel `entry` of `source` on this device: the one that was
    /// built before, or the one that `compiler` builds now.
    pub fn kernel<C: Compile>(&mut self, compiler: &mut C, source: &str, entry: &str) -> (r: Result<
        Kernel,
        Error,
    >)
        ensures
            final(self).driver() == old(self).driver(),
            final(self).id() == old(self).id(),
            final(self).cache() == old(self).cache(),
            final(self).graph() == old(self).graph(),
            old(self).wf() ==> final(self).wf(),
            old(self).kernels().contains_key((source@, entry@)) ==> {
                &&& r == Ok::<Kernel, Error>(
                    Kernel {
                        device: old(self).id(),
                        handle: old(self).kernels()[(source@, entry@)],
                    },
                )
                &&& final(self).kernels() == old(self).kernels()
                &&& *final(compiler) == *old(compiler)
            },
            !old(self).kernels().contains_key((source@, entry@)) ==> match r {
                Ok(kernel) => {
                    &&& kernel.device == old(self).id()
                    &&& final(self).kernels() == old(self).kernels().insert(
                        (source@, entry@),
                        kernel.handle,
                    )
                },
                Err(e) => e is Compile && final(self).kernels() == old(self).kernels(),
            },
            compiled(
                old(self).kernels(),
                *old(compiler),
                source,
                entry,
                final(self).kernels(),
                match r {
                    Ok(kernel) => Ok(kernel.handle),
                    Err(e) => Err(e),
                },
            ),
    {
        match self.kernels.get_or_compile(compiler, source, entry) {
            Ok(handle) => Ok(Kernel { device: self.id, handle }),
            Err(e) => Err(e),
        }
    }

    /// Works out the launch that `options` describes, with the kernels that
    /// were built for this device.  Fails where the launch was made for
    /// another device.
    pub fn launch<'a, T: Copy, C: Compile>(
        &mut self,
        options: &KernelOptions<'a, T>,
        compiler: &mut C,
    ) -> (r: Result<Launch<T>, Error>)
        ensures
            final(self).driver() == old(self).driver(),
            final(self).id() == old(self).id(),
            final(self).cache() == old(self).cache(),
            final(self).graph() == old(self).graph(),
            old(self).wf() ==> final(self).wf(),
            options.device != old(self).id() ==> {
                &&& r matches Err(e)
                &&& e == Error::DeviceMismatch
                &&& final(self).kernels() == old(self).kernels()
                &&& *final(compiler) == *old(compiler)
            },
            options.device == old(self).id() ==> {
                let key = (options.src@, options.entry@);
                &&& old(self).kernels().contains_key(key) ==> {
                    &&& r matches Ok(launch)
                    &&& launch.kernel.handle == old(self).kernels()[key]
                    &&& final(self).kernels() == old(self).kernels()
                    &&& *final(compiler) == *old(compiler)
                }
                &&& !old(self).kernels().contains_key(key) ==> match r {
                    Ok(launch) => final(self).kernels() == old(self).kernels().insert(
                        key,
                        launch.kernel.handle,
                    ),
                    Err(e) => e is Compile && final(self).kernels() == old(self).kernels(),
                }
            },
            options.device == old(self).id() ==> compiled(
                old(self).kernels(),
                *old(compiler),
                options.src,
                options.entry,
                final(self).kernels(),
                handle_of(r),
            ),
            r matches Ok(launch) ==> {
                &&& launch.kernel.device == options.device
                &&& launch.args@ == options.launch_args()
                &&& launch.wd == options.wd
                &&& launch.gws == options.gws
                &&& launch.lws == options.lws
                &&& launch.offset == options.offset
                &&& (launch.out, launch.out_len) == options.result()
            },
    {
        if options.device != self.id {
            return Err(Error::DeviceMismatch);
        }
        options.plan(&mut self.kernels, compiler)
    }
}

} // verus!
