use crate::error::Error;
use vstd::prelude::*;

verus! {

/// Address of a region in a backend's memory.  No live region has address 0.
#[derive(Debug, Clone, Copy, PartialEq, Eq, PartialOrd, Ord, Hash, Structural)]
pub struct CpuPtr(pub usize);

impl CpuPtr {
    /// The address that no region has.
    pub fn null() -> (p: CpuPtr)
        ensures
            p.0 == 0,
    {
        CpuPtr(0)
    }

    /// Whether this is the address that no region has.
    pub fn is_null(&self) -> (r: bool)
        ensures
            r == (self.0 == 0),
    {
        self.0 == 0
    }
}

/// `target` with the elements from `start` on replaced by those of `part`.
pub open spec fn splice<T>(target: Seq<T>, start: int, part: Seq<T>) -> Seq<T> {
    Seq::new(
        target.len(),
        |i: int|
            if start <= i < start + part.len() {
                part[i - start]
            } else {
                target[i]
            },
    )
}

/// Number of elements in all the regions of `heap` together.
pub open spec fn total_len<T>(heap: Map<usize, Seq<T>>) -> nat
    decreases heap.dom().len(),
    when heap.dom().finite()
{
    if heap.dom().len() == 0 {
        0
    } else {
        let a = heap.dom().choose();
        heap[a].len() + total_len(heap.remove(a))
    }
}

/// The total counts each region once, whichever region is taken out first.
pub proof fn lemma_total_len_remove<T>(heap: Map<usize, Seq<T>>, a: usize)
    requires
        heap.dom().finite(),
        heap.contains_key(a),
    ensures
        total_len(heap) == heap[a].len() + total_len(heap.remove(a)),
    decreases heap.dom().len(),
{
    let c = heap.dom().choose();
    if c != a {
        lemma_total_len_remove(heap.remove(c), a);
        lemma_total_len_remove(heap.remove(a), c);
        assert(heap.remove(c).remove(a) == heap.remove(a).remove(c));
    }
}

/// A new region adds its length to the total.
pub proof fn lemma_total_len_insert<T>(heap: Map<usize, Seq<T>>, a: usize, region: Seq<T>)
    requires
        heap.dom().finite(),
    ensures
        total_len(heap.insert(a, region)) == region.len() + total_len(heap.remove(a)),
{
    lemma_total_len_remove(heap.insert(a, region), a);
    assert(heap.insert(a, region).remove(a) == heap.remove(a));
}

/// Whether a backend with this heap, this capacity and this count of
/// allocations can provide one more region of `len` elements: the live
/// regions stay within the capacity, and the count does not run out.
pub open spec fn room<T>(
    heap: Map<usize, Seq<T>>,
    capacity: nat,
    allocations: nat,
    len: usize,
) -> bool {
    &&& total_len(heap) + len <= capacity
    &&& allocations + 2 <= usize::MAX
}

/// Whether `backend` can provide one more region of `len` elements.
pub open spec fn has_room<D: Alloc>(backend: &D, len: usize) -> bool {
    room(backend.heap(), backend.capacity(), backend.allocations(), len)
}

/// Whether `after` is `before` some operations later, `provided` of which
/// provided a region: the number and the capacity are the same, and the
/// count of allocations has gone up by `provided`.
pub open spec fn booked<D: Alloc>(before: &D, after: &D, provided: nat) -> bool {
    &&& after.id() == before.id()
    &&& after.capacity() == before.capacity()
    &&& after.allocations() == before.allocations() + provided
}

/// Whether the live regions of `after` hold `by` elements more than those
/// of `before`.
pub open spec fn grown<D: Alloc>(before: &D, after: &D, by: int) -> bool {
    total_len(after.heap()) == total_len(before.heap()) + by
}

/// Whether `x` is a value that `T::default()` may return.
pub open spec fn is_default<T: Default>(x: T) -> bool {
    call_ensures(T::default, (), x)
}

/// A backend that hands out regions of elements and takes them back.
///
/// The model of a backend is its heap: the contents of every live region,
/// by address.  Operations that a backend queues are part of the heap as
/// soon as they are issued; a backend that runs them later has to finish
/// them before anything reads the region.
///
/// A backend has a capacity, and an allocation fails exactly where the
/// capacity or the count of allocations is exhausted.  Likewise the other
/// operations fail exactly where they are given an address without a live
/// region, or a length or a position that does not fit the region.
pub trait Alloc: Sized {
    type Elem;

    /// The live regions and what they hold.
    spec fn heap(&self) -> Map<usize, Seq<Self::Elem>>;

    spec fn wf(&self) -> bool;

    /// The number by which this backend is told from others.
    spec fn id(&self) -> usize;

    /// Number of elements that the live regions may hold together.
    spec fn capacity(&self) -> nat;

    /// Number of regions provided so far, released ones included.
    spec fn allocations(&self) -> nat;

    /// The heap is finite, holds nothing at address 0 and stays within the
    /// capacity.
    proof fn lemma_heap(&self)
        requires
            self.wf(),
        ensures
            self.heap().dom().finite(),
            !self.heap().contains_key(0),
            total_len(self.heap()) <= self.capacity(),
    ;

    /// The number by which this backend is told from others.
    fn device_id(&self) -> (r: usize)
        ensures
            r == self.id(),
    ;

    /// Provides a region of `len` elements whose contents are unspecified.
    fn allocate(&mut self, len: usize) -> (r: Result<CpuPtr, Error>)
        requires
            old(self).wf(),
        ensures
            final(self).wf(),
            final(self).id() == old(self).id(),
            final(self).capacity() == old(self).capacity(),
            final(self).allocations() == old(self).allocations() + (if r is Ok {
                1nat
            } else {
                0nat
            }),
            r is Ok ==> total_len(final(self).heap()) == total_len(old(self).heap()) + len,
            r is Ok <==> room(old(self).heap(), old(self).capacity(), old(self).allocations(), len),
            match r {
                Ok(ptr) => {
                    &&& ptr.0 != 0
                    &&& !old(self).heap().contains_key(ptr.0)
                    &&& final(self).heap() == old(self).heap().insert(
                        ptr.0,
                        final(self).heap()[ptr.0],
                    )
                    &&& final(self).heap()[ptr.0].len() == len
                },
                Err(e) => e == Error::Allocation && final(self).heap() == old(self).heap(),
            },
    ;

    /// Provides a region that holds a copy of `data`.
    fn alloc_with_data(&mut self, data: &[Self::Elem]) -> (r: Result<CpuPtr, Error>)
        requires
            old(self).wf(),
        ensures
            final(self).wf(),
            final(self).id() == old(self).id(),
            final(self).capacity() == old(self).capacity(),
            final(self).allocations() == old(self).allocations() + (if r is Ok {
                1nat
            } else {
                0nat
            }),
            r is Ok ==> total_len(final(self).heap()) == total_len(old(self).heap()) + data@.len(),
            r is Ok <==> room(
                old(self).heap(),
                old(self).capacity(),
                old(self).allocations(),
                data.len(),
            ),
            match r {
                Ok(ptr) => {
                    &&& ptr.0 != 0
                    &&& !old(self).heap().contains_key(ptr.0)
                    &&& final(self).heap() == old(self).heap().insert(ptr.0, data@)
                },
                Err(e) => e == Error::Allocation && final(self).heap() == old(self).heap(),
            },
    ;

    /// Gives the region at `ptr` back.  Fails, and changes nothing, where
    /// no live region has that address.
    fn dealloc(&mut self, ptr: CpuPtr) -> (r: Result<(), Error>)
        requires
            old(self).wf(),
        ensures
            final(self).wf(),
            final(self).id() == old(self).id(),
            final(self).capacity() == old(self).capacity(),
            final(self).allocations() == old(self).allocations(),
            r is Ok ==> total_len(final(self).heap()) + old(self).heap()[ptr.0].len() == total_len(
                old(self).heap(),
            ),
            r is Ok <==> old(self).heap().contains_key(ptr.0),
            r is Err ==> r == Err::<(), Error>(Error::Driver),
            final(self).heap() == old(self).heap().remove(ptr.0),
    ;

    /// The length of the live region at `ptr`, if there is one.
    fn region_len(&self, ptr: CpuPtr) -> (r: Option<usize>)
        requires
            self.wf(),
        ensures
            r == (if self.heap().contains_key(ptr.0) {
                Some(self.heap()[ptr.0].len() as usize)
            } else {
                None
            }),
            r is Some ==> r->0 == self.heap()[ptr.0].len(),
    ;
}

/// Copying a region out to the host.  A backend that queues its work has
/// to wait here until everything issued before has been carried out.
pub trait Read: Alloc {
    fn read(&self, ptr: CpuPtr) -> (r: Result<Vec<Self::Elem>, Error>)
        requires
            self.wf(),
        ensures
            r is Ok <==> self.heap().contains_key(ptr.0),
            match r {
                Ok(v) => v@ == self.heap()[ptr.0],
                Err(e) => e == Error::Driver,
            },
    ;
}

/// Filling a region from the host or from another region.
pub trait WriteBuf: Alloc {
    /// Puts `data` at the front of the region at `ptr`; what the region
    /// holds behind it stays.  The data must not be longer than the region.
    fn write(&mut self, ptr: CpuPtr, data: &[Self::Elem]) -> (r: Result<(), Error>)
        requires
            old(self).wf(),
        ensures
            final(self).wf(),
            final(self).id() == old(self).id(),
            final(self).capacity() == old(self).capacity(),
            final(self).allocations() == old(self).allocations(),
            total_len(final(self).heap()) == total_len(old(self).heap()),
            r is Ok <==> old(self).heap().contains_key(ptr.0) && data@.len() <= old(
                self,
            ).heap()[ptr.0].len(),
            match r {
                Ok(_) => final(self).heap() == old(self).heap().insert(
                    ptr.0,
                    splice(old(self).heap()[ptr.0], 0, data@),
                ),
                Err(e) => e == Error::Driver && final(self).heap() == old(self).heap(),
            },
    ;

    /// Puts what the region at `src` holds at the front of the region at
    /// `dst`; what that region holds behind it stays.  The source must not
    /// be longer than the destination.
    fn write_buf(&mut self, dst: CpuPtr, src: CpuPtr) -> (r: Result<(), Error>)
        requires
            old(self).wf(),
        ensures
            final(self).wf(),
            final(self).id() == old(self).id(),
            final(self).capacity() == old(self).capacity(),
            final(self).allocations() == old(self).allocations(),
            total_len(final(self).heap()) == total_len(old(self).heap()),
            r is Ok <==> {
                &&& old(self).heap().contains_key(dst.0)
                &&& old(self).heap().contains_key(src.0)
                &&& old(self).heap()[src.0].len() <= old(self).heap()[dst.0].len()
            },
            match r {
                Ok(_) => final(self).heap() == old(self).heap().insert(
                    dst.0,
                    splice(old(self).heap()[dst.0], 0, old(self).heap()[src.0]),
                ),
                Err(e) => e == Error::Driver && final(self).heap() == old(self).heap(),
            },
    ;
}

/// Resetting a region to default values.
pub trait ClearBuf: Alloc where Self::Elem: Default {
    fn clear(&mut self, ptr: CpuPtr) -> (r: Result<(), Error>)
        requires
            old(self).wf(),
        ensures
            final(self).wf(),
            final(self).id() == old(self).id(),
            final(self).capacity() == old(self).capacity(),
            final(self).allocations() == old(self).allocations(),
            total_len(final(self).heap()) == total_len(old(self).heap()),
            r is Ok <==> old(self).heap().contains_key(ptr.0),
            match r {
                Ok(_) => {
                    &&& final(self).heap() == old(self).heap().insert(
                        ptr.0,
                        final(self).heap()[ptr.0],
                    )
                    &&& final(self).heap()[ptr.0].len() == old(self).heap()[ptr.0].len()
                    &&& forall|i: int|
                        0 <= i < final(self).heap()[ptr.0].len() ==> is_default(
                            #[trigger] final(self).heap()[ptr.0][i],
                        )
                },
                Err(e) => e == Error::Driver && final(self).heap() == old(self).heap(),
            },
    ;
}

/// Copying part of one region into part of another.
pub trait CopySlice: Alloc {
    /// Copies `len` elements, from position `src_start` of the region at
    /// `src` to position `dst_start` of the region at `dst`.  Both ranges
    /// must lie within their regions.  The two regions may be the same:
    /// what is copied is what the source held before the call.
    fn copy_slice(
        &mut self,
        src: CpuPtr,
        src_start: usize,
        dst: CpuPtr,
        dst_start: usize,
        len: usize,
    ) -> (r: Result<(), Error>)
        requires
            old(self).wf(),
        ensures
            final(self).wf(),
            final(self).id() == old(self).id(),
            final(self).capacity() == old(self).capacity(),
            final(self).allocations() == old(self).allocations(),
            total_len(final(self).heap()) == total_len(old(self).heap()),
            r is Ok <==> {
                &&& old(self).heap().contains_key(src.0)
                &&& old(self).heap().contains_key(dst.0)
                &&& src_start + len <= old(self).heap()[src.0].len()
                &&& dst_start + len <= old(self).heap()[dst.0].len()
            },
            match r {
                Ok(_) => final(self).heap() == old(self).heap().insert(
                    dst.0,
                    splice(
                        old(self).heap()[dst.0],
                        dst_start as int,
                        old(self).heap()[src.0].subrange(src_start as int, src_start + len),
                    ),
                ),
                Err(e) => e == Error::Driver && final(self).heap() == old(self).heap(),
            },
    ;
}

/// Regions that the host can address element by element, without copying
/// the region out first.
pub trait MainMemory: Alloc {
    /// The element at position `i` of the region at `ptr`.
    fn load(&self, ptr: CpuPtr, i: usize) -> (r: Result<Self::Elem, Error>)
        requires
            self.wf(),
        ensures
            r is Ok <==> self.heap().contains_key(ptr.0) && i < self.heap()[ptr.0].len(),
            match r {
                Ok(x) => x == self.heap()[ptr.0][i as int],
                Err(e) => e == Error::Driver,
            },
    ;

    /// Puts `value` at position `i` of the region at `ptr`.
    fn store(&mut self, ptr: CpuPtr, i: usize, value: Self::Elem) -> (r: Result<(), Error>)
        requires
            old(self).wf(),
        ensures
            final(self).wf(),
            final(self).id() == old(self).id(),
            final(self).capacity() == old(self).capacity(),
            final(self).allocations() == old(self).allocations(),
            total_len(final(self).heap()) == total_len(old(self).heap()),
            r is Ok <==> old(self).heap().contains_key(ptr.0) && i < old(self).heap()[ptr.0].len(),
            match r {
                Ok(_) => final(self).heap() == old(self).heap().insert(
                    ptr.0,
                    old(self).heap()[ptr.0].update(i as int, value),
                ),
                Err(e) => e == Error::Driver && final(self).heap() == old(self).heap(),
            },
    ;
}

} // verus!
