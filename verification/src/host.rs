use crate::error::Error;
use crate::memory::{
    is_default, lemma_total_len_insert, lemma_total_len_remove, splice, total_len, Alloc, ClearBuf,
    CopySlice, CpuPtr, MainMemory, Read, WriteBuf,
};
use std::collections::HashMap;
use vstd::prelude::*;
use vstd::slice::{slice_subrange, slice_to_vec};

verus! {

broadcast use vstd::std_specs::hash::group_hash_axioms;

/// So many default values.
fn defaults<T: Default>(len: usize) -> (region: Vec<T>)
    ensures
        region@.len() == len,
        forall|i: int| 0 <= i < len ==> is_default(#[trigger] region@[i]),
{
    let mut region: Vec<T> = Vec::new();
    while region.len() < len
        invariant
            region@.len() <= len,
            forall|i: int| 0 <= i < region@.len() ==> is_default(#[trigger] region@[i]),
        decreases len - region@.len(),
    {
        region.push(T::default());
    }
    region
}

/// `target` with the elements from `start` on replaced by those of `part`.
fn overlay<T: Copy>(target: Vec<T>, start: usize, part: &[T]) -> (r: Vec<T>)
    requires
        start + part@.len() <= target@.len(),
    ensures
        r@ == splice(target@, start as int, part@),
{
    let mut target = target;
    let ghost before = target@;
    let mut i: usize = 0;
    while i < part.len()
        invariant
            i <= part@.len(),
            target@.len() == before.len(),
            start + part@.len() <= target.len(),
            target@ == splice(before, start as int, part@.subrange(0, i as int)),
        decreases part@.len() - i,
    {
        target.set(start + i, part[i]);
        i = i + 1;
    }
    assert(part@.subrange(0, part@.len() as int) == part@);
    target
}

/// Memory of the host: regions of `T` in main memory, found by address.
///
/// Addresses are given out in increasing order and never a second time, so
/// a handle to a released region cannot come to name a later one.
pub struct HostMemory<T> {
    regions: HashMap<usize, Vec<T>>,
    /// The address that the next region gets.
    next: usize,
    /// Elements in live regions.
    used: usize,
    /// Elements that the live regions may hold together.
    capacity: usize,
    /// The number by which this heap is told from others.
    id: usize,
}

impl<T> HostMemory<T> {
    /// The regions as sequences.
    spec fn regions_view(&self) -> Map<usize, Seq<T>> {
        Map::new(|a: usize| self.regions@.contains_key(a), |a: usize| self.regions@[a]@)
    }

    /// Addresses lie below the next one, and the elements of the live
    /// regions are counted and within the capacity.
    spec fn inv(&self) -> bool {
        &&& 1 <= self.next
        &&& self.used <= self.capacity
        &&& self.used == total_len(self.regions_view())
        &&& forall|a: usize| #[trigger] self.regions@.contains_key(a) ==> 1 <= a < self.next
    }

    /// What the invariant says in terms of the model.
    proof fn lemma_inv(&self)
        requires
            self.inv(),
        ensures
            self.regions_view().dom().finite(),
            !self.regions_view().contains_key(0),
            self.used == total_len(self.regions_view()),
            self.used <= self.capacity,
            self.regions_view().dom().len() <= self.next - 1,
    {
        assert(self.regions_view().dom() == self.regions@.dom());
        let below = Set::new(|a: usize| 1 <= a < self.next);
        let ints = vstd::set_lib::set_int_range(1, self.next as int);
        vstd::set_lib::lemma_int_range(1, self.next as int);
        assert(below == ints.map(|i: int| i as usize)) by {
            assert forall|a: usize| below.contains(a) implies ints.map(|i: int| i as usize).contains(
                a,
            ) by {
                assert(ints.contains(a as int));
            }
        }
        ints.lemma_map_finite(|i: int| i as usize);
        vstd::set_lib::lemma_map_size_bound(ints, below, |i: int| i as usize);
        vstd::set_lib::lemma_len_subset(self.regions@.dom(), below);
    }
}

impl<T: Copy + Default> HostMemory<T> {
    /// An empty heap that holds as much as the address space allows.
    pub fn new() -> (m: Self)
        ensures
            m.wf(),
            m.id() == 0,
            m.heap() == Map::<usize, Seq<T>>::empty(),
            m.capacity() == usize::MAX,
            m.allocations() == 0,
    {
        Self::with_capacity(0, usize::MAX)
    }

    /// An empty heap with the number `id`, whose live regions may hold
    /// `capacity` elements together.
    pub fn with_capacity(id: usize, capacity: usize) -> (m: Self)
        ensures
            m.wf(),
            m.id() == id,
            m.heap() == Map::<usize, Seq<T>>::empty(),
            m.capacity() == capacity,
            m.allocations() == 0,
    {
        let m = HostMemory { regions: HashMap::new(), next: 1, used: 0, capacity, id };
        assert(m.regions_view() == Map::<usize, Seq<T>>::empty());
        m
    }

    /// Number of live regions.
    pub fn live(&self) -> (n: usize)
        requires
            self.wf(),
        ensures
            n == self.heap().dom().len(),
    {
        assert(self.regions_view().dom() == self.regions@.dom());
        self.regions.len()
    }

    /// Regions handed out so far, released ones included.
    pub fn allocation_count(&self) -> (n: usize)
        requires
            self.wf(),
        ensures
            n == self.allocations(),
    {
        self.next - 1
    }

    /// Elements in live regions.
    pub fn used_elements(&self) -> (n: usize)
        requires
            self.wf(),
        ensures
            n == total_len(self.heap()),
    {
        self.used
    }

    /// Registers `region` under a new address.
    fn place(&mut self, region: Vec<T>) -> (ptr: CpuPtr)
        requires
            old(self).inv(),
            old(self).used + region@.len() <= old(self).capacity,
            old(self).next < usize::MAX,
        ensures
            final(self).inv(),
            ptr.0 != 0,
            !old(self).regions_view().contains_key(ptr.0),
            final(self).regions_view() == old(self).regions_view().insert(ptr.0, region@),
            final(self).used == old(self).used + region@.len(),
            final(self).next == old(self).next + 1,
            final(self).capacity == old(self).capacity,
            final(self).id == old(self).id,
    {
        let addr = self.next;
        let len = region.len();
        proof {
            self.lemma_inv();
            lemma_total_len_insert(self.regions_view(), addr, region@);
            assert(self.regions_view().remove(addr) == self.regions_view());
        }
        self.regions.insert(addr, region);
        self.next = addr + 1;
        self.used = self.used + len;
        assert(self.regions_view() == old(self).regions_view().insert(addr, region@));
        CpuPtr(addr)
    }

    /// Puts `region` in the place of the region at `addr`, which has the
    /// same length.
    fn replace(&mut self, addr: usize, region: Vec<T>)
        requires
            old(self).inv(),
            old(self).regions_view().contains_key(addr),
            old(self).regions_view()[addr].len() == region@.len(),
        ensures
            final(self).inv(),
            final(self).regions_view() == old(self).regions_view().insert(addr, region@),
            final(self).used == old(self).used,
            final(self).next == old(self).next,
            final(self).capacity == old(self).capacity,
            final(self).id == old(self).id,
    {
        proof {
            self.lemma_inv();
            lemma_total_len_remove(self.regions_view(), addr);
            lemma_total_len_insert(self.regions_view(), addr, region@);
        }
        self.regions.insert(addr, region);
        assert(self.regions_view() == old(self).regions_view().insert(addr, region@));
    }
}

impl<T: Copy + Default> Alloc for HostMemory<T> {
    type Elem = T;

    closed spec fn heap(&self) -> Map<usize, Seq<T>> {
        self.regions_view()
    }

    closed spec fn wf(&self) -> bool {
        self.inv()
    }

    closed spec fn id(&self) -> usize {
        self.id
    }

    fn device_id(&self) -> (r: usize) {
        self.id
    }

    closed spec fn capacity(&self) -> nat {
        self.capacity as nat
    }

    closed spec fn allocations(&self) -> nat {
        (self.next - 1) as nat
    }

    proof fn lemma_heap(&self) {
        self.lemma_inv();
    }

    /// The new region holds default values.
    fn allocate(&mut self, len: usize) -> (r: Result<CpuPtr, Error>)
        ensures
            r is Err ==> *final(self) == *old(self),
            r matches Ok(ptr) ==> forall|i: int|
                0 <= i < len ==> is_default(#[trigger] final(self).heap()[ptr.0][i]),
    {
        if len > self.capacity - self.used || self.next == usize::MAX {
            return Err(Error::Allocation);
        }
        let ptr = self.place(defaults(len));
        Ok(ptr)
    }

    fn alloc_with_data(&mut self, data: &[T]) -> (r: Result<CpuPtr, Error>)
        ensures
            r is Err ==> *final(self) == *old(self),
    {
        if data.len() > self.capacity - self.used || self.next == usize::MAX {
            return Err(Error::Allocation);
        }
        let ptr = self.place(slice_to_vec(data));
        Ok(ptr)
    }

    fn dealloc(&mut self, ptr: CpuPtr) -> (r: Result<(), Error>) {
        proof {
            self.lemma_inv();
        }
        match self.regions.remove(&ptr.0) {
            Some(region) => {
                proof {
                    lemma_total_len_remove(old(self).regions_view(), ptr.0);
                }
                assert(self.regions_view() == old(self).regions_view().remove(ptr.0));
                self.used = self.used - region.len();
                Ok(())
            },
            None => {
                assert(self.regions@ == old(self).regions@);
                Err(Error::Driver)
            },
        }
    }

    fn region_len(&self, ptr: CpuPtr) -> (r: Option<usize>) {
        match self.regions.get(&ptr.0) {
            Some(region) => Some(region.len()),
            None => None,
        }
    }
}

impl<T: Copy + Default> Read for HostMemory<T> {
    fn read(&self, ptr: CpuPtr) -> (r: Result<Vec<T>, Error>) {
        match self.regions.get(&ptr.0) {
            Some(region) => Ok(slice_to_vec(region.as_slice())),
            None => Err(Error::Driver),
        }
    }
}

impl<T: Copy + Default> WriteBuf for HostMemory<T> {
    fn write(&mut self, ptr: CpuPtr, data: &[T]) -> (r: Result<(), Error>) {
        let target = match self.regions.get(&ptr.0) {
            Some(region) => {
                if data.len() > region.len() {
                    return Err(Error::Driver);
                }
                slice_to_vec(region.as_slice())
            },
            None => {
                return Err(Error::Driver);
            },
        };
        self.replace(ptr.0, overlay(target, 0, data));
        Ok(())
    }

    fn write_buf(&mut self, dst: CpuPtr, src: CpuPtr) -> (r: Result<(), Error>) {
        let target = match self.regions.get(&dst.0) {
            Some(region) => slice_to_vec(region.as_slice()),
            None => {
                return Err(Error::Driver);
            },
        };
        let part = match self.regions.get(&src.0) {
            Some(region) => {
                if region.len() > target.len() {
                    return Err(Error::Driver);
                }
                slice_to_vec(region.as_slice())
            },
            None => {
                return Err(Error::Driver);
            },
        };
        self.replace(dst.0, overlay(target, 0, part.as_slice()));
        Ok(())
    }
}

impl<T: Copy + Default> ClearBuf for HostMemory<T> {
    fn clear(&mut self, ptr: CpuPtr) -> (r: Result<(), Error>) {
        let len = match self.regions.get(&ptr.0) {
            Some(region) => region.len(),
            None => {
                return Err(Error::Driver);
            },
        };
        self.replace(ptr.0, defaults(len));
        Ok(())
    }
}

impl<T: Copy + Default> CopySlice for HostMemory<T> {
    fn copy_slice(
        &mut self,
        src: CpuPtr,
        src_start: usize,
        dst: CpuPtr,
        dst_start: usize,
        len: usize,
    ) -> (r: Result<(), Error>) {
        let part = match self.regions.get(&src.0) {
            Some(region) => {
                if src_start > region.len() || len > region.len() - src_start {
                    return Err(Error::Driver);
                }
                slice_to_vec(slice_subrange(region.as_slice(), src_start, src_start + len))
            },
            None => {
                return Err(Error::Driver);
            },
        };
        let target = match self.regions.get(&dst.0) {
            Some(region) => {
                if dst_start > region.len() || len > region.len() - dst_start {
                    return Err(Error::Driver);
                }
                slice_to_vec(region.as_slice())
            },
            None => {
                return Err(Error::Driver);
            },
        };
        self.replace(dst.0, overlay(target, dst_start, part.as_slice()));
        Ok(())
    }
}

impl<T: Copy + Default> MainMemory for HostMemory<T> {
    fn load(&self, ptr: CpuPtr, i: usize) -> (r: Result<T, Error>) {
        match self.regions.get(&ptr.0) {
            Some(region) => {
                if i < region.len() {
                    Ok(region[i])
                } else {
                    Err(Error::Driver)
                }
            },
            None => Err(Error::Driver),
        }
    }

    fn store(&mut self, ptr: CpuPtr, i: usize, value: T) -> (r: Result<(), Error>) {
        let mut region = match self.regions.get(&ptr.0) {
            Some(region) => {
                if i >= region.len() {
                    return Err(Error::Driver);
                }
                slice_to_vec(region.as_slice())
            },
            None => {
                return Err(Error::Driver);
            },
        };
        region.set(i, value);
        self.replace(ptr.0, region);
        Ok(())
    }
}

} // verus!
