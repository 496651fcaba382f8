use crate::bounds::{bounds_to_range, end_of, fits, same_length, start_of, Bound};
use crate::buffer::Buffer;
use crate::device::Device;
use crate::error::Error;
use crate::memory::{is_default, splice, Alloc, ClearBuf, CopySlice, MainMemory, Read, WriteBuf};
use core::ops::Range;
use vstd::prelude::*;

verus! {

/// `heap` after `len` elements were copied from position `src_start` of the
/// region at `src` to position `dst_start` of the region at `dst`.
pub open spec fn copied<T>(
    heap: Map<usize, Seq<T>>,
    src: usize,
    src_start: int,
    dst: usize,
    dst_start: int,
    len: int,
) -> Map<usize, Seq<T>> {
    heap.insert(dst, splice(heap[dst], dst_start, heap[src].subrange(src_start, src_start + len)))
}

/// Whether a copy between the two ranges can be made: both lie within
/// their buffers and they have the same length.
pub open spec fn can_copy(
    source_len: usize,
    source_range: Range<usize>,
    dest_len: usize,
    dest_range: Range<usize>,
) -> bool {
    &&& source_range.start <= source_range.end <= source_len
    &&& dest_range.start <= dest_range.end <= dest_len
    &&& source_range.end - source_range.start == dest_range.end - dest_range.start
}

/// `heap` after the copies that `ranges` lists were made in order, each
/// from the region at `src` to the region at `dst`.
pub open spec fn copied_all<T>(
    heap: Map<usize, Seq<T>>,
    src: usize,
    dst: usize,
    ranges: Seq<(Range<usize>, Range<usize>)>,
) -> Map<usize, Seq<T>>
    decreases ranges.len(),
{
    if ranges.len() == 0 {
        heap
    } else {
        let (source_range, dest_range) = ranges.last();
        copied(
            copied_all(heap, src, dst, ranges.drop_last()),
            src,
            source_range.start as int,
            dst,
            dest_range.start as int,
            source_range.end - source_range.start,
        )
    }
}

/// Whether every pair of `ranges` can be copied between a source of
/// `source_len` and a destination of `dest_len` elements.
pub fn all_can_copy(source_len: usize, dest_len: usize, ranges: &[(Range<usize>, Range<usize>)]) -> (r:
    bool)
    ensures
        r == forall|k: int|
            0 <= k < ranges@.len() ==> can_copy(
                source_len,
                (#[trigger] ranges@[k]).0,
                dest_len,
                ranges@[k].1,
            ),
{
    let mut k: usize = 0;
    while k < ranges.len()
        invariant
            k <= ranges@.len(),
            forall|j: int|
                0 <= j < k ==> can_copy(source_len, (#[trigger] ranges@[j]).0, dest_len, ranges@[j].1),
        decreases ranges@.len() - k,
    {
        let from = &ranges[k].0;
        let to = &ranges[k].1;
        let good = from.start <= from.end && from.end <= source_len && to.start <= to.end && to.end
            <= dest_len && from.end - from.start == to.end - to.start;
        if !good {
            return false;
        }
        k = k + 1;
    }
    true
}

impl<B: Alloc> Device<B> {
    /// An operation that changes what regions hold, and nothing else,
    /// leaves the device consistent.
    proof fn lemma_same_shape(&self, before: &Self)
        requires
            self.cache() == before.cache(),
            self.owned() == before.owned(),
            self.heap().dom() =~= before.heap().dom(),
            forall|a: usize| #[trigger]
                before.heap().contains_key(a) ==> self.heap()[a].len() == before.heap()[a].len(),
        ensures
            before.consistent() ==> self.consistent(),
    {
    }
}

impl<B: Alloc> Device<B> {
    /// What reading `buf` gives: its contents, or the error of the check.
    pub open spec fn read_outcome(&self, buf: &Buffer<B::Elem>) -> Result<Seq<B::Elem>, Error> {
        match self.check(buf) {
            Ok(_) => Ok(self.heap()[buf.ptr.0]),
            Err(e) => Err(e),
        }
    }

    /// What writing `data` to `buf` gives: the heap with `data` at the
    /// front of `buf`, or the error of the check or of data that is longer
    /// than the buffer.
    pub open spec fn write_outcome(&self, buf: &Buffer<B::Elem>, data: Seq<B::Elem>) -> Result<
        Map<usize, Seq<B::Elem>>,
        Error,
    > {
        match self.check(buf) {
            Ok(_) => if data.len() <= buf.len {
                Ok(self.heap().insert(buf.ptr.0, splice(self.heap()[buf.ptr.0], 0, data)))
            } else {
                Err(Error::Driver)
            },
            Err(e) => Err(e),
        }
    }

    /// Where a write of `data` to `buf` succeeded, and nothing was done to
    /// the device since, reading `buf` gives `data` and behind it what the
    /// buffer held there before: exactly `data`, where that has the length
    /// of the buffer.
    pub proof fn lemma_read_after_write(
        &self,
        after: &Self,
        buf: &Buffer<B::Elem>,
        data: Seq<B::Elem>,
    )
        requires
            self.write_outcome(buf, data) is Ok,
            after.id() == self.id(),
            after.heap() == self.write_outcome(buf, data)->Ok_0,
        ensures
            after.read_outcome(buf) == Ok::<Seq<B::Elem>, Error>(
                splice(self.heap()[buf.ptr.0], 0, data),
            ),
            data.len() == buf.len ==> after.read_outcome(buf) == Ok::<Seq<B::Elem>, Error>(data),
    {
        if data.len() == buf.len {
            assert(splice(self.heap()[buf.ptr.0], 0, data) =~= data);
        }
    }
}

impl<B: Read> Device<B> {
    /// The contents of `buf`, copied out to the host.  The buffer must have
    /// a region: a buffer with the null address is not to be read.
    pub fn read(&self, buf: &Buffer<B::Elem>) -> (r: Result<Vec<B::Elem>, Error>)
        requires
            self.wf(),
            buf.ptr.0 != 0,
        ensures
            match self.read_outcome(buf) {
                Ok(contents) => r is Ok && r->Ok_0@ == contents,
                Err(e) => r == Err::<Vec<B::Elem>, Error>(e),
            },
    {
        match self.validate(buf) {
            Ok(_) => self.backend.read(buf.ptr),
            Err(e) => Err(e),
        }
    }
}

impl<B: WriteBuf> Device<B> {
    /// Puts `data` at the front of `buf`; what the buffer holds behind it
    /// stays.  The data must not be longer than the buffer.
    pub fn write(&mut self, buf: &mut Buffer<B::Elem>, data: &[B::Elem]) -> (r: Result<(), Error>)
        requires
            old(self).wf(),
        ensures
            final(self).wf(),
            *final(buf) == *old(buf),
            old(self).kept(final(self)),
            old(self).consistent() ==> final(self).consistent(),
            match old(self).write_outcome(old(buf), data@) {
                Ok(heap) => r is Ok && final(self).heap() == heap,
                Err(e) => r == Err::<(), Error>(e) && final(self).heap() == old(self).heap(),
            },
    {
        match self.validate(buf) {
            Ok(_) => {
                let r = self.backend.write(buf.ptr, data);
                proof {
                    self.lemma_same_shape(old(self));
                }
                r
            },
            Err(e) => Err(e),
        }
    }

    /// Puts what `src` holds at the front of `dst`; what `dst` holds behind
    /// it stays.  The source must not be longer than the destination.
    pub fn write_buf(&mut self, dst: &mut Buffer<B::Elem>, src: &Buffer<B::Elem>) -> (r: Result<
        (),
        Error,
    >)
        requires
            old(self).wf(),
        ensures
            final(self).wf(),
            *final(dst) == *old(dst),
            old(self).kept(final(self)),
            old(self).consistent() ==> final(self).consistent(),
            match (old(self).check(old(dst)), old(self).check(src)) {
                (Ok(_), Ok(_)) => if src.len <= old(dst).len {
                    r is Ok && final(self).heap() == old(self).heap().insert(
                        old(dst).ptr.0,
                        splice(old(self).heap()[old(dst).ptr.0], 0, old(self).heap()[src.ptr.0]),
                    )
                } else {
                    r == Err::<(), Error>(Error::Driver) && final(self).heap() == old(self).heap()
                },
                (Err(e), _) => r == Err::<(), Error>(e) && final(self).heap() == old(self).heap(),
                (Ok(_), Err(e)) => r == Err::<(), Error>(e) && final(self).heap() == old(
                    self,
                ).heap(),
            },
    {
        match self.validate(dst) {
            Ok(_) => {},
            Err(e) => {
                return Err(e);
            },
        }
        match self.validate(src) {
            Ok(_) => {},
            Err(e) => {
                return Err(e);
            },
        }
        let r = self.backend.write_buf(dst.ptr, src.ptr);
        proof {
            self.lemma_same_shape(old(self));
        }
        r
    }
}

impl<B: ClearBuf> Device<B> where B::Elem: Default {
    /// Sets every element of `buf` to the default value.
    pub fn clear(&mut self, buf: &mut Buffer<B::Elem>) -> (r: Result<(), Error>)
        requires
            old(self).wf(),
        ensures
            final(self).wf(),
            *final(buf) == *old(buf),
            old(self).kept(final(self)),
            old(self).consistent() ==> final(self).consistent(),
            match old(self).check(old(buf)) {
                Ok(_) => {
                    &&& r is Ok
                    &&& final(self).heap() == old(self).heap().insert(
                        old(buf).ptr.0,
                        final(self).heap()[old(buf).ptr.0],
                    )
                    &&& final(self).heap()[old(buf).ptr.0].len() == old(buf).len
                    &&& forall|i: int|
                        0 <= i < old(buf).len ==> is_default(
                            #[trigger] final(self).heap()[old(buf).ptr.0][i],
                        )
                },
                Err(e) => r == Err::<(), Error>(e) && final(self).heap() == old(self).heap(),
            },
    {
        match self.validate(buf) {
            Ok(_) => {
                let r = self.backend.clear(buf.ptr);
                proof {
                    self.lemma_same_shape(old(self));
                }
                r
            },
            Err(e) => Err(e),
        }
    }
}

impl<B: MainMemory> Device<B> {
    /// The element at position `i` of `buf`.
    pub fn get(&self, buf: &Buffer<B::Elem>, i: usize) -> (r: Result<B::Elem, Error>)
        requires
            self.wf(),
        ensures
            match self.check(buf) {
                Ok(_) => if i < buf.len {
                    r is Ok && r->Ok_0 == self.heap()[buf.ptr.0][i as int]
                } else {
                    r == Err::<B::Elem, Error>(Error::Driver)
                },
                Err(e) => r == Err::<B::Elem, Error>(e),
            },
    {
        match self.validate(buf) {
            Ok(_) => self.backend.load(buf.ptr, i),
            Err(e) => Err(e),
        }
    }

    /// Puts `value` at position `i` of `buf`.
    pub fn set(&mut self, buf: &mut Buffer<B::Elem>, i: usize, value: B::Elem) -> (r: Result<
        (),
        Error,
    >)
        requires
            old(self).wf(),
        ensures
            final(self).wf(),
            *final(buf) == *old(buf),
            old(self).kept(final(self)),
            old(self).consistent() ==> final(self).consistent(),
            match old(self).check(old(buf)) {
                Ok(_) => if i < old(buf).len {
                    r is Ok && final(self).heap() == old(self).heap().insert(
                        old(buf).ptr.0,
                        old(self).heap()[old(buf).ptr.0].update(i as int, value),
                    )
                } else {
                    r == Err::<(), Error>(Error::Driver) && final(self).heap() == old(self).heap()
                },
                Err(e) => r == Err::<(), Error>(e) && final(self).heap() == old(self).heap(),
            },
    {
        match self.validate(buf) {
            Ok(_) => {
                let r = self.backend.store(buf.ptr, i, value);
                proof {
                    self.lemma_same_shape(old(self));
                }
                r
            },
            Err(e) => Err(e),
        }
    }
}

impl<B: CopySlice> Device<B> {
    /// Copies the elements of `source` within `source_range` to the
    /// positions of `dest` within `dest_range`.  The two ranges must have
    /// the same length; a range that does not lie within its buffer is an
    /// error.
    pub fn copy_slice_to(
        &mut self,
        source: &Buffer<B::Elem>,
        source_range: (Bound, Bound),
        dest: &mut Buffer<B::Elem>,
        dest_range: (Bound, Bound),
    ) -> (r: Result<(), Error>)
        requires
            old(self).wf(),
            same_length(source_range, source.len, dest_range, old(dest).len),
        ensures
            final(self).wf(),
            *final(dest) == *old(dest),
            old(self).kept(final(self)),
            old(self).consistent() ==> final(self).consistent(),
            match (old(self).check(source), old(self).check(old(dest))) {
                (Ok(_), Ok(_)) => if fits(source_range, source.len) && fits(
                    dest_range,
                    old(dest).len,
                ) {
                    r is Ok && final(self).heap() == copied(
                        old(self).heap(),
                        source.ptr.0,
                        start_of(source_range.0),
                        old(dest).ptr.0,
                        start_of(dest_range.0),
                        end_of(source_range.1, source.len) - start_of(source_range.0),
                    )
                } else {
                    r == Err::<(), Error>(Error::Driver) && final(self).heap() == old(self).heap()
                },
                (Err(e), _) => r == Err::<(), Error>(e) && final(self).heap() == old(self).heap(),
                (Ok(_), Err(e)) => r == Err::<(), Error>(e) && final(self).heap() == old(
                    self,
                ).heap(),
            },
    {
        match self.validate(source) {
            Ok(_) => {},
            Err(e) => {
                return Err(e);
            },
        }
        match self.validate(dest) {
            Ok(_) => {},
            Err(e) => {
                return Err(e);
            },
        }
        let from = match bounds_to_range(source_range, source.len) {
            Some(range) => range,
            None => {
                return Err(Error::Driver);
            },
        };
        let to = match bounds_to_range(dest_range, dest.len) {
            Some(range) => range,
            None => {
                return Err(Error::Driver);
            },
        };
        let len = from.end - from.start;
        let r = self.backend.copy_slice(source.ptr, from.start, dest.ptr, to.start, len);
        proof {
            self.lemma_same_shape(old(self));
        }
        r
    }

    /// Makes the copies that `ranges` lists, in order: each pair names a
    /// range of `source` and the range of `dest` that receives it, and the
    /// two must have the same length.  Where a range does not lie within
    /// its buffer, nothing is copied at all.
    pub fn copy_slice_all(
        &mut self,
        source: &Buffer<B::Elem>,
        dest: &mut Buffer<B::Elem>,
        ranges: &[(Range<usize>, Range<usize>)],
    ) -> (r: Result<(), Error>)
        requires
            old(self).wf(),
            forall|k: int|
                0 <= k < ranges@.len() ==> (#[trigger] ranges@[k]).0.end - ranges@[k].0.start
                    == ranges@[k].1.end - ranges@[k].1.start,
        ensures
            final(self).wf(),
            *final(dest) == *old(dest),
            old(self).kept(final(self)),
            old(self).consistent() ==> final(self).consistent(),
            match (old(self).check(source), old(self).check(old(dest))) {
                (Ok(_), Ok(_)) => if forall|k: int|
                    0 <= k < ranges@.len() ==> can_copy(
                        source.len,
                        (#[trigger] ranges@[k]).0,
                        old(dest).len,
                        ranges@[k].1,
                    ) {
                    r is Ok && final(self).heap() == copied_all(
                        old(self).heap(),
                        source.ptr.0,
                        old(dest).ptr.0,
                        ranges@,
                    )
                } else {
                    r == Err::<(), Error>(Error::Driver) && final(self).heap() == old(self).heap()
                },
                (Err(e), _) => r == Err::<(), Error>(e) && final(self).heap() == old(self).heap(),
                (Ok(_), Err(e)) => r == Err::<(), Error>(e) && final(self).heap() == old(
                    self,
                ).heap(),
            },
    {
        match self.validate(source) {
            Ok(_) => {},
            Err(e) => {
                return Err(e);
            },
        }
        match self.validate(dest) {
            Ok(_) => {},
            Err(e) => {
                return Err(e);
            },
        }
        if !all_can_copy(source.len, dest.len, ranges) {
            return Err(Error::Driver);
        }
        let mut k: usize = 0;
        while k < ranges.len()
            invariant
                k <= ranges@.len(),
                self.wf(),
                *dest == *old(dest),
                old(self).kept(self),
                old(self).consistent() ==> self.consistent(),
                old(self).check(source) is Ok,
                old(self).check(old(dest)) is Ok,
                forall|j: int|
                    0 <= j < ranges@.len() ==> can_copy(
                        source.len,
                        (#[trigger] ranges@[j]).0,
                        dest.len,
                        ranges@[j].1,
                    ),
                self.heap().dom() == old(self).heap().dom(),
                self.heap()[source.ptr.0].len() == source.len,
                self.heap()[dest.ptr.0].len() == dest.len,
                self.heap() == copied_all(
                    old(self).heap(),
                    source.ptr.0,
                    dest.ptr.0,
                    ranges@.take(k as int),
                ),
            decreases ranges@.len() - k,
        {
            let from = &ranges[k].0;
            let to = &ranges[k].1;
            let ghost before = *self;
            let r = self.backend.copy_slice(
                source.ptr,
                from.start,
                dest.ptr,
                to.start,
                from.end - from.start,
            );
            assert(r is Ok);
            proof {
                self.lemma_same_shape(&before);
                assert(ranges@.take(k + 1).drop_last() == ranges@.take(k as int));
            }
            k = k + 1;
        }
        assert(ranges@.take(k as int) == ranges@);
        Ok(())
    }
}

} // verus!
