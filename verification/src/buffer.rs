use crate::memory::CpuPtr;
use crate::node::{AddGraph, Graph, Node};
use core::marker::PhantomData;
use vstd::prelude::*;

verus! {

/// Who answers for the memory behind a buffer.
#[derive(Debug, Clone, Copy, PartialEq, Eq, Structural)]
pub enum AllocFlag {
    /// The buffer owns its region; dropping the buffer releases it.
    Owned,
    /// The region belongs to the device's allocation cache; dropping the
    /// buffer leaves it in place for the next retrieval of the same node.
    Cached,
    /// The region belongs to someone else; dropping the buffer never
    /// releases it.
    Borrowed,
    /// No region at all: the elements are stored inline.
    Stack,
}

/// The index under which a buffer that no retrieval produced appears as a
/// parent.
pub const NO_NODE: usize = usize::MAX;

/// A handle to a region of `len` elements of `T` in the memory of one
/// device.
#[derive(Debug, PartialEq, Eq)]
pub struct Buffer<T> {
    /// Address of the region.
    pub ptr: CpuPtr,
    /// Number of elements.
    pub len: usize,
    /// Who answers for the region.
    pub flag: AllocFlag,
    /// The node that the buffer was retrieved for, if it came from the
    /// allocation cache.
    pub node: Option<Node>,
    /// Number of the device whose memory holds the region.
    pub device: usize,
    /// The type of the elements.
    pub marker: PhantomData<T>,
}

impl<T> Buffer<T> {
    /// The handle that a retrieval of `node` hands out for the region at
    /// `ptr`.
    pub open spec fn cached_spec(device: usize, ptr: CpuPtr, node: Node) -> Buffer<T> {
        Buffer {
            ptr,
            len: node.len,
            flag: AllocFlag::Cached,
            node: Some(node),
            device,
            marker: PhantomData,
        }
    }

    /// The handle to a region that the holder owns.
    pub open spec fn owned_spec(device: usize, ptr: CpuPtr, len: usize) -> Buffer<T> {
        Buffer { ptr, len, flag: AllocFlag::Owned, node: None, device, marker: PhantomData }
    }

    #[verifier::when_used_as_spec(cached_spec)]
    pub fn cached(device: usize, ptr: CpuPtr, node: Node) -> (b: Buffer<T>)
        ensures
            b == Self::cached_spec(device, ptr, node),
    {
        Buffer {
            ptr,
            len: node.len,
            flag: AllocFlag::Cached,
            node: Some(node),
            device,
            marker: PhantomData,
        }
    }

    #[verifier::when_used_as_spec(owned_spec)]
    pub fn owned(device: usize, ptr: CpuPtr, len: usize) -> (b: Buffer<T>)
        ensures
            b == Self::owned_spec(device, ptr, len),
    {
        Buffer { ptr, len, flag: AllocFlag::Owned, node: None, device, marker: PhantomData }
    }

    /// A second handle to the same region, which never releases it.
    pub fn borrowed(&self) -> (b: Buffer<T>)
        ensures
            b == (Buffer { flag: AllocFlag::Borrowed, ..*self }),
    {
        Buffer {
            ptr: self.ptr,
            len: self.len,
            flag: AllocFlag::Borrowed,
            node: self.node,
            device: self.device,
            marker: PhantomData,
        }
    }

    /// Number of elements.
    pub fn len(&self) -> (n: usize)
        ensures
            n == self.len,
    {
        self.len
    }

    /// Whether dropping this buffer releases its region.
    pub fn owns_memory(&self) -> (r: bool)
        ensures
            r == (self.flag == AllocFlag::Owned || self.flag == AllocFlag::Stack),
    {
        self.flag == AllocFlag::Owned || self.flag == AllocFlag::Stack
    }

    /// The index under which this buffer appears as a parent.
    pub open spec fn graph_idx(&self) -> usize {
        match self.node {
            Some(node) => node.idx,
            None => NO_NODE,
        }
    }

    /// The index under which this buffer appears as a parent.
    pub fn idx(&self) -> (i: usize)
        ensures
            i == self.graph_idx(),
    {
        match self.node {
            Some(node) => node.idx,
            None => NO_NODE,
        }
    }
}

/// A unary operation on this buffer.
impl<T> AddGraph for Buffer<T> {
    open spec fn parents(&self) -> Option<(usize, usize)> {
        Some((self.graph_idx(), self.graph_idx()))
    }

    fn idxs(&self) -> (r: (usize, usize)) {
        (self.idx(), self.idx())
    }

    fn add(&self, graph: &mut Graph, len: usize) -> (node: Node) {
        let (lhs_idx, rhs_idx) = self.idxs();
        graph.add_node(len, lhs_idx, rhs_idx)
    }
}

/// A unary operation on this buffer.
impl<'a, T> AddGraph for &'a Buffer<T> {
    open spec fn parents(&self) -> Option<(usize, usize)> {
        Some((self.graph_idx(), self.graph_idx()))
    }

    fn idxs(&self) -> (r: (usize, usize)) {
        (self.idx(), self.idx())
    }

    fn add(&self, graph: &mut Graph, len: usize) -> (node: Node) {
        let (lhs_idx, rhs_idx) = self.idxs();
        graph.add_node(len, lhs_idx, rhs_idx)
    }
}

/// A binary operation on these two buffers.
impl<'a, T> AddGraph for (&'a Buffer<T>, &'a Buffer<T>) {
    open spec fn parents(&self) -> Option<(usize, usize)> {
        Some((self.0.graph_idx(), self.1.graph_idx()))
    }

    fn idxs(&self) -> (r: (usize, usize)) {
        (self.0.idx(), self.1.idx())
    }

    fn add(&self, graph: &mut Graph, len: usize) -> (node: Node) {
        let (lhs_idx, rhs_idx) = self.idxs();
        graph.add_node(len, lhs_idx, rhs_idx)
    }
}

} // verus!
