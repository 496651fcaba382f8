//! Allocation caching for flat numeric buffers across compute back ends.
//!
//! A [`Device`] puts three things on top of a backend, which is anything
//! that implements [`Alloc`]: the graph of the nodes requested in the
//! current pass, an allocation cache that keeps one region per node, and a
//! cache of the kernels that were built.  Repeating the same sequence of
//! retrievals after a pass boundary hands back the same regions instead of
//! allocating again.
//!
//! [`HostMemory`] is the backend of the host; [`CPU`] is the device on top
//! of it.  A device whose memory is out of reach of the host is a
//! [`Remote`]: it keeps its books with the same [`Graph`], [`CPUCache`] and
//! [`KernelCache`] on top of an allocator of which nothing is known.

pub mod blas;
pub mod bounds;
pub mod buffer;
pub mod cache;
pub mod cl_device;
pub mod device;
pub mod error;
pub mod host;
pub mod kernel;
pub mod kernel_options;
pub mod memory;
pub mod node;
pub mod opencl;
pub mod pass;
pub mod remote;
pub mod stack;

pub use crate::buffer::{AllocFlag, Buffer};
pub use crate::cache::CPUCache;
pub use crate::device::{Device, CPU};
pub use crate::error::Error;
pub use crate::host::HostMemory;
pub use crate::kernel::KernelCache;
pub use crate::memory::{Alloc, CpuPtr};
pub use crate::node::{AddGraph, Graph, Node};
pub use crate::remote::{RawAlloc, Remote};
