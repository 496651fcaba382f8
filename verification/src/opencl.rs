use crate::buffer::Buffer;
use crate::error::Error;
use crate::kernel::{compiled, Compile, KernelCache};
use crate::kernel_options::{handle_of, Arg, KernelOptions, Launch};
use crate::memory::{booked, grown, has_room, Alloc, CpuPtr};
use vstd::prelude::*;

verus! {

/// The two addresses of a region on a device with memory of its own: the
/// one that the device knows it by and, where the host can address the
/// region too, the one that the host knows it by.
#[derive(Debug, Clone, Copy, PartialEq, Eq, Structural)]
pub struct CLPtr {
    pub ptr: CpuPtr,
    /// Null where the host cannot address the region.
    pub host_ptr: CpuPtr,
}

impl CLPtr {
    /// A new region of `len` elements on `device`.  With `unified_mem` the
    /// host addresses the region where the device does.
    pub fn allocate<D: Alloc>(device: &mut D, len: usize, unified_mem: bool) -> (r: Result<
        CLPtr,
        Error,
    >)
        requires
            old(device).wf(),
        ensures
            final(device).wf(),
            final(device).id() == old(device).id(),
            booked(old(device), final(device), if r is Ok {
                1nat
            } else {
                0nat
            }),
            grown(old(device), final(device), if r is Ok {
                len as int
            } else {
                0int
            }),
            r is Ok <==> has_room(old(device), len),
            match r {
                Ok(p) => {
                    &&& p.ptr.0 != 0
                    &&& p.host_ptr == (if unified_mem {
                        p.ptr
                    } else {
                        CpuPtr(0)
                    })
                    &&& !old(device).heap().contains_key(p.ptr.0)
                    &&& final(device).heap() == old(device).heap().insert(
                        p.ptr.0,
                        final(device).heap()[p.ptr.0],
                    )
                    &&& final(device).heap()[p.ptr.0].len() == len
                },
                Err(e) => e == Error::Allocation && final(device).heap() == old(device).heap(),
            },
    {
        match device.allocate(len) {
            Ok(ptr) => Ok(
                CLPtr {
                    ptr,
                    host_ptr: if unified_mem {
                        ptr
                    } else {
                        CpuPtr::null()
                    },
                },
            ),
            Err(_) => Err(Error::Allocation),
        }
    }

    /// A new region on `device` that holds a copy of `data`.
    pub fn with_data<D: Alloc>(device: &mut D, data: &[D::Elem], unified_mem: bool) -> (r: Result<
        CLPtr,
        Error,
    >)
        requires
            old(device).wf(),
        ensures
            final(device).wf(),
            final(device).id() == old(device).id(),
            booked(old(device), final(device), if r is Ok {
                1nat
            } else {
                0nat
            }),
            grown(old(device), final(device), if r is Ok {
                data@.len() as int
            } else {
                0int
            }),
            r is Ok <==> has_room(old(device), data.len()),
            match r {
                Ok(p) => {
                    &&& p.ptr.0 != 0
                    &&& p.host_ptr == (if unified_mem {
                        p.ptr
                    } else {
                        CpuPtr(0)
                    })
                    &&& !old(device).heap().contains_key(p.ptr.0)
                    &&& final(device).heap() == old(device).heap().insert(p.ptr.0, data@)
                },
                Err(e) => e == Error::Allocation && final(device).heap() == old(device).heap(),
            },
    {
        match device.alloc_with_data(data) {
            Ok(ptr) => Ok(
                CLPtr {
                    ptr,
                    host_ptr: if unified_mem {
                        ptr
                    } else {
                        CpuPtr::null()
                    },
                },
            ),
            Err(_) => Err(Error::Allocation),
        }
    }

    /// Releases the region on `device` and makes both addresses null, so
    /// that a second call releases nothing.  Fails, and changes nothing,
    /// where the address is null already or names no live region.
    pub fn dealloc<D: Alloc>(&mut self, device: &mut D) -> (r: Result<(), Error>)
        requires
            old(device).wf(),
        ensures
            final(device).wf(),
            final(device).id() == old(device).id(),
            booked(old(device), final(device), 0),
            grown(
                old(device),
                final(device),
                if r is Ok {
                    -(old(device).heap()[old(self).ptr.0].len() as int)
                } else {
                    0int
                },
            ),
            r is Ok <==> old(device).heap().contains_key(old(self).ptr.0),
            final(device).heap() == old(device).heap().remove(old(self).ptr.0),
            match r {
                Ok(_) => *final(self) == (CLPtr { ptr: CpuPtr(0), host_ptr: CpuPtr(0) }),
                Err(e) => e == Error::Driver && *final(self) == *old(self),
            },
    {
        match device.dealloc(self.ptr) {
            Ok(_) => {
                self.ptr = CpuPtr::null();
                self.host_ptr = CpuPtr::null();
                Ok(())
            },
            Err(_) => {
                assert(device.heap() =~= old(device).heap());
                Err(Error::Driver)
            },
        }
    }

    /// Whether the host can address the region.
    pub fn is_unified(&self) -> (r: bool)
        ensures
            r == (self.host_ptr.0 != 0),
    {
        !self.host_ptr.is_null()
    }
}

/// The text of the kernel that sets every element of a region of
/// `datatype` to zero.
pub open spec fn clear_source(datatype: Seq<char>) -> Seq<char> {
    "\n        __kernel void clear(__global "@ + datatype
        + "* self) {\n            size_t id = get_global_id(0);\n            self[id] = 0;\n        }\n    "@
}

/// The text of the kernel that sets every element of a region of
/// `datatype` to zero.
pub fn clear_kernel(datatype: &str) -> (source: String)
    ensures
        source@ == clear_source(datatype@),
{
    let mut source = String::from_str("\n        __kernel void clear(__global ");
    source.append(datatype);
    source.append(
        "* self) {\n            size_t id = get_global_id(0);\n            self[id] = 0;\n        }\n    ",
    );
    source
}

/// Works out the launch that sets every element of `lhs` to zero on the
/// device with the number `device`: the kernel `clear` for elements of the
/// type that the device calls `datatype`, found among `kernels` or built by
/// `compiler`, over one dimension of as many work items as `lhs` has
/// elements.  Fails where `lhs` is a buffer of another device or has no
/// elements, and where the kernel does not build.
pub fn cl_clear<T: Copy, C: Compile>(
    device: usize,
    kernels: &mut KernelCache,
    compiler: &mut C,
    lhs: &mut Buffer<T>,
    datatype: &str,
) -> (r: Result<Launch<T>, Error>)
    ensures
        *final(lhs) == *old(lhs),
        old(lhs).device != device ==> {
            &&& r matches Err(e)
            &&& e == Error::DeviceMismatch
            &&& final(kernels)@ == old(kernels)@
            &&& *final(compiler) == *old(compiler)
        },
        old(lhs).device == device && old(lhs).len == 0 ==> {
            &&& r matches Err(e)
            &&& e == Error::Driver
            &&& final(kernels)@ == old(kernels)@
            &&& *final(compiler) == *old(compiler)
        },
        old(lhs).device == device && old(lhs).len != 0 ==> exists|source: &str|
            source@ == clear_source(datatype@) && #[trigger] compiled(
                old(kernels)@,
                *old(compiler),
                source,
                "clear",
                final(kernels)@,
                handle_of(r),
            ),
        old(lhs).device == device && old(lhs).len != 0 && old(kernels)@.contains_key(
            (clear_source(datatype@), "clear"@),
        ) ==> *final(compiler) == *old(compiler),
        r matches Ok(launch) ==> {
            &&& launch.kernel.device == device
            &&& launch.args@ == seq![Arg::<T>::Buffer(old(lhs).ptr)]
            &&& launch.wd == 1
            &&& launch.gws@ == seq![old(lhs).len, 0usize, 0usize]
            &&& launch.lws is None
            &&& launch.offset is None
            &&& launch.out == old(lhs).ptr
            &&& launch.out_len == old(lhs).len
        },
{
    if lhs.device != device {
        return Err(Error::DeviceMismatch);
    }
    if lhs.len == 0 {
        return Err(Error::Driver);
    }
    let source = clear_kernel(datatype);
    let gws = [lhs.len, 0, 0];
    let text = source.as_str();
    let options = KernelOptions::new(device, lhs, gws, text, "clear");
    let r = options.plan(kernels, compiler);
    assert(text@ == clear_source(datatype@) && compiled(
        old(kernels)@,
        *old(compiler),
        text,
        "clear",
        kernels@,
        handle_of(r),
    ));
    r
}

} // verus!
