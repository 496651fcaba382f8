use crate::buffer::Buffer;
use crate::device::Device;
use crate::error::Error;
use crate::memory::{Alloc, CpuPtr, MainMemory};
use crate::node::Node;
use crate::opencl::CLPtr;
use vstd::prelude::*;

verus! {

/// What the driver reports of one device.
#[derive(Debug, PartialEq, Eq)]
pub struct DeviceInfo {
    pub name: String,
    pub version: String,
    /// Size of the device's memory, in bytes.
    pub global_mem_size: u64,
    /// Size of the largest region that the device allocates, in bytes.
    pub max_mem_alloc: u64,
    /// Whether the host addresses the device's memory directly.
    pub unified_mem: bool,
}

impl Clone for DeviceInfo {
    fn clone(&self) -> (copy: DeviceInfo)
        ensures
            copy == *self,
    {
        DeviceInfo {
            name: self.name.clone(),
            version: self.version.clone(),
            global_mem_size: self.global_mem_size,
            max_mem_alloc: self.max_mem_alloc,
            unified_mem: self.unified_mem,
        }
    }
}

/// The devices that the driver enumerated, in its order, and the number of
/// them that are in use.
pub struct CLDevices {
    infos: Vec<DeviceInfo>,
    count: usize,
}

impl CLDevices {
    /// The devices as the driver reported them.
    pub closed spec fn infos(&self) -> Seq<DeviceInfo> {
        self.infos@
    }

    /// Number of devices in use.
    pub closed spec fn count(&self) -> nat {
        self.count as nat
    }

    /// The devices that the driver enumerated; none is in use.
    pub fn new(infos: Vec<DeviceInfo>) -> (devices: CLDevices)
        ensures
            devices.infos() == infos@,
            devices.count() == 0,
    {
        CLDevices { infos, count: 0 }
    }

    /// Number of devices that the driver enumerated.
    pub fn len(&self) -> (n: usize)
        ensures
            n == self.infos().len(),
    {
        self.infos.len()
    }

    /// Number of devices in use.
    pub fn device_count(&self) -> (n: usize)
        ensures
            n == self.count(),
    {
        self.count
    }

    /// What the driver reported of the device at `device_idx`.  Fails where
    /// the driver enumerated no such device.
    pub fn current(&self, device_idx: usize) -> (r: Result<&DeviceInfo, Error>)
        ensures
            r == (if device_idx < self.infos().len() {
                Ok::<&DeviceInfo, Error>(&self.infos()[device_idx as int])
            } else {
                Err::<&DeviceInfo, Error>(Error::Driver)
            }),
    {
        if device_idx < self.infos.len() {
            Ok(&self.infos[device_idx])
        } else {
            Err(Error::Driver)
        }
    }

    /// Takes the device at `device_idx` into use and says what the driver
    /// reported of it.  Fails where the driver enumerated no such device,
    /// and where the number of devices in use does not fit `usize`.
    pub fn select(&mut self, device_idx: usize) -> (r: Result<DeviceInfo, Error>)
        ensures
            final(self).infos() == old(self).infos(),
            r is Ok <==> device_idx < old(self).infos().len() && old(self).count() < usize::MAX,
            match r {
                Ok(info) => {
                    &&& info == old(self).infos()[device_idx as int]
                    &&& final(self).count() == old(self).count() + 1
                },
                Err(e) => e == Error::Driver && final(self).count() == old(self).count(),
            },
    {
        if device_idx >= self.infos.len() || self.count == usize::MAX {
            return Err(Error::Driver);
        }
        let info = self.infos[device_idx].clone();
        self.count = self.count + 1;
        Ok(info)
    }

    /// Counts one device out of those in use.
    pub fn release(&mut self)
        ensures
            final(self).infos() == old(self).infos(),
            final(self).count() == (if old(self).count() > 0 {
                old(self).count() - 1
            } else {
                0
            }),
    {
        if self.count > 0 {
            self.count = self.count - 1;
        }
    }
}

/// A device with memory of its own that may or may not be addressable by
/// the host: what the driver reported of it, and the device `D` that keeps
/// its books.
pub struct CLDevice<D> {
    inner: D,
    info: DeviceInfo,
    unified_mem: bool,
}

impl<D> CLDevice<D> {
    /// The device with its cache, its graph and its kernels.
    pub closed spec fn inner(&self) -> D {
        self.inner
    }

    /// What the driver reported of the device.
    pub closed spec fn info(&self) -> DeviceInfo {
        self.info
    }

    /// Whether the host addresses the device's memory directly.
    pub closed spec fn unified(&self) -> bool {
        self.unified_mem
    }

    /// The device at `device_idx` of those that the driver enumerated, with
    /// `inner` to keep its books.  Fails where the driver enumerated no
    /// such device, and where the number of devices in use does not fit
    /// `usize`.
    pub fn new(devices: &mut CLDevices, device_idx: usize, inner: D) -> (r: Result<
        CLDevice<D>,
        Error,
    >)
        ensures
            final(devices).infos() == old(devices).infos(),
            r is Ok <==> device_idx < old(devices).infos().len() && old(devices).count()
                < usize::MAX,
            match r {
                Ok(device) => {
                    &&& final(devices).count() == old(devices).count() + 1
                    &&& device.info() == old(devices).infos()[device_idx as int]
                    &&& device.unified() == old(devices).infos()[device_idx as int].unified_mem
                    &&& device.inner() == inner
                },
                Err(e) => e == Error::Driver && final(devices).count() == old(devices).count(),
            },
    {
        match devices.select(device_idx) {
            Ok(info) => {
                let unified_mem = info.unified_mem;
                Ok(CLDevice { inner, info, unified_mem })
            },
            Err(e) => Err(e),
        }
    }

    /// Ends the life of the device: counts it out of the devices in use and
    /// hands back the device that kept its books, for the caller to tear
    /// down.
    pub fn release(self, devices: &mut CLDevices) -> (inner: D)
        ensures
            final(devices).infos() == old(devices).infos(),
            final(devices).count() == (if old(devices).count() > 0 {
                old(devices).count() - 1
            } else {
                0
            }),
            inner == self.inner(),
    {
        devices.release();
        self.inner
    }

    /// The device with its cache, its graph and its kernels.
    pub fn device(&self) -> (d: &D)
        ensures
            *d == self.inner(),
    {
        &self.inner
    }

    /// The device with its cache, its graph and its kernels, to work on.
    pub fn device_mut(&mut self) -> (d: &mut D)
        ensures
            *d == old(self).inner(),
            final(self).inner() == *final(d),
            final(self).info() == old(self).info(),
            final(self).unified() == old(self).unified(),
    {
        &mut self.inner
    }

    /// The name that the driver reported.
    pub fn name(&self) -> (name: String)
        ensures
            name@ == self.info().name@,
    {
        self.info.name.clone()
    }

    /// The version that the driver reported.
    pub fn version(&self) -> (version: String)
        ensures
            version@ == self.info().version@,
    {
        self.info.version.clone()
    }

    /// Size of the device's memory, in bytes.
    pub fn global_mem_size(&self) -> (bytes: u64)
        ensures
            bytes == self.info().global_mem_size,
    {
        self.info.global_mem_size
    }

    /// Size of the largest region that the device allocates, in bytes.
    pub fn max_mem_alloc(&self) -> (bytes: u64)
        ensures
            bytes == self.info().max_mem_alloc,
    {
        self.info.max_mem_alloc
    }

    /// Whether the host addresses the device's memory directly.
    pub fn unified_mem(&self) -> (unified: bool)
        ensures
            unified == self.unified(),
    {
        self.unified_mem
    }

    /// Says whether the host is to address the device's memory directly.
    pub fn set_unified_mem(&mut self, unified_mem: bool)
        ensures
            final(self).unified() == unified_mem,
            final(self).inner() == old(self).inner(),
            final(self).info() == old(self).info(),
    {
        self.unified_mem = unified_mem;
    }

    /// The two addresses of the region of `buf`, of which the host knows
    /// it by `host` where it addresses the device's memory, and not at all
    /// otherwise.
    pub fn pointer_to<T>(&self, buf: &Buffer<T>, host: CpuPtr) -> (p: CLPtr)
        ensures
            p.ptr == buf.ptr,
            p.host_ptr == (if self.unified() {
                host
            } else {
                CpuPtr(0)
            }),
    {
        CLPtr {
            ptr: buf.ptr,
            host_ptr: if self.unified_mem {
                host
            } else {
                CpuPtr::null()
            },
        }
    }
}

impl<B: Alloc> CLDevice<Device<B>> {
    /// A new region of `len` elements, whose contents are unspecified and
    /// which the caller answers for.  The host address is the device's
    /// where the host addresses the device's memory, and null otherwise.
    pub fn allocate(&mut self, len: usize) -> (r: Result<CLPtr, Error>)
        requires
            old(self).inner().wf(),
        ensures
            final(self).inner().wf(),
            final(self).info() == old(self).info(),
            final(self).unified() == old(self).unified(),
            old(self).inner().consistent() ==> final(self).inner().consistent(),
            old(self).inner().provision(
                &final(self).inner(),
                len,
                match r {
                    Ok(p) => Ok(Buffer::owned(old(self).inner().id(), p.ptr, len)),
                    Err(e) => Err(e),
                },
            ),
            r matches Ok(p) ==> p.host_ptr == (if old(self).unified() {
                p.ptr
            } else {
                CpuPtr(0)
            }),
    {
        match self.inner.buffer(len) {
            Ok(buf) => Ok(self.pointer_to(&buf, buf.ptr)),
            Err(e) => Err(e),
        }
    }

    /// A new region that holds a copy of `data` and which the caller
    /// answers for.  The host address is the device's where the host
    /// addresses the device's memory, and null otherwise.
    pub fn with_data(&mut self, data: &[B::Elem]) -> (r: Result<CLPtr, Error>)
        requires
            old(self).inner().wf(),
        ensures
            final(self).inner().wf(),
            final(self).info() == old(self).info(),
            final(self).unified() == old(self).unified(),
            old(self).inner().consistent() ==> final(self).inner().consistent(),
            old(self).inner().provision(
                &final(self).inner(),
                data.len(),
                match r {
                    Ok(p) => Ok(Buffer::owned(old(self).inner().id(), p.ptr, data.len())),
                    Err(e) => Err(e),
                },
            ),
            r matches Ok(p) ==> final(self).inner().heap()[p.ptr.0] == data@ && p.host_ptr == (if old(
                self,
            ).unified() {
                p.ptr
            } else {
                CpuPtr(0)
            }),
    {
        match self.inner.buffer_from(data) {
            Ok(buf) => Ok(self.pointer_to(&buf, buf.ptr)),
            Err(e) => Err(e),
        }
    }
}

impl<B: MainMemory> CLDevice<Device<B>> {
    /// The element at position `i` of `buf`, read where it lies.  Fails
    /// where the host does not address the device's memory: the buffer has
    /// to be read out then.
    pub fn index(&self, buf: &Buffer<B::Elem>, i: usize) -> (r: Result<B::Elem, Error>)
        requires
            self.inner().wf(),
        ensures
            !self.unified() ==> r == Err::<B::Elem, Error>(Error::Driver),
            self.unified() ==> match self.inner().check(buf) {
                Ok(_) => if i < buf.len {
                    r is Ok && r->Ok_0 == self.inner().heap()[buf.ptr.0][i as int]
                } else {
                    r == Err::<B::Elem, Error>(Error::Driver)
                },
                Err(e) => r == Err::<B::Elem, Error>(e),
            },
    {
        if !self.unified_mem {
            return Err(Error::Driver);
        }
        self.inner.get(buf, i)
    }
}

/// A cached buffer of `len` elements on `device` that is computed from
/// nothing earlier.
pub fn cl_cached<B: Alloc>(device: &mut CLDevice<Device<B>>, len: usize) -> (r: Result<
    Buffer<B::Elem>,
    Error,
>)
    requires
        old(device).inner().wf(),
    ensures
        final(device).inner().wf(),
        final(device).info() == old(device).info(),
        final(device).unified() == old(device).unified(),
        old(device).inner().consistent() ==> final(device).inner().consistent(),
        old(device).inner().retrieval(
            &final(device).inner(),
            Node { idx: old(device).inner().count() as usize, len, parents: None },
            r,
        ),
{
    device.device_mut().cached(len)
}

} // verus!
