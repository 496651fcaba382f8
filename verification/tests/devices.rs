use custos::buffer::AllocFlag;
use custos::cl_device::{cl_cached, CLDevice, CLDevices, DeviceInfo};
use custos::device::Device;
use custos::error::Error;
use custos::host::HostMemory;
use custos::memory::CpuPtr;
use custos::opencl::CLPtr;
use custos::stack::{Shape, Stack, StackArray, StackBuffer};

fn found() -> CLDevices {
    CLDevices::new(vec![
        DeviceInfo {
            name: "discrete".to_string(),
            version: "OpenCL 3.0".to_string(),
            global_mem_size: 8_000_000_000,
            max_mem_alloc: 2_000_000_000,
            unified_mem: false,
        },
        DeviceInfo {
            name: "integrated".to_string(),
            version: "OpenCL 2.1".to_string(),
            global_mem_size: 1_000_000_000,
            max_mem_alloc: 500_000_000,
            unified_mem: true,
        },
    ])
}

#[test]
fn devices_are_selected_by_index() {
    let mut devices = found();
    assert_eq!(devices.len(), 2);
    assert_eq!(devices.device_count(), 0);
    assert_eq!(devices.current(1).unwrap().name, "integrated");
    assert_eq!(devices.current(2), Err(Error::Driver));

    let first = CLDevice::new(&mut devices, 0, Device::with_backend(HostMemory::<f32>::with_capacity(10, 64))).unwrap();
    let second = CLDevice::new(&mut devices, 1, Device::with_backend(HostMemory::<f32>::with_capacity(11, 64))).unwrap();
    assert!(CLDevice::new(&mut devices, 2, Device::with_backend(HostMemory::<f32>::with_capacity(12, 64))).is_err());
    assert_eq!(devices.device_count(), 2);

    assert_eq!(first.name(), "discrete");
    assert_eq!(first.version(), "OpenCL 3.0");
    assert_eq!(first.global_mem_size(), 8_000_000_000);
    assert_eq!(first.max_mem_alloc(), 2_000_000_000);
    assert!(!first.unified_mem());
    assert_eq!(second.name(), "integrated");
    assert!(second.unified_mem());
    assert_eq!(second.device().get_count(), 0);

    let memory = first.release(&mut devices).teardown();
    assert_eq!(devices.device_count(), 1);
    assert_eq!(memory.live(), 0);
    second.release(&mut devices).teardown();
    assert_eq!(devices.device_count(), 0);
}

#[test]
fn host_addresses_follow_unified_memory() {
    let mut devices = found();
    let mut device = CLDevice::new(&mut devices, 0, Device::with_backend(HostMemory::<i32>::with_capacity(10, 8))).unwrap();
    let p = device.allocate(3).unwrap();
    assert!(!p.ptr.is_null());
    assert_eq!(p.host_ptr, CpuPtr::null());
    assert!(!p.is_unified());

    device.set_unified_mem(true);
    assert!(device.unified_mem());
    let q = device.with_data(&[4, 5, 6]).unwrap();
    assert_eq!(q.host_ptr, q.ptr);
    assert!(q.is_unified());
    assert_ne!(q.ptr, p.ptr);
    assert_eq!(device.allocate(3), Err(Error::Allocation));
    assert_eq!(device.with_data(&[1, 2, 3]), Err(Error::Allocation));

    let buf = cl_cached(&mut device, 2).unwrap();
    assert_eq!(buf.flag, AllocFlag::Cached);
    assert_eq!(device.pointer_to(&buf, CpuPtr(0x77)), CLPtr { ptr: buf.ptr, host_ptr: CpuPtr(0x77) });
    assert_eq!(device.index(&buf, 0), Ok(0));
    assert_eq!(device.index(&buf, 2), Err(Error::Driver));
    device.set_unified_mem(false);
    assert_eq!(device.index(&buf, 0), Err(Error::Driver));
    assert_eq!(device.pointer_to(&buf, CpuPtr(0x77)).host_ptr, CpuPtr::null());
    assert_eq!(device.device().read(&buf).unwrap(), vec![0, 0]);
    assert_eq!(device.release(&mut devices).teardown().live(), 0);
}

#[test]
fn a_pointer_is_released_once() {
    let mut memory = HostMemory::<u8>::with_capacity(1, 16);
    let mut p = CLPtr::allocate(&mut memory, 4, false).unwrap();
    let mut q = CLPtr::with_data(&mut memory, &[1, 2, 3], true).unwrap();
    assert_eq!(p.host_ptr, CpuPtr(0));
    assert_eq!(q.host_ptr, q.ptr);
    assert_eq!(memory.live(), 2);
    assert_eq!(CLPtr::allocate(&mut memory, 10, false), Err(Error::Allocation));

    assert_eq!(p.dealloc(&mut memory), Ok(()));
    assert_eq!(p, CLPtr { ptr: CpuPtr(0), host_ptr: CpuPtr(0) });
    assert_eq!(memory.live(), 1);
    assert_eq!(p.dealloc(&mut memory), Err(Error::Driver));
    assert_eq!(memory.live(), 1);
    assert_eq!(q.dealloc(&mut memory), Ok(()));
    assert!(!q.is_unified());
    assert_eq!(memory.live(), 0);
}

#[test]
fn stack_buffers_from_arrays() {
    let stack = Stack::new();
    let a = StackBuffer::from((Stack, [1, 2, 3]));
    let b = StackBuffer::from((&stack, [1, 2, 3]));
    let c = StackBuffer::from((Stack, &[1, 2, 3]));
    let d = StackBuffer::from((&stack, &[1, 2, 3]));
    for buf in [&a, &b, &c, &d] {
        assert_eq!(buf.as_slice(), &[1, 2, 3]);
        assert_eq!(buf.len(), 3);
        assert_eq!(buf.shape, Shape::Dim1(3));
        assert_eq!(buf.flag(), AllocFlag::Stack);
    }

    let m = StackBuffer::from_array_2d(&stack, [1, 2, 3, 4, 5, 6], 2, 3);
    assert_eq!(m.shape, Shape::Dim2(2, 3));
    assert_eq!(m.as_slice(), &[1, 2, 3, 4, 5, 6]);
    let n = StackBuffer::from_slice_2d(&stack, &[1.5, 2.5, 3.5, 4.5], 2, 2);
    assert_eq!(n.shape, Shape::Dim2(2, 2));
    assert_eq!(n.as_slice(), &[1.5, 2.5, 3.5, 4.5]);

    assert_eq!(Shape::Dim1(7).len(), Some(7));
    assert_eq!(Shape::Dim2(3, 5).len(), Some(15));
    assert_eq!(Shape::Dim2(usize::MAX, 2).len(), None);
}

#[test]
fn stack_arrays() {
    let stack = Stack::new();
    let zeros: StackBuffer<i32, 4> = stack.retrieve();
    assert_eq!(zeros.as_slice(), &[0, 0, 0, 0]);

    let mut arr: StackArray<u8, 3> = StackArray::new();
    assert_eq!(arr.len(), 3);
    assert_eq!(arr.as_slice(), &[0, 0, 0]);
    assert!(!arr.copy_from_slice(&[1, 2]));
    assert!(!arr.copy_from_slice(&[1, 2, 3, 4]));
    assert_eq!(arr.as_slice(), &[0, 0, 0]);
    assert!(arr.copy_from_slice(&[1, 2, 3]));
    assert_eq!(arr.get(2), Some(3));
    assert_eq!(arr.get(3), None);
    assert!(arr.set(1, 9));
    assert!(!arr.set(3, 9));
    assert_eq!(arr.as_slice(), &[1, 9, 3]);
    assert_eq!(StackArray::from_array([7, 8]).array, [7, 8]);
}
