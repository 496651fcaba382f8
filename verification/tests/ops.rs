use custos::bounds::{bounds_to_range, byte_span, lengths_agree, Bound};
use custos::buffer::Buffer;
use custos::cl_device::{CLDevice, CLDevices, DeviceInfo};
use custos::device::{Device, CPU};
use custos::error::Error;
use custos::host::HostMemory;
use custos::memory::{Alloc, ClearBuf, CopySlice, CpuPtr, MainMemory, Read, WriteBuf};

fn read_after_write<T: Copy + Default + PartialEq + std::fmt::Debug>(data: Vec<T>) {
    let mut device = CPU::<T>::new();
    let mut buf = device.buffer(data.len()).unwrap();
    device.write(&mut buf, &data).unwrap();
    assert_eq!(device.read(&buf).unwrap(), data);

    let mut cached = device.retrieve(data.len(), ()).unwrap();
    device.write(&mut cached, &data).unwrap();
    assert_eq!(device.read(&cached).unwrap(), data);
}

#[test]
fn read_after_write_integers() {
    read_after_write::<i32>(vec![-7]);
    read_after_write::<i32>((0..17).collect());
    read_after_write::<i32>((0..4096).map(|i| i * 3 - 5000).collect());
}

#[test]
fn read_after_write_floats() {
    read_after_write::<f32>(vec![1.5]);
    read_after_write::<f32>((0..17).map(|i| i as f32 * 0.25).collect());
    read_after_write::<f64>((0..4096).map(|i| i as f64 / 7.0).collect());
}

fn add(device: &mut Device<HostMemory<i32>>, lhs: &Buffer<i32>, rhs: &Buffer<i32>) -> Buffer<i32> {
    let len = std::cmp::min(lhs.len(), rhs.len());
    let mut out = device.retrieve(len, (lhs, rhs)).unwrap();
    for i in 0..len {
        let sum = device.get(lhs, i).unwrap() + device.get(rhs, i).unwrap();
        device.set(&mut out, i, sum).unwrap();
    }
    out
}

#[test]
fn elementwise_add_end_to_end() {
    let mut cpu = CPU::<i32>::new();
    let lhs = cpu.buffer_from(&[1, 3, 5, 3, 2, 6]).unwrap();
    let rhs = cpu.buffer_from(&[-1, -12, -6, 3, 2, -1]).unwrap();
    let out = add(&mut cpu, &lhs, &rhs);
    assert_eq!(cpu.read(&out).unwrap(), vec![0, -9, -1, 6, 4, 5]);

    let mut devices = CLDevices::new(vec![DeviceInfo {
        name: "igpu".to_string(),
        version: "OpenCL 2.1".to_string(),
        global_mem_size: 1 << 30,
        max_mem_alloc: 1 << 28,
        unified_mem: true,
    }]);
    let mut cl = CLDevice::new(&mut devices, 0, Device::with_backend(HostMemory::<i32>::with_capacity(1, 1 << 20))).unwrap();
    let lhs = cl.device_mut().buffer_from(&[1, 3, 5, 3, 2, 6]).unwrap();
    let rhs = cl.device_mut().buffer_from(&[-1, -12, -6, 3, 2, -1]).unwrap();
    let out = add(cl.device_mut(), &lhs, &rhs);
    assert_eq!(cl.device().read(&out).unwrap(), vec![0, -9, -1, 6, 4, 5]);
    assert_eq!(cl.index(&out, 1), Ok(-9));
}

#[test]
fn a_handle_is_checked_before_use() {
    let mut device = CPU::<i32>::with_capacity(1, 100);
    let mut other = CPU::<i32>::with_capacity(2, 100);
    let mut a = device.buffer_from(&[1, 2, 3]).unwrap();
    let mut b = other.buffer_from(&[4, 5, 6]).unwrap();

    assert_eq!(device.validate(&a), Ok(()));
    assert_eq!(device.validate(&b), Err(Error::DeviceMismatch));
    assert_eq!(device.read(&b), Err(Error::DeviceMismatch));
    assert_eq!(device.write(&mut b, &[0, 0, 0]), Err(Error::DeviceMismatch));
    assert_eq!(device.write_buf(&mut a, &b), Err(Error::DeviceMismatch));
    assert_eq!(device.write_buf(&mut b, &a), Err(Error::DeviceMismatch));
    assert_eq!(device.clear(&mut b), Err(Error::DeviceMismatch));
    assert_eq!(device.get(&b, 0), Err(Error::DeviceMismatch));
    assert_eq!(device.set(&mut b, 0, 1), Err(Error::DeviceMismatch));
    assert_eq!(other.read(&b).unwrap(), vec![4, 5, 6]);

    // the right device, the wrong length
    let mut wrong = Buffer::owned(a.device, a.ptr, 4);
    assert_eq!(device.validate(&wrong), Err(Error::Driver));
    assert_eq!(device.read(&wrong), Err(Error::Driver));
    assert_eq!(device.write(&mut wrong, &[0, 0, 0, 0]), Err(Error::Driver));
    // no region at all
    let mut null = Buffer::<i32>::owned(1, CpuPtr::null(), 0);
    assert!(null.ptr.is_null());
    assert_eq!(device.validate(&null), Err(Error::Driver));
    assert_eq!(device.write(&mut null, &[]), Err(Error::Driver));

    // shorter data goes to the front, longer data is refused
    assert_eq!(device.write(&mut a, &[7, 8]), Ok(()));
    assert_eq!(device.read(&a).unwrap(), vec![7, 8, 3]);
    assert_eq!(device.write(&mut a, &[]), Ok(()));
    assert_eq!(device.write(&mut a, &[1, 2, 3, 4]), Err(Error::Driver));
    assert_eq!(device.write(&mut a, &[1, 2]), Ok(()));
    assert_eq!(device.read(&a).unwrap(), vec![1, 2, 3]);

    // a shorter source goes to the front, a longer one is refused
    let mut short = device.buffer_from(&[9, 9]).unwrap();
    assert_eq!(device.write_buf(&mut short, &a), Err(Error::Driver));
    assert_eq!(device.read(&short).unwrap(), vec![9, 9]);
    let mut long = device.buffer_from(&[5, 5, 5, 5, 5]).unwrap();
    assert_eq!(device.write_buf(&mut long, &a), Ok(()));
    assert_eq!(device.read(&long).unwrap(), vec![1, 2, 3, 5, 5]);
    assert_eq!(device.write_buf(&mut long, &short), Ok(()));
    assert_eq!(device.read(&long).unwrap(), vec![9, 9, 3, 5, 5]);

    // positions
    assert_eq!(device.get(&a, 2), Ok(3));
    assert_eq!(device.get(&a, 3), Err(Error::Driver));
    assert_eq!(device.set(&mut a, 3, 9), Err(Error::Driver));
    assert_eq!(device.set(&mut a, 0, 9), Ok(()));
    assert_eq!(device.read(&a).unwrap(), vec![9, 2, 3]);

    // after the drop
    let gone = Buffer::owned(a.device, a.ptr, a.len);
    device.drop_buf(a).unwrap();
    assert_eq!(device.read(&gone), Err(Error::Driver));
}

#[test]
fn clear_sets_defaults() {
    let mut device = CPU::<i16>::new();
    let mut lhs = device.buffer_from(&[15, 30, 21, 5, 8]).unwrap();
    assert_eq!(device.read(&lhs).unwrap(), vec![15, 30, 21, 5, 8]);
    device.clear(&mut lhs).unwrap();
    assert_eq!(device.read(&lhs).unwrap(), vec![0; 5]);
    assert_eq!(device.memory().used_elements(), 5);
}

#[test]
fn copy_slices() {
    let mut device = CPU::<i32>::new();
    let source = device.buffer_from(&[1, 2, 3, 4, 5, 6]).unwrap();
    let mut dest = device.buffer_from(&[0; 8]).unwrap();

    device
        .copy_slice_to(
            &source,
            (Bound::Included(1), Bound::Excluded(4)),
            &mut dest,
            (Bound::Included(5), Bound::Unbounded),
        )
        .unwrap();
    assert_eq!(device.read(&dest).unwrap(), vec![0, 0, 0, 0, 0, 2, 3, 4]);

    device
        .copy_slice_to(
            &source,
            (Bound::Excluded(3), Bound::Included(5)),
            &mut dest,
            (Bound::Unbounded, Bound::Excluded(2)),
        )
        .unwrap();
    assert_eq!(device.read(&dest).unwrap(), vec![5, 6, 0, 0, 0, 2, 3, 4]);

    // an empty range copies nothing
    device
        .copy_slice_to(
            &source,
            (Bound::Included(6), Bound::Unbounded),
            &mut dest,
            (Bound::Included(0), Bound::Excluded(0)),
        )
        .unwrap();
    assert_eq!(device.read(&dest).unwrap(), vec![5, 6, 0, 0, 0, 2, 3, 4]);

    // beyond the end
    let r = device.copy_slice_to(
        &source,
        (Bound::Included(4), Bound::Excluded(7)),
        &mut dest,
        (Bound::Included(0), Bound::Excluded(3)),
    );
    assert_eq!(r, Err(Error::Driver));
    // backwards
    let r = device.copy_slice_to(
        &source,
        (Bound::Included(4), Bound::Excluded(2)),
        &mut dest,
        (Bound::Included(4), Bound::Excluded(2)),
    );
    assert_eq!(r, Err(Error::Driver));
    assert_eq!(device.read(&dest).unwrap(), vec![5, 6, 0, 0, 0, 2, 3, 4]);

    // within one buffer, overlapping: what is copied is what was there
    let mut own = device.buffer_from(&[1, 2, 3, 4, 5]).unwrap();
    let alias = own.borrowed();
    device
        .copy_slice_to(
            &alias,
            (Bound::Included(0), Bound::Excluded(4)),
            &mut own,
            (Bound::Included(1), Bound::Unbounded),
        )
        .unwrap();
    assert_eq!(device.read(&own).unwrap(), vec![1, 1, 2, 3, 4]);
}

#[test]
fn copy_all_slices_or_none() {
    let mut device = CPU::<i32>::new();
    let source = device.buffer_from(&[1, 2, 3, 4, 5, 6]).unwrap();
    let mut dest = device.buffer_from(&[0; 6]).unwrap();

    device.copy_slice_all(&source, &mut dest, &[(0..2, 4..6), (4..6, 0..2), (2..3, 1..2)]).unwrap();
    assert_eq!(device.read(&dest).unwrap(), vec![5, 3, 0, 0, 1, 2]);

    let r = device.copy_slice_all(&source, &mut dest, &[(0..2, 2..4), (5..7, 0..2)]);
    assert_eq!(r, Err(Error::Driver));
    assert_eq!(device.read(&dest).unwrap(), vec![5, 3, 0, 0, 1, 2]);

    device.copy_slice_all(&source, &mut dest, &[]).unwrap();
    assert_eq!(device.read(&dest).unwrap(), vec![5, 3, 0, 0, 1, 2]);
}

#[test]
fn ranges_from_bounds() {
    assert_eq!(bounds_to_range((Bound::Included(2), Bound::Excluded(5)), 10), Some(2..5));
    assert_eq!(bounds_to_range((Bound::Excluded(2), Bound::Included(5)), 10), Some(3..6));
    assert_eq!(bounds_to_range((Bound::Unbounded, Bound::Unbounded), 10), Some(0..10));
    assert_eq!(bounds_to_range((Bound::Unbounded, Bound::Included(9)), 10), Some(0..10));
    assert_eq!(bounds_to_range((Bound::Unbounded, Bound::Included(10)), 10), None);
    assert_eq!(bounds_to_range((Bound::Included(10), Bound::Unbounded), 10), Some(10..10));
    assert_eq!(bounds_to_range((Bound::Included(11), Bound::Unbounded), 10), None);
    assert_eq!(bounds_to_range((Bound::Excluded(9), Bound::Unbounded), 10), Some(10..10));
    assert_eq!(bounds_to_range((Bound::Excluded(10), Bound::Unbounded), 10), None);
    assert_eq!(bounds_to_range((Bound::Included(5), Bound::Excluded(4)), 10), None);
    assert_eq!(bounds_to_range((Bound::Unbounded, Bound::Excluded(11)), 10), None);
    assert_eq!(bounds_to_range((Bound::Excluded(usize::MAX), Bound::Unbounded), usize::MAX), None);
    assert_eq!(bounds_to_range((Bound::Unbounded, Bound::Unbounded), 0), Some(0..0));
}

#[test]
fn lengths_of_ranges() {
    let whole = (Bound::Unbounded, Bound::Unbounded);
    assert!(lengths_agree((Bound::Included(1), Bound::Excluded(4)), 9, (Bound::Excluded(1), Bound::Included(4)), 7));
    assert!(lengths_agree(whole, 4, (Bound::Included(3), Bound::Excluded(7)), 2));
    assert!(!lengths_agree(whole, 4, whole, 5));
    assert!(!lengths_agree((Bound::Included(0), Bound::Excluded(3)), 4, (Bound::Included(0), Bound::Excluded(2)), 4));
    assert!(lengths_agree((Bound::Included(4), Bound::Excluded(2)), 4, (Bound::Included(3), Bound::Excluded(1)), 4));
    assert!(lengths_agree((Bound::Excluded(usize::MAX), Bound::Included(usize::MAX)), 0, (Bound::Included(0), Bound::Excluded(0)), 0));
}

#[test]
fn spans_in_bytes() {
    assert_eq!(byte_span(3, 5, 4), Some((12, 20)));
    assert_eq!(byte_span(0, 0, 8), Some((0, 0)));
    assert_eq!(byte_span(7, 1, 0), Some((0, 0)));
    assert_eq!(byte_span(usize::MAX, 1, 2), None);
    assert_eq!(byte_span(1, usize::MAX, 2), None);
    assert_eq!(byte_span(1 << 40, 1 << 20, 8), Some((1 << 43, 1 << 23)));
}

#[test]
fn host_memory_by_hand() {
    let mut memory = HostMemory::<u8>::with_capacity(4, 8);
    assert_eq!(memory.device_id(), 4);
    let a = memory.allocate(3).unwrap();
    let b = memory.alloc_with_data(&[1, 2, 3, 4, 5]).unwrap();
    assert!(!a.is_null() && !b.is_null() && a != b);
    assert_eq!(memory.allocate(1), Err(Error::Allocation));
    assert_eq!(memory.alloc_with_data(&[9]), Err(Error::Allocation));
    assert_eq!(memory.allocate(0).map(|_| ()), Ok(()));
    assert_eq!(memory.region_len(a), Some(3));
    assert_eq!(memory.region_len(b), Some(5));
    assert_eq!(memory.region_len(CpuPtr(77)), None);
    assert_eq!(memory.read(a).unwrap(), vec![0, 0, 0]);
    assert_eq!(memory.read(b).unwrap(), vec![1, 2, 3, 4, 5]);
    assert_eq!(memory.read(CpuPtr(77)), Err(Error::Driver));

    assert_eq!(memory.write(a, &[7, 8, 9]), Ok(()));
    assert_eq!(memory.write(a, &[6, 5]), Ok(()));
    assert_eq!(memory.read(a).unwrap(), vec![6, 5, 9]);
    assert_eq!(memory.write(a, &[7, 8, 9, 10]), Err(Error::Driver));
    assert_eq!(memory.write(a, &[7, 8]), Ok(()));
    assert_eq!(memory.write(CpuPtr(77), &[]), Err(Error::Driver));
    assert_eq!(memory.copy_slice(a, 1, b, 3, 2), Ok(()));
    assert_eq!(memory.read(b).unwrap(), vec![1, 2, 3, 8, 9]);
    assert_eq!(memory.copy_slice(a, 2, b, 0, 2), Err(Error::Driver));
    assert_eq!(memory.copy_slice(a, 0, b, 4, 2), Err(Error::Driver));
    assert_eq!(memory.copy_slice(a, usize::MAX, b, 0, 2), Err(Error::Driver));
    assert_eq!(memory.copy_slice(a, 0, CpuPtr(77), 0, 0), Err(Error::Driver));
    assert_eq!(memory.write_buf(a, b), Err(Error::Driver));
    assert_eq!(memory.write_buf(b, a), Ok(()));
    assert_eq!(memory.read(b).unwrap(), vec![7, 8, 9, 8, 9]);
    assert_eq!(memory.write(b, &[1, 2, 3]), Ok(()));
    assert_eq!(memory.load(b, 4), Ok(9));
    assert_eq!(memory.load(b, 5), Err(Error::Driver));
    assert_eq!(memory.store(b, 0, 42), Ok(()));
    assert_eq!(memory.store(b, 5, 42), Err(Error::Driver));
    assert_eq!(memory.clear(a), Ok(()));
    assert_eq!(memory.clear(CpuPtr(77)), Err(Error::Driver));
    assert_eq!(memory.read(a).unwrap(), vec![0, 0, 0]);
    assert_eq!(memory.read(b).unwrap(), vec![42, 2, 3, 8, 9]);

    assert_eq!(memory.used_elements(), 8);
    assert_eq!(memory.live(), 3);
    assert_eq!(memory.dealloc(a), Ok(()));
    assert_eq!(memory.dealloc(a), Err(Error::Driver));
    assert_eq!(memory.used_elements(), 5);
    assert_eq!(memory.live(), 2);
    assert_eq!(memory.allocation_count(), 3);
    // an address is not given out twice
    let c = memory.allocate(3).unwrap();
    assert_ne!(c, a);
    assert_eq!(memory.region_len(a), None);
}
