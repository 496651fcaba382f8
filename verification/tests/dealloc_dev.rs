use custos::cl_device::{CLDevice, CLDevices, DeviceInfo};
use custos::device::{Device, CPU};
use custos::host::HostMemory;
use custos::pass::range;

fn one_gpu() -> CLDevices {
    CLDevices::new(vec![DeviceInfo {
        name: "gpu".to_string(),
        version: "OpenCL 3.0".to_string(),
        global_mem_size: 8_000_000_000,
        max_mem_alloc: 2_000_000_000,
        unified_mem: false,
    }])
}

#[test]
fn test_rc_get_dev() {
    {
        let mut device = CPU::new();
        let mut a = device.buffer_from(&[1., 2., 3., 4., 5., 6.]).unwrap();

        let mut passes = range(&device, 100);
        while let Some(_) = passes.next(&mut device) {
            device.clear(&mut a).unwrap();
            assert_eq!(vec![0.; 6], device.read(&a).unwrap());
        }
    }
}

#[test]
fn test_dealloc_cl() {
    let mut devices = one_gpu();
    let mut device = CLDevice::new(&mut devices, 0, Device::with_backend(HostMemory::<f32>::new())).unwrap();

    let a = device.device_mut().buffer_from(&[1f32, 2., 3., 4., 5., 6.]).unwrap();
    let b = device.device_mut().buffer_from(&[6., 5., 4., 3., 2., 1.]).unwrap();

    device.device_mut().drop_buf(a).unwrap();
    device.device_mut().drop_buf(b).unwrap();
    let memory = device.release(&mut devices).teardown();
    assert_eq!(memory.live(), 0);
    assert_eq!(devices.device_count(), 0);
}

#[test]
fn test_dealloc_device_cache_cpu() {
    let mut device = CPU::<f32>::new();

    assert_eq!(device.cache_size(), 0);
    let a = device.retrieve(10, ()).unwrap();
    assert_eq!(device.cache_size(), 1);

    device.drop_buf(a).unwrap();
    let memory = device.teardown();
    assert_eq!(memory.live(), 0);
}

#[test]
fn test_dealloc_device_cache_cl() {
    let mut devices = one_gpu();
    let mut device = CLDevice::new(&mut devices, 0, Device::with_backend(HostMemory::<f32>::new())).unwrap();

    assert_eq!(device.device().cache_size(), 0);
    let a = device.device_mut().retrieve(10, ()).unwrap();
    assert_eq!(device.device().cache_size(), 1);

    device.device_mut().drop_buf(a).unwrap();
    let memory = device.release(&mut devices).teardown();
    assert_eq!(memory.live(), 0);
}

#[test]
fn test_dealloc_device_cache_cu() {
    let mut device = Device::with_backend(HostMemory::<f32>::with_capacity(2, 1 << 20));

    assert_eq!(device.cache_size(), 0);
    let a = device.retrieve(10, ()).unwrap();
    assert_eq!(device.cache_size(), 1);

    device.drop_buf(a).unwrap();
    let memory = device.teardown();
    assert_eq!(memory.live(), 0);
}
