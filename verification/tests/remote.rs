use custos::buffer::{AllocFlag, Buffer};
use custos::error::Error;
use custos::kernel::Compile;
use custos::kernel_options::KernelOptions;
use custos::memory::CpuPtr;
use custos::node::Node;
use custos::remote::{alloc_bytes, RawAlloc, Remote};

/// An allocator that counts what it is asked for.
struct Counting {
    next: usize,
    live: Vec<usize>,
    allocated: usize,
    bytes: Vec<usize>,
    fail: bool,
    null: bool,
}

impl Counting {
    fn new() -> Counting {
        Counting { next: 0x1000, live: Vec::new(), allocated: 0, bytes: Vec::new(), fail: false, null: false }
    }
}

impl RawAlloc for Counting {
    fn raw_alloc(&mut self, bytes: usize) -> Result<CpuPtr, Error> {
        self.bytes.push(bytes);
        if self.fail {
            return Err(Error::Driver);
        }
        if self.null {
            return Ok(CpuPtr(0));
        }
        self.next += 0x100;
        self.live.push(self.next);
        self.allocated += 1;
        Ok(CpuPtr(self.next))
    }

    fn raw_free(&mut self, ptr: CpuPtr) {
        let at = self.live.iter().position(|p| *p == ptr.0).expect("released twice");
        self.live.remove(at);
    }
}

struct Fixed(usize);

impl Compile for Fixed {
    fn compile(&mut self, _source: &str, _entry: &str) -> Result<usize, String> {
        self.0 += 1;
        Ok(self.0)
    }
}

#[test]
fn remote_pointer_reuse_asks_the_allocator_once() {
    let mut device = Remote::new(Counting::new(), 7);
    let a: Buffer<f32> = device.retrieve(8, ()).unwrap();
    assert_eq!(a.device, 7);
    assert_eq!(a.flag, AllocFlag::Cached);
    assert_eq!(a.node, Some(Node { idx: 0, len: 8, parents: None }));
    assert_eq!(device.allocator().bytes, vec![32]);
    let ptr = a.ptr;
    device.drop_buf(a).unwrap();
    assert_eq!(device.allocator().live.len(), 1);

    device.set_count(0);
    let b: Buffer<f32> = device.retrieve(8, ()).unwrap();
    assert_eq!(b.ptr, ptr);
    assert_eq!(device.allocator().allocated, 1);
    assert_eq!(device.cache_size(), 1);
}

#[test]
fn remote_passes_and_teardown() {
    let mut device = Remote::new(Counting::new(), 1);
    for _pass in 0..3 {
        device.set_count(0);
        for len in [4usize, 2, 9] {
            let buf: Buffer<u16> = device.cached(len).unwrap();
            device.drop_buf(buf).unwrap();
        }
        assert_eq!(device.get_count(), 3);
        assert_eq!(device.cache_size(), 3);
    }
    assert_eq!(device.allocator().allocated, 3);
    assert_eq!(device.allocator().bytes, vec![8, 4, 18]);
    let owned: Buffer<u16> = device.buffer(5).unwrap();
    assert_eq!(device.allocator().live.len(), 4);
    device.drop_buf(owned).unwrap();
    assert_eq!(device.allocator().live.len(), 3);
    let allocator = device.teardown();
    assert!(allocator.live.is_empty());
}

#[test]
fn remote_failures() {
    let mut device = Remote::new(Counting::new(), 1);
    let a: Buffer<i64> = device.retrieve(3, ()).unwrap();
    device.set_count(0);
    assert_eq!(device.retrieve::<i64, _>(3, ()).unwrap().ptr, a.ptr);

    // more bytes than can be counted: the allocator is not asked
    assert_eq!(device.retrieve::<i64, _>(usize::MAX, ()), Err(Error::Allocation));
    assert_eq!(device.buffer::<i64>(usize::MAX / 4), Err(Error::Allocation));
    assert_eq!(device.allocator().bytes, vec![24]);

    // the allocator fails, or hands out nothing
    device.allocator_mut().fail = true;
    assert_eq!(device.retrieve::<i64, _>(2, ()), Err(Error::Allocation));
    device.allocator_mut().fail = false;
    device.allocator_mut().null = true;
    assert_eq!(device.retrieve::<i64, _>(2, ()), Err(Error::Allocation));
    assert_eq!(device.buffer::<i64>(2), Err(Error::Allocation));
    device.allocator_mut().null = false;
    assert_eq!(device.get_count(), 1);
    assert_eq!(device.cache_size(), 1);
    assert_eq!(device.retrieve::<i64, _>(2, ()).unwrap().node.unwrap().idx, 1);

    // buffers of other devices, and buffers without a region
    let foreign = Buffer::<i64>::owned(2, CpuPtr(0x10), 1);
    assert_eq!(device.validate(&foreign), Err(Error::DeviceMismatch));
    assert_eq!(device.drop_buf(foreign), Err(Error::DeviceMismatch));
    assert_eq!(device.validate(&a), Ok(()));
    assert_eq!(device.release_of(&a), Ok(None));
    let owned: Buffer<i64> = device.buffer(1).unwrap();
    assert_eq!(device.release_of(&owned), Ok(Some(owned.ptr)));
    device.drop_buf(owned).unwrap();
    assert_eq!(device.release_of(&Buffer::<i64>::owned(2, CpuPtr(0x10), 1)), Err(Error::DeviceMismatch));

    device.clear_cache();
    assert_eq!(device.cache_size(), 0);
    assert!(device.allocator().live.is_empty());
}

#[test]
fn remote_kernels() {
    let mut compiler = Fixed(0);
    let mut device = Remote::new(Counting::new(), 4);
    assert_eq!(device.device_id(), 4);
    let first = device.kernel(&mut compiler, "k", "main").unwrap();
    let again = device.kernel(&mut compiler, "k", "main").unwrap();
    assert_eq!(first, again);
    assert_eq!(compiler.0, 1);

    let lhs: Buffer<i32> = device.buffer(4).unwrap();
    let options = KernelOptions::new(4, &lhs, [4, 0, 0], "k", "main");
    let launch = device.launch(&options, &mut compiler).unwrap();
    assert_eq!(launch.kernel, first);
    assert_eq!(compiler.0, 1);
    let elsewhere = KernelOptions::new(5, &lhs, [4, 0, 0], "k", "main");
    assert_eq!(device.launch(&elsewhere, &mut compiler), Err(Error::DeviceMismatch));
}

#[test]
fn remote_teardown_with_nothing_cached_leaves_the_allocator_alone() {
    let mut device = Remote::new(Counting::new(), 2);
    let owned: Buffer<u8> = device.buffer(3).unwrap();
    device.clear_cache();
    let allocator = device.teardown();
    assert_eq!(allocator.live, vec![owned.ptr.0]);
    assert_eq!(allocator.allocated, 1);
    assert_eq!(allocator.bytes, vec![3]);
}

#[test]
fn remote_diverging_pass_is_a_miss() {
    let mut device = Remote::new(Counting::new(), 1);
    let a: Buffer<i64> = device.retrieve(3, ()).unwrap();
    device.set_count(0);
    let b: Buffer<i64> = device.retrieve(4, ()).unwrap();
    assert_ne!(a.ptr, b.ptr);
    assert_eq!(b.node, Some(Node { idx: 0, len: 4, parents: None }));
    assert_eq!(device.cache_size(), 2);
    assert_eq!(device.allocator().bytes, vec![24, 32]);
    device.set_count(0);
    assert_eq!(device.retrieve::<i64, _>(3, ()).unwrap().ptr, a.ptr);
    device.set_count(0);
    assert_eq!(device.retrieve::<i64, _>(4, ()).unwrap().ptr, b.ptr);
    assert_eq!(device.allocator().allocated, 2);
}

#[test]
fn remote_answers_are_settled() {
    assert_eq!(alloc_bytes::<u32>(5), Some(20));
    assert_eq!(alloc_bytes::<u8>(0), Some(0));
    assert_eq!(alloc_bytes::<u64>(usize::MAX / 4), None);

    let mut device = Remote::new(Counting::new(), 3);
    let node = Node { idx: 0, len: 5, parents: None };
    assert_eq!(device.settle::<u32>(node, Err(Error::Driver)), Err(Error::Allocation));
    assert_eq!(device.settle::<u32>(node, Ok(CpuPtr(0))), Err(Error::Allocation));
    assert_eq!(device.cache_size(), 0);
    let buf = device.settle::<u32>(node, Ok(CpuPtr(0x40))).unwrap();
    assert_eq!(buf, Buffer::cached(3, CpuPtr(0x40), node));
    assert_eq!(device.cache_size(), 1);
    assert_eq!(device.adopt::<u32>(5, Ok(CpuPtr(0x50))), Ok(Buffer::owned(3, CpuPtr(0x50), 5)));
    assert_eq!(device.adopt::<u32>(5, Ok(CpuPtr(0))), Err(Error::Allocation));
    assert_eq!(device.adopt::<u32>(5, Err(Error::Driver)), Err(Error::Allocation));
    assert_eq!(device.drain(), vec![CpuPtr(0x40)]);
    assert_eq!(device.cache_size(), 0);
}
