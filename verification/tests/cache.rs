use custos::buffer::{AllocFlag, Buffer, NO_NODE};
use custos::cache::CPUCache;
use custos::device::{Device, CPU};
use custos::error::Error;
use custos::host::HostMemory;
use custos::memory::{Alloc, CpuPtr};
use custos::node::{AddGraph, Graph, Node};
use custos::pass::{range, Count};

#[test]
fn pointer_reuse_after_drop() {
    let mut device = CPU::<f32>::new();
    let a = device.retrieve(16, ()).unwrap();
    let ptr = a.ptr;
    assert_eq!(a.flag, AllocFlag::Cached);
    assert_eq!(a.node, Some(Node { idx: 0, len: 16, parents: None }));
    assert_eq!(device.memory().allocation_count(), 1);
    device.drop_buf(a).unwrap();
    assert_eq!(device.memory().live(), 1);

    device.set_count(0);
    let b = device.retrieve(16, ()).unwrap();
    assert_eq!(b.ptr, ptr);
    assert_eq!(device.memory().allocation_count(), 1);
    assert_eq!(device.memory().live(), 1);
}

#[test]
fn cache_size_counts_distinct_leaves() {
    let mut device = CPU::<i64>::new();
    let mut bufs = Vec::new();
    for len in [3usize, 1, 4, 1, 5] {
        bufs.push(device.retrieve(len, ()).unwrap());
    }
    assert_eq!(device.cache_size(), 5);
    for buf in bufs {
        device.drop_buf(buf).unwrap();
    }
    assert_eq!(device.cache_size(), 5);
    assert_eq!(device.memory().used_elements(), 14);
}

#[test]
fn second_pass_does_not_grow_cache() {
    let mut device = CPU::<i64>::new();
    let lens = [3usize, 1, 4, 1, 5, 9];
    let mut first = Vec::new();
    let mut passes = range(&device, 2);
    assert_eq!(passes.next(&mut device), Some(0));
    for len in lens {
        first.push(device.retrieve(len, ()).unwrap().ptr);
    }
    assert_eq!(device.cache_size(), 6);
    assert_eq!(passes.next(&mut device), Some(1));
    assert_eq!(device.get_count(), 0);
    let mut second = Vec::new();
    for len in lens {
        second.push(device.retrieve(len, ()).unwrap().ptr);
    }
    assert_eq!(first, second);
    assert_eq!(device.cache_size(), 6);
    assert_eq!(device.memory().allocation_count(), 6);
    assert_eq!(passes.next(&mut device), None);
    assert_eq!(passes.next(&mut device), None);
}

#[test]
fn a_diverging_pass_is_a_miss() {
    let mut device = CPU::<u8>::new();
    let a = device.retrieve(10, ()).unwrap();
    let b = device.retrieve(10, &a).unwrap();
    assert_eq!(device.get_count(), 2);
    assert_eq!(device.cache_size(), 2);

    // the same index with another length: a region of its own
    device.set_count(0);
    let longer = device.retrieve(11, ()).unwrap();
    assert_eq!(longer.node, Some(Node { idx: 0, len: 11, parents: None }));
    assert_eq!(longer.len, 11);
    assert_ne!(longer.ptr, a.ptr);
    assert_eq!(device.get_count(), 1);
    assert_eq!(device.cache_size(), 3);
    assert_eq!(device.memory().allocation_count(), 3);

    // the same index and length with other parents: a region of its own
    let other = device.retrieve(10, (0usize, 1usize)).unwrap();
    assert_ne!(other.ptr, b.ptr);
    assert_eq!(device.cache_size(), 4);

    // what was cached before stays, and is found again
    device.set_count(0);
    assert_eq!(device.retrieve(10, ()).unwrap().ptr, a.ptr);
    assert_eq!(device.retrieve(10, a.idx()).unwrap().ptr, b.ptr);
    device.set_count(0);
    assert_eq!(device.retrieve(11, ()).unwrap().ptr, longer.ptr);
    assert_eq!(device.retrieve(10, (0usize, 1usize)).unwrap().ptr, other.ptr);
    assert_eq!(device.cache_size(), 4);
    assert_eq!(device.memory().allocation_count(), 4);
}

#[test]
fn a_miss_needs_room_and_a_hit_does_not() {
    let mut device = CPU::<u8>::with_capacity(1, 10);
    let a = device.retrieve(6, ()).unwrap();
    assert_eq!(device.retrieve(5, ()), Err(Error::Allocation));
    assert_eq!(device.get_count(), 1);
    assert_eq!(device.cache_size(), 1);
    let b = device.retrieve(4, ()).unwrap();
    assert_eq!(device.buffer(1), Err(Error::Allocation));
    assert_eq!(device.memory().used_elements(), 10);

    device.set_count(0);
    assert_eq!(device.retrieve(6, ()).unwrap().ptr, a.ptr);
    assert_eq!(device.retrieve(4, ()).unwrap().ptr, b.ptr);
}

#[test]
fn clearing_the_cache_releases_its_regions() {
    let mut device = CPU::<i32>::new();
    let a = device.retrieve(6, ()).unwrap();
    let b = device.retrieve(4, ()).unwrap();
    let c = device.buffer_from(&[1, 2, 3]).unwrap();
    assert_eq!(device.memory().live(), 3);
    device.clear_cache();
    assert_eq!(device.cache_size(), 0);
    assert_eq!(device.memory().live(), 1);
    assert_eq!(device.memory().used_elements(), 3);
    assert_eq!(device.read(&a), Err(Error::Driver));
    assert_eq!(device.read(&b), Err(Error::Driver));
    assert_eq!(device.read(&c).unwrap(), vec![1, 2, 3]);

    // a new pass allocates anew, at addresses that were never used
    device.set_count(0);
    let a2 = device.retrieve(6, ()).unwrap();
    assert_ne!(a2.ptr, a.ptr);
    assert_eq!(device.memory().allocation_count(), 4);
}

#[test]
fn teardown_releases_everything() {
    let mut device = CPU::<f64>::new();
    let mut cached = Vec::new();
    for _ in 0..4 {
        cached.push(device.retrieve(8, ()).unwrap());
    }
    let owned = device.buffer(3).unwrap();
    let _left = device.buffer_from(&[1.0, 2.0]).unwrap();
    assert_eq!(device.memory().live(), 6);
    for buf in cached {
        device.drop_buf(buf).unwrap();
    }
    assert_eq!(device.memory().live(), 6);
    device.drop_buf(owned).unwrap();
    assert_eq!(device.memory().live(), 5);
    let memory = device.teardown();
    assert_eq!(memory.live(), 0);
    assert_eq!(memory.used_elements(), 0);
    assert_eq!(memory.allocation_count(), 6);
}

#[test]
fn dropping_buffers() {
    let mut device = CPU::<i32>::with_capacity(5, 100);
    let mut other = CPU::<i32>::with_capacity(6, 100);
    let a = device.buffer_from(&[1, 2, 3]).unwrap();
    let view = a.borrowed();
    assert_eq!(view.flag, AllocFlag::Borrowed);
    assert!(a.owns_memory());
    assert!(!view.owns_memory());

    // a borrowed buffer never releases
    device.drop_buf(view).unwrap();
    assert_eq!(device.read(&a).unwrap(), vec![1, 2, 3]);

    // the wrong device refuses
    let foreign = other.buffer(3).unwrap();
    assert_eq!(device.drop_buf(foreign), Err(Error::DeviceMismatch));

    // an owned buffer releases once
    let again = Buffer::owned(a.device, a.ptr, a.len);
    device.drop_buf(a).unwrap();
    assert_eq!(device.memory().live(), 0);
    assert_eq!(device.drop_buf(again), Err(Error::Driver));

    // a handle that claims to own a cached region releases nothing
    let cached = device.retrieve(4, ()).unwrap();
    let forged = Buffer::owned(cached.device, cached.ptr, cached.len);
    assert_eq!(device.drop_buf(forged), Err(Error::Driver));
    assert_eq!(device.read(&cached).unwrap().len(), 4);
}

#[test]
fn cache_by_hand() {
    let mut memory = HostMemory::<i32>::with_capacity(9, 50);
    let mut cache = CPUCache::new();
    let node = Node { idx: 3, len: 5, parents: Some((1, 2)) };
    assert_eq!(cache.find(&node), None);

    let buf = cache.get(&mut memory, node).unwrap();
    assert_eq!(buf.device, 9);
    assert_eq!(buf.len, 5);
    assert_eq!(cache.len(), 1);
    assert_eq!(cache.find(&node), Some(buf.ptr));
    assert_eq!(cache.find(&Node { len: 6, ..node }), None);
    assert_eq!(cache.find(&Node { parents: None, ..node }), None);
    assert_eq!(cache.find(&Node { idx: 4, ..node }), None);

    // the miss path refuses a node that is cached
    assert_eq!(cache.add_node(&mut memory, node), Err(Error::StaleCache));
    assert_eq!(memory.live(), 1);
    assert_eq!(cache.get(&mut memory, node).unwrap().ptr, buf.ptr);

    // another node under the same index gets a region of its own
    let longer = cache.get(&mut memory, Node { len: 6, ..node }).unwrap();
    assert_ne!(longer.ptr, buf.ptr);
    assert_eq!(longer.len, 6);
    assert_eq!(cache.len(), 2);
    assert_eq!(cache.find(&node), Some(buf.ptr));
    assert_eq!(memory.used_elements(), 11);

    let big = Node { idx: 0, len: 40, parents: None };
    assert_eq!(cache.add_node(&mut memory, big), Err(Error::Allocation));
    assert_eq!(cache.get(&mut memory, big), Err(Error::Allocation));
    assert_eq!(cache.len(), 2);

    cache.clear(&mut memory);
    assert_eq!(cache.len(), 0);
    assert_eq!(memory.live(), 0);
}

#[test]
fn cache_for_a_foreign_allocator() {
    let mut cache = CPUCache::new();
    let a = Node { idx: 0, len: 5, parents: None };
    let b = Node { idx: 1, len: 7, parents: Some((0, 0)) };
    assert_eq!(cache.file(a, CpuPtr(0x1000)), Ok(()));
    assert_eq!(cache.file(b, CpuPtr(0x2000)), Ok(()));
    assert_eq!(cache.file(a, CpuPtr(0x3000)), Err(Error::StaleCache));
    assert_eq!(cache.file(Node { len: 6, ..a }, CpuPtr(0x4000)), Ok(()));
    assert_eq!(cache.find(&a), Some(CpuPtr(0x1000)));
    assert_eq!(cache.find(&Node { len: 6, ..a }), Some(CpuPtr(0x4000)));
    let mut ptrs = cache.drain();
    ptrs.sort();
    assert_eq!(ptrs, vec![CpuPtr(0x1000), CpuPtr(0x2000), CpuPtr(0x4000)]);
    assert_eq!(cache.len(), 0);
    assert_eq!(cache.drain(), vec![]);
}

#[test]
fn graph_counts_from_zero() {
    let mut graph = Graph::new();
    assert_eq!(graph.len(), 0);
    assert_eq!(graph.get(0), None);
    let a = graph.add_leaf(4);
    let b = graph.add_node(4, 0, 0);
    let c = graph.add(8, &(0usize, 1usize));
    let d = graph.add(8, &());
    let e = graph.add(2, &2usize);
    assert_eq!(a, Node { idx: 0, len: 4, parents: None });
    assert_eq!(b, Node { idx: 1, len: 4, parents: Some((0, 0)) });
    assert_eq!(c, Node { idx: 2, len: 8, parents: Some((0, 1)) });
    assert_eq!(d, Node { idx: 3, len: 8, parents: None });
    assert_eq!(e, Node { idx: 4, len: 2, parents: Some((2, 2)) });
    assert!(a.is_leaf() && !b.is_leaf());
    assert!(a.same_identity(&Node { idx: 0, len: 4, parents: None }));
    assert!(!a.same_identity(&b));
    assert_eq!(graph.get(2), Some(c));
    graph.set_count(7);
    assert_eq!(graph.len(), 5);
    graph.set_count(2);
    assert_eq!(graph.len(), 2);
    assert_eq!(graph.add_leaf(1).idx, 2);
}

#[test]
fn parents_of_operands() {
    assert_eq!(().idxs(), (0, 0));
    assert_eq!(7usize.idxs(), (7, 7));
    assert_eq!((3usize, 5usize).idxs(), (3, 5));

    let mut device = CPU::<i32>::new();
    let input = device.buffer_from(&[1, 2]).unwrap();
    assert_eq!(input.idx(), NO_NODE);
    assert_eq!(input.idxs(), (NO_NODE, NO_NODE));
    let a = device.retrieve(2, ()).unwrap();
    let b = device.retrieve(2, &input).unwrap();
    assert_eq!((&a).idxs(), (0, 0));
    assert_eq!((&a, &b).idxs(), (0, 1));
    let c = device.retrieve(2, (&a, &b)).unwrap();
    assert_eq!(c.node, Some(Node { idx: 2, len: 2, parents: Some((0, 1)) }));
    assert_eq!(b.node, Some(Node { idx: 1, len: 2, parents: Some((NO_NODE, NO_NODE)) }));
}

#[test]
fn nested_passes_return_to_their_own_count() {
    let mut device = Device::with_backend(HostMemory::<i32>::new());
    let _a = device.cached(1).unwrap();
    let mut outer = range(&device, 3);
    assert_eq!(outer, Count { epoch: 0, idx: 1, end: 3 });
    let mut epochs = Vec::new();
    while let Some(epoch) = outer.next(&mut device) {
        epochs.push(epoch);
        assert_eq!(device.get_count(), 1);
        let _b = device.cached(2).unwrap();
        let mut inner = range(&device, 2);
        while let Some(_) = inner.next(&mut device) {
            assert_eq!(device.get_count(), 2);
            let _c = device.cached(3).unwrap();
            assert_eq!(device.get_count(), 3);
        }
        assert_eq!(device.get_count(), 2);
    }
    assert_eq!(epochs, vec![0, 1, 2]);
    assert_eq!(device.get_count(), 1);
    assert_eq!(device.cache_size(), 3);
    assert_eq!(device.memory().device_id(), 0);
}
