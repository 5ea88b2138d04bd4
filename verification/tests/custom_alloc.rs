use dylib_reload::custom_alloc::{
    init, push_to_allocs_cache, save_alloc_in_buffer, save_dealloc_in_buffer, send_cached_allocs,
    unload, CACHE_SIZE,
};
use dylib_reload::{
    AllocRoute, Allocation, AllocatorOp, AllocatorPtr, AllocsCacheGuard, CLayout, CacheError,
    CustomAlloc, InitedGuard,
};

fn layout(size: usize) -> CLayout {
    CLayout { size, align: 8 }
}

fn alloc_op(ptr: usize, size: usize) -> AllocatorOp {
    AllocatorOp::Alloc(Allocation(AllocatorPtr(ptr), layout(size)))
}

fn dealloc_op(ptr: usize, size: usize) -> AllocatorOp {
    AllocatorOp::Dealloc(Allocation(AllocatorPtr(ptr), layout(size)))
}

fn ready_cache() -> (AllocsCacheGuard, Vec<AllocatorOp>) {
    let mut cache = InitedGuard::uninit();
    let mut transport = Vec::new();
    init(&mut cache, &mut transport);
    (cache, transport)
}

#[test]
fn allocations_are_reported_while_the_cache_is_set_up() {
    let allocator = CustomAlloc::new();
    assert_eq!(allocator.alloc_route(true), AllocRoute::Report);
    assert_eq!(allocator.alloc_route(false), AllocRoute::Cache);
}

#[test]
fn deallocations_follow_exit_then_unload() {
    let allocator = CustomAlloc::new();
    assert_eq!(allocator.dealloc_route(true, true), AllocRoute::Skip);
    assert_eq!(allocator.dealloc_route(true, false), AllocRoute::Skip);
    assert_eq!(allocator.dealloc_route(false, true), AllocRoute::Report);
    assert_eq!(allocator.dealloc_route(false, false), AllocRoute::Cache);
}

#[test]
fn guard_refuses_use_before_init() {
    let mut guard: InitedGuard<u32> = InitedGuard::uninit();
    assert_eq!(guard.as_mut().err(), Some(CacheError::NotInitialized));
    assert_eq!(guard.replace(3), None);
    *guard.as_mut().unwrap() += 1;
    assert_eq!(guard.replace(9), Some(4));
    assert_eq!(guard.take(), Some(9));
    assert_eq!(guard.take(), None);
}

#[test]
fn push_without_cache_is_refused() {
    let mut cache = InitedGuard::uninit();
    let mut transport = vec![alloc_op(1, 1)];
    let r = push_to_allocs_cache(alloc_op(16, 4), &mut cache, &mut transport);
    assert_eq!(r, Err(CacheError::NotInitialized));
    assert_eq!(transport, vec![alloc_op(1, 1)]);
    assert!(cache.take().is_none());
}

#[test]
fn cache_keeps_last_event_per_address() {
    let (mut cache, mut transport) = ready_cache();
    assert_eq!(save_alloc_in_buffer(64, layout(32), &mut cache, &mut transport), Ok(false));
    assert_eq!(save_alloc_in_buffer(128, layout(16), &mut cache, &mut transport), Ok(false));
    assert_eq!(save_dealloc_in_buffer(64, layout(32), &mut cache, &mut transport), Ok(false));
    assert_eq!(cache.as_mut().unwrap().len(), 2);
    assert!(transport.is_empty());

    assert_eq!(send_cached_allocs(&mut cache, &mut transport), Ok(()));
    assert_eq!(cache.as_mut().unwrap().len(), 0);
    assert_eq!(transport.len(), 2);
    assert!(transport.contains(&dealloc_op(64, 32)));
    assert!(transport.contains(&alloc_op(128, 16)));
    assert!(!transport.contains(&alloc_op(64, 32)));
}

#[test]
fn shipping_appends_to_transport() {
    let (mut cache, _) = ready_cache();
    let mut transport = vec![alloc_op(8, 8)];
    save_alloc_in_buffer(24, layout(8), &mut cache, &mut transport).unwrap();
    send_cached_allocs(&mut cache, &mut transport).unwrap();
    assert_eq!(transport, vec![alloc_op(8, 8), alloc_op(24, 8)]);
}

#[test]
fn full_cache_is_shipped() {
    let (mut cache, mut transport) = ready_cache();
    for i in 0..CACHE_SIZE - 1 {
        let r = save_alloc_in_buffer(16 * (i + 1), layout(16), &mut cache, &mut transport);
        assert_eq!(r, Ok(false));
    }
    assert!(transport.is_empty());
    // an address already cached does not grow the cache
    assert_eq!(save_dealloc_in_buffer(16, layout(16), &mut cache, &mut transport), Ok(false));
    let r = save_alloc_in_buffer(16 * (CACHE_SIZE + 1), layout(16), &mut cache, &mut transport);
    assert_eq!(r, Ok(true));
    assert_eq!(transport.len(), CACHE_SIZE);
    assert_eq!(cache.as_mut().unwrap().len(), 0);
    assert!(transport.contains(&dealloc_op(16, 16)));
    assert!(transport.contains(&alloc_op(16 * (CACHE_SIZE + 1), 16)));
}

#[test]
fn send_without_cache_is_refused() {
    let mut cache = InitedGuard::uninit();
    let mut transport = Vec::new();
    assert_eq!(send_cached_allocs(&mut cache, &mut transport), Err(CacheError::NotInitialized));
    assert!(transport.is_empty());
}

#[test]
fn init_after_unload_gives_empty_cache_and_keeps_transport() {
    let (mut cache, mut transport) = ready_cache();
    assert!(cache.is_inited());
    save_alloc_in_buffer(40, layout(8), &mut cache, &mut transport).unwrap();
    transport.push(alloc_op(1, 1));
    unload(&mut cache).unwrap();
    assert!(!cache.is_inited());
    init(&mut cache, &mut transport);
    assert_eq!(cache.as_mut().unwrap().len(), 0);
    assert_eq!(transport, vec![alloc_op(1, 1)]);
}

#[test]
fn allocation_text_shows_address_and_size() {
    assert_eq!(Allocation(AllocatorPtr(16), CLayout { size: 8, align: 4 }).debug_text(), "(0x10, 8)");
    assert_eq!(Allocation(AllocatorPtr(0), CLayout { size: 0, align: 1 }).debug_text(), "(0x0, 0)");
    assert_eq!(
        Allocation(AllocatorPtr(0x7f3a_12bc_0040), CLayout { size: 4096, align: 64 }).debug_text(),
        "(0x7f3a12bc0040, 4096)"
    );
}

#[test]
fn unload_takes_the_cache_once() {
    let (mut cache, mut transport) = ready_cache();
    save_alloc_in_buffer(40, layout(8), &mut cache, &mut transport).unwrap();
    let taken = unload(&mut cache).unwrap();
    assert_eq!(taken.len(), 1);
    assert!(unload(&mut cache).is_err());
    assert_eq!(
        save_dealloc_in_buffer(40, layout(8), &mut cache, &mut transport),
        Err(CacheError::NotInitialized)
    );
}
