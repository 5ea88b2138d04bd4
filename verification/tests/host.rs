use dylib_reload::custom_alloc::{init, save_alloc_in_buffer, save_dealloc_in_buffer, send_cached_allocs};
use dylib_reload::host::{
    check_not_exited, is_fatal_message, is_quit_command, library_path, AllocRegistry, HostError,
};
use dylib_reload::{Allocation, AllocatorOp, AllocatorPtr, CLayout, InitedGuard};

fn allocation(ptr: usize, size: usize) -> Allocation {
    Allocation(AllocatorPtr(ptr), CLayout { size, align: 16 })
}

fn sorted(mut v: Vec<Allocation>) -> Vec<Allocation> {
    v.sort_by_key(|a| a.0 .0);
    v
}

#[test]
fn reported_allocations_are_recorded_and_forgotten() {
    let mut registry = AllocRegistry::new();
    registry.on_alloc(0x1000, CLayout { size: 64, align: 16 });
    registry.on_alloc(0x2000, CLayout { size: 32, align: 16 });
    assert_eq!(registry.len(), 2);
    assert_eq!(registry.on_dealloc(0x1000), Ok(allocation(0x1000, 64)));
    assert_eq!(registry.len(), 1);
    assert_eq!(registry.take_allocations(), vec![allocation(0x2000, 32)]);
}

#[test]
fn unknown_deallocation_is_refused() {
    let mut registry = AllocRegistry::new();
    registry.on_alloc(0x1000, CLayout { size: 64, align: 16 });
    assert_eq!(registry.on_dealloc(0x3000), Err(HostError::UnknownAllocation));
    assert_eq!(registry.len(), 1);
}

#[test]
fn dealloc_after_alloc_restores_registry() {
    let mut registry = AllocRegistry::new();
    registry.on_alloc(0x10, CLayout { size: 8, align: 8 });
    registry.on_alloc(0x20, CLayout { size: 8, align: 8 });
    registry.on_dealloc(0x20).unwrap();
    assert_eq!(registry.take_allocations(), vec![Allocation(AllocatorPtr(0x10), CLayout { size: 8, align: 8 })]);
}

#[test]
fn batches_apply_in_order_and_ignore_unknown_frees() {
    let mut registry = AllocRegistry::new();
    registry.on_alloc(0x100, CLayout { size: 4, align: 16 });
    let ops = vec![
        AllocatorOp::Alloc(allocation(0x200, 8)),
        AllocatorOp::Dealloc(allocation(0x100, 4)),
        AllocatorOp::Dealloc(allocation(0x900, 4)),
        AllocatorOp::Alloc(allocation(0x300, 2)),
        AllocatorOp::Dealloc(allocation(0x200, 8)),
        AllocatorOp::Alloc(allocation(0x200, 12)),
    ];
    registry.receive_cached_allocs(&ops);
    assert_eq!(
        sorted(registry.take_allocations()),
        vec![allocation(0x200, 12), allocation(0x300, 2)]
    );
    assert_eq!(registry.len(), 0);
}

#[test]
fn shipped_cache_gives_the_same_registry_as_every_event() {
    let history = vec![
        AllocatorOp::Alloc(allocation(0x40, 8)),
        AllocatorOp::Alloc(allocation(0x80, 8)),
        AllocatorOp::Dealloc(allocation(0x40, 8)),
        AllocatorOp::Alloc(allocation(0xc0, 24)),
        AllocatorOp::Dealloc(allocation(0xc0, 24)),
        AllocatorOp::Alloc(allocation(0x40, 16)),
    ];

    let mut direct = AllocRegistry::new();
    direct.on_alloc(0x80, CLayout { size: 99, align: 16 });
    direct.receive_cached_allocs(&history);

    let mut cache = InitedGuard::uninit();
    let mut transport = Vec::new();
    init(&mut cache, &mut transport);
    for op in &history {
        let r = match op {
            AllocatorOp::Alloc(Allocation(AllocatorPtr(p), l)) => {
                save_alloc_in_buffer(*p, *l, &mut cache, &mut transport)
            }
            AllocatorOp::Dealloc(Allocation(AllocatorPtr(p), l)) => {
                save_dealloc_in_buffer(*p, *l, &mut cache, &mut transport)
            }
        };
        assert_eq!(r, Ok(false));
    }
    send_cached_allocs(&mut cache, &mut transport).unwrap();
    assert_eq!(transport.len(), 3);

    let mut batched = AllocRegistry::new();
    batched.on_alloc(0x80, CLayout { size: 99, align: 16 });
    batched.receive_cached_allocs(&transport);

    let expected = vec![allocation(0x40, 16), allocation(0x80, 8)];
    assert_eq!(sorted(direct.take_allocations()), expected);
    assert_eq!(sorted(batched.take_allocations()), expected);
}

#[test]
fn library_that_already_exited_is_refused() {
    assert_eq!(check_not_exited(false), Ok(()));
    assert_eq!(check_not_exited(true), Err(HostError::NotUnloaded));
}

#[test]
fn fatal_messages_are_recognised() {
    assert!(is_fatal_message("fatal error: unknown allocation"));
    assert!(is_fatal_message("fatal error:"));
    assert!(!is_fatal_message("fatal error"));
    assert!(!is_fatal_message("calling thread-local destructors (0)"));
    assert!(!is_fatal_message(""));
}

#[test]
fn quit_command_is_q_and_newline() {
    assert!(is_quit_command("q\n"));
    assert!(!is_quit_command("q"));
    assert!(!is_quit_command("q\n\n"));
    assert!(!is_quit_command("\n"));
}

#[test]
fn library_path_follows_build_kind() {
    assert_eq!(library_path(true), "target/debug/libexample_lib.so");
    assert_eq!(library_path(false), "target/release/libexample_lib.so");
}
