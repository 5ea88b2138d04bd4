use dylib_reload::dtors::{dtors_report, thread_dtor_route, Destructors, DtorRoute};
use dylib_reload::text::{decimal_string, has_prefix, hex_string, same_text};

#[test]
fn destructors_run_last_registered_first() {
    let mut dtors = Destructors::new();
    dtors.register((0x10usize, 1u8));
    dtors.register((0x20usize, 2u8));
    dtors.register((0x30usize, 3u8));
    assert_eq!(dtors.len(), 3);
    let mut order = Vec::new();
    while let Some(entry) = dtors.run() {
        order.push(entry);
    }
    assert_eq!(order, vec![(0x30, 3), (0x20, 2), (0x10, 1)]);
    assert_eq!(dtors.len(), 0);
    assert_eq!(dtors.run(), None);
}

#[test]
fn run_undoes_the_last_register() {
    let mut dtors = Destructors::new();
    dtors.register(7u32);
    dtors.register(8u32);
    assert_eq!(dtors.run(), Some(8));
    assert_eq!(dtors.len(), 1);
    dtors.register(9u32);
    assert_eq!(dtors.run(), Some(9));
    assert_eq!(dtors.run(), Some(7));
}

#[test]
fn main_thread_destructors_are_kept() {
    assert_eq!(thread_dtor_route(42, 42), DtorRoute::Register);
    assert_eq!(thread_dtor_route(42, 43), DtorRoute::Forward);
    assert_eq!(thread_dtor_route(0, 7), DtorRoute::Forward);
}

#[test]
fn report_counts_destructors() {
    assert_eq!(dtors_report(0), "calling thread-local destructors (0)");
    assert_eq!(dtors_report(3), "calling thread-local destructors (3)");
    assert_eq!(dtors_report(1024), "calling thread-local destructors (1024)");
}

#[test]
fn decimal_writing() {
    assert_eq!(decimal_string(0), "0");
    assert_eq!(decimal_string(9), "9");
    assert_eq!(decimal_string(10), "10");
    assert_eq!(decimal_string(20_000), "20000");
    assert_eq!(decimal_string(usize::MAX), usize::MAX.to_string());
}

#[test]
fn hexadecimal_writing() {
    assert_eq!(hex_string(0), "0");
    assert_eq!(hex_string(15), "f");
    assert_eq!(hex_string(16), "10");
    assert_eq!(hex_string(0xdead_beef), "deadbeef");
    assert_eq!(hex_string(usize::MAX), format!("{:x}", usize::MAX));
}

#[test]
fn prefixes_and_equality() {
    assert!(has_prefix("abc", ""));
    assert!(has_prefix("abc", "ab"));
    assert!(!has_prefix("ab", "abc"));
    assert!(has_prefix("héllo", "hé"));
    assert!(!has_prefix("hello", "hé"));
    assert!(same_text("q\n", "q\n"));
    assert!(!same_text("q", "q\n"));
}
