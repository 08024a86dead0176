use pluggie::curry::{FuncOnceWithArgs, FuncWithArgs};
use pluggie::event::name_hash;
use pluggie::event_hooks::EventHooks;
use pluggie::logging::{log_line, LogLevel};
use std::marker::PhantomData;

#[test]
fn name_hash_is_sha256_of_the_name() {
    let abc: [u8; 32] = [
        186, 120, 22, 191, 143, 1, 207, 234, 65, 65, 64, 222, 93, 174, 34, 35, 176, 3, 97, 163,
        150, 23, 122, 156, 180, 16, 255, 97, 242, 0, 21, 173,
    ];
    assert_eq!(name_hash("abc"), abc);
    let all_loaded: [u8; 32] = [
        224, 240, 20, 123, 194, 43, 132, 209, 241, 61, 25, 70, 141, 97, 96, 205, 194, 164, 211,
        13, 28, 5, 239, 51, 199, 151, 182, 27, 138, 46, 199, 32,
    ];
    assert_eq!(name_hash("pluggie:all_loaded"), all_loaded);
    let empty: [u8; 32] = [
        227, 176, 196, 66, 152, 252, 28, 20, 154, 251, 244, 200, 153, 111, 185, 36, 39, 174, 65,
        228, 100, 155, 147, 76, 164, 149, 153, 27, 120, 82, 184, 85,
    ];
    assert_eq!(name_hash(""), empty);
}

#[test]
fn equal_names_share_a_hash_and_different_ones_do_not() {
    assert_eq!(name_hash("mc:network"), name_hash("mc:network"));
    assert_ne!(name_hash("mc:network"), name_hash("mc:Network"));
}

#[test]
fn hooks_come_out_in_the_order_they_were_added() {
    let mut hooks: EventHooks<u8> = EventHooks::new();
    hooks.add_hook(30);
    hooks.add_hook(10);
    hooks.add_hook(20);
    assert_eq!(hooks.post_event_hooks(), vec![30, 10, 20]);
}

#[test]
fn hooks_are_handed_out_once() {
    let mut hooks: EventHooks<u8> = EventHooks::new();
    assert!(hooks.post_event_hooks().is_empty());
    hooks.add_hook(1);
    assert_eq!(hooks.post_event_hooks(), vec![1]);
    assert!(hooks.post_event_hooks().is_empty());
    hooks.add_hook(2);
    assert_eq!(hooks.post_event_hooks(), vec![2]);
}

#[test]
fn log_lines_have_level_source_and_message() {
    assert_eq!(log_line(LogLevel::Info, "pluggie", "Exposing net"), "INFO [pluggie]: Exposing net");
    assert_eq!(log_line(LogLevel::Warn, "a", "b"), "WARN [a]: b");
    assert_eq!(log_line(LogLevel::Error, "a", "b"), "ERROR [a]: b");
    assert_eq!(log_line(LogLevel::Fatal, "a", "b"), "FATAL [a]: b");
}

#[test]
fn only_info_goes_to_standard_output() {
    assert!(!LogLevel::Info.to_stderr());
    assert!(LogLevel::Warn.to_stderr());
    assert!(LogLevel::Error.to_stderr());
    assert!(LogLevel::Fatal.to_stderr());
    assert_eq!(LogLevel::Error.label(), "ERROR");
}

#[test]
fn func_with_args_calls_its_function() {
    let add = FuncWithArgs { f: |(a, b): (i32, i32)| a + b, marker: PhantomData };
    assert_eq!(add.call((2, 3)), 5);
    let mut add2 = add.clone();
    assert_eq!(add2.call_mut((10, -4)), 6);
    assert_eq!(add2.call_once((1, 1)), 2);
    assert_eq!(add.call_once((0, 7)), 7);
}

#[test]
fn func_once_with_args_calls_its_function() {
    let name = String::from("hello");
    let f = FuncOnceWithArgs { f: move |(suffix,): (&str,)| name + suffix, marker: PhantomData };
    assert_eq!(f.call_once((" world",)), "hello world");
}
