use tinybot::adapt::wasm::{
    call_args, config_write_len, decode_result, log_call_has_message, log_level, pack_result,
    plan_event_write, LogLevel, WASM_PAGE,
};

#[test]
fn packed_result_decodes_back() {
    let packed = pack_result(4096, 37);
    assert_eq!(packed, (4096i64 << 32) | 37);
    assert_eq!(decode_result(packed), Some((4096, 37)));
}

#[test]
fn null_or_empty_result_decodes_to_nothing() {
    assert_eq!(decode_result(0), None);
    assert_eq!(decode_result(pack_result(4096, 0)), None);
}

#[test]
fn event_write_grows_memory_when_needed() {
    let p = plan_event_write(1, 10);
    assert_eq!(p.offset, WASM_PAGE);
    assert_eq!(p.grow_pages, 1);
    let p = plan_event_write(2, WASM_PAGE + 1);
    assert_eq!(p.offset, 2 * WASM_PAGE);
    assert_eq!(p.grow_pages, 2);
}

#[test]
fn call_args_are_the_offset_and_length() {
    assert_eq!(call_args(65536, 12), (65536, 12));
}

#[test]
fn config_is_cut_to_the_buffer() {
    assert_eq!(config_write_len(10, 4), 4);
    assert_eq!(config_write_len(3, 4), 3);
    assert_eq!(config_write_len(3, -1), 0);
    assert_eq!(config_write_len(0, -5), 0);
    assert_eq!(config_write_len(7, 7), 7);
}

#[test]
fn log_levels_and_messages() {
    assert_eq!(log_level(1), LogLevel::Error);
    assert_eq!(log_level(2), LogLevel::Warn);
    assert_eq!(log_level(3), LogLevel::Info);
    assert_eq!(log_level(4), LogLevel::Debug);
    assert_eq!(log_level(0), LogLevel::Trace);
    assert_eq!(log_level(9), LogLevel::Trace);
    assert!(log_call_has_message(8, 3));
    assert!(!log_call_has_message(0, 3));
    assert!(!log_call_has_message(8, 0));
}
