use std::time::Duration;

use oxify::wasm::{
    plugin_exports, read_frame, write_input, WasmError, WasmPluginConfig, WasmPluginStats,
    INPUT_OFFSET,
};

#[test]
fn test_wasm_plugin_config_default() {
    let config = WasmPluginConfig::default();
    assert_eq!(config.max_memory_pages, 256);
    assert_eq!(config.timeout, Duration::from_secs(30));
    assert!(config.enable_fuel_metering);
}

#[test]
fn test_wasm_plugin_config_strict() {
    let config = WasmPluginConfig::strict();
    assert_eq!(config.max_memory_pages, 64);
    assert_eq!(config.timeout, Duration::from_secs(5));
    assert_eq!(config.fuel_limit, 100_000);
}

#[test]
fn test_wasm_plugin_config_permissive() {
    let config = WasmPluginConfig::permissive();
    assert_eq!(config.max_memory_pages, 1024);
    assert_eq!(config.timeout, Duration::from_secs(300));
    assert_eq!(config.fuel_limit, 10_000_000);
}

#[test]
fn test_wasm_plugin_stats_default() {
    let stats = WasmPluginStats::default();
    assert_eq!(stats.executions, 0);
    assert_eq!(stats.total_execution_time, Duration::from_secs(0));
}

#[test]
fn wasm_input_round_trip_through_frame() {
    let mut memory = vec![0u8; 4096];
    let ptr = write_input(&mut memory, b"hello").unwrap();
    assert_eq!(ptr, INPUT_OFFSET);
    assert_eq!(&memory[INPUT_OFFSET..INPUT_OFFSET + 5], b"hello");
    // A frame: little-endian length, then the bytes.
    memory[100] = 3;
    memory[101] = 0;
    memory[102] = 0;
    memory[103] = 0;
    memory[104] = b'a';
    memory[105] = b'b';
    memory[106] = b'c';
    assert_eq!(read_frame(&memory, 100).unwrap(), b"abc".to_vec());
}

#[test]
fn wasm_write_past_memory_fails() {
    let mut memory = vec![0u8; 1030];
    match write_input(&mut memory, b"too long for it") {
        Err(WasmError::ExecutionError(m)) => assert_eq!(m, "Failed to write to memory"),
        _ => panic!("expected ExecutionError"),
    }
    assert!(memory.iter().all(|b| *b == 0));
}

#[test]
fn wasm_frame_errors() {
    let memory = vec![0u8; 8];
    match read_frame(&memory, 6) {
        Err(WasmError::ExecutionError(m)) => assert_eq!(m, "Failed to read length"),
        _ => panic!("expected a length error"),
    }
    let mut memory = vec![0u8; 8];
    memory[0] = 10;
    match read_frame(&memory, 0) {
        Err(WasmError::ExecutionError(m)) => assert_eq!(m, "Failed to read data"),
        _ => panic!("expected a data error"),
    }
}

#[test]
fn wasm_exports_hide_internal_names() {
    let names = vec![
        "run".to_string(),
        "__heap_base".to_string(),
        "memory".to_string(),
        "_start".to_string(),
    ];
    assert_eq!(
        plugin_exports(&names),
        vec!["run".to_string(), "memory".to_string(), "_start".to_string()]
    );
}
