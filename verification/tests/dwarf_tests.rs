use deet::dwarf::{DebugInfo, FunctionEntry, LineEntry};

fn sample() -> DebugInfo {
    DebugInfo {
        functions: vec![
            FunctionEntry { name: "main".to_string(), low: 0x401130, high: 0x401190 },
            FunctionEntry { name: "helper".to_string(), low: 0x401190, high: 0x4011c0 },
            FunctionEntry { name: "main".to_string(), low: 0x402000, high: 0x402010 },
        ],
        lines: vec![
            LineEntry { file: "file.c".to_string(), number: 40, address: 0x401130 },
            LineEntry { file: "file.c".to_string(), number: 42, address: 0x401150 },
            LineEntry { file: "file.c".to_string(), number: 43, address: 0x401160 },
        ],
    }
}

#[test]
fn function_at_picks_first_covering_entry() {
    let info = sample();
    assert_eq!(info.function_at(0x401130), Some("main".to_string()));
    assert_eq!(info.function_at(0x40118f), Some("main".to_string()));
    assert_eq!(info.function_at(0x401190), Some("helper".to_string()));
    assert_eq!(info.function_at(0x400000), None);
    assert_eq!(info.function_at(0x402010), None);
}

#[test]
fn line_at_takes_greatest_row_not_above() {
    let info = sample();
    assert_eq!(info.line_at(0x401130), Some(("file.c".to_string(), 40)));
    assert_eq!(info.line_at(0x401155), Some(("file.c".to_string(), 42)));
    assert_eq!(info.line_at(0x40ffff), Some(("file.c".to_string(), 43)));
    assert_eq!(info.line_at(0x40112f), None);
}

#[test]
fn addr_of_line_finds_first_row_for_line() {
    let info = sample();
    assert_eq!(info.addr_of_line(42), Some(0x401150));
    assert_eq!(info.addr_of_line(99), None);
}

#[test]
fn find_function_returns_first_index_by_name() {
    let info = sample();
    let i = info.find_function("main").expect("main present");
    assert_eq!(i, 0);
    assert_eq!(info.function_addr(i), 0x401130);
    let j = info.find_function("helper").expect("helper present");
    assert_eq!(info.function_addr(j), 0x401190);
    assert_eq!(info.find_function("absent"), None);
}

#[test]
fn empty_tables_miss_everywhere() {
    let info = DebugInfo::new();
    assert_eq!(info.function_at(0x401130), None);
    assert_eq!(info.line_at(0x401130), None);
    assert_eq!(info.addr_of_line(1), None);
    assert_eq!(info.find_function("main"), None);
}
