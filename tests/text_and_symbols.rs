use reliability::report::BacktraceFrame;
use reliability::symbols::{
    backtrace_symbols, hang_summary, offset_from_base, panic_backtrace, strip_unwind_frames, RawFrame,
};
use reliability::text::{decimal_i64, decimal_u64, first_line, padded_decimal, str_has_prefix, str_has_suffix, str_lt};

fn strings(v: &[&str]) -> Vec<String> {
    v.iter().map(|s| s.to_string()).collect()
}

#[test]
fn decimal_text_of_integers() {
    assert_eq!(decimal_u64(0), "0");
    assert_eq!(decimal_u64(1705529940000), "1705529940000");
    assert_eq!(decimal_u64(u64::MAX), "18446744073709551615");
    assert_eq!(decimal_i64(-42), "-42");
    assert_eq!(decimal_i64(i64::MIN), "-9223372036854775808");
    assert_eq!(decimal_i64(i64::MAX), "9223372036854775807");
}

#[test]
fn zero_padded_text() {
    assert_eq!(padded_decimal(7, 2), "07");
    assert_eq!(padded_decimal(12, 2), "12");
    assert_eq!(padded_decimal(2024, 4), "2024");
    assert_eq!(padded_decimal(5, 4), "0005");
    assert_eq!(padded_decimal(123, 2), "123");
}

#[test]
fn lexicographic_order_of_names() {
    assert!(str_lt("zed-2024-01-17-221900.ips", "zed-2024-02-01-000000.ips"));
    assert!(!str_lt("zed-2024-01-17-221900.ips", "zed-2024-01-10-000000.ips"));
    assert!(!str_lt("abc", "abc"));
    assert!(str_lt("ab", "abc"));
    assert!(!str_lt("abc", "ab"));
    assert!(str_lt("", "a"));
    assert!(str_lt("Zed", "zed"));
}

#[test]
fn prefixes_and_suffixes() {
    assert!(str_has_prefix("zed-1.ips", "zed-"));
    assert!(!str_has_prefix("ze", "zed"));
    assert!(str_has_suffix("zed-1.ips", ".ips"));
    assert!(!str_has_suffix("zed-1.ips.bak", ".ips"));
}

#[test]
fn first_line_as_lines_gives_it() {
    assert_eq!(first_line(""), None);
    assert_eq!(first_line("abc"), Some("abc".to_string()));
    assert_eq!(first_line("{\"a\":1}\n{\"b\":2}\n"), Some("{\"a\":1}".to_string()));
    assert_eq!(first_line("one\r\ntwo"), Some("one".to_string()));
    assert_eq!(first_line("\nrest"), Some(String::new()));
    assert_eq!(first_line("tail\r"), Some("tail\r".to_string()));
}

#[test]
fn offsets_saturate() {
    assert_eq!(offset_from_base(0x1500, 0x1000), 0x500);
    assert_eq!(offset_from_base(0x1000, 0x1500), -0x500);
    assert_eq!(offset_from_base(usize::MAX, 0), -1);
    assert_eq!(offset_from_base(isize::MAX as usize, usize::MAX), isize::MAX);
    assert_eq!(offset_from_base(isize::MIN as usize, 1), isize::MIN);
}

fn frame(ip: usize, base: Option<usize>, names: &[Option<&str>]) -> RawFrame {
    RawFrame {
        ip,
        symbol_address: ip,
        module_base: base,
        symbol_names: names.iter().map(|n| n.map(|s| s.to_string())).collect(),
    }
}

#[test]
fn symbols_carry_offsets_from_their_module() {
    let frames = vec![
        frame(1100, Some(1000), &[Some("inner"), None]),
        frame(5000, None, &[Some("outer")]),
        frame(7000, Some(9000), &[]),
    ];
    let out = backtrace_symbols(&frames, 4000);
    assert_eq!(out, strings(&["inner+100", "<unknown>+100", "outer+1000"]));
}

#[test]
fn unwinding_frames_are_stripped() {
    let s = strings(&["std::panicking+1", "rust_begin_unwind+2", "app::f+3", "app::main+4"]);
    assert_eq!(strip_unwind_frames(s, &vec![false, true, false, false]), strings(&["app::f+3", "app::main+4"]));
    let s = strings(&["x", "y", "z", "w"]);
    assert_eq!(strip_unwind_frames(s, &vec![false, true, false, true]), strings(&["z", "w"]));
    let s = strings(&["a", "b"]);
    assert_eq!(strip_unwind_frames(s.clone(), &vec![false, false]), s);
    assert_eq!(strip_unwind_frames(Vec::new(), &Vec::new()), Vec::<String>::new());
}

#[test]
fn panic_backtrace_keeps_application_frames() {
    let frames = vec![
        frame(10, Some(0), &[Some("backtrace::capture")]),
        frame(20, Some(0), &[Some("rust_begin_unwind")]),
        frame(30, Some(0), &[Some("app::run")]),
    ];
    assert_eq!(panic_backtrace(&frames, 0), strings(&["app::run+30"]));
    let frames = vec![
        frame(10, Some(0), &[Some("_rust_begin_unwind"), Some("inlined")]),
        frame(20, Some(0), &[Some("rust_begin_unwind")]),
        frame(30, Some(0), &[None]),
    ];
    assert_eq!(panic_backtrace(&frames, 0), strings(&["inlined+10", "rust_begin_unwind+20", "<unknown>+30"]));
    let frames = vec![frame(10, Some(0), &[Some("app::main")])];
    assert_eq!(panic_backtrace(&frames, 0), strings(&["app::main+10"]));
}

#[test]
fn hang_summary_lists_first_symbols() {
    let frames = vec![
        BacktraceFrame { ip: 1, symbol_addr: 1, base: None, symbols: strings(&["a", "a2"]) },
        BacktraceFrame { ip: 2, symbol_addr: 2, base: Some(0), symbols: Vec::new() },
        BacktraceFrame { ip: 3, symbol_addr: 3, base: None, symbols: strings(&["b"]) },
    ];
    assert_eq!(hang_summary(&frames), "Suspected hang on main thread:\na\nb");
    assert_eq!(hang_summary(&Vec::new()), "Suspected hang on main thread:\n");
}
