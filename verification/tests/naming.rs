use std::path::Path;

use cursor_shims::advisory::enforcement_lines;
use cursor_shims::advisory::file_saved_lines;
use cursor_shims::advisory::Advisory;
use cursor_shims::nums::i32_to_dec;
use cursor_shims::nums::parse_i32;
use cursor_shims::nums::parse_u32;
use cursor_shims::nums::u32_to_dec;
use cursor_shims::nums::u32_to_hex8;
use cursor_shims::strutil::str_contains;
use cursor_shims::strutil::str_eq;
use cursor_shims::strutil::str_starts_with;
use cursor_shims::tmpname::generate_unique_tmpfile;
use cursor_shims::tmpname::make_tmpfile_name;
use cursor_shims::tmpname::should_capture;
use cursor_shims::tmpname::CAPTURE_DIR;

#[test]
fn test_generate_unique_tmpfile() {
    let tmp_dir = "/tmp/cursor_test";
    let file1 = generate_unique_tmpfile(tmp_dir, "test", 42).unwrap();
    assert!(file1.contains("test_"));
    assert!(file1.ends_with(".txt"));

    let file2 = generate_unique_tmpfile(tmp_dir, "test", 42).unwrap();
    assert_ne!(file1, file2, "两次生成的文件名应该不同");
}

#[test]
fn test_generate_unique_tmpfile_no_overwrite() {
    let tmp_dir = "/tmp/cursor_test_overwrite";
    let mut files = Vec::new();
    for _ in 0..100 {
        let file = generate_unique_tmpfile(tmp_dir, "batch", 7).unwrap();
        assert!(!Path::new(&file).exists(), "生成的文件不应该已存在");
        files.push(file);
    }
    let unique_count = files.iter().collect::<std::collections::HashSet<_>>().len();
    assert_eq!(unique_count, 100, "所有文件名应该都是唯一的");
}

#[test]
fn tmpfile_name_has_exact_layout() {
    let name = make_tmpfile_name("/tmp/cursor_outputs", "grep_input", 42, "20240101_120000", 0xdeadbeef);
    assert_eq!(name, "/tmp/cursor_outputs/grep_input_42_20240101_120000_deadbeef.txt");
    let padded = make_tmpfile_name("/tmp", "tail_input", 1, "t", 255);
    assert_eq!(padded, "/tmp/tail_input_1_t_000000ff.txt");
}

#[test]
fn capture_dir_is_fixed() {
    assert_eq!(CAPTURE_DIR, "/tmp/cursor_outputs");
}

#[test]
fn capture_happens_only_for_agent_pipe_with_bytes() {
    assert!(should_capture(true, true, 1));
    assert!(should_capture(true, true, 4096));
    assert!(!should_capture(true, true, 0));
    assert!(!should_capture(true, false, 10));
    assert!(!should_capture(false, true, 10));
}

#[test]
fn test_print_file_saved_message() {
    let lines = file_saved_lines("/tmp/test.txt");
    assert_eq!(lines.len(), 5);
    assert_eq!(lines[0], lines[4]);
    assert_eq!(lines[1], "📋 [Cursor 强制最佳实践] 管道输入已自动保存");
    assert_eq!(lines[2], "📁 文件位置: /tmp/test.txt");
}

#[test]
fn test_print_enforcement_message() {
    let lines = enforcement_lines(&Advisory::new("tail -5".to_string(), "tail -100".to_string()));
    assert_eq!(lines.len(), 4);
    assert_eq!(lines[0], lines[3]);
    assert_eq!(lines[1], "⚠️  [Cursor 强制最佳实践] tail -5 参数不足，已强制改为 tail -100");
}

#[test]
fn decimal_rendering_is_exact() {
    assert_eq!(u32_to_dec(0), "0");
    assert_eq!(u32_to_dec(7), "7");
    assert_eq!(u32_to_dec(100), "100");
    assert_eq!(u32_to_dec(4294967295), "4294967295");
    assert_eq!(i32_to_dec(-5), "-5");
    assert_eq!(i32_to_dec(0), "0");
    assert_eq!(i32_to_dec(i32::MIN), "-2147483648");
    assert_eq!(i32_to_dec(i32::MAX), "2147483647");
}

#[test]
fn hex_rendering_is_fixed_width() {
    assert_eq!(u32_to_hex8(0), "00000000");
    assert_eq!(u32_to_hex8(255), "000000ff");
    assert_eq!(u32_to_hex8(0xdeadbeef), "deadbeef");
    assert_eq!(u32_to_hex8(u32::MAX), "ffffffff");
}

#[test]
fn parse_i32_matches_standard_parser() {
    for case in ["", "+", "-", "abc", "1 ", " 1", "1.5", "0x10", "2147483648", "-2147483649", "99999999999999999999"] {
        assert_eq!(parse_i32(case), case.parse::<i32>().ok(), "case {:?}", case);
    }
    for case in ["0", "7", "007", "+5", "-5", "100", "-100", "2147483647", "-2147483648"] {
        assert_eq!(parse_i32(case), case.parse::<i32>().ok(), "case {:?}", case);
    }
}

#[test]
fn parse_u32_matches_standard_parser() {
    for case in ["", "+", "-", "-1", "abc", "4294967295", "4294967296", "+42", "007"] {
        assert_eq!(parse_u32(case), case.parse::<u32>().ok(), "case {:?}", case);
    }
}

#[test]
fn string_predicates() {
    assert!(str_eq("-n", "-n"));
    assert!(!str_eq("-n", "-N"));
    assert!(str_starts_with("--after-context=3", "--after-context"));
    assert!(!str_starts_with("-A", "--after-context"));
    assert!(str_contains("/tmp/vscode-ipc-cursor-12345.sock", "cursor"));
    assert!(!str_contains("/tmp/plain.sock", "cursor"));
    assert!(str_contains("abc", ""));
}
