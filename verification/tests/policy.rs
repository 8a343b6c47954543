use cursor_shims::advisory::Advisory;
use cursor_shims::grep_policy::grep_plan;
use cursor_shims::grep_policy::has_context_arg;
use cursor_shims::grep_policy::DEFAULT_CONTEXT_LINES;
use cursor_shims::tail_policy::adjust_line_count;
use cursor_shims::tail_policy::tail_plan;
use cursor_shims::tail_policy::MIN_TAIL_LINES;

fn strings(items: &[&str]) -> Vec<String> {
    items.iter().map(|s| s.to_string()).collect()
}

const EXCLUDES: &str = "--exclude-dir={.bzr,CVS,.git,.hg,.svn,.idea,.tox,.venv,venv}";

#[test]
fn grep_non_agent_passes_arguments_through() {
    let args = strings(&["-r", "pattern", "src"]);
    let (out, advisories) = grep_plan(false, args.clone(), None, DEFAULT_CONTEXT_LINES);
    assert_eq!(out, args);
    assert!(advisories.is_empty());
}

#[test]
fn tail_non_agent_passes_arguments_through() {
    let args = strings(&["-n", "5", "file.log"]);
    let (out, advisories) = tail_plan(false, args.clone(), None, MIN_TAIL_LINES);
    assert_eq!(out, args);
    assert!(advisories.is_empty());
}

#[test]
fn grep_agent_piped_scenario_inserts_default_context() {
    let capture = "/tmp/cursor_outputs/grep_input_42_20240101_120000_0000002a.txt";
    let (out, advisories) = grep_plan(
        true,
        strings(&["pattern"]),
        Some(capture.to_string()),
        DEFAULT_CONTEXT_LINES,
    );
    assert_eq!(
        out,
        strings(&["--color=auto", EXCLUDES, "-C", "20", "pattern", capture])
    );
    assert_eq!(advisories.len(), 1);
    assert_eq!(advisories[0].original, "grep");
    assert_eq!(advisories[0].enforced, "grep -C 20");
}

#[test]
fn grep_agent_existing_context_flag_respected() {
    let (out, advisories) = grep_plan(
        true,
        strings(&["-C", "5", "pattern"]),
        None,
        DEFAULT_CONTEXT_LINES,
    );
    assert_eq!(out, strings(&["--color=auto", EXCLUDES, "-C", "5", "pattern"]));
    assert!(advisories.is_empty());
}

#[test]
fn grep_agent_long_context_flag_respected() {
    let (out, advisories) = grep_plan(
        true,
        strings(&["--after-context=3", "pattern"]),
        None,
        DEFAULT_CONTEXT_LINES,
    );
    assert_eq!(
        out,
        strings(&["--color=auto", EXCLUDES, "--after-context=3", "pattern"])
    );
    assert!(advisories.is_empty());
}

#[test]
fn grep_agent_without_context_inserts_exactly_once() {
    let (out, _) = grep_plan(true, strings(&["-r", "pat", "."]), None, DEFAULT_CONTEXT_LINES);
    assert_eq!(
        out,
        strings(&["--color=auto", EXCLUDES, "-C", "20", "-r", "pat", "."])
    );
    let context_count = out.iter().filter(|a| a.as_str() == "-C").count();
    assert_eq!(context_count, 1);
}

#[test]
fn grep_capture_path_is_last_argument() {
    let capture = "/tmp/cursor_outputs/grep_input_7_x_00000000.txt";
    let (with_capture, _) = grep_plan(
        true,
        strings(&["-C", "2", "pat"]),
        Some(capture.to_string()),
        DEFAULT_CONTEXT_LINES,
    );
    let (without_capture, _) = grep_plan(
        true,
        strings(&["-C", "2", "pat"]),
        None,
        DEFAULT_CONTEXT_LINES,
    );
    assert_eq!(with_capture.last().map(|s| s.as_str()), Some(capture));
    assert_eq!(&with_capture[..with_capture.len() - 1], &without_capture[..]);
}

#[test]
fn has_context_arg_recognizes_each_prefix() {
    assert!(has_context_arg(&strings(&["-A3"])));
    assert!(has_context_arg(&strings(&["-B", "2"])));
    assert!(has_context_arg(&strings(&["-C", "5"])));
    assert!(has_context_arg(&strings(&["--context=4"])));
    assert!(has_context_arg(&strings(&["--after-context=3"])));
    assert!(has_context_arg(&strings(&["--before-context=3"])));
    assert!(!has_context_arg(&strings(&["-r", "pattern", "src"])));
    assert!(!has_context_arg(&strings(&[])));
}

#[test]
fn tail_agent_scenario_raises_small_count() {
    let (out, advisories) = tail_plan(true, strings(&["-n", "50", "file.log"]), None, MIN_TAIL_LINES);
    assert_eq!(out, strings(&["-n", "100", "file.log"]));
    assert_eq!(advisories.len(), 1);
    assert_eq!(advisories[0].original, "tail -n 50");
    assert_eq!(advisories[0].enforced, "tail -n 100");
}

#[test]
fn tail_agent_count_at_threshold_unchanged() {
    let (out, advisories) = tail_plan(true, strings(&["-n", "100", "file.log"]), None, MIN_TAIL_LINES);
    assert_eq!(out, strings(&["-n", "100", "file.log"]));
    assert!(advisories.is_empty());
}

#[test]
fn tail_agent_count_above_threshold_unchanged() {
    let (out, advisories) = tail_plan(true, strings(&["-n", "500", "file.log"]), None, MIN_TAIL_LINES);
    assert_eq!(out, strings(&["-n", "500", "file.log"]));
    assert!(advisories.is_empty());
}

#[test]
fn tail_agent_dash_number_raised() {
    let (out, advisories) = tail_plan(true, strings(&["-5", "file.log"]), None, MIN_TAIL_LINES);
    assert_eq!(out, strings(&["-100", "file.log"]));
    assert_eq!(advisories.len(), 1);
    assert_eq!(advisories[0].original, "tail -5");
    assert_eq!(advisories[0].enforced, "tail -100");
}

#[test]
fn tail_agent_dash_number_kept() {
    let (out, advisories) = tail_plan(true, strings(&["-200", "file.log"]), None, MIN_TAIL_LINES);
    assert_eq!(out, strings(&["-200", "file.log"]));
    assert!(advisories.is_empty());
}

#[test]
fn tail_agent_no_arguments_gets_default_count() {
    let (out, advisories) = tail_plan(true, strings(&[]), None, MIN_TAIL_LINES);
    assert_eq!(out, strings(&["-n", "100"]));
    assert_eq!(advisories.len(), 1);
    assert_eq!(advisories[0].original, "tail");
    assert_eq!(advisories[0].enforced, "tail -n 100");
}

#[test]
fn tail_agent_only_flags_gets_default_count() {
    let (out, advisories) = tail_plan(true, strings(&["-f"]), None, MIN_TAIL_LINES);
    assert_eq!(out, strings(&["-n", "100", "-f"]));
    assert_eq!(advisories.len(), 1);
}

#[test]
fn tail_agent_bare_filename_suppresses_default_count() {
    let (out, advisories) = tail_plan(true, strings(&["file.log"]), None, MIN_TAIL_LINES);
    assert_eq!(out, strings(&["file.log"]));
    assert!(advisories.is_empty());
}

#[test]
fn tail_agent_non_numeric_count_value_kept() {
    let (out, advisories) = tail_plan(true, strings(&["-n", "abc", "file.log"]), None, MIN_TAIL_LINES);
    assert_eq!(out, strings(&["-n", "abc", "file.log"]));
    assert!(advisories.is_empty());
}

#[test]
fn tail_agent_non_numeric_count_value_is_no_count() {
    let (out, advisories) = tail_plan(true, strings(&["-n", "-v"]), None, MIN_TAIL_LINES);
    assert_eq!(out, strings(&["-n", "100", "-n", "-v"]));
    assert_eq!(advisories.len(), 1);
    assert_eq!(advisories[0].original, "tail");
    assert_eq!(advisories[0].enforced, "tail -n 100");
}

#[test]
fn tail_agent_trailing_count_flag_is_no_count() {
    let (out, advisories) = tail_plan(true, strings(&["-n"]), None, MIN_TAIL_LINES);
    assert_eq!(out, strings(&["-n", "100", "-n"]));
    assert_eq!(advisories.len(), 1);
    assert_eq!(advisories[0].original, "tail");
}

#[test]
fn tail_agent_negative_count_raised() {
    let (out, advisories) = tail_plan(true, strings(&["-n", "-5", "file.log"]), None, MIN_TAIL_LINES);
    assert_eq!(out, strings(&["-n", "100", "file.log"]));
    assert_eq!(advisories[0].original, "tail -n -5");
}

#[test]
fn tail_capture_path_is_last_argument() {
    let capture = "/tmp/cursor_outputs/tail_input_7_x_00000000.txt";
    let (with_capture, _) = tail_plan(
        true,
        strings(&["-n", "50", "file.log"]),
        Some(capture.to_string()),
        MIN_TAIL_LINES,
    );
    let (without_capture, _) = tail_plan(
        true,
        strings(&["-n", "50", "file.log"]),
        None,
        MIN_TAIL_LINES,
    );
    assert_eq!(with_capture.last().map(|s| s.as_str()), Some(capture));
    assert_eq!(&with_capture[..with_capture.len() - 1], &without_capture[..]);
}

#[test]
fn adjust_line_count_varied_threshold() {
    let (out, advisories) = adjust_line_count(strings(&["-n", "5"]), 10);
    assert_eq!(out, strings(&["-n", "10"]));
    assert_eq!(advisories[0].original, "tail -n 5");
    assert_eq!(advisories[0].enforced, "tail -n 10");
    let (out, advisories) = adjust_line_count(strings(&["-n", "15"]), 10);
    assert_eq!(out, strings(&["-n", "15"]));
    assert!(advisories.is_empty());
}

#[test]
fn advisory_keeps_both_parts() {
    let adv = Advisory::new("tail -5".to_string(), "tail -100".to_string());
    assert_eq!(adv.original, "tail -5");
    assert_eq!(adv.enforced, "tail -100");
}
