use winget_tui::text::{
    normalize_output, resolve_progress_line, resolve_tool_output, truncate, usize_to_string,
    u64_to_string, split_lines,
};

#[test]
fn progress_overwrite_keeps_text_after_final_carriage_return() {
    // A spinner redrawing in place leaves only its final rendering.
    assert_eq!(resolve_progress_line("-\r\\\r|\rDone"), "Done");
    assert_eq!(resolve_progress_line("10%\r20%\r100%"), "100%");
    assert_eq!(resolve_progress_line("no overwrite here"), "no overwrite here");
    assert_eq!(resolve_progress_line(""), "");
    // A bare carriage return at the end is an overwrite cut off
    // mid-redraw: nothing follows it, so nothing of the line remains.
    assert_eq!(resolve_progress_line("plain\r"), "");
}

#[test]
fn normalize_resolves_crlf_and_overwrites() {
    let raw = "Header\r\n-\r\\\r|\rrow one\r\nrow two\r\n";
    assert_eq!(normalize_output(raw), "Header\nrow one\nrow two\n");
    assert_eq!(normalize_output("a\nb"), "a\nb");
    assert_eq!(normalize_output(""), "");
}

#[test]
fn normalize_treats_final_bare_carriage_return_as_overwrite() {
    // On a newline-terminated segment a trailing carriage return is the
    // CRLF remnant and the text stays; on the final unterminated segment
    // it is an unfinished overwrite and the text is gone.
    assert_eq!(normalize_output("x\r"), "");
    assert_eq!(normalize_output("a\r\nb\r"), "a\n");
    assert_eq!(normalize_output("spin 50%\rspin 100%\r"), "");
}

#[test]
fn split_lines_matches_console_line_semantics() {
    let lines = split_lines("a\r\nb\nc");
    assert_eq!(lines, vec!["a".to_string(), "b".to_string(), "c".to_string()]);
    let lines = split_lines("a\nb\n");
    assert_eq!(lines, vec!["a".to_string(), "b".to_string()]);
    let lines = split_lines("");
    assert_eq!(lines.len(), 0);
}

#[test]
fn lenient_policy_accepts_nonzero_exit_with_output() {
    // The tool reports "no results" with a non-zero exit but still prints
    // a table: a lenient read query treats that as success.
    let r = resolve_tool_output(false, false, "Name  Id\n----\n", "");
    assert_eq!(r.unwrap(), "Name  Id\n----\n");
}

#[test]
fn lenient_policy_rejects_nonzero_exit_without_output() {
    let r = resolve_tool_output(false, false, "   ", "boom happened");
    assert_eq!(r.unwrap_err(), "winget failed: boom happened");
}

#[test]
fn strict_policy_rejects_any_nonzero_exit() {
    let r = resolve_tool_output(false, true, "partial output", "");
    assert_eq!(r.unwrap_err(), "winget failed: partial output");
    let r = resolve_tool_output(false, true, "partial output", "  real error  ");
    assert_eq!(r.unwrap_err(), "winget failed: real error");
}

#[test]
fn success_exit_is_normalized_output() {
    let r = resolve_tool_output(true, true, "ok\r\ndone\r\n", "ignored");
    assert_eq!(r.unwrap(), "ok\ndone\n");
}

#[test]
fn truncate_cuts_with_ellipsis() {
    assert_eq!(truncate("short", 10), "short");
    assert_eq!(truncate("exactly10!", 10), "exactly10!");
    assert_eq!(truncate("much too long text", 8), "much to…");
    assert_eq!(truncate("ab", 1), "…");
}

#[test]
fn decimal_rendering() {
    assert_eq!(usize_to_string(0), "0");
    assert_eq!(usize_to_string(7), "7");
    assert_eq!(usize_to_string(10), "10");
    assert_eq!(usize_to_string(90210), "90210");
    assert_eq!(u64_to_string(18446744073709551615), "18446744073709551615");
}
