use firstset::text::{
    chars_of, decimal_string, process_output_log_line, join_strings, lines_of, remove_nul, sort_strings, split_chars,
    trim_chars, words_of,
};

fn strings(items: &[&str]) -> Vec<String> {
    items.iter().map(|s| s.to_string()).collect()
}

#[test]
fn nul_characters_are_removed() {
    assert_eq!(remove_nul("R\0D\0S\0"), "RDS");
    assert_eq!(remove_nul(""), "");
}

#[test]
fn trimming_uses_unicode_white_space() {
    let t = trim_chars(&chars_of("\u{3000}\t a b \u{a0}\r\n"));
    assert_eq!(t.iter().collect::<String>(), "a b");
    assert!(trim_chars(&chars_of(" \u{2029} ")).is_empty());
}

#[test]
fn words_split_on_white_space_runs() {
    let w = words_of(&chars_of("  ssh-ed25519\u{2003}KEY   admin \n"));
    let w: Vec<String> = w.iter().map(|v| v.iter().collect()).collect();
    assert_eq!(w, strings(&["ssh-ed25519", "KEY", "admin"]));
}

#[test]
fn lines_follow_line_endings() {
    let l: Vec<String> =
        lines_of(&chars_of("a\r\nb\n\nc\r")).iter().map(|v| v.iter().collect()).collect();
    assert_eq!(l, strings(&["a", "b", "", "c\r"]));
    assert!(lines_of(&chars_of("")).is_empty());
    let split: Vec<String> =
        split_chars(&chars_of("x||y"), '|').iter().map(|v| v.iter().collect()).collect();
    assert_eq!(split, strings(&["x", "", "y"]));
}

#[test]
fn decimal_rendering() {
    assert_eq!(decimal_string(0), "0");
    assert_eq!(decimal_string(7), "7");
    assert_eq!(decimal_string(4294967295), "4294967295");
}

#[test]
fn joining_and_sorting() {
    assert_eq!(join_strings(&strings(&["a", "b", "c"]), ", "), "a, b, c");
    assert_eq!(join_strings(&Vec::new(), ","), "");
    assert_eq!(
        sort_strings(&strings(&["b", "a", "ab", "B", "a"])),
        strings(&["B", "a", "a", "ab", "b"])
    );
}

#[test]
fn process_output_lines() {
    assert_eq!(
        process_output_log_line("PowerShell: ", "\r\nWARNING: x\0\r\n").as_deref(),
        Some("PowerShell: WARNING: x")
    );
    assert_eq!(process_output_log_line("", " \t\r\n"), None);
    assert_eq!(process_output_log_line("", "  ok  \n").as_deref(), Some("  ok  "));
}
