use padproxy::blocklist::{is_blocked, parse_blocklist};

#[test]
fn parses_patterns_ignoring_comments_and_blanks() {
    let blocklist = parse_blocklist(
        "\
# games where remap should stay off
obs
  *steam*

# end
",
    );
    assert_eq!(blocklist.patterns, vec!["obs", "*steam*"]);
}

#[test]
fn detects_blocked_running_processes() {
    let blocklist = parse_blocklist("obs\n*steam*\n");
    assert!(is_blocked(&blocklist, &["/usr/bin/obs".to_string()]));
    assert!(is_blocked(&blocklist, &["steamwebhelper".to_string()]));
    assert!(!is_blocked(&blocklist, &["retroarch".to_string()]));
}

#[test]
fn empty_blocklist_blocks_nothing() {
    let blocklist = parse_blocklist("\n# only comments\n");
    assert!(blocklist.is_empty());
    assert!(!is_blocked(&blocklist, &["anything".to_string()]));
}

#[test]
fn blocklist_lines_are_trimmed_and_crlf_tolerant() {
    let blocklist = parse_blocklist("  game.exe  \r\n#skip\r\n\r\nother");
    assert_eq!(blocklist.patterns, vec!["game.exe", "other"]);
}
