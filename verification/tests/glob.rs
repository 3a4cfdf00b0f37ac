use padproxy::glob::glob_matches_ci;
use padproxy::profiles::ProcessMatch;

#[test]
fn star_matches_any_run_even_of_stars() {
    assert!(glob_matches_ci("*a", "*ba"));
    assert!(glob_matches_ci("*", "*"));
    assert!(glob_matches_ci("a*c", "a**c"));
    assert!(glob_matches_ci("*x*", "**x"));
    assert!(!glob_matches_ci("*a", "*b"));
}

#[test]
fn globs_ignore_case_and_match_whole_names() {
    assert!(glob_matches_ci("Retro*", "retroarch"));
    assert!(glob_matches_ci("mednafen-?rapper", "MEDNAFEN-WRAPPER"));
    assert!(!glob_matches_ci("retro", "retroarch"));
    assert!(glob_matches_ci("", ""));
    assert!(!glob_matches_ci("?", ""));
}

#[test]
fn process_patterns_glob_over_names_holding_stars() {
    let patterns = ProcessMatch { patterns: vec!["*a".to_string()] };
    assert!(patterns.matches("*ba"));
    assert!(patterns.matches("/opt/games/*ba"));
    assert!(!patterns.matches("  "));
}
