use padproxy::presets::{ensure_trailing_newline, install_profile, profile_file_stem};

#[test]
fn sanitizes_profile_ids_into_file_stems() {
    assert_eq!(profile_file_stem("nes-2button").unwrap(), "nes-2button");
    assert_eq!(profile_file_stem("My Game!/v2").unwrap(), "My-Game--v2");
    assert!(profile_file_stem("///").is_err());
}

#[test]
fn trims_edge_punctuation_from_stems() {
    assert_eq!(profile_file_stem("._-game-_.").unwrap(), "game");
    assert_eq!(profile_file_stem("é").is_err(), true);
}

#[test]
fn installs_presets_under_their_stem_with_a_final_newline() {
    let (file, text) = install_profile("id: imported-game\nmappings: []", "imported-game").unwrap();
    assert_eq!(file, "imported-game.yaml");
    assert!(text.ends_with('\n'));
    assert_eq!(ensure_trailing_newline("a\n"), "a\n");
    assert_eq!(ensure_trailing_newline(""), "\n");
}
