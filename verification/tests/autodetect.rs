use padproxy::autodetect::{
    decide_watch, match_profile, names_from_proc_entry, running_process_names, ProcEntry,
    ProfileMatch, WatchAction, WatchDecision, Watcher,
};
use padproxy::blocklist::parse_blocklist;
use padproxy::profile_doc::{build_profile, RawProfile, RawStringOrList};
use padproxy::profiles::{DeviceMatch, Profile};

fn profile(id: &str, processes: &[&str]) -> Profile {
    let raw = RawProfile {
        id: Some(id.to_string()),
        name: None,
        description: None,
        device_match: DeviceMatch::default(),
        groups: Vec::new(),
        process: Some(RawStringOrList::List(processes.iter().map(|p| p.to_string()).collect())),
        output: None,
        outputs: Vec::new(),
        passthrough: None,
        grab_source: None,
        mappings: Some(Vec::new()),
        layers: None,
    };
    build_profile(raw, "p", "p.yaml").unwrap()
}

#[test]
fn matches_profile_by_process_basename() {
    let profiles = vec![profile("retro", &["retroarch"]), profile("mednafen", &["*mednafen*"])];

    let names = vec!["/usr/bin/retroarch".to_string()];
    let (matched, detail) = match_profile(&profiles, &names).unwrap();
    assert_eq!(matched.id, "retro");
    assert_eq!(
        detail,
        ProfileMatch {
            profile_id: "retro".to_string(),
            process_name: "/usr/bin/retroarch".to_string(),
        }
    );

    let glob_names = vec!["mednafen-wrapper".to_string()];
    let (matched, _) = match_profile(&profiles, &glob_names).unwrap();
    assert_eq!(matched.id, "mednafen");
}

#[test]
fn watch_decisions_track_running_processes() {
    let profiles = vec![profile("retro", &["retroarch"]), profile("game", &["mygame"])];

    // Nothing active, a match appears -> switch to it.
    assert_eq!(
        decide_watch(&profiles, &["retroarch".to_string()], None),
        WatchDecision::Switch("retro".to_string())
    );
    // Same profile still matches -> keep.
    assert_eq!(
        decide_watch(&profiles, &["retroarch".to_string()], Some("retro")),
        WatchDecision::Keep
    );
    // A different profile now matches -> switch.
    assert_eq!(
        decide_watch(&profiles, &["mygame".to_string()], Some("retro")),
        WatchDecision::Switch("game".to_string())
    );
    // Active profile's process is gone -> stop.
    assert_eq!(
        decide_watch(&profiles, &["someoneelse".to_string()], Some("retro")),
        WatchDecision::Stop
    );
    // Nothing active and nothing matches -> keep idling.
    assert_eq!(
        decide_watch(&profiles, &["someoneelse".to_string()], None),
        WatchDecision::Keep
    );
}

#[test]
fn skips_profiles_without_process_patterns_and_unmatched() {
    let profiles = vec![profile("plain", &[]), profile("game", &["mygame"])];
    let names = vec!["someotherapp".to_string()];
    assert!(match_profile(&profiles, &names).is_none());
}

#[test]
fn reads_process_names_from_proc_entries() {
    let entries = vec![
        ProcEntry {
            name: "4242".to_string(),
            comm: Some("retroarch\n".to_string()),
            cmdline: Some(b"/usr/bin/retroarch\0--fullscreen\0".to_vec()),
        },
        ProcEntry { name: "bus".to_string(), comm: Some("x".to_string()), cmdline: None },
        ProcEntry { name: "7".to_string(), comm: None, cmdline: Some(vec![0xff, 0xfe]) },
    ];
    let names = running_process_names(&entries);
    assert_eq!(names, vec!["retroarch", "/usr/bin/retroarch"]);
    assert_eq!(names_from_proc_entry("12", Some("  "), Some(" a ")), vec!["a"]);
}

#[test]
fn watcher_keeps_a_turned_off_profile_off_until_its_process_exits() {
    let profiles = vec![profile("retro", &["retroarch"]), profile("game", &["mygame"])];
    let retro = vec!["retroarch".to_string()];
    let mut watcher = Watcher::new();

    assert_eq!(watcher.poll(&profiles, &retro), WatchAction::Start("retro".to_string()));
    assert_eq!(watcher.poll(&profiles, &retro), WatchAction::Keep);

    watcher.remap_turned_off();
    assert_eq!(watcher.active, None);
    assert_eq!(watcher.suppressed, Some("retro".to_string()));
    // Still running: stays off.
    assert_eq!(watcher.poll(&profiles, &retro), WatchAction::Keep);
    assert_eq!(watcher.active, None);

    // Another game starts: it is applied, and the suppression is forgotten.
    assert_eq!(
        watcher.poll(&profiles, &["mygame".to_string()]),
        WatchAction::Start("game".to_string())
    );
    assert_eq!(watcher.suppressed, None);

    // Nothing matches any more: the remap stops.
    assert_eq!(watcher.poll(&profiles, &[]), WatchAction::Stop);
    assert_eq!(watcher.poll(&profiles, &[]), WatchAction::Keep);
    // The earlier profile can be applied again.
    assert_eq!(watcher.poll(&profiles, &retro), WatchAction::Start("retro".to_string()));
}

#[test]
fn reads_process_names_from_proc_layout() {
    let entries = vec![
        ProcEntry {
            name: "4242".to_string(),
            comm: Some("retroarch\n".to_string()),
            cmdline: Some(b"/usr/bin/retroarch\0--fullscreen\0".to_vec()),
        },
        // A non-pid directory is ignored.
        ProcEntry { name: "bus".to_string(), comm: None, cmdline: None },
    ];
    let names = running_process_names(&entries);
    assert!(names.contains(&"retroarch".to_string()));
    assert!(names.contains(&"/usr/bin/retroarch".to_string()));
}

#[test]
fn watcher_applies_nothing_while_a_blocklisted_process_runs() {
    let profiles = vec![profile("retro", &["retroarch"])];
    let blocklist = parse_blocklist("# launchers\nsteam*\n");
    let retro = vec!["retroarch".to_string()];
    let retro_and_steam = vec!["retroarch".to_string(), "steamwebhelper".to_string()];
    let mut watcher = Watcher::new();

    assert_eq!(watcher.scan(&profiles, &retro_and_steam, &blocklist), WatchAction::Keep);
    assert_eq!(watcher.active, None);
    assert_eq!(watcher.scan(&profiles, &retro, &blocklist), WatchAction::Start("retro".to_string()));
    assert_eq!(watcher.scan(&profiles, &retro_and_steam, &blocklist), WatchAction::Stop);
    assert_eq!(watcher.active, None);
    assert_eq!(watcher.scan(&profiles, &retro, &blocklist), WatchAction::Start("retro".to_string()));

    // An empty blocklist blocks nothing.
    let mut other = Watcher::new();
    assert_eq!(
        other.scan(&profiles, &retro_and_steam, &parse_blocklist("")),
        WatchAction::Start("retro".to_string())
    );
}
