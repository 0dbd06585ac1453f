use dictation_history::tailer::{LogTailer, Observation, TailAction, LOG_PLACEHOLDER};

#[test]
fn absent_file_shows_placeholder_then_contents() {
    let mut t = LogTailer::new();
    assert_eq!(t.tick(Observation::Missing), TailAction::ShowPlaceholder);
    assert_eq!(t.tick(Observation::Missing), TailAction::Nothing);
    assert_eq!(t.tick(Observation::Present { mtime: 1_000 }), TailAction::ReadAndShow);
    t.clear();
    assert_eq!(t.tick(Observation::Missing), TailAction::Nothing);
    assert_eq!(
        LOG_PLACEHOLDER,
        "No logs yet.\n\nLogs will be created on next voice input."
    );
}

#[test]
fn unchanged_file_emits_nothing() {
    let mut t = LogTailer::new();
    assert_eq!(t.tick(Observation::Present { mtime: 5 }), TailAction::ReadAndShow);
    assert_eq!(t.tick(Observation::Present { mtime: 5 }), TailAction::Nothing);
    assert_eq!(t.tick(Observation::Present { mtime: 5 }), TailAction::Nothing);
    assert_eq!(t.tick(Observation::Present { mtime: 4 }), TailAction::Nothing);
    assert_eq!(t.tick(Observation::Present { mtime: 6 }), TailAction::ReadAndShow);
    assert_eq!(t.last_mtime, Some(6));
}

#[test]
fn file_removed_then_recreated() {
    let mut t = LogTailer::new();
    assert_eq!(t.tick(Observation::Present { mtime: 10 }), TailAction::ReadAndShow);
    assert_eq!(t.tick(Observation::Missing), TailAction::ShowPlaceholder);
    assert_eq!(t.tick(Observation::Missing), TailAction::Nothing);
    assert_eq!(t.tick(Observation::Present { mtime: 20 }), TailAction::ReadAndShow);
}
