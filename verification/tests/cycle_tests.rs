use drive_wallpaper::cycle::{Action, Agent, Event, Phase, POLL_PERIOD_SECS};
use drive_wallpaper::error::CycleError;
use drive_wallpaper::select::RunPhase;

fn listing(ids: &[&str]) -> Vec<String> {
    ids.iter().map(|id| id.to_string()).collect()
}

fn text(s: &str) -> Option<String> {
    Some(s.to_string())
}

/// Runs a cycle up to the point where the wallpaper is being applied.
fn up_to_applying(prior: Option<String>) -> Agent {
    let agent = Agent::new();
    let (agent, action) = agent.step(Event::Tick);
    assert!(matches!(action, Action::ListFolder));
    let (agent, action) = agent.step(Event::Listed { file_ids: listing(&["a", "b", "c"]) });
    assert!(matches!(action, Action::ReadSeen));
    let (agent, action) = agent.step(Event::SeenRead { contents: prior });
    assert!(matches!(action, Action::Download { ref file_id } if file_id == "b"));
    let (agent, action) =
        agent.step(Event::Responded { success: true, content_type: text("image/jpeg") });
    assert!(matches!(action, Action::WriteImage { ref file_name } if file_name == "background.jpg"));
    let (agent, action) = agent.step(Event::Written);
    assert!(
        matches!(action, Action::ApplyWallpaper { ref file_name } if file_name == "background.jpg")
    );
    assert!(matches!(agent.phase, Phase::Applying { ref file_id } if file_id == "b"));
    agent
}

#[test]
fn period_is_one_hour() {
    assert_eq!(POLL_PERIOD_SECS, 60 * 60);
}

#[test]
fn agent_starts_idle_on_its_first_run() {
    let agent = Agent::new();
    assert!(matches!(agent.phase, Phase::Idle));
    assert_eq!(agent.run, RunPhase::FirstRun);
}

#[test]
fn successful_cycle_persists_the_selected_file() {
    let agent = up_to_applying(text("a\n"));
    let (agent, action) = agent.step(Event::Applied);
    assert!(matches!(action, Action::ReadSeen));
    assert!(matches!(agent.phase, Phase::Marking { ref file_id } if file_id == "b"));
    let (agent, action) = agent.step(Event::SeenRead { contents: text("a\n") });
    assert!(matches!(action, Action::PersistSeen { ref contents } if contents == "a\nb"));
    assert_eq!(agent.run, RunPhase::FirstRun);
    let (agent, action) = agent.step(Event::Persisted);
    assert!(matches!(action, Action::AwaitTick));
    assert!(matches!(agent.phase, Phase::Idle));
    assert_eq!(agent.run, RunPhase::SteadyState);
}

#[test]
fn failed_wallpaper_set_does_not_update_the_seen_set() {
    let agent = up_to_applying(text("a"));
    let (agent, action) = agent.step(Event::Failed);
    assert!(matches!(action, Action::Report { error: CycleError::WallpaperSetError }));
    assert!(matches!(agent.phase, Phase::Idle));
    assert_eq!(agent.run, RunPhase::FirstRun);
    // The next cycle selects the same file again: nothing was recorded.
    let (agent, _) = agent.step(Event::Tick);
    let (agent, _) = agent.step(Event::Listed { file_ids: listing(&["a", "b", "c"]) });
    let (_, action) = agent.step(Event::SeenRead { contents: text("a") });
    assert!(matches!(action, Action::Download { ref file_id } if file_id == "b"));
}

#[test]
fn each_phase_fails_with_its_own_error() {
    let (agent, _) = Agent::new().step(Event::Tick);
    let (agent, action) = agent.step(Event::Failed);
    assert!(matches!(action, Action::Report { error: CycleError::ListError }));
    assert!(matches!(agent.phase, Phase::Idle));

    let (agent, _) = agent.step(Event::Tick);
    let (agent, _) = agent.step(Event::Listed { file_ids: listing(&["a"]) });
    let (agent, action) = agent.step(Event::Failed);
    assert!(matches!(action, Action::Report { error: CycleError::StorageError }));

    let (agent, _) = agent.step(Event::Tick);
    let (agent, _) = agent.step(Event::Listed { file_ids: listing(&["a"]) });
    let (agent, _) = agent.step(Event::SeenRead { contents: None });
    let (agent, action) = agent.step(Event::Failed);
    assert!(matches!(action, Action::Report { error: CycleError::DownloadError }));

    let (agent, _) = agent.step(Event::Tick);
    let (agent, _) = agent.step(Event::Listed { file_ids: listing(&["a"]) });
    let (agent, _) = agent.step(Event::SeenRead { contents: None });
    let (agent, _) =
        agent.step(Event::Responded { success: true, content_type: text("image/png") });
    let (agent, action) = agent.step(Event::Failed);
    assert!(matches!(action, Action::Report { error: CycleError::LocalWriteError }));
    assert!(matches!(agent.phase, Phase::Idle));

    let agent = up_to_applying(text("a"));
    let (agent, _) = agent.step(Event::Applied);
    let (agent, action) = agent.step(Event::Failed);
    assert!(matches!(action, Action::Report { error: CycleError::StorageError }));
    assert!(matches!(agent.phase, Phase::Idle));

    let agent = up_to_applying(text("a"));
    let (agent, _) = agent.step(Event::Applied);
    let (agent, _) = agent.step(Event::SeenRead { contents: None });
    let (agent, action) = agent.step(Event::Failed);
    assert!(matches!(action, Action::Report { error: CycleError::StorageError }));
    assert_eq!(agent.run, RunPhase::FirstRun);
}

#[test]
fn missing_config_dir_ends_the_cycle() {
    let agent = up_to_applying(text("a"));
    let (agent, action) = agent.step(Event::ConfigDirMissing);
    assert!(matches!(action, Action::Report { error: CycleError::ConfigDirError }));
    assert!(matches!(agent.phase, Phase::Idle));
}

#[test]
fn download_failures_end_the_cycle() {
    let start = || {
        let (agent, _) = Agent::new().step(Event::Tick);
        let (agent, _) = agent.step(Event::Listed { file_ids: listing(&["a"]) });
        let (agent, _) = agent.step(Event::SeenRead { contents: None });
        agent
    };
    let (agent, action) =
        start().step(Event::Responded { success: false, content_type: text("image/png") });
    assert!(matches!(action, Action::Report { error: CycleError::DownloadError }));
    assert!(matches!(agent.phase, Phase::Idle));
    let (_, action) =
        start().step(Event::Responded { success: true, content_type: text("image/gif") });
    assert!(matches!(action, Action::Report { error: CycleError::UnsupportedContentType }));
    let (_, action) = start().step(Event::Responded { success: true, content_type: None });
    assert!(matches!(action, Action::Report { error: CycleError::UnsupportedContentType }));
}

#[test]
fn selection_failures_end_the_cycle() {
    let (agent, _) = Agent::new().step(Event::Tick);
    let (agent, _) = agent.step(Event::Listed { file_ids: listing(&[]) });
    let (agent, action) = agent.step(Event::SeenRead { contents: text("a") });
    assert!(matches!(action, Action::Report { error: CycleError::NoCandidates }));
    assert!(matches!(agent.phase, Phase::Idle));

    let steady = Agent { phase: Phase::Idle, run: RunPhase::SteadyState };
    let (agent, _) = steady.step(Event::Tick);
    let (agent, _) = agent.step(Event::Listed { file_ids: listing(&["a", "b"]) });
    let (agent, action) = agent.step(Event::SeenRead { contents: text("b\na\n") });
    assert!(matches!(action, Action::Report { error: CycleError::NoNewFiles }));
    assert!(matches!(agent.phase, Phase::Idle));
    assert_eq!(agent.run, RunPhase::SteadyState);
}

#[test]
fn first_run_shows_a_seen_file_rather_than_nothing() {
    let (agent, _) = Agent::new().step(Event::Tick);
    let (agent, _) = agent.step(Event::Listed { file_ids: listing(&["a", "b"]) });
    let (agent, action) = agent.step(Event::SeenRead { contents: text("a\nb") });
    match (agent.phase, action) {
        (Phase::Downloading { file_id }, Action::Download { file_id: requested }) => {
            assert_eq!(file_id, requested);
            assert!(file_id == "a" || file_id == "b");
        }
        other => panic!("{:?}", other),
    }
}

#[test]
fn events_out_of_turn_are_ignored() {
    let (agent, action) = Agent::new().step(Event::Applied);
    assert!(matches!(action, Action::Ignore));
    assert!(matches!(agent.phase, Phase::Idle));
    let (agent, action) = agent.step(Event::Failed);
    assert!(matches!(action, Action::Ignore));
    assert!(matches!(agent.phase, Phase::Idle));

    let agent = up_to_applying(text("a"));
    let (agent, action) = agent.step(Event::Tick);
    assert!(matches!(action, Action::Ignore));
    assert!(matches!(agent.phase, Phase::Applying { ref file_id } if file_id == "b"));
    let (agent, action) = agent.step(Event::Persisted);
    assert!(matches!(action, Action::Ignore));
    assert!(matches!(agent.phase, Phase::Applying { ref file_id } if file_id == "b"));
}

#[test]
fn unstorable_id_is_a_storage_error_when_marking() {
    let agent = Agent { phase: Phase::Marking { file_id: "a\nb".to_string() }, run: RunPhase::FirstRun };
    let (agent, action) = agent.step(Event::SeenRead { contents: None });
    assert!(matches!(action, Action::Report { error: CycleError::StorageError }));
    assert!(matches!(agent.phase, Phase::Idle));
}
