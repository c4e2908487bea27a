use boot_handoff::bootstrap::{
    initial, step, BootAction, BootEvent, BootstrapConfig, BootstrapState,
};
use boot_handoff::memory::{MemoryKind, MemoryMapEntry, MemoryMapSnapshot};

fn sample_snapshot() -> MemoryMapSnapshot {
    MemoryMapSnapshot {
        entries: vec![MemoryMapEntry { kind: MemoryKind::Usable, start_page: 0, pages: 64 }],
    }
}

#[test]
fn initial_state_probes_the_map_size() {
    let config = BootstrapConfig { max_retries: 3 };
    let (state, action) = initial(&config);
    assert!(matches!(state, BootstrapState::AwaitSize { attempts: 0 }));
    assert_eq!(action, BootAction::ProbeSize);
}

#[test]
fn happy_path_completes_with_the_fetched_snapshot() {
    let config = BootstrapConfig { max_retries: 3 };
    let (state, _) = initial(&config);

    let (state, action) = step(state, BootEvent::SizeProbed { size: 4096 }, &config);
    assert_eq!(action, BootAction::FetchMap { size: 4096 });
    assert!(matches!(state, BootstrapState::AwaitMap { attempts: 0, size: 4096 }));

    let (state, action) = step(
        state,
        BootEvent::MapFetched { snapshot: sample_snapshot() },
        &config,
    );
    assert_eq!(action, BootAction::ExitFirmware);
    assert!(matches!(state, BootstrapState::AwaitExit { attempts: 0, .. }));

    let (state, action) = step(state, BootEvent::ExitAccepted, &config);
    assert_eq!(action, BootAction::Proceed);
    match state {
        BootstrapState::Complete { snapshot } => {
            assert_eq!(snapshot.entries.len(), 1);
            assert_eq!(snapshot.entries[0].pages, 64);
        }
        other => panic!("expected completion, got {:?}", other),
    }
}

#[test]
fn stale_map_retries_from_the_probe() {
    let config = BootstrapConfig { max_retries: 2 };
    let (state, _) = initial(&config);
    let (state, _) = step(state, BootEvent::SizeProbed { size: 100 }, &config);
    let (state, action) = step(state, BootEvent::MapStale, &config);
    assert_eq!(action, BootAction::ProbeSize);
    assert!(matches!(state, BootstrapState::AwaitSize { attempts: 1 }));
}

#[test]
fn rejected_exit_retries_from_the_probe() {
    let config = BootstrapConfig { max_retries: 2 };
    let (state, _) = initial(&config);
    let (state, _) = step(state, BootEvent::SizeProbed { size: 100 }, &config);
    let (state, _) = step(
        state,
        BootEvent::MapFetched { snapshot: sample_snapshot() },
        &config,
    );
    let (state, action) = step(state, BootEvent::ExitRejected, &config);
    assert_eq!(action, BootAction::ProbeSize);
    assert!(matches!(state, BootstrapState::AwaitSize { attempts: 1 }));
}

#[test]
fn exhausting_retries_halts_the_boot() {
    let config = BootstrapConfig { max_retries: 2 };
    let (mut state, mut action) = initial(&config);
    let mut halts = 0;
    for round in 0..4 {
        assert_eq!(action, BootAction::ProbeSize);
        let (s, a) = step(state, BootEvent::SizeProbed { size: 64 }, &config);
        state = s;
        action = a;
        assert!(matches!(action, BootAction::FetchMap { size: 64 }));
        let (s, a) = step(state, BootEvent::MapStale, &config);
        state = s;
        action = a;
        if round < 2 {
            assert_eq!(action, BootAction::ProbeSize);
        } else {
            assert_eq!(action, BootAction::Halt);
            assert!(matches!(state, BootstrapState::Failed));
            halts += 1;
            break;
        }
    }
    assert_eq!(halts, 1);
}

#[test]
fn zero_retry_budget_fails_on_first_staleness() {
    let config = BootstrapConfig { max_retries: 0 };
    let (state, _) = initial(&config);
    let (state, _) = step(state, BootEvent::SizeProbed { size: 8 }, &config);
    let (state, action) = step(state, BootEvent::MapStale, &config);
    assert_eq!(action, BootAction::Halt);
    assert!(matches!(state, BootstrapState::Failed));
}
