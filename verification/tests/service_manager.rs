use ledger_sync::cache::ClockInfo;
use ledger_sync::service::{
    decode_clock, snapshot_due, ServiceManager, StartupAction, StartupEvent, StartupSequencer,
};

fn clock(slot: u64) -> ClockInfo {
    ClockInfo {
        slot,
        epoch_start_timestamp: 11,
        epoch: 2,
        leader_schedule_epoch: 3,
        unix_timestamp: 1_700_000_123,
    }
}

fn clock_account_data(c: &ClockInfo) -> Vec<u8> {
    let mut data = Vec::new();
    data.extend_from_slice(&c.slot.to_le_bytes());
    data.extend_from_slice(&c.epoch_start_timestamp.to_le_bytes());
    data.extend_from_slice(&c.epoch.to_le_bytes());
    data.extend_from_slice(&c.leader_schedule_epoch.to_le_bytes());
    data.extend_from_slice(&c.unix_timestamp.to_le_bytes());
    data
}

#[test]
fn test_fetch_clock() {
    let clock = clock(1);
    let data = clock_account_data(&clock);
    let fetched_clock = decode_clock(&data).unwrap();
    assert_eq!(fetched_clock, clock);
}

#[test]
fn test_decode_clock_short_payload() {
    assert!(decode_clock(&vec![0u8; 39]).is_none());
    assert!(decode_clock(&Vec::new()).is_none());
}

#[test]
fn test_orchestrator_fallback() {
    // A restore that reports "not restored" leads to exactly one full
    // bootstrap, then one initial persist attempt whose failure is tolerated.
    let mut sequencer = StartupSequencer::new();
    let mut bootstraps = 0u32;
    let mut persist_attempts = 0u32;
    loop {
        match sequencer.next_action() {
            StartupAction::AttemptRestore => sequencer.on_event(StartupEvent::RestoreMissed),
            StartupAction::RunBootstrap => {
                bootstraps += 1;
                sequencer.on_event(StartupEvent::BootstrapLoaded);
            }
            StartupAction::PersistInitialSnapshot => {
                persist_attempts += 1;
                sequencer.on_event(StartupEvent::InitialPersistFailed);
            }
            StartupAction::EnterSupervision => break,
            other => panic!("unexpected action {:?}", other),
        }
        assert!(bootstraps + persist_attempts <= 4);
    }
    assert_eq!(bootstraps, 1);
    assert_eq!(persist_attempts, 1);
}

#[test]
fn test_restore_success_skips_bootstrap() {
    let mut sequencer = StartupSequencer::new();
    assert!(matches!(sequencer.next_action(), StartupAction::AttemptRestore));
    sequencer.on_event(StartupEvent::RestoreSucceeded);
    assert!(matches!(sequencer.next_action(), StartupAction::LoadAuxiliaryAccounts));
    sequencer.on_event(StartupEvent::AuxiliaryLoaded);
    assert!(matches!(sequencer.next_action(), StartupAction::EnterSupervision));
}

#[test]
fn test_restore_error_falls_back_to_bootstrap() {
    let mut sequencer = StartupSequencer::new();
    sequencer.on_event(StartupEvent::RestoreErrored);
    assert!(matches!(sequencer.next_action(), StartupAction::RunBootstrap));
}

#[test]
fn test_fatal_startup_failures() {
    let mut sequencer = StartupSequencer::new();
    sequencer.on_event(StartupEvent::RestoreSucceeded);
    sequencer.on_event(StartupEvent::AuxiliaryFailed);
    assert!(matches!(sequencer.next_action(), StartupAction::Abort));

    let mut sequencer = StartupSequencer::new();
    sequencer.on_event(StartupEvent::RestoreMissed);
    sequencer.on_event(StartupEvent::BootstrapFailed);
    assert!(matches!(sequencer.next_action(), StartupAction::Abort));
}

#[test]
fn test_snapshot_due() {
    assert!(snapshot_due(100, 160, 60));
    assert!(snapshot_due(100, 200, 60));
    assert!(!snapshot_due(100, 159, 60));
    assert!(snapshot_due(0, 0, 0));
}

#[test]
fn test_log_stats() {
    let manager = ServiceManager::new(5, 60, String::from("cache.bin"), clock(77));
    let stats = manager.log_stats(9);
    assert_eq!(stats.slot, 77);
    assert_eq!(stats.queue_depth, 9);
}
