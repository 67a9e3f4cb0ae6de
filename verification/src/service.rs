//! The service orchestrator's decision logic: the startup sequence
//! (restore-or-bootstrap), the periodic persistence test of the supervising
//! loop, health statistics, and the clock read from the remote clock
//! account's payload.

use vstd::prelude::*;

use crate::cache::{Cache, CacheV, ClockInfo, SnapshotAccountV};
use crate::codec::{read_i64_le, read_u64_le};
use crate::snapshot::{dec_clock, CLOCK_ENC_LEN};

verus! {

/// One health sample of the supervising loop: the cache's latest slot and
/// the ingestion queue depth reported by the processor.
#[derive(Clone, Copy, Debug, PartialEq, Eq, Structural)]
pub struct StatsReport {
    pub slot: u64,
    pub queue_depth: u64,
}

/// Owns the cache and the orchestrator's configuration; the surrounding
/// process holds the worker handles, the cancellation flag, and the snapshot
/// file itself.
#[derive(Debug)]
pub struct ServiceManager {
    pub stats_interval_sec: u64,
    pub snapshot_interval_sec: u64,
    pub snapshot_path: String,
    pub cache: Cache,
}

impl ServiceManager {
    /// Builds the manager around a fresh cache holding the fetched clock.
    pub fn new(
        stats_interval_sec: u64,
        snapshot_interval_sec: u64,
        snapshot_path: String,
        clock: ClockInfo,
    ) -> (r: Self)
        ensures
            r.stats_interval_sec == stats_interval_sec,
            r.snapshot_interval_sec == snapshot_interval_sec,
            r.snapshot_path@ == snapshot_path@,
            r.cache@ == (CacheV {
                clock: clock,
                marginfi_accounts: Seq::<SnapshotAccountV>::empty(),
                banks: Seq::<SnapshotAccountV>::empty(),
            }),
            r.cache.wf(),
    {
        ServiceManager {
            stats_interval_sec,
            snapshot_interval_sec,
            snapshot_path,
            cache: Cache::new(clock),
        }
    }

    /// The health sample the loop logs each cycle.
    pub fn log_stats(&self, queue_depth: u64) -> (r: StatsReport)
        ensures
            r.slot == self.cache@.clock.slot,
            r.queue_depth == queue_depth,
    {
        let clock = self.cache.get_clock();
        StatsReport { slot: clock.slot, queue_depth }
    }
}

/// Where the startup sequence stands.
#[derive(Clone, Copy, Debug, PartialEq, Eq, Structural)]
pub enum StartupPhase {
    AwaitRestore,
    AwaitAuxiliary,
    AwaitBootstrap,
    AwaitInitialPersist,
    Running,
    Failed,
}

/// How the last startup action ended.
#[derive(Clone, Copy, Debug, PartialEq, Eq, Structural)]
pub enum StartupEvent {
    RestoreSucceeded,
    RestoreMissed,
    RestoreErrored,
    AuxiliaryLoaded,
    AuxiliaryFailed,
    BootstrapLoaded,
    BootstrapFailed,
    InitialPersistSucceeded,
    InitialPersistFailed,
}

/// What the startup sequence asks the process to do next.
#[derive(Clone, Copy, Debug, PartialEq, Eq, Structural)]
pub enum StartupAction {
    AttemptRestore,
    LoadAuxiliaryAccounts,
    RunBootstrap,
    PersistInitialSnapshot,
    EnterSupervision,
    Abort,
}

/// The action owed in each phase.
pub open spec fn spec_startup_action(phase: StartupPhase) -> StartupAction {
    match phase {
        StartupPhase::AwaitRestore => StartupAction::AttemptRestore,
        StartupPhase::AwaitAuxiliary => StartupAction::LoadAuxiliaryAccounts,
        StartupPhase::AwaitBootstrap => StartupAction::RunBootstrap,
        StartupPhase::AwaitInitialPersist => StartupAction::PersistInitialSnapshot,
        StartupPhase::Running => StartupAction::EnterSupervision,
        StartupPhase::Failed => StartupAction::Abort,
    }
}

/// The startup transition table. A restore that misses or errors falls back
/// to full bootstrap; a successful restore additionally loads the auxiliary
/// account kinds the snapshot does not cover; a completed bootstrap attempts
/// one initial snapshot persist whose failure is tolerated; a failed
/// auxiliary load or bootstrap is fatal. Events that cannot answer the
/// current phase leave it unchanged.
pub open spec fn spec_startup_transition(phase: StartupPhase, event: StartupEvent)
    -> StartupPhase {
    match (phase, event) {
        (StartupPhase::AwaitRestore, StartupEvent::RestoreSucceeded) => StartupPhase::AwaitAuxiliary,
        (StartupPhase::AwaitRestore, StartupEvent::RestoreMissed) => StartupPhase::AwaitBootstrap,
        (StartupPhase::AwaitRestore, StartupEvent::RestoreErrored) => StartupPhase::AwaitBootstrap,
        (StartupPhase::AwaitAuxiliary, StartupEvent::AuxiliaryLoaded) => StartupPhase::Running,
        (StartupPhase::AwaitAuxiliary, StartupEvent::AuxiliaryFailed) => StartupPhase::Failed,
        (StartupPhase::AwaitBootstrap, StartupEvent::BootstrapLoaded) => StartupPhase::AwaitInitialPersist,
        (StartupPhase::AwaitBootstrap, StartupEvent::BootstrapFailed) => StartupPhase::Failed,
        (StartupPhase::AwaitInitialPersist, StartupEvent::InitialPersistSucceeded) => StartupPhase::Running,
        (StartupPhase::AwaitInitialPersist, StartupEvent::InitialPersistFailed) => StartupPhase::Running,
        (p, _) => p,
    }
}

/// Drives `Initializing -> (Restoring | Bootstrapping) -> Running` for the
/// process; the caller performs each action and reports how it ended.
pub struct StartupSequencer {
    pub phase: StartupPhase,
}

impl StartupSequencer {
    pub fn new() -> (r: Self)
        ensures
            r.phase == StartupPhase::AwaitRestore,
    {
        StartupSequencer { phase: StartupPhase::AwaitRestore }
    }

    pub fn next_action(&self) -> (r: StartupAction)
        ensures
            r == spec_startup_action(self.phase),
    {
        match self.phase {
            StartupPhase::AwaitRestore => StartupAction::AttemptRestore,
            StartupPhase::AwaitAuxiliary => StartupAction::LoadAuxiliaryAccounts,
            StartupPhase::AwaitBootstrap => StartupAction::RunBootstrap,
            StartupPhase::AwaitInitialPersist => StartupAction::PersistInitialSnapshot,
            StartupPhase::Running => StartupAction::EnterSupervision,
            StartupPhase::Failed => StartupAction::Abort,
        }
    }

    pub fn on_event(&mut self, event: StartupEvent)
        ensures
            final(self).phase == spec_startup_transition(old(self).phase, event),
    {
        let next = match (self.phase, event) {
            (StartupPhase::AwaitRestore, StartupEvent::RestoreSucceeded) => StartupPhase::AwaitAuxiliary,
            (StartupPhase::AwaitRestore, StartupEvent::RestoreMissed) => StartupPhase::AwaitBootstrap,
            (StartupPhase::AwaitRestore, StartupEvent::RestoreErrored) => StartupPhase::AwaitBootstrap,
            (StartupPhase::AwaitAuxiliary, StartupEvent::AuxiliaryLoaded) => StartupPhase::Running,
            (StartupPhase::AwaitAuxiliary, StartupEvent::AuxiliaryFailed) => StartupPhase::Failed,
            (StartupPhase::AwaitBootstrap, StartupEvent::BootstrapLoaded) => StartupPhase::AwaitInitialPersist,
            (StartupPhase::AwaitBootstrap, StartupEvent::BootstrapFailed) => StartupPhase::Failed,
            (StartupPhase::AwaitInitialPersist, StartupEvent::InitialPersistSucceeded) => StartupPhase::Running,
            (StartupPhase::AwaitInitialPersist, StartupEvent::InitialPersistFailed) => StartupPhase::Running,
            (p, _) => p,
        };
        self.phase = next;
    }
}

/// After a restore that reports "not restored," the orchestrator runs the
/// full bootstrap exactly once, then attempts one initial snapshot persist,
/// and reaches the supervising loop whether or not that persist failed.
pub proof fn lemma_orchestrator_fallback(persist_failed: bool)
    ensures
        spec_startup_action(StartupPhase::AwaitRestore) == StartupAction::AttemptRestore,
        spec_startup_transition(StartupPhase::AwaitRestore, StartupEvent::RestoreMissed)
            == StartupPhase::AwaitBootstrap,
        spec_startup_action(StartupPhase::AwaitBootstrap) == StartupAction::RunBootstrap,
        spec_startup_transition(StartupPhase::AwaitBootstrap, StartupEvent::BootstrapLoaded)
            == StartupPhase::AwaitInitialPersist,
        spec_startup_action(StartupPhase::AwaitInitialPersist)
            == StartupAction::PersistInitialSnapshot,
        spec_startup_transition(
            StartupPhase::AwaitInitialPersist,
            if persist_failed {
                StartupEvent::InitialPersistFailed
            } else {
                StartupEvent::InitialPersistSucceeded
            },
        ) == StartupPhase::Running,
{
}

/// Whether the supervising loop owes a snapshot this cycle: the elapsed time
/// since the last persist has reached the configured interval.
pub fn snapshot_due(last_snapshot: u64, now: u64, snapshot_interval_sec: u64) -> (r: bool)
    requires
        last_snapshot <= now,
    ensures
        r == (now - last_snapshot >= snapshot_interval_sec),
{
    now - last_snapshot >= snapshot_interval_sec
}

/// Reads the clock from a clock-account payload: five fixed-width
/// little-endian fields. `None` where the payload is shorter than a clock.
pub fn decode_clock(bytes: &Vec<u8>) -> (r: Option<ClockInfo>)
    ensures
        (match r {
            Some(c) => bytes@.len() >= CLOCK_ENC_LEN && c == dec_clock(bytes@),
            None => bytes@.len() < CLOCK_ENC_LEN,
        }),
{
    let n = bytes.len();
    if n < CLOCK_ENC_LEN {
        return None;
    }
    let slot = read_u64_le(bytes, 0);
    let epoch_start_timestamp = read_i64_le(bytes, 8);
    let epoch = read_u64_le(bytes, 16);
    let leader_schedule_epoch = read_u64_le(bytes, 24);
    let unix_timestamp = read_i64_le(bytes, 32);
    proof {
        assert(bytes@.skip(0) =~= bytes@);
    }
    Some(ClockInfo { slot, epoch_start_timestamp, epoch, leader_schedule_epoch, unix_timestamp })
}

} // verus!
