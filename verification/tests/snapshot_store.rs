use ledger_sync::cache::{Address, Cache, ClockInfo, SnapshotAccount};
use ledger_sync::snapshot::{
    persist_cache_snapshot, restore_cache_snapshot, snapshot_to_bytes, CacheSnapshot,
    SNAPSHOT_VERSION,
};

fn addr(seed: u8) -> Address {
    let mut bytes = vec![0u8; 32];
    bytes[0] = seed;
    bytes[31] = seed.wrapping_add(1);
    Address::new(bytes)
}

fn clock(slot: u64) -> ClockInfo {
    ClockInfo {
        slot,
        epoch_start_timestamp: -7,
        epoch: 3,
        leader_schedule_epoch: 4,
        unix_timestamp: 1_700_000_000,
    }
}

fn populated_cache() -> Cache {
    let mut cache = Cache::new(clock(42));
    cache.marginfi_accounts.restore_from_snapshot(vec![
        SnapshotAccount::new(addr(1), 10, vec![1, 2, 3]),
        SnapshotAccount::new(addr(2), 11, vec![]),
    ]);
    cache.banks.restore_from_snapshot(vec![SnapshotAccount::new(addr(9), 12, vec![9; 70])]);
    cache
}

#[test]
fn test_snapshot_round_trip() {
    let cache = populated_cache();
    let bytes = persist_cache_snapshot(&cache, 1_234);

    let mut restored_cache = Cache::new(clock(0));
    let restored = restore_cache_snapshot(&mut restored_cache, Some(&bytes));
    assert!(restored);
    assert_eq!(restored_cache.get_clock(), clock(42));
    assert_eq!(
        restored_cache.marginfi_accounts.snapshot_entries(),
        cache.marginfi_accounts.snapshot_entries()
    );
    assert_eq!(restored_cache.banks.snapshot_entries(), cache.banks.snapshot_entries());
}

#[test]
fn test_empty_cache_round_trip() {
    let cache = Cache::new(clock(7));
    let bytes = persist_cache_snapshot(&cache, 0);
    let mut restored_cache = Cache::new(clock(1));
    assert!(restore_cache_snapshot(&mut restored_cache, Some(&bytes)));
    assert_eq!(restored_cache.get_clock(), clock(7));
    assert!(restored_cache.marginfi_accounts.snapshot_entries().is_empty());
    assert!(restored_cache.banks.snapshot_entries().is_empty());
}

#[test]
fn test_version_gated_restore() {
    let snapshot = CacheSnapshot {
        version: SNAPSHOT_VERSION + 1,
        generated_at_unix: 5,
        clock: clock(99),
        marginfi_accounts: vec![SnapshotAccount::new(addr(3), 1, vec![4, 5])],
        banks: vec![],
    };
    let bytes = snapshot_to_bytes(&snapshot);

    let mut cache = populated_cache();
    let before_margin = cache.marginfi_accounts.snapshot_entries();
    let restored = restore_cache_snapshot(&mut cache, Some(&bytes));
    assert!(!restored);
    assert_eq!(cache.get_clock(), clock(42));
    assert_eq!(cache.marginfi_accounts.snapshot_entries(), before_margin);
}

#[test]
fn test_absent_file_restore() {
    let mut cache = populated_cache();
    let restored = restore_cache_snapshot(&mut cache, None);
    assert!(!restored);
    assert_eq!(cache.get_clock(), clock(42));
    assert_eq!(cache.marginfi_accounts.snapshot_entries().len(), 2);
}

#[test]
fn test_corrupt_restore_is_not_an_error() {
    let mut cache = populated_cache();
    assert!(!restore_cache_snapshot(&mut cache, Some(&vec![])));
    assert!(!restore_cache_snapshot(&mut cache, Some(&vec![1, 2, 3])));

    let mut truncated = persist_cache_snapshot(&cache, 0);
    truncated.pop();
    assert!(!restore_cache_snapshot(&mut cache, Some(&truncated)));

    let mut padded = persist_cache_snapshot(&cache, 0);
    padded.push(0);
    assert!(!restore_cache_snapshot(&mut cache, Some(&padded)));

    assert_eq!(cache.get_clock(), clock(42));
    assert_eq!(cache.marginfi_accounts.snapshot_entries().len(), 2);
}

#[test]
fn test_duplicate_addresses_rejected() {
    let snapshot = CacheSnapshot {
        version: SNAPSHOT_VERSION,
        generated_at_unix: 5,
        clock: clock(1),
        marginfi_accounts: vec![
            SnapshotAccount::new(addr(3), 1, vec![4]),
            SnapshotAccount::new(addr(3), 2, vec![5]),
        ],
        banks: vec![],
    };
    let bytes = snapshot_to_bytes(&snapshot);
    let mut cache = Cache::new(clock(0));
    assert!(!restore_cache_snapshot(&mut cache, Some(&bytes)));
    assert_eq!(cache.get_clock(), clock(0));
}

#[test]
fn test_envelope_layout() {
    let mut cache = Cache::new(ClockInfo {
        slot: 2,
        epoch_start_timestamp: 3,
        epoch: 4,
        leader_schedule_epoch: 5,
        unix_timestamp: 6,
    });
    cache.marginfi_accounts.restore_from_snapshot(vec![SnapshotAccount::new(
        addr(1),
        7,
        vec![0xAA, 0xBB],
    )]);
    let bytes = persist_cache_snapshot(&cache, 9);

    // version, timestamp, five clock fields.
    assert_eq!(&bytes[0..4], &[1, 0, 0, 0]);
    assert_eq!(&bytes[4..12], &9u64.to_le_bytes());
    assert_eq!(&bytes[12..20], &2u64.to_le_bytes());
    assert_eq!(&bytes[20..28], &3i64.to_le_bytes());
    assert_eq!(&bytes[28..36], &4u64.to_le_bytes());
    assert_eq!(&bytes[36..44], &5u64.to_le_bytes());
    assert_eq!(&bytes[44..52], &6i64.to_le_bytes());
    // margin count, one record: 32-byte address, slot, payload length, payload.
    assert_eq!(&bytes[52..60], &1u64.to_le_bytes());
    assert_eq!(bytes[60], 1);
    assert_eq!(bytes[91], 2);
    assert_eq!(&bytes[92..100], &7u64.to_le_bytes());
    assert_eq!(&bytes[100..108], &2u64.to_le_bytes());
    assert_eq!(&bytes[108..110], &[0xAA, 0xBB]);
    // bank count, then nothing: the envelope is self-contained.
    assert_eq!(&bytes[110..118], &0u64.to_le_bytes());
    assert_eq!(bytes.len(), 118);
}

#[test]
fn test_negative_timestamps_round_trip() {
    let mut cache = Cache::new(ClockInfo {
        slot: u64::MAX,
        epoch_start_timestamp: i64::MIN,
        epoch: 0,
        leader_schedule_epoch: u64::MAX,
        unix_timestamp: -1,
    });
    cache.banks.restore_from_snapshot(vec![SnapshotAccount::new(addr(8), u64::MAX, vec![255; 3])]);
    let bytes = persist_cache_snapshot(&cache, u64::MAX);
    let mut restored_cache = Cache::new(clock(0));
    assert!(restore_cache_snapshot(&mut restored_cache, Some(&bytes)));
    assert_eq!(restored_cache.get_clock(), cache.get_clock());
    assert_eq!(restored_cache.banks.snapshot_entries(), cache.banks.snapshot_entries());
}
