use ledger_sync::cache::{Address, SnapshotAccount};
use ledger_sync::fetcher::{
    address_batches, collect_found_accounts, is_scan_limit_error, margin_account_filters,
    scan_limit_marker_bytes, AccountFilter, BootstrapAction, BootstrapEvent, BootstrapSession,
    MarginfiProgramAccountType, PartitionSearch, ProgramLayout, QueryOutcome, SearchStep,
};

fn addr(seed: u8) -> Address {
    let mut bytes = vec![0u8; 32];
    bytes[0] = seed;
    Address::new(bytes)
}

fn record(seed: u8) -> SnapshotAccount {
    SnapshotAccount::new(addr(seed), seed as u64, vec![seed])
}

fn scan_limit_message() -> Vec<u8> {
    let mut m = b"RPC response error -32005: ".to_vec();
    m.extend_from_slice(&scan_limit_marker_bytes());
    m.extend_from_slice(b" of 1000000");
    m
}

fn layout() -> ProgramLayout {
    ProgramLayout {
        group_struct_size: 1000,
        bank_struct_size: 2000,
        margin_account_struct_size: 3000,
        group_discriminator: vec![1; 8],
        bank_discriminator: vec![2; 8],
        margin_account_discriminator: vec![3; 8],
    }
}

#[test]
fn test_scan_limit_error_detection() {
    assert!(is_scan_limit_error(&scan_limit_message()));
    assert!(is_scan_limit_error(&scan_limit_marker_bytes()));
    assert!(!is_scan_limit_error(&b"connection reset by peer".to_vec()));
    assert!(!is_scan_limit_error(&b"scan aborted: something else".to_vec()));
    assert!(!is_scan_limit_error(&Vec::new()));
}

#[test]
fn test_partition_fallback_termination() {
    // A remote interface that rejects every prefix shorter than one byte and
    // succeeds otherwise: the empty prefix splits into 256 leaves, each
    // answered with one record.
    let mut search = PartitionSearch::new();
    let mut queried: Vec<Vec<u8>> = Vec::new();
    let mut steps = 0u32;
    loop {
        if search.done() {
            break;
        }
        let prefix = search.next_query();
        assert!(prefix.len() <= 32);
        queried.push(prefix.clone());
        let outcome = if prefix.is_empty() {
            QueryOutcome::Failed(scan_limit_message())
        } else {
            QueryOutcome::Accounts(vec![record(prefix[0])])
        };
        match search.step(outcome) {
            SearchStep::Failed(_) => panic!("search must not fail"),
            _ => {}
        }
        steps += 1;
        assert!(steps <= 257, "search did not terminate");
    }
    assert_eq!(queried.len(), 257);
    assert!(queried[0].is_empty());
    // Depth-first fan-out queries the byte-0 child first, ascending.
    for b in 0..=255u8 {
        assert_eq!(queried[1 + b as usize], vec![b]);
    }
    let results = search.into_results();
    assert_eq!(results.len(), 256);
    assert_eq!(results[0], record(0));
    assert_eq!(results[255], record(255));
}

#[test]
fn test_partition_depth_floor() {
    // A scan-limit rejection of a full-length prefix is the declared failure
    // floor: no finer partition is possible.
    let mut search = PartitionSearch {
        pending: vec![vec![7u8; 32]],
        collected: Vec::new(),
    };
    let step = search.step(QueryOutcome::Failed(scan_limit_message()));
    assert!(matches!(step, SearchStep::Failed(_)));
    assert_eq!(search.pending.len(), 1);
}

#[test]
fn test_non_scan_error_short_circuits() {
    let mut search = PartitionSearch::new();
    let message = b"account index out of date".to_vec();
    let step = search.step(QueryOutcome::Failed(message.clone()));
    match step {
        SearchStep::Failed(m) => assert_eq!(m, message),
        _ => panic!("a non-scan-limit error must be returned"),
    }
    // No partition fan-out was attempted.
    assert_eq!(search.pending.len(), 1);
    assert!(search.collected.is_empty());
}

#[test]
fn test_partition_split_order() {
    let mut search = PartitionSearch::new();
    let step = search.step(QueryOutcome::Failed(scan_limit_message()));
    assert!(matches!(step, SearchStep::Continue));
    assert_eq!(search.pending.len(), 256);
    assert_eq!(search.next_query(), vec![0u8]);
    assert_eq!(search.pending[0], vec![255u8]);
}

#[test]
fn test_address_batches() {
    let addresses: Vec<Address> = (0..250u16).map(|i| addr((i % 251) as u8)).collect();
    let batches = address_batches(&addresses);
    assert_eq!(batches.len(), 3);
    assert_eq!(batches[0].len(), 100);
    assert_eq!(batches[1].len(), 100);
    assert_eq!(batches[2].len(), 50);
    let flattened: Vec<Address> = batches.into_iter().flatten().collect();
    assert_eq!(flattened, addresses);
    assert!(address_batches(&Vec::new()).is_empty());
}

#[test]
fn test_collect_found_accounts() {
    let responses = vec![Some(record(1)), None, Some(record(3)), None];
    let found = collect_found_accounts(responses);
    assert_eq!(found, vec![record(1), record(3)]);
}

#[test]
fn test_account_type_filters() {
    let layout = layout();
    let kind = MarginfiProgramAccountType::Group;
    assert_eq!(kind.data_size(&layout), 1008);
    assert_eq!(kind.as_str(), "MarginfiGroup");
    assert_eq!(MarginfiProgramAccountType::Bank.as_str(), "Bank");
    assert_eq!(MarginfiProgramAccountType::MarginfiAccount.as_str(), "MarginfiAccount");
    let filters = kind.filters(&layout);
    assert_eq!(filters.len(), 2);
    assert_eq!(filters[0], AccountFilter::DataSize(1008));
    assert_eq!(filters[1], AccountFilter::Memcmp { offset: 0, bytes: vec![1; 8] });
}

#[test]
fn test_margin_account_filters() {
    let layout = layout();
    let group = addr(5);
    let unscoped = margin_account_filters(&layout, &group, &Vec::new());
    assert_eq!(unscoped.len(), 3);
    assert_eq!(unscoped[0], AccountFilter::DataSize(3008));
    assert_eq!(unscoped[1], AccountFilter::Memcmp { offset: 0, bytes: vec![3; 8] });
    assert_eq!(unscoped[2], AccountFilter::Memcmp { offset: 8, bytes: group.bytes.clone() });

    let prefixed = margin_account_filters(&layout, &group, &vec![0xAB, 0xCD]);
    assert_eq!(prefixed.len(), 4);
    assert_eq!(prefixed[3], AccountFilter::Memcmp { offset: 40, bytes: vec![0xAB, 0xCD] });
}

#[test]
fn test_bootstrap_session_order() {
    let mut session = BootstrapSession::new();
    assert!(matches!(session.next_action(), BootstrapAction::FetchGroups));
    session.on_event(BootstrapEvent::Fetched(vec![record(1), record(2)]));

    assert!(matches!(session.next_action(), BootstrapAction::FetchBanks));
    session.on_event(BootstrapEvent::Fetched(vec![record(10)]));

    match session.next_action() {
        BootstrapAction::FetchMarginForGroup(g) => assert_eq!(g, addr(1)),
        _ => panic!("margin accounts must be fetched per group"),
    }
    session.on_event(BootstrapEvent::Fetched(vec![record(21)]));

    match session.next_action() {
        BootstrapAction::FetchMarginForGroup(g) => assert_eq!(g, addr(2)),
        _ => panic!("second group must follow"),
    }
    session.on_event(BootstrapEvent::Fetched(vec![record(22), record(23)]));

    assert!(matches!(session.next_action(), BootstrapAction::Finished));
    let accounts = session.into_accounts();
    assert_eq!(
        accounts,
        vec![record(1), record(2), record(10), record(21), record(22), record(23)]
    );
}

#[test]
fn test_bootstrap_zero_groups_unscoped() {
    let mut session = BootstrapSession::new();
    session.on_event(BootstrapEvent::Fetched(Vec::new()));
    session.on_event(BootstrapEvent::Fetched(vec![record(10)]));
    assert!(matches!(session.next_action(), BootstrapAction::FetchMarginUnscoped));
    session.on_event(BootstrapEvent::Fetched(vec![record(20)]));
    assert!(matches!(session.next_action(), BootstrapAction::Finished));
}

#[test]
fn test_bootstrap_failure_aborts() {
    let mut session = BootstrapSession::new();
    session.on_event(BootstrapEvent::FetchFailed(b"node is behind".to_vec()));
    assert!(matches!(session.next_action(), BootstrapAction::Aborted));
}
