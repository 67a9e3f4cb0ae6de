//! The in-memory account cache: the shared clock plus the two typed account
//! collections, supporting whole-value reads and whole-collection replacement.

use vstd::prelude::*;

verus! {

/// Number of bytes in a ledger address.
pub const ADDRESS_LEN: usize = 32;

/// A 32-byte account address on the remote ledger.
#[derive(Debug, PartialEq, Eq)]
pub struct Address {
    pub bytes: Vec<u8>,
}

impl View for Address {
    type V = Seq<u8>;

    open spec fn view(&self) -> Seq<u8> {
        self.bytes@
    }
}

impl Address {
    /// An address is exactly 32 bytes.
    pub open spec fn wf(&self) -> bool {
        self@.len() == ADDRESS_LEN
    }

    pub fn new(bytes: Vec<u8>) -> (r: Self)
        requires
            bytes@.len() == ADDRESS_LEN,
        ensures
            r@ == bytes@,
            r.wf(),
    {
        Address { bytes }
    }
}

impl Clone for Address {
    fn clone(&self) -> (r: Self)
        ensures
            r@ == self@,
    {
        let bytes = self.bytes.clone();
        assert(bytes@ =~= self.bytes@);
        Address { bytes }
    }
}

/// The remote ledger's logical time marker: replaced wholesale, never merged.
#[derive(Clone, Copy, Debug, PartialEq, Eq, Structural)]
pub struct ClockInfo {
    pub slot: u64,
    pub epoch_start_timestamp: i64,
    pub epoch: u64,
    pub leader_schedule_epoch: u64,
    pub unix_timestamp: i64,
}

/// Mathematical model of one cached account record.
pub ghost struct SnapshotAccountV {
    pub address: Seq<u8>,
    pub slot: u64,
    pub data: Seq<u8>,
}

impl SnapshotAccountV {
    pub open spec fn wf(&self) -> bool {
        self.address.len() == ADDRESS_LEN
    }
}

/// One account record as captured for (or restored from) a snapshot: the
/// address, the ledger slot at capture, and the raw payload bytes.
#[derive(Debug, PartialEq, Eq)]
pub struct SnapshotAccount {
    pub address: Address,
    pub slot: u64,
    pub data: Vec<u8>,
}

impl View for SnapshotAccount {
    type V = SnapshotAccountV;

    open spec fn view(&self) -> SnapshotAccountV {
        SnapshotAccountV { address: self.address@, slot: self.slot, data: self.data@ }
    }
}

impl SnapshotAccount {
    pub fn new(address: Address, slot: u64, data: Vec<u8>) -> (r: Self)
        ensures
            r@ == (SnapshotAccountV { address: address@, slot: slot, data: data@ }),
    {
        SnapshotAccount { address, slot, data }
    }
}

impl Clone for SnapshotAccount {
    fn clone(&self) -> (r: Self)
        ensures
            r@ == self@,
    {
        let data = self.data.clone();
        assert(data@ =~= self.data@);
        SnapshotAccount { address: self.address.clone(), slot: self.slot, data }
    }
}

/// The models of a sequence of records.
pub open spec fn views_of(s: Seq<SnapshotAccount>) -> Seq<SnapshotAccountV> {
    s.map_values(|a: SnapshotAccount| a@)
}

/// Every record is well formed.
pub open spec fn accounts_wf(s: Seq<SnapshotAccountV>) -> bool {
    forall|i: int| 0 <= i < s.len() ==> (#[trigger] s[i]).wf()
}

/// Within a collection, addresses are unique.
pub open spec fn unique_addresses(s: Seq<SnapshotAccountV>) -> bool {
    forall|i: int, j: int| 0 <= i < j < s.len() ==> s[i].address != s[j].address
}

/// One cached collection of account records.
#[derive(Debug)]
pub struct AccountsCache {
    pub entries: Vec<SnapshotAccount>,
}

impl View for AccountsCache {
    type V = Seq<SnapshotAccountV>;

    open spec fn view(&self) -> Seq<SnapshotAccountV> {
        views_of(self.entries@)
    }
}

impl AccountsCache {
    /// Collection invariant: well-formed records with unique addresses.
    pub open spec fn wf(&self) -> bool {
        accounts_wf(self@) && unique_addresses(self@)
    }

    pub fn new() -> (r: Self)
        ensures
            r@ == Seq::<SnapshotAccountV>::empty(),
            r.wf(),
    {
        let r = AccountsCache { entries: Vec::new() };
        assert(r@ =~= Seq::<SnapshotAccountV>::empty());
        r
    }

    /// A consistent point-in-time copy of the whole collection.
    pub fn snapshot_entries(&self) -> (r: Vec<SnapshotAccount>)
        ensures
            views_of(r@) == self@,
    {
        let mut r: Vec<SnapshotAccount> = Vec::new();
        let n = self.entries.len();
        for i in 0..n
            invariant
                n == self.entries@.len(),
                r@.len() == i,
                forall|k: int| 0 <= k < i as int ==> (#[trigger] r@[k])@ == self@[k],
        {
            let e = self.entries[i].clone();
            assert(e@ == self@[i as int]);
            r.push(e);
        }
        assert(views_of(r@) =~= self@);
        r
    }

    /// Atomic whole-collection replacement, discarding prior contents.
    pub fn restore_from_snapshot(&mut self, records: Vec<SnapshotAccount>)
        ensures
            final(self)@ == views_of(records@),
    {
        self.entries = records;
    }
}

/// Mathematical model of the whole cache.
pub ghost struct CacheV {
    pub clock: ClockInfo,
    pub marginfi_accounts: Seq<SnapshotAccountV>,
    pub banks: Seq<SnapshotAccountV>,
}

impl CacheV {
    pub open spec fn wf(&self) -> bool {
        &&& accounts_wf(self.marginfi_accounts)
        &&& unique_addresses(self.marginfi_accounts)
        &&& accounts_wf(self.banks)
        &&& unique_addresses(self.banks)
    }
}

/// The single writable owner of the clock and the two account collections.
#[derive(Debug)]
pub struct Cache {
    pub clock: ClockInfo,
    pub marginfi_accounts: AccountsCache,
    pub banks: AccountsCache,
}

impl View for Cache {
    type V = CacheV;

    open spec fn view(&self) -> CacheV {
        CacheV {
            clock: self.clock,
            marginfi_accounts: self.marginfi_accounts@,
            banks: self.banks@,
        }
    }
}

impl Cache {
    pub open spec fn wf(&self) -> bool {
        self@.wf()
    }

    pub fn new(clock: ClockInfo) -> (r: Self)
        ensures
            r@ == (CacheV {
                clock: clock,
                marginfi_accounts: Seq::<SnapshotAccountV>::empty(),
                banks: Seq::<SnapshotAccountV>::empty(),
            }),
            r.wf(),
    {
        Cache { clock, marginfi_accounts: AccountsCache::new(), banks: AccountsCache::new() }
    }

    /// The current clock, read as one whole value.
    pub fn get_clock(&self) -> (r: ClockInfo)
        ensures
            r == self@.clock,
    {
        self.clock
    }

    /// Atomic whole-value replacement of the clock.
    pub fn update_clock(&mut self, clock: ClockInfo)
        ensures
            final(self)@ == (CacheV { clock: clock, ..old(self)@ }),
    {
        self.clock = clock;
    }
}

} // verus!
