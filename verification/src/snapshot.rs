//! The snapshot store: a versioned, self-contained binary envelope holding
//! {format version, capture timestamp, clock, both account collections}.
//! Fields are fixed-width little-endian integers; each list is a 64-bit
//! count followed by its records; each record is the 32-byte address, the
//! capture slot, and a length-prefixed payload.

use vstd::prelude::*;

use crate::cache::{
    accounts_wf, unique_addresses, views_of, Address, Cache, CacheV, ClockInfo, SnapshotAccount,
    SnapshotAccountV,
};
use crate::codec::{
    copy_range, dec_i64, dec_u32, dec_u64, enc_i64, enc_u32, enc_u64, lemma_dec_i64_prefix,
    lemma_dec_u32_prefix, lemma_dec_u64_prefix, push_bytes, push_i64_le, push_u32_le, push_u64_le,
    read_i64_le, read_u32_le, read_u64_le,
};

verus! {

/// Format version of the snapshot envelope; an exact-match gate on restore.
pub const SNAPSHOT_VERSION: u32 = 1;

/// Byte length of an encoded clock.
pub const CLOCK_ENC_LEN: usize = 40;

/// Byte length of an encoded record before its payload: address, slot,
/// payload length.
pub const ACCOUNT_HEADER_LEN: usize = 48;

/// Byte length of the envelope before the first list: version, timestamp,
/// clock, first count.
pub const ENVELOPE_HEADER_LEN: usize = 60;

/// Mathematical model of a snapshot.
pub ghost struct CacheSnapshotV {
    pub version: u32,
    pub generated_at_unix: u64,
    pub clock: ClockInfo,
    pub marginfi_accounts: Seq<SnapshotAccountV>,
    pub banks: Seq<SnapshotAccountV>,
}

/// A record that the envelope can carry: well-formed address and a payload
/// whose length fits the 64-bit length prefix.
pub open spec fn account_enc_wf(a: SnapshotAccountV) -> bool {
    a.wf() && a.data.len() <= u64::MAX
}

pub open spec fn accounts_enc_wf(s: Seq<SnapshotAccountV>) -> bool {
    forall|i: int| 0 <= i < s.len() ==> account_enc_wf(#[trigger] s[i])
}

impl CacheSnapshotV {
    /// A snapshot the envelope can carry.
    pub open spec fn enc_wf(&self) -> bool {
        &&& accounts_enc_wf(self.marginfi_accounts)
        &&& self.marginfi_accounts.len() <= u64::MAX
        &&& accounts_enc_wf(self.banks)
        &&& self.banks.len() <= u64::MAX
    }
}

/// Encoding of the clock: five fixed-width fields.
pub open spec fn enc_clock(c: ClockInfo) -> Seq<u8> {
    enc_u64(c.slot) + enc_i64(c.epoch_start_timestamp) + enc_u64(c.epoch)
        + enc_u64(c.leader_schedule_epoch) + enc_i64(c.unix_timestamp)
}

/// Encoding of one record.
pub open spec fn enc_account(a: SnapshotAccountV) -> Seq<u8> {
    a.address + enc_u64(a.slot) + enc_u64(a.data.len() as u64) + a.data
}

/// Encoding of a record list (without its count).
pub open spec fn enc_accounts(s: Seq<SnapshotAccountV>) -> Seq<u8>
    decreases s.len(),
{
    if s.len() == 0 {
        Seq::<u8>::empty()
    } else {
        enc_account(s[0]) + enc_accounts(s.drop_first())
    }
}

/// Encoding of the whole envelope.
pub open spec fn enc_snapshot(m: CacheSnapshotV) -> Seq<u8> {
    enc_u32(m.version) + enc_u64(m.generated_at_unix) + enc_clock(m.clock)
        + enc_u64(m.marginfi_accounts.len() as u64) + enc_accounts(m.marginfi_accounts)
        + enc_u64(m.banks.len() as u64) + enc_accounts(m.banks)
}

/// The clock read from the first forty bytes of `b`.
pub open spec fn dec_clock(b: Seq<u8>) -> ClockInfo
    recommends
        b.len() >= CLOCK_ENC_LEN,
{
    ClockInfo {
        slot: dec_u64(b),
        epoch_start_timestamp: dec_i64(b.skip(8)),
        epoch: dec_u64(b.skip(16)),
        leader_schedule_epoch: dec_u64(b.skip(24)),
        unix_timestamp: dec_i64(b.skip(32)),
    }
}

/// Decodes one record from the front of `b`; returns the record and the rest.
pub open spec fn dec_account(b: Seq<u8>) -> Option<(SnapshotAccountV, Seq<u8>)> {
    if b.len() >= ACCOUNT_HEADER_LEN {
        let dlen = dec_u64(b.skip(40)) as int;
        if ACCOUNT_HEADER_LEN + dlen <= b.len() {
            Some(
                (
                    SnapshotAccountV {
                        address: b.take(32),
                        slot: dec_u64(b.skip(32)),
                        data: b.subrange(48, 48 + dlen),
                    },
                    b.skip(48 + dlen),
                ),
            )
        } else {
            None
        }
    } else {
        None
    }
}

/// Decodes `count` records from the front of `b`, appending them to `acc`.
pub open spec fn dec_accounts(b: Seq<u8>, count: nat, acc: Seq<SnapshotAccountV>) -> Option<
    (Seq<SnapshotAccountV>, Seq<u8>),
>
    decreases count,
{
    if count == 0 {
        Some((acc, b))
    } else {
        match dec_account(b) {
            Some((a, rest)) => dec_accounts(rest, (count - 1) as nat, acc.push(a)),
            None => None,
        }
    }
}

/// Decodes a whole envelope; `None` on any malformed or truncated input,
/// including trailing bytes after the last list.
pub open spec fn dec_snapshot(b: Seq<u8>) -> Option<CacheSnapshotV> {
    if b.len() >= ENVELOPE_HEADER_LEN {
        let version = dec_u32(b);
        let generated_at_unix = dec_u64(b.skip(4));
        let clock = dec_clock(b.skip(12));
        let n1 = dec_u64(b.skip(52));
        match dec_accounts(b.skip(60), n1 as nat, Seq::empty()) {
            Some((marginfi_accounts, rest)) => {
                if rest.len() >= 8 {
                    let n2 = dec_u64(rest);
                    match dec_accounts(rest.skip(8), n2 as nat, Seq::empty()) {
                        Some((banks, rest2)) => {
                            if rest2.len() == 0 {
                                Some(
                                    CacheSnapshotV {
                                        version,
                                        generated_at_unix,
                                        clock,
                                        marginfi_accounts,
                                        banks,
                                    },
                                )
                            } else {
                                None
                            }
                        },
                        None => None,
                    }
                } else {
                    None
                }
            },
            None => None,
        }
    } else {
        None
    }
}

/// Decoding the encoding of a clock, followed by anything, gives the clock
/// back.
pub proof fn lemma_dec_enc_clock(c: ClockInfo, rest: Seq<u8>)
    ensures
        dec_clock(enc_clock(c) + rest) == c,
        (enc_clock(c) + rest).skip(CLOCK_ENC_LEN as int) == rest,
{
    let b = enc_clock(c) + rest;
    assert(b =~= enc_u64(c.slot) + (enc_i64(c.epoch_start_timestamp) + (enc_u64(c.epoch) + (
    enc_u64(c.leader_schedule_epoch) + (enc_i64(c.unix_timestamp) + rest)))));
    lemma_dec_u64_prefix(
        c.slot,
        enc_i64(c.epoch_start_timestamp) + (enc_u64(c.epoch) + (enc_u64(c.leader_schedule_epoch)
            + (enc_i64(c.unix_timestamp) + rest))),
    );
    assert(b.skip(8) =~= enc_i64(c.epoch_start_timestamp) + (enc_u64(c.epoch) + (enc_u64(
        c.leader_schedule_epoch,
    ) + (enc_i64(c.unix_timestamp) + rest))));
    lemma_dec_i64_prefix(
        c.epoch_start_timestamp,
        enc_u64(c.epoch) + (enc_u64(c.leader_schedule_epoch) + (enc_i64(c.unix_timestamp) + rest)),
    );
    assert(b.skip(16) =~= enc_u64(c.epoch) + (enc_u64(c.leader_schedule_epoch) + (enc_i64(
        c.unix_timestamp,
    ) + rest)));
    lemma_dec_u64_prefix(
        c.epoch,
        enc_u64(c.leader_schedule_epoch) + (enc_i64(c.unix_timestamp) + rest),
    );
    assert(b.skip(24) =~= enc_u64(c.leader_schedule_epoch) + (enc_i64(c.unix_timestamp) + rest));
    lemma_dec_u64_prefix(c.leader_schedule_epoch, enc_i64(c.unix_timestamp) + rest);
    assert(b.skip(32) =~= enc_i64(c.unix_timestamp) + rest);
    lemma_dec_i64_prefix(c.unix_timestamp, rest);
    assert(b.skip(CLOCK_ENC_LEN as int) =~= rest);
}

/// Decoding the encoding of a record, followed by anything, gives the record
/// back.
pub proof fn lemma_dec_enc_account(a: SnapshotAccountV, rest: Seq<u8>)
    requires
        account_enc_wf(a),
    ensures
        dec_account(enc_account(a) + rest) == Some((a, rest)),
{
    let b = enc_account(a) + rest;
    let dlen = a.data.len() as int;
    assert(b =~= a.address + (enc_u64(a.slot) + (enc_u64(a.data.len() as u64) + (a.data + rest))));
    assert(b.skip(32) =~= enc_u64(a.slot) + (enc_u64(a.data.len() as u64) + (a.data + rest)));
    lemma_dec_u64_prefix(a.slot, enc_u64(a.data.len() as u64) + (a.data + rest));
    assert(b.skip(40) =~= enc_u64(a.data.len() as u64) + (a.data + rest));
    lemma_dec_u64_prefix(a.data.len() as u64, a.data + rest);
    assert(dec_u64(b.skip(40)) as int == dlen);
    assert(b.len() == 48 + dlen + rest.len());
    assert(b.take(32) =~= a.address);
    assert(b.subrange(48, 48 + dlen) =~= a.data);
    assert(b.skip(48 + dlen) =~= rest);
}

/// Decoding `s.len()` encoded records, followed by anything, appends exactly
/// `s` to the accumulator.
pub proof fn lemma_dec_enc_accounts(s: Seq<SnapshotAccountV>, rest: Seq<u8>, acc: Seq<
    SnapshotAccountV,
>)
    requires
        accounts_enc_wf(s),
    ensures
        dec_accounts(enc_accounts(s) + rest, s.len() as nat, acc) == Some((acc + s, rest)),
    decreases s.len(),
{
    if s.len() == 0 {
        assert(enc_accounts(s) + rest =~= rest);
        assert(acc + s =~= acc);
    } else {
        let tail = s.drop_first();
        assert(enc_accounts(s) + rest =~= enc_account(s[0]) + (enc_accounts(tail) + rest));
        lemma_dec_enc_account(s[0], enc_accounts(tail) + rest);
        assert(accounts_enc_wf(tail)) by {
            assert(forall|i: int| 0 <= i < tail.len() ==> #[trigger] tail[i] == s[i + 1]);
        }
        lemma_dec_enc_accounts(tail, rest, acc.push(s[0]));
        assert(acc.push(s[0]) + tail =~= acc + s);
    }
}

/// Decoding an encoded envelope gives the snapshot back: the codec round
/// trip, for any snapshot the envelope can carry.
#[verifier::rlimit(100)]
#[verifier::spinoff_prover]
pub proof fn lemma_dec_enc_snapshot(m: CacheSnapshotV)
    requires
        m.enc_wf(),
    ensures
        dec_snapshot(enc_snapshot(m)) == Some(m),
{
    let b = enc_snapshot(m);
    let after_margin = enc_u64(m.banks.len() as u64) + enc_accounts(m.banks);
    let tail1 = enc_u64(m.marginfi_accounts.len() as u64) + (enc_accounts(m.marginfi_accounts)
        + after_margin);
    let tail0 = enc_clock(m.clock) + tail1;
    assert(b =~= enc_u32(m.version) + (enc_u64(m.generated_at_unix) + (enc_clock(m.clock)
        + tail1)));
    lemma_dec_u32_prefix(m.version, enc_u64(m.generated_at_unix) + tail0);
    assert(b =~= enc_u32(m.version) + (enc_u64(m.generated_at_unix) + tail0));
    assert(dec_u32(b) == m.version);
    assert(b.skip(4) =~= enc_u64(m.generated_at_unix) + tail0);
    lemma_dec_u64_prefix(m.generated_at_unix, tail0);
    assert(b.skip(12) =~= enc_clock(m.clock) + tail1);
    lemma_dec_enc_clock(m.clock, tail1);
    assert(b.skip(12).skip(CLOCK_ENC_LEN as int) =~= b.skip(52));
    assert(b.skip(52) =~= enc_u64(m.marginfi_accounts.len() as u64) + (enc_accounts(
        m.marginfi_accounts,
    ) + after_margin));
    lemma_dec_u64_prefix(
        m.marginfi_accounts.len() as u64,
        enc_accounts(m.marginfi_accounts) + after_margin,
    );
    assert(b.skip(60) =~= enc_accounts(m.marginfi_accounts) + after_margin);
    lemma_dec_enc_accounts(m.marginfi_accounts, after_margin, Seq::empty());
    assert(Seq::empty() + m.marginfi_accounts =~= m.marginfi_accounts);
    assert(after_margin =~= enc_u64(m.banks.len() as u64) + (enc_accounts(m.banks)
        + Seq::<u8>::empty()));
    lemma_dec_u64_prefix(m.banks.len() as u64, enc_accounts(m.banks) + Seq::<u8>::empty());
    assert(after_margin.skip(8) =~= enc_accounts(m.banks) + Seq::<u8>::empty());
    lemma_dec_enc_accounts(m.banks, Seq::<u8>::empty(), Seq::empty());
    assert(Seq::empty() + m.banks =~= m.banks);
    assert(dec_clock(b.skip(12)) == m.clock);
}

/// The in-memory snapshot as captured from the cache or decoded from a file.
#[derive(Debug, PartialEq, Eq)]
pub struct CacheSnapshot {
    pub version: u32,
    pub generated_at_unix: u64,
    pub clock: ClockInfo,
    pub marginfi_accounts: Vec<SnapshotAccount>,
    pub banks: Vec<SnapshotAccount>,
}

impl View for CacheSnapshot {
    type V = CacheSnapshotV;

    open spec fn view(&self) -> CacheSnapshotV {
        CacheSnapshotV {
            version: self.version,
            generated_at_unix: self.generated_at_unix,
            clock: self.clock,
            marginfi_accounts: views_of(self.marginfi_accounts@),
            banks: views_of(self.banks@),
        }
    }
}

/// What a capture of cache state `c` at wall-clock time `now_unix` contains.
pub open spec fn capture_model(c: CacheV, now_unix: u64) -> CacheSnapshotV {
    CacheSnapshotV {
        version: SNAPSHOT_VERSION,
        generated_at_unix: now_unix,
        clock: c.clock,
        marginfi_accounts: c.marginfi_accounts,
        banks: c.banks,
    }
}

impl CacheSnapshot {
    /// Captures {version, timestamp, clock, both collections} from the cache.
    pub fn capture(cache: &Cache, now_unix: u64) -> (r: Self)
        ensures
            r@ == capture_model(cache@, now_unix),
    {
        CacheSnapshot {
            version: SNAPSHOT_VERSION,
            generated_at_unix: now_unix,
            clock: cache.get_clock(),
            marginfi_accounts: cache.marginfi_accounts.snapshot_entries(),
            banks: cache.banks.snapshot_entries(),
        }
    }
}

fn encode_clock(out: &mut Vec<u8>, c: &ClockInfo)
    ensures
        final(out)@ == old(out)@ + enc_clock(*c),
{
    push_u64_le(out, c.slot);
    push_i64_le(out, c.epoch_start_timestamp);
    push_u64_le(out, c.epoch);
    push_u64_le(out, c.leader_schedule_epoch);
    push_i64_le(out, c.unix_timestamp);
    assert(out@ =~= old(out)@ + enc_clock(*c));
}

fn encode_account(out: &mut Vec<u8>, a: &SnapshotAccount)
    ensures
        final(out)@ == old(out)@ + enc_account(a@),
{
    push_bytes(out, &a.address.bytes);
    push_u64_le(out, a.slot);
    push_u64_le(out, a.data.len() as u64);
    push_bytes(out, &a.data);
    assert(out@ =~= old(out)@ + enc_account(a@));
}

/// Appending one record to a list appends its encoding to the list's.
proof fn lemma_enc_accounts_push(s: Seq<SnapshotAccountV>, x: SnapshotAccountV)
    ensures
        enc_accounts(s.push(x)) == enc_accounts(s) + enc_account(x),
    decreases s.len(),
{
    if s.len() == 0 {
        assert(s.push(x)[0] == x);
        assert(s.push(x).drop_first() =~= Seq::<SnapshotAccountV>::empty());
        assert(enc_accounts(s.push(x)) == enc_account(x) + enc_accounts(s.push(x).drop_first()));
        assert(enc_accounts(s.push(x).drop_first()) == Seq::<u8>::empty());
        assert(enc_accounts(s) == Seq::<u8>::empty());
        assert(enc_account(x) + Seq::<u8>::empty() =~= Seq::<u8>::empty() + enc_account(x));
    } else {
        assert(s.push(x)[0] == s[0]);
        assert(s.push(x).drop_first() =~= s.drop_first().push(x));
        lemma_enc_accounts_push(s.drop_first(), x);
        assert(enc_accounts(s.push(x)) == enc_account(s[0]) + enc_accounts(s.drop_first().push(x)));
        assert(enc_accounts(s) == enc_account(s[0]) + enc_accounts(s.drop_first()));
        assert(enc_account(s[0]) + (enc_accounts(s.drop_first()) + enc_account(x)) =~= (enc_account(
            s[0],
        ) + enc_accounts(s.drop_first())) + enc_account(x));
    }
}

fn encode_accounts(out: &mut Vec<u8>, accs: &Vec<SnapshotAccount>)
    ensures
        final(out)@ == old(out)@ + enc_accounts(views_of(accs@)),
{
    let ghost gs = views_of(accs@);
    let n = accs.len();
    assert(gs.len() == n);
    for i in 0..n
        invariant
            n == accs@.len(),
            gs == views_of(accs@),
            gs.len() == n,
            out@ == old(out)@ + enc_accounts(gs.take(i as int)),
    {
        encode_account(out, &accs[i]);
        proof {
            assert(gs[i as int] == accs@[i as int]@);
            assert(gs.take(i + 1) =~= gs.take(i as int).push(gs[i as int]));
            lemma_enc_accounts_push(gs.take(i as int), gs[i as int]);
        }
    }
    assert(gs.take(n as int) =~= gs);
}

/// Serializes a snapshot into the envelope bytes.
pub fn snapshot_to_bytes(snapshot: &CacheSnapshot) -> (r: Vec<u8>)
    ensures
        r@ == enc_snapshot(snapshot@),
{
    let mut out: Vec<u8> = Vec::new();
    assert(views_of(snapshot.marginfi_accounts@).len() == snapshot.marginfi_accounts@.len());
    assert(views_of(snapshot.banks@).len() == snapshot.banks@.len());
    push_u32_le(&mut out, snapshot.version);
    push_u64_le(&mut out, snapshot.generated_at_unix);
    encode_clock(&mut out, &snapshot.clock);
    push_u64_le(&mut out, snapshot.marginfi_accounts.len() as u64);
    encode_accounts(&mut out, &snapshot.marginfi_accounts);
    push_u64_le(&mut out, snapshot.banks.len() as u64);
    encode_accounts(&mut out, &snapshot.banks);
    assert(out@ =~= enc_snapshot(snapshot@));
    out
}

/// Serializes a point-in-time capture of the cache. The caller owes the bytes
/// the atomic write protocol: write to a temporary file in the target's
/// directory, then rename over the target, so a reader of the target never
/// observes a partial snapshot.
pub fn persist_cache_snapshot(cache: &Cache, now_unix: u64) -> (r: Vec<u8>)
    ensures
        r@ == enc_snapshot(capture_model(cache@, now_unix)),
{
    let snapshot = CacheSnapshot::capture(cache, now_unix);
    snapshot_to_bytes(&snapshot)
}

fn decode_account(bytes: &Vec<u8>, pos: usize) -> (r: Option<(SnapshotAccount, usize)>)
    requires
        pos <= bytes@.len(),
    ensures
        (match r {
            Some((a, end)) => {
                &&& pos + ACCOUNT_HEADER_LEN <= end <= bytes@.len()
                &&& a@.wf()
                &&& dec_account(bytes@.skip(pos as int)) == Some((a@, bytes@.skip(end as int)))
            },
            None => dec_account(bytes@.skip(pos as int)) is None,
        }),
{
    let n = bytes.len();
    let ghost sb = bytes@.skip(pos as int);
    assert(sb.len() == n - pos);
    if n - pos < ACCOUNT_HEADER_LEN {
        return None;
    }
    let slot = read_u64_le(bytes, pos + 32);
    let dlen64 = read_u64_le(bytes, pos + 40);
    proof {
        assert(bytes@.skip(pos as int + 32) =~= sb.skip(32));
        assert(bytes@.skip(pos as int + 40) =~= sb.skip(40));
    }
    if dlen64 > ((n - pos) - ACCOUNT_HEADER_LEN) as u64 {
        return None;
    }
    let dlen = dlen64 as usize;
    let addr_bytes = copy_range(bytes, pos, 32);
    proof {
        assert(addr_bytes@ =~= sb.take(32));
    }
    let address = Address::new(addr_bytes);
    let data = copy_range(bytes, pos + 48, dlen);
    proof {
        assert(data@ =~= sb.subrange(48, 48 + dlen as int));
    }
    let end = pos + ACCOUNT_HEADER_LEN + dlen;
    proof {
        assert(bytes@.skip(end as int) =~= sb.skip(48 + dlen as int));
    }
    let a = SnapshotAccount { address, slot, data };
    assert(dec_account(sb) == Some((a@, bytes@.skip(end as int))));
    Some((a, end))
}

/// No run of `count` records fits in fewer than 48 bytes each.
proof fn lemma_dec_accounts_space(b: Seq<u8>, count: nat, acc: Seq<SnapshotAccountV>)
    requires
        ACCOUNT_HEADER_LEN * count > b.len(),
    ensures
        dec_accounts(b, count, acc) is None,
    decreases count,
{
    if count > 0 {
        match dec_account(b) {
            Some((a, rest)) => {
                assert(rest.len() <= b.len() - ACCOUNT_HEADER_LEN);
                lemma_dec_accounts_space(rest, (count - 1) as nat, acc.push(a));
            },
            None => {},
        }
    }
}

fn decode_accounts(bytes: &Vec<u8>, start: usize, count: usize) -> (r: Option<
    (Vec<SnapshotAccount>, usize),
>)
    requires
        start <= bytes@.len(),
    ensures
        (match r {
            Some((v, end)) => {
                &&& start <= end <= bytes@.len()
                &&& v@.len() == count
                &&& accounts_wf(views_of(v@))
                &&& dec_accounts(bytes@.skip(start as int), count as nat, Seq::empty()) == Some(
                    (views_of(v@), bytes@.skip(end as int)),
                )
            },
            None => dec_accounts(bytes@.skip(start as int), count as nat, Seq::empty()) is None,
        }),
{
    let mut v: Vec<SnapshotAccount> = Vec::new();
    let mut pos = start;
    let mut k: usize = 0;
    assert(views_of(v@) =~= Seq::<SnapshotAccountV>::empty());
    while k < count
        invariant
            start <= pos <= bytes@.len(),
            k <= count,
            v@.len() == k,
            forall|j: int| 0 <= j < k as int ==> (#[trigger] v@[j])@.wf(),
            dec_accounts(bytes@.skip(start as int), count as nat, Seq::empty()) == dec_accounts(
                bytes@.skip(pos as int),
                (count - k) as nat,
                views_of(v@),
            ),
        decreases count - k,
    {
        match decode_account(bytes, pos) {
            None => {
                assert(dec_accounts(bytes@.skip(pos as int), (count - k) as nat, views_of(v@))
                    is None);
                return None;
            },
            Some((a, end)) => {
                let ghost old_views = views_of(v@);
                assert(dec_accounts(bytes@.skip(pos as int), (count - k) as nat, old_views)
                    == dec_accounts(
                    bytes@.skip(end as int),
                    (count - k - 1) as nat,
                    old_views.push(a@),
                ));
                v.push(a);
                assert(views_of(v@) =~= old_views.push(a@));
                pos = end;
                k = k + 1;
            },
        }
    }
    assert(dec_accounts(bytes@.skip(pos as int), 0, views_of(v@)) == Some(
        (views_of(v@), bytes@.skip(pos as int)),
    ));
    assert(accounts_wf(views_of(v@)));
    Some((v, pos))
}

/// Deserializes an envelope; `None` on truncated or malformed input.
pub fn snapshot_from_bytes(bytes: &Vec<u8>) -> (r: Option<CacheSnapshot>)
    ensures
        (match r {
            Some(s) => {
                &&& dec_snapshot(bytes@) == Some(s@)
                &&& accounts_wf(s@.marginfi_accounts)
                &&& accounts_wf(s@.banks)
            },
            None => dec_snapshot(bytes@) is None,
        }),
{
    let n = bytes.len();
    if n < ENVELOPE_HEADER_LEN {
        return None;
    }
    let version = read_u32_le(bytes, 0);
    proof {
        assert(bytes@.skip(0) =~= bytes@);
    }
    let generated_at_unix = read_u64_le(bytes, 4);
    let slot = read_u64_le(bytes, 12);
    let epoch_start_timestamp = read_i64_le(bytes, 20);
    let epoch = read_u64_le(bytes, 28);
    let leader_schedule_epoch = read_u64_le(bytes, 36);
    let unix_timestamp = read_i64_le(bytes, 44);
    proof {
        assert(bytes@.skip(20) =~= bytes@.skip(12).skip(8));
        assert(bytes@.skip(28) =~= bytes@.skip(12).skip(16));
        assert(bytes@.skip(36) =~= bytes@.skip(12).skip(24));
        assert(bytes@.skip(44) =~= bytes@.skip(12).skip(32));
    }
    let clock = ClockInfo {
        slot,
        epoch_start_timestamp,
        epoch,
        leader_schedule_epoch,
        unix_timestamp,
    };
    assert(clock == dec_clock(bytes@.skip(12)));
    let n1 = read_u64_le(bytes, 52);
    if n1 > ((n - ENVELOPE_HEADER_LEN) / ACCOUNT_HEADER_LEN) as u64 {
        proof {
            lemma_dec_accounts_space(bytes@.skip(60), n1 as nat, Seq::empty());
        }
        return None;
    }
    let (marginfi_accounts, end1) = match decode_accounts(bytes, ENVELOPE_HEADER_LEN, n1 as usize) {
        Some(p) => p,
        None => {
            return None;
        },
    };
    if n - end1 < 8 {
        return None;
    }
    let n2 = read_u64_le(bytes, end1);
    if n2 > ((n - end1 - 8) / ACCOUNT_HEADER_LEN) as u64 {
        proof {
            assert(bytes@.skip(end1 as int).skip(8) =~= bytes@.skip(end1 as int + 8));
            lemma_dec_accounts_space(bytes@.skip(end1 as int).skip(8), n2 as nat, Seq::empty());
        }
        return None;
    }
    let (banks, end2) = match decode_accounts(bytes, end1 + 8, n2 as usize) {
        Some(p) => p,
        None => {
            proof {
                assert(bytes@.skip(end1 as int).skip(8) =~= bytes@.skip(end1 as int + 8));
            }
            return None;
        },
    };
    proof {
        assert(bytes@.skip(end1 as int).skip(8) =~= bytes@.skip(end1 as int + 8));
    }
    if end2 != n {
        return None;
    }
    let s = CacheSnapshot { version, generated_at_unix, clock, marginfi_accounts, banks };
    assert(dec_snapshot(bytes@) == Some(s@));
    Some(s)
}

fn bytes_equal(a: &Vec<u8>, b: &Vec<u8>) -> (r: bool)
    ensures
        r == (a@ == b@),
{
    let n = a.len();
    if n != b.len() {
        return false;
    }
    for i in 0..n
        invariant
            n == a@.len(),
            n == b@.len(),
            forall|j: int| 0 <= j < i as int ==> a@[j] == b@[j],
    {
        if a[i] != b[i] {
            return false;
        }
    }
    assert(a@ =~= b@);
    true
}

/// Whether the records carry pairwise distinct addresses.
pub fn addresses_unique(v: &Vec<SnapshotAccount>) -> (r: bool)
    ensures
        r == unique_addresses(views_of(v@)),
{
    let n = v.len();
    assert(views_of(v@).len() == n);
    for i in 0..n
        invariant
            n == v@.len(),
            forall|p: int, q: int|
                0 <= p < q < i as int ==> views_of(v@)[p].address != views_of(v@)[q].address,
    {
        for j in 0..i
            invariant
                n == v@.len(),
                i < n,
                forall|p: int, q: int|
                    0 <= p < q < i as int ==> views_of(v@)[p].address != views_of(v@)[q].address,
                forall|q: int|
                    0 <= q < j as int ==> views_of(v@)[q].address != views_of(v@)[i as int].address,
        {
            if bytes_equal(&v[j].address.bytes, &v[i].address.bytes) {
                assert(views_of(v@)[j as int].address == views_of(v@)[i as int].address);
                assert(!unique_addresses(views_of(v@)));
                return false;
            }
            assert(views_of(v@)[j as int].address != views_of(v@)[i as int].address);
        }
    }
    true
}

/// Applies a snapshot file's contents to the cache.
///
/// `file` is `None` where no file exists at the snapshot path: that reports
/// "not restored" without error. Undecodable contents, a version mismatch,
/// and duplicate addresses within a restored collection likewise report "not
/// restored" and leave the cache untouched. On success the clock and both
/// collections are replaced from the snapshot, and the caller must separately
/// load the auxiliary account kinds the envelope does not cover.
pub fn restore_cache_snapshot(cache: &mut Cache, file: Option<&Vec<u8>>) -> (restored: bool)
    ensures
        !restored ==> final(cache)@ == old(cache)@,
        (match file {
            None => !restored,
            Some(bytes) => (match dec_snapshot(bytes@) {
                Some(m) => {
                    &&& (restored <==> (m.version == SNAPSHOT_VERSION && unique_addresses(
                        m.marginfi_accounts,
                    ) && unique_addresses(m.banks)))
                    &&& (restored ==> final(cache)@ == (CacheV {
                        clock: m.clock,
                        marginfi_accounts: m.marginfi_accounts,
                        banks: m.banks,
                    }) && final(cache).wf())
                },
                None => !restored,
            }),
        }),
{
    let bytes = match file {
        None => {
            return false;
        },
        Some(b) => b,
    };
    let snapshot = match snapshot_from_bytes(bytes) {
        None => {
            return false;
        },
        Some(s) => s,
    };
    if snapshot.version != SNAPSHOT_VERSION {
        return false;
    }
    if !addresses_unique(&snapshot.marginfi_accounts) {
        return false;
    }
    if !addresses_unique(&snapshot.banks) {
        return false;
    }
    let CacheSnapshot { version: _, generated_at_unix: _, clock, marginfi_accounts, banks } =
        snapshot;
    cache.update_clock(clock);
    cache.marginfi_accounts.restore_from_snapshot(marginfi_accounts);
    cache.banks.restore_from_snapshot(banks);
    true
}

/// The snapshot round trip: a capture of any well-formed cache state decodes
/// back to itself, passes the version gate, and carries unique addresses, so
/// a restore performed on a persist's bytes reproduces the captured clock and
/// collections exactly.
pub proof fn lemma_snapshot_round_trip(c: CacheV, now_unix: u64)
    requires
        c.wf(),
        c.marginfi_accounts.len() <= u64::MAX,
        c.banks.len() <= u64::MAX,
        accounts_enc_wf(c.marginfi_accounts),
        accounts_enc_wf(c.banks),
    ensures
        dec_snapshot(enc_snapshot(capture_model(c, now_unix))) == Some(capture_model(c, now_unix)),
        capture_model(c, now_unix).version == SNAPSHOT_VERSION,
        unique_addresses(capture_model(c, now_unix).marginfi_accounts),
        unique_addresses(capture_model(c, now_unix).banks),
{
    lemma_dec_enc_snapshot(capture_model(c, now_unix));
}

} // verus!
