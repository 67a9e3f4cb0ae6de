//! Bulk account fetching: per-kind server-side filters, recognition of the
//! remote interface's scan-size rejection, and the adaptive 256-ary
//! owner-authority prefix partition search that splits a rejected scoped
//! query until every sub-query fits under the opaque scan limit.

use vstd::prelude::*;

use crate::cache::{views_of, Address, SnapshotAccount, SnapshotAccountV, ADDRESS_LEN};

verus! {

/// Addresses are looked up in batches of this many per request.
pub const ADDRESSES_CHUNK_SIZE: usize = 100;

/// Byte length of the type tag at the start of an account's payload.
pub const DISCRIMINATOR_LEN: u64 = 8;

/// Payload offset of the group key inside a margin account.
pub const MARGINFI_ACCOUNT_GROUP_OFFSET: u64 = 8;

/// Payload offset of the owner authority inside a margin account; the
/// partition search constrains a prefix of this field.
pub const MARGINFI_ACCOUNT_AUTHORITY_OFFSET: u64 = 40;

/// The text by which the remote interface's scan-size rejection is
/// recognized; there is no structured error code, so this exact substring is
/// the contract.
pub open spec fn scan_limit_marker() -> Seq<u8> {
    seq![
        115u8, 99, 97, 110, 32, 97, 98, 111, 114, 116, 101, 100, 58, 32, 84, 104, 101, 32, 97, 99,
        99, 117, 109, 117, 108, 97, 116, 101, 100, 32, 115, 99, 97, 110, 32, 114, 101, 115, 117,
        108, 116, 115, 32, 101, 120, 99, 101, 101, 100, 101, 100, 32, 116, 104, 101, 32, 108, 105,
        109, 105, 116,
    ]
}

/// The marker as bytes: "scan aborted: The accumulated scan results exceeded
/// the limit".
pub fn scan_limit_marker_bytes() -> (r: Vec<u8>)
    ensures
        r@ == scan_limit_marker(),
{
    let r: Vec<u8> = vec![
        115u8, 99, 97, 110, 32, 97, 98, 111, 114, 116, 101, 100, 58, 32, 84, 104, 101, 32, 97, 99,
        99, 117, 109, 117, 108, 97, 116, 101, 100, 32, 115, 99, 97, 110, 32, 114, 101, 115, 117,
        108, 116, 115, 32, 101, 120, 99, 101, 101, 100, 101, 100, 32, 116, 104, 101, 32, 108, 105,
        109, 105, 116,
    ];
    assert(r@ =~= scan_limit_marker());
    r
}

/// `needle` occurs in `hay` as a contiguous run.
pub open spec fn contains_seq(hay: Seq<u8>, needle: Seq<u8>) -> bool {
    exists|i: int|
        0 <= i && i + needle.len() <= hay.len() && #[trigger] hay.subrange(i, i + needle.len())
            == needle
}

/// The error text carries the scan-size rejection marker.
pub open spec fn is_scan_limit_message(msg: Seq<u8>) -> bool {
    contains_seq(msg, scan_limit_marker())
}

fn matches_at(hay: &Vec<u8>, needle: &Vec<u8>, i: usize) -> (r: bool)
    requires
        i + needle@.len() <= hay@.len(),
    ensures
        r == (hay@.subrange(i as int, i as int + needle@.len()) == needle@),
{
    let n = needle.len();
    let hl = hay.len();
    assert(i + n <= hl);
    for j in 0..n
        invariant
            n == needle@.len(),
            hl == hay@.len(),
            i + n <= hl,
            forall|t: int| 0 <= t < j as int ==> hay@[i + t] == needle@[t],
    {
        if hay[i + j] != needle[j] {
            assert(hay@.subrange(i as int, i as int + needle@.len())[j as int] != needle@[j as int]);
            return false;
        }
    }
    assert(hay@.subrange(i as int, i as int + needle@.len()) =~= needle@);
    true
}

/// Whether `needle` occurs anywhere in `hay`.
pub fn contains_subslice(hay: &Vec<u8>, needle: &Vec<u8>) -> (r: bool)
    ensures
        r == contains_seq(hay@, needle@),
{
    let hn = hay.len();
    let nn = needle.len();
    if nn == 0 {
        let ghost zero: int = 0;
        assert(hay@.subrange(zero, zero + needle@.len()) =~= needle@);
        return true;
    }
    if nn > hn {
        assert(forall|i: int|
            !(0 <= i && i + needle@.len() <= hay@.len() && #[trigger] hay@.subrange(
                i,
                i + needle@.len(),
            ) == needle@));
        return false;
    }
    let last = hn - nn;
    let mut i: usize = 0;
    while i <= last
        invariant
            nn == needle@.len(),
            hn == hay@.len(),
            1 <= nn <= hn,
            last == hn - nn,
            i <= last + 1,
            forall|k: int|
                0 <= k < i as int ==> #[trigger] hay@.subrange(k, k + needle@.len()) != needle@,
        decreases last + 1 - i,
    {
        if matches_at(hay, needle, i) {
            assert(contains_seq(hay@, needle@));
            return true;
        }
        i = i + 1;
    }
    assert(forall|k: int|
        !(0 <= k && k + needle@.len() <= hay@.len() && #[trigger] hay@.subrange(
            k,
            k + needle@.len(),
        ) == needle@));
    false
}

/// Whether an error text from the remote interface is the scan-size
/// rejection, the one condition answered by partitioning rather than failure.
pub fn is_scan_limit_error(message: &Vec<u8>) -> (r: bool)
    ensures
        r == is_scan_limit_message(message@),
{
    let marker = scan_limit_marker_bytes();
    contains_subslice(message, &marker)
}

/// 257 to the power `e`: the weight scale of the partition-search measure.
/// A prefix of length `l` can head a subtree of at most `pow257(32 - l)`
/// queries, since splitting replaces one query by 256 strictly deeper ones.
pub open spec fn pow257(e: nat) -> nat
    decreases e,
{
    if e == 0 {
        1
    } else {
        257 * pow257((e - 1) as nat)
    }
}

pub proof fn lemma_pow257_pos(e: nat)
    ensures
        pow257(e) >= 1,
    decreases e,
{
    if e > 0 {
        lemma_pow257_pos((e - 1) as nat);
    }
}

/// Weight of one pending prefix.
pub open spec fn prefix_weight(p: Seq<u8>) -> nat {
    if p.len() <= ADDRESS_LEN {
        pow257((ADDRESS_LEN - p.len()) as nat)
    } else {
        0
    }
}

/// Combined weight of a stack of pending prefixes: the measure that every
/// step of the search strictly decreases.
pub open spec fn search_measure(stack: Seq<Seq<u8>>) -> nat
    decreases stack.len(),
{
    if stack.len() == 0 {
        0
    } else {
        search_measure(stack.drop_last()) + prefix_weight(stack.last())
    }
}

proof fn lemma_measure_push(stack: Seq<Seq<u8>>, p: Seq<u8>)
    ensures
        search_measure(stack.push(p)) == search_measure(stack) + prefix_weight(p),
{
    assert(stack.push(p).drop_last() =~= stack);
    assert(stack.push(p).last() == p);
}

/// The views of a stack of prefixes.
pub open spec fn prefix_views(s: Seq<Vec<u8>>) -> Seq<Seq<u8>> {
    s.map_values(|p: Vec<u8>| p@)
}

/// The 256 one-byte extensions of `p`, deepest pop first: they are pushed in
/// descending byte order so the byte-0 child is queried first.
pub open spec fn child_prefixes(p: Seq<u8>) -> Seq<Seq<u8>> {
    Seq::new(256, |i: int| p.push((255 - i) as u8))
}

/// What a scoped margin-account query answered: the matching records, or the
/// remote call's error text.
pub enum QueryOutcome {
    Accounts(Vec<SnapshotAccount>),
    Failed(Vec<u8>),
}

/// What the search asks of its driver after a step.
pub enum SearchStep {
    /// Query the prefix now on top of the stack.
    Continue,
    /// Every partition succeeded; the collected records are complete.
    Done,
    /// A fatal error: a non-scan-limit failure, or a scan-limit rejection of
    /// a full-length prefix, the declared failure floor.
    Failed(Vec<u8>),
}

/// The adaptive owner-authority prefix partition search for one group's
/// margin accounts: a depth-first work list of prefixes, each either answered
/// by the remote interface or split into its 256 one-byte extensions.
///
/// Termination: `step` strictly decreases `measure`, a natural number, on
/// every continuing transition, so a driving loop reaches `Done` or `Failed`
/// after finitely many queries whatever the remote interface answers; and no
/// queried prefix is ever longer than the 32-byte key.
pub struct PartitionSearch {
    pub pending: Vec<Vec<u8>>,
    pub collected: Vec<SnapshotAccount>,
}

impl PartitionSearch {
    /// The pending prefixes; the search queries the last one next.
    pub open spec fn pending_views(&self) -> Seq<Seq<u8>> {
        prefix_views(self.pending@)
    }

    /// No pending prefix is longer than a full 32-byte key: the search never
    /// queries a prefix longer than the key length.
    pub open spec fn wf(&self) -> bool {
        forall|i: int|
            0 <= i < self.pending_views().len() ==> (#[trigger] self.pending_views()[i]).len()
                <= ADDRESS_LEN
    }

    pub open spec fn measure(&self) -> nat {
        search_measure(self.pending_views())
    }

    pub open spec fn is_done(&self) -> bool {
        self.pending@.len() == 0
    }

    /// A fresh search: one pending query with the empty prefix, scoped only
    /// by the group filter.
    pub fn new() -> (r: Self)
        ensures
            r.wf(),
            !r.is_done(),
            r.pending_views() =~= seq![Seq::<u8>::empty()],
            r.collected@ == Seq::<SnapshotAccount>::empty(),
    {
        let empty_prefix: Vec<u8> = Vec::new();
        let mut pending: Vec<Vec<u8>> = Vec::new();
        pending.push(empty_prefix);
        let r = PartitionSearch { pending, collected: Vec::new() };
        assert(r.pending_views() =~= seq![Seq::<u8>::empty()]);
        r
    }

    pub fn done(&self) -> (r: bool)
        ensures
            r == self.is_done(),
    {
        self.pending.is_empty()
    }

    /// The prefix to query next.
    pub fn next_query(&self) -> (p: Vec<u8>)
        requires
            !self.is_done(),
            self.wf(),
        ensures
            p@ == self.pending_views().last(),
            p@.len() <= ADDRESS_LEN,
    {
        let n = self.pending.len();
        let p = self.pending[n - 1].clone();
        assert(p@ =~= self.pending_views().last());
        p
    }

    /// The records assembled from the leaf partitions.
    pub fn into_results(self) -> (r: Vec<SnapshotAccount>)
        ensures
            r@ == self.collected@,
    {
        self.collected
    }

    /// Advances the search by the outcome of querying the top prefix.
    ///
    /// Records are appended on success; a scan-size rejection splits the
    /// prefix unless it already has full key length; any other error is
    /// returned unchanged, with no partition fan-out attempted.
    pub fn step(&mut self, outcome: QueryOutcome) -> (r: SearchStep)
        requires
            !old(self).is_done(),
            old(self).wf(),
        ensures
            final(self).wf(),
            (match outcome {
                QueryOutcome::Accounts(accs) => {
                    &&& final(self).pending_views() == old(self).pending_views().drop_last()
                    &&& final(self).collected@ == old(self).collected@ + accs@
                    &&& final(self).measure() < old(self).measure()
                    &&& (r is Done <==> final(self).is_done())
                    &&& (r is Done || r is Continue)
                },
                QueryOutcome::Failed(msg) => {
                    if is_scan_limit_message(msg@) {
                        if old(self).pending_views().last().len() < ADDRESS_LEN {
                            &&& r is Continue
                            &&& final(self).pending_views() == old(
                                self,
                            ).pending_views().drop_last() + child_prefixes(
                                old(self).pending_views().last(),
                            )
                            &&& !final(self).is_done()
                            &&& final(self).collected@ == old(self).collected@
                            &&& final(self).measure() < old(self).measure()
                        } else {
                            &&& (r matches SearchStep::Failed(m) && m@ == msg@)
                            &&& final(self).pending_views() == old(self).pending_views()
                            &&& final(self).collected@ == old(self).collected@
                        }
                    } else {
                        &&& (r matches SearchStep::Failed(m) && m@ == msg@)
                        &&& final(self).pending_views() == old(self).pending_views()
                        &&& final(self).collected@ == old(self).collected@
                    }
                },
            }),
    {
        match outcome {
            QueryOutcome::Accounts(mut accs) => {
                let popped = self.pending.pop();
                proof {
                    assert(self.pending_views() =~= old(self).pending_views().drop_last());
                    assert(search_measure(old(self).pending_views())
                        == search_measure(old(self).pending_views().drop_last()) + prefix_weight(
                        old(self).pending_views().last(),
                    ));
                    assert(old(self).pending_views().last().len() <= ADDRESS_LEN);
                    lemma_pow257_pos((ADDRESS_LEN - old(self).pending_views().last().len()) as nat);
                }
                self.collected.append(&mut accs);
                if self.pending.is_empty() {
                    SearchStep::Done
                } else {
                    SearchStep::Continue
                }
            },
            QueryOutcome::Failed(msg) => {
                if !is_scan_limit_error(&msg) {
                    return SearchStep::Failed(msg);
                }
                let n = self.pending.len();
                let top_len = self.pending[n - 1].len();
                if top_len >= ADDRESS_LEN {
                    return SearchStep::Failed(msg);
                }
                let top = self.pending.pop().unwrap();
                let ghost gtop = top@;
                let ghost base = self.pending_views();
                proof {
                    assert(base =~= old(self).pending_views().drop_last());
                    assert(gtop == old(self).pending_views().last());
                    assert(search_measure(old(self).pending_views()) == search_measure(base)
                        + prefix_weight(gtop));
                    assert(prefix_weight(gtop) == 257 * pow257(
                        (ADDRESS_LEN - gtop.len() - 1) as nat,
                    ));
                }
                let ghost child_weight = pow257((ADDRESS_LEN - gtop.len() - 1) as nat);
                let mut b: usize = 0;
                while b < 256
                    invariant
                        b <= 256,
                        gtop.len() < ADDRESS_LEN,
                        top@ == gtop,
                        self.pending_views() =~= base + child_prefixes(gtop).take(b as int),
                        search_measure(self.pending_views()) == search_measure(base) + b
                            * child_weight,
                        child_weight == pow257((ADDRESS_LEN - gtop.len() - 1) as nat),
                        self.collected@ == old(self).collected@,
                        forall|i: int|
                            0 <= i < self.pending_views().len() ==> (
                            #[trigger] self.pending_views()[i]).len() <= ADDRESS_LEN,
                    decreases 256 - b,
                {
                    let byte = (255 - b) as u8;
                    let mut child = top.clone();
                    child.push(byte);
                    proof {
                        assert(child@ == child_prefixes(gtop)[b as int]);
                        lemma_measure_push(self.pending_views(), child@);
                        assert(prefix_weight(child@) == child_weight);
                    }
                    let ghost before = self.pending_views();
                    self.pending.push(child);
                    proof {
                        assert(self.pending_views() =~= before.push(child@));
                        assert(base + child_prefixes(gtop).take(b as int + 1) =~= (base
                            + child_prefixes(gtop).take(b as int)).push(child@));
                    }
                    proof {
                        assert((b + 1) * child_weight == b * child_weight + child_weight)
                            by (nonlinear_arith);
                    }
                    b = b + 1;
                }
                proof {
                    assert(child_prefixes(gtop).take(256) =~= child_prefixes(gtop));
                    lemma_pow257_pos((ADDRESS_LEN - gtop.len() - 1) as nat);
                    assert(search_measure(self.pending_views()) == search_measure(base) + 256
                        * child_weight);
                    assert(257 * child_weight == 256 * child_weight + child_weight)
                        by (nonlinear_arith);
                    assert(self.pending_views().len() > 0);
                }
                SearchStep::Continue
            },
        }
    }
}

/// The views of a sequence of addresses.
pub open spec fn addr_views(s: Seq<Address>) -> Seq<Seq<u8>> {
    s.map_values(|a: Address| a@)
}

/// The addresses carried by a sequence of records.
pub open spec fn addresses_of(s: Seq<SnapshotAccountV>) -> Seq<Seq<u8>> {
    s.map_values(|a: SnapshotAccountV| a.address)
}

/// Byte sizes of the remote program's account structs and their 8-byte type
/// tags; the caller supplies them from the program's own definition.
pub struct ProgramLayout {
    pub group_struct_size: u64,
    pub bank_struct_size: u64,
    pub margin_account_struct_size: u64,
    pub group_discriminator: Vec<u8>,
    pub bank_discriminator: Vec<u8>,
    pub margin_account_discriminator: Vec<u8>,
}

impl ProgramLayout {
    pub open spec fn wf(&self) -> bool {
        &&& self.group_discriminator@.len() == DISCRIMINATOR_LEN
        &&& self.bank_discriminator@.len() == DISCRIMINATOR_LEN
        &&& self.margin_account_discriminator@.len() == DISCRIMINATOR_LEN
        &&& self.group_struct_size <= u64::MAX - DISCRIMINATOR_LEN
        &&& self.bank_struct_size <= u64::MAX - DISCRIMINATOR_LEN
        &&& self.margin_account_struct_size <= u64::MAX - DISCRIMINATOR_LEN
    }
}

/// The three account kinds of the remote lending program; groups are fetched
/// only as partition keys and are not themselves cached.
#[derive(Clone, Copy, Debug, PartialEq, Eq, Structural)]
pub enum MarginfiProgramAccountType {
    Group,
    Bank,
    MarginfiAccount,
}

/// One server-side filter of a program-account scan: an exact byte-length
/// match, or an exact byte match anchored at a fixed payload offset.
#[derive(Clone, Debug, PartialEq, Eq)]
pub enum AccountFilter {
    DataSize(u64),
    Memcmp { offset: u64, bytes: Vec<u8> },
}

/// Payload length selecting a kind: type tag plus the struct itself.
pub open spec fn spec_data_size(kind: MarginfiProgramAccountType, layout: ProgramLayout) -> u64
    recommends
        layout.wf(),
{
    match kind {
        MarginfiProgramAccountType::Group => (DISCRIMINATOR_LEN + layout.group_struct_size) as u64,
        MarginfiProgramAccountType::Bank => (DISCRIMINATOR_LEN + layout.bank_struct_size) as u64,
        MarginfiProgramAccountType::MarginfiAccount => (DISCRIMINATOR_LEN
            + layout.margin_account_struct_size) as u64,
    }
}

/// The kind's type tag.
pub open spec fn spec_discriminator(kind: MarginfiProgramAccountType, layout: ProgramLayout)
    -> Seq<u8> {
    match kind {
        MarginfiProgramAccountType::Group => layout.group_discriminator@,
        MarginfiProgramAccountType::Bank => layout.bank_discriminator@,
        MarginfiProgramAccountType::MarginfiAccount => layout.margin_account_discriminator@,
    }
}

impl MarginfiProgramAccountType {
    /// The exact payload length the server-side filter matches for this kind.
    pub fn data_size(&self, layout: &ProgramLayout) -> (r: u64)
        requires
            layout.wf(),
        ensures
            r == spec_data_size(*self, *layout),
    {
        match self {
            MarginfiProgramAccountType::Group => DISCRIMINATOR_LEN + layout.group_struct_size,
            MarginfiProgramAccountType::Bank => DISCRIMINATOR_LEN + layout.bank_struct_size,
            MarginfiProgramAccountType::MarginfiAccount => DISCRIMINATOR_LEN
                + layout.margin_account_struct_size,
        }
    }

    /// The kind's 8-byte type tag at payload offset zero.
    pub fn discriminator(&self, layout: &ProgramLayout) -> (r: Vec<u8>)
        ensures
            r@ == spec_discriminator(*self, *layout),
    {
        let r = match self {
            MarginfiProgramAccountType::Group => layout.group_discriminator.clone(),
            MarginfiProgramAccountType::Bank => layout.bank_discriminator.clone(),
            MarginfiProgramAccountType::MarginfiAccount => layout
                .margin_account_discriminator
                .clone(),
        };
        assert(r@ =~= spec_discriminator(*self, *layout));
        r
    }

    /// The kind's display name.
    pub fn as_str(&self) -> (r: &'static str)
        ensures
            r@ == spec_kind_name(*self),
    {
        match self {
            MarginfiProgramAccountType::Group => "MarginfiGroup",
            MarginfiProgramAccountType::Bank => "Bank",
            MarginfiProgramAccountType::MarginfiAccount => "MarginfiAccount",
        }
    }

    /// The two base filters of a per-kind scan: exact payload length, and the
    /// type tag at offset zero.
    pub fn filters(&self, layout: &ProgramLayout) -> (r: Vec<AccountFilter>)
        requires
            layout.wf(),
        ensures
            r@.len() == 2,
            (r@[0] matches AccountFilter::DataSize(s) && s == spec_data_size(*self, *layout)),
            (r@[1] matches AccountFilter::Memcmp { offset, bytes } && offset == 0 && bytes@
                == spec_discriminator(*self, *layout)),
    {
        let mut r: Vec<AccountFilter> = Vec::new();
        r.push(AccountFilter::DataSize(self.data_size(layout)));
        r.push(AccountFilter::Memcmp { offset: 0, bytes: self.discriminator(layout) });
        r
    }
}

pub open spec fn spec_kind_name(kind: MarginfiProgramAccountType) -> Seq<char> {
    match kind {
        MarginfiProgramAccountType::Group => "MarginfiGroup"@,
        MarginfiProgramAccountType::Bank => "Bank"@,
        MarginfiProgramAccountType::MarginfiAccount => "MarginfiAccount"@,
    }
}

/// The filters of a margin-account scan scoped to one group, optionally
/// constrained to an owner-authority prefix by the partition search.
pub fn margin_account_filters(
    layout: &ProgramLayout,
    group: &Address,
    authority_prefix: &Vec<u8>,
) -> (r: Vec<AccountFilter>)
    requires
        layout.wf(),
    ensures
        r@.len() == (if authority_prefix@.len() == 0 { 3int } else { 4int }),
        (r@[0] matches AccountFilter::DataSize(s) && s == spec_data_size(
            MarginfiProgramAccountType::MarginfiAccount,
            *layout,
        )),
        (r@[1] matches AccountFilter::Memcmp { offset, bytes } && offset == 0 && bytes@
            == spec_discriminator(MarginfiProgramAccountType::MarginfiAccount, *layout)),
        (r@[2] matches AccountFilter::Memcmp { offset, bytes } && offset
            == MARGINFI_ACCOUNT_GROUP_OFFSET && bytes@ == group@),
        authority_prefix@.len() > 0 ==> (r@[3] matches AccountFilter::Memcmp { offset, bytes }
            && offset == MARGINFI_ACCOUNT_AUTHORITY_OFFSET && bytes@ == authority_prefix@),
{
    let mut r = MarginfiProgramAccountType::MarginfiAccount.filters(layout);
    let group_bytes = group.bytes.clone();
    assert(group_bytes@ =~= group@);
    r.push(AccountFilter::Memcmp { offset: MARGINFI_ACCOUNT_GROUP_OFFSET, bytes: group_bytes });
    if authority_prefix.len() > 0 {
        let prefix_bytes = authority_prefix.clone();
        assert(prefix_bytes@ =~= authority_prefix@);
        r.push(
            AccountFilter::Memcmp {
                offset: MARGINFI_ACCOUNT_AUTHORITY_OFFSET,
                bytes: prefix_bytes,
            },
        );
    }
    r
}

/// The records found by a batched multi-address lookup, in order; addresses
/// with no remote record answer `None` and are silently omitted.
pub open spec fn present_records(s: Seq<Option<SnapshotAccount>>) -> Seq<SnapshotAccountV>
    decreases s.len(),
{
    if s.len() == 0 {
        Seq::<SnapshotAccountV>::empty()
    } else {
        present_records(s.drop_last()) + (match s.last() {
            Some(a) => seq![a@],
            None => Seq::<SnapshotAccountV>::empty(),
        })
    }
}

/// Keeps the records that were found, in request order.
pub fn collect_found_accounts(responses: Vec<Option<SnapshotAccount>>) -> (r: Vec<SnapshotAccount>)
    ensures
        views_of(r@) == present_records(responses@),
{
    let mut r: Vec<SnapshotAccount> = Vec::new();
    let ghost all = responses@;
    let n = responses.len();
    let mut i: usize = 0;
    let mut rest = responses;
    assert(views_of(r@) =~= present_records(all.take(0)));
    for i in 0..n
        invariant
            n == all.len(),
            rest@ == all.skip(i as int),
            views_of(r@) == present_records(all.take(i as int)),
    {
        let head = rest.remove(0);
        proof {
            assert(head == all[i as int]);
            assert(rest@ =~= all.skip(i as int + 1));
            assert(all.take(i as int + 1).drop_last() =~= all.take(i as int));
            assert(all.take(i as int + 1).last() == all[i as int]);
        }
        let ghost before = views_of(r@);
        match head {
            Some(a) => {
                r.push(a);
                proof {
                    assert(views_of(r@) =~= before.push(a@));
                    assert(present_records(all.take(i as int + 1)) =~= before.push(a@));
                }
            },
            None => {
                proof {
                    assert(present_records(all.take(i as int + 1)) =~= before);
                }
            },
        }
    }
    assert(all.take(n as int) =~= all);
    r
}

/// Splits an address list into request batches of at most
/// `ADDRESSES_CHUNK_SIZE`, preserving order.
pub fn address_batches(addresses: &Vec<Address>) -> (r: Vec<Vec<Address>>)
    ensures
        r@.len() == (addresses@.len() + ADDRESSES_CHUNK_SIZE - 1) / (ADDRESSES_CHUNK_SIZE as int),
        forall|i: int|
            0 <= i < r@.len() ==> addr_views(#[trigger] r@[i]@) == addr_views(addresses@).subrange(
                i * (ADDRESSES_CHUNK_SIZE as int),
                if (i + 1) * (ADDRESSES_CHUNK_SIZE as int) <= addresses@.len() {
                    (i + 1) * (ADDRESSES_CHUNK_SIZE as int)
                } else {
                    addresses@.len() as int
                },
            ),
{
    let n = addresses.len();
    let mut r: Vec<Vec<Address>> = Vec::new();
    let mut start: usize = 0;
    while start < n
        invariant
            n == addresses@.len(),
            start <= n,
            start < n ==> start == r@.len() * (ADDRESSES_CHUNK_SIZE as int),
            start == n ==> r@.len() == (n + ADDRESSES_CHUNK_SIZE - 1) / (
            ADDRESSES_CHUNK_SIZE as int),
            forall|i: int|
                0 <= i < r@.len() ==> addr_views(#[trigger] r@[i]@) == addr_views(
                    addresses@,
                ).subrange(
                    i * (ADDRESSES_CHUNK_SIZE as int),
                    if (i + 1) * (ADDRESSES_CHUNK_SIZE as int) <= addresses@.len() {
                        (i + 1) * (ADDRESSES_CHUNK_SIZE as int)
                    } else {
                        addresses@.len() as int
                    },
                ),
        decreases n - start,
    {
        let batch_end = if n - start < ADDRESSES_CHUNK_SIZE {
            n
        } else {
            start + ADDRESSES_CHUNK_SIZE
        };
        let mut batch: Vec<Address> = Vec::new();
        let mut j = start;
        while j < batch_end
            invariant
                n == addresses@.len(),
                start <= j <= batch_end <= n,
                batch_end - start <= ADDRESSES_CHUNK_SIZE,
                batch@.len() == j - start,
                forall|t: int|
                    0 <= t < batch@.len() ==> (#[trigger] batch@[t])@ == addresses@[start + t]@,
            decreases batch_end - j,
        {
            batch.push(addresses[j].clone());
            j = j + 1;
        }
        proof {
            assert(addr_views(batch@) =~= addr_views(addresses@).subrange(
                start as int,
                batch_end as int,
            ));
        }
        let ghost k = r@.len();
        proof {
            assert(start == k * (ADDRESSES_CHUNK_SIZE as int));
            if batch_end == n {
                if n - start < ADDRESSES_CHUNK_SIZE {
                    assert((n + ADDRESSES_CHUNK_SIZE - 1) / (ADDRESSES_CHUNK_SIZE as int) == k + 1)
                        by (nonlinear_arith)
                        requires
                            k >= 0,
                            k * (ADDRESSES_CHUNK_SIZE as int) < n,
                            n < k * (ADDRESSES_CHUNK_SIZE as int) + ADDRESSES_CHUNK_SIZE,
                            ADDRESSES_CHUNK_SIZE == 100,
                    ;
                } else {
                    assert((n + ADDRESSES_CHUNK_SIZE - 1) / (ADDRESSES_CHUNK_SIZE as int) == k + 1)
                        by (nonlinear_arith)
                        requires
                            k >= 0,
                            n == k * (ADDRESSES_CHUNK_SIZE as int) + ADDRESSES_CHUNK_SIZE,
                            ADDRESSES_CHUNK_SIZE == 100,
                    ;
                }
            } else {
                assert(batch_end == (k + 1) * (ADDRESSES_CHUNK_SIZE as int)) by (nonlinear_arith)
                    requires
                        k >= 0,
                        batch_end == k * (ADDRESSES_CHUNK_SIZE as int) + ADDRESSES_CHUNK_SIZE,
                ;
            }
        }
        r.push(batch);
        start = batch_end;
    }
    r
}

/// Where the full bootstrap stands: groups are fetched first, then banks,
/// then margin accounts fanned out per fetched group (or unscoped when no
/// group exists).
#[derive(Clone, Copy, Debug, PartialEq, Eq, Structural)]
pub enum BootstrapPhase {
    Groups,
    Banks,
    MarginScoped,
    MarginUnscoped,
    Done,
    Failed,
}

/// The query the bootstrap asks its driver to run next.
pub enum BootstrapAction {
    FetchGroups,
    FetchBanks,
    /// Run a full partition search scoped to this group.
    FetchMarginForGroup(Address),
    FetchMarginUnscoped,
    Finished,
    Aborted,
}

/// How the driver answered the current query.
pub enum BootstrapEvent {
    Fetched(Vec<SnapshotAccount>),
    FetchFailed(Vec<u8>),
}

/// Sequences a full cache bootstrap: groups, then banks, then the per-group
/// margin-account fan-out. Collects every fetched record in order.
pub struct BootstrapSession {
    pub phase: BootstrapPhase,
    pub group_keys: Vec<Address>,
    pub next_group: usize,
    pub accounts: Vec<SnapshotAccount>,
}

impl BootstrapSession {
    pub open spec fn wf(&self) -> bool {
        self.phase is MarginScoped ==> self.next_group < self.group_keys@.len()
    }

    pub fn new() -> (r: Self)
        ensures
            r.phase is Groups,
            r.accounts@ == Seq::<SnapshotAccount>::empty(),
            r.wf(),
    {
        BootstrapSession {
            phase: BootstrapPhase::Groups,
            group_keys: Vec::new(),
            next_group: 0,
            accounts: Vec::new(),
        }
    }

    /// What to run next, given the phase.
    pub fn next_action(&self) -> (r: BootstrapAction)
        requires
            self.wf(),
        ensures
            (match self.phase {
                BootstrapPhase::Groups => r is FetchGroups,
                BootstrapPhase::Banks => r is FetchBanks,
                BootstrapPhase::MarginScoped => (r matches BootstrapAction::FetchMarginForGroup(g)
                    && g@ == self.group_keys@[self.next_group as int]@),
                BootstrapPhase::MarginUnscoped => r is FetchMarginUnscoped,
                BootstrapPhase::Done => r is Finished,
                BootstrapPhase::Failed => r is Aborted,
            }),
    {
        match self.phase {
            BootstrapPhase::Groups => BootstrapAction::FetchGroups,
            BootstrapPhase::Banks => BootstrapAction::FetchBanks,
            BootstrapPhase::MarginScoped => BootstrapAction::FetchMarginForGroup(
                self.group_keys[self.next_group].clone(),
            ),
            BootstrapPhase::MarginUnscoped => BootstrapAction::FetchMarginUnscoped,
            BootstrapPhase::Done => BootstrapAction::Finished,
            BootstrapPhase::Failed => BootstrapAction::Aborted,
        }
    }

    /// Advances by the answer to the current query. Group keys are recorded
    /// before any margin fetch is asked for, any fetch failure aborts the
    /// bootstrap, and every fetched record is collected in arrival order.
    pub fn on_event(&mut self, event: BootstrapEvent)
        requires
            old(self).wf(),
            !(old(self).phase is Done),
            !(old(self).phase is Failed),
        ensures
            final(self).wf(),
            (match event {
                BootstrapEvent::FetchFailed(msg) => {
                    &&& final(self).phase is Failed
                    &&& final(self).accounts@ == old(self).accounts@
                },
                BootstrapEvent::Fetched(accs) => {
                    &&& final(self).accounts@ == old(self).accounts@ + accs@
                    &&& (match old(self).phase {
                        BootstrapPhase::Groups => {
                            &&& final(self).phase is Banks
                            &&& addr_views(final(self).group_keys@) == addresses_of(
                                views_of(accs@),
                            )
                            &&& final(self).next_group == 0
                        },
                        BootstrapPhase::Banks => {
                            &&& final(self).group_keys@ == old(self).group_keys@
                            &&& (final(self).phase is MarginUnscoped <==> old(
                                self,
                            ).group_keys@.len() == 0)
                            &&& (final(self).phase is MarginScoped <==> old(
                                self,
                            ).group_keys@.len() > 0)
                            &&& final(self).next_group == 0
                        },
                        BootstrapPhase::MarginScoped => {
                            &&& final(self).group_keys@ == old(self).group_keys@
                            &&& final(self).next_group == old(self).next_group + 1
                            &&& (final(self).phase is Done <==> old(self).next_group + 1 == old(
                                self,
                            ).group_keys@.len())
                            &&& (final(self).phase is Done || final(self).phase is MarginScoped)
                        },
                        BootstrapPhase::MarginUnscoped => final(self).phase is Done,
                        _ => false,
                    })
                },
            }),
    {
        match event {
            BootstrapEvent::FetchFailed(_msg) => {
                self.phase = BootstrapPhase::Failed;
            },
            BootstrapEvent::Fetched(mut accs) => {
                match self.phase {
                    BootstrapPhase::Groups => {
                        let mut keys: Vec<Address> = Vec::new();
                        let n = accs.len();
                        for i in 0..n
                            invariant
                                n == accs@.len(),
                                keys@.len() == i,
                                forall|t: int|
                                    0 <= t < i as int ==> (#[trigger] keys@[t])@
                                        == accs@[t]@.address,
                        {
                            keys.push(accs[i].address.clone());
                        }
                        assert(addr_views(keys@) =~= addresses_of(views_of(accs@)));
                        self.group_keys = keys;
                        self.next_group = 0;
                        self.phase = BootstrapPhase::Banks;
                    },
                    BootstrapPhase::Banks => {
                        self.next_group = 0;
                        self.phase = if self.group_keys.is_empty() {
                            BootstrapPhase::MarginUnscoped
                        } else {
                            BootstrapPhase::MarginScoped
                        };
                    },
                    BootstrapPhase::MarginScoped => {
                        let total = self.group_keys.len();
                        assert(self.next_group < total);
                        self.next_group = self.next_group + 1;
                        if self.next_group == total {
                            self.phase = BootstrapPhase::Done;
                        }
                    },
                    BootstrapPhase::MarginUnscoped => {
                        self.phase = BootstrapPhase::Done;
                    },
                    _ => {
                        proof {
                            assert(false);
                        }
                    },
                }
                self.accounts.append(&mut accs);
            },
        }
    }

    /// The records assembled by the whole bootstrap.
    pub fn into_accounts(self) -> (r: Vec<SnapshotAccount>)
        ensures
            r@ == self.accounts@,
    {
        self.accounts
    }
}

} // verus!
