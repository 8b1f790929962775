//! The feedback queue: which item is handed out next and to whom, how long the
//! right to work on it lasts, and through which states it goes.
//!
//! Times are in milliseconds since the epoch.
use crate::feedback::{
    self, prepare_suffixed, validate_feedback_id, FeedbackLease, FeedbackRecord, FeedbackState,
    IncomingFeedback, LeaseView, RecordView, RecoveryMetadata, RecoveryView,
    DEFAULT_LEASE_DURATION_MILLIS,
};
use crate::session::{self, generate_session_id, RandomSourceUnavailable};
use crate::text::{self, is_blank, is_text_before, same_text, trim};
use vstd::prelude::*;
use vstd::string::*;

verus! {

/// Why a request to the queue was refused.
#[derive(Debug, PartialEq, Eq)]
pub enum QueueError {
    Io(String),
    Storage { path: String, message: String },
    NotFound(String),
    CompareMismatch { expected: String, actual: String },
    InvalidTransition { from: String, to: String },
    MissingFailureReason,
    LeaseRequired,
    LeaseOwnerMismatch { expected: String, actual: String },
}

pub enum QueueErrorView {
    Io(Seq<char>),
    Storage { path: Seq<char>, message: Seq<char> },
    NotFound(Seq<char>),
    CompareMismatch { expected: Seq<char>, actual: Seq<char> },
    InvalidTransition { from: Seq<char>, to: Seq<char> },
    MissingFailureReason,
    LeaseRequired,
    LeaseOwnerMismatch { expected: Seq<char>, actual: Seq<char> },
}

impl View for QueueError {
    type V = QueueErrorView;

    open spec fn view(&self) -> QueueErrorView {
        match self {
            QueueError::Io(message) => QueueErrorView::Io(message@),
            QueueError::Storage { path, message } => QueueErrorView::Storage {
                path: path@,
                message: message@,
            },
            QueueError::NotFound(id) => QueueErrorView::NotFound(id@),
            QueueError::CompareMismatch { expected, actual } => QueueErrorView::CompareMismatch {
                expected: expected@,
                actual: actual@,
            },
            QueueError::InvalidTransition { from, to } => QueueErrorView::InvalidTransition {
                from: from@,
                to: to@,
            },
            QueueError::MissingFailureReason => QueueErrorView::MissingFailureReason,
            QueueError::LeaseRequired => QueueErrorView::LeaseRequired,
            QueueError::LeaseOwnerMismatch {
                expected,
                actual,
            } => QueueErrorView::LeaseOwnerMismatch { expected: expected@, actual: actual@ },
        }
    }
}

impl QueueErrorView {
    /// What is said about the error.
    pub open spec fn message(self) -> Seq<char> {
        match self {
            QueueErrorView::Io(message) => message,
            QueueErrorView::Storage { path, message } => "feedback storage error at "@ + path
                + ": "@ + message,
            QueueErrorView::NotFound(id) => "feedback item "@ + id + " was not found"@,
            QueueErrorView::CompareMismatch { expected, actual } => "expected state "@ + expected
                + ", but current state is "@ + actual,
            QueueErrorView::InvalidTransition { from, to } =>
                "invalid feedback state transition "@ + from + " -> "@ + to,
            QueueErrorView::MissingFailureReason => "failed feedback requires a non-empty reason"@,
            QueueErrorView::LeaseRequired => "feedback item has no active lease"@,
            QueueErrorView::LeaseOwnerMismatch { expected, actual } =>
                "feedback lease belongs to "@ + actual + ", not "@ + expected,
        }
    }
}

fn phrase(first: &str, second: &str, third: &str, fourth: &str) -> (r: String)
    ensures
        r@ == first@ + second@ + third@ + fourth@,
{
    let mut whole = first.to_owned();
    whole.append(second);
    whole.append(third);
    whole.append(fourth);
    whole
}

impl QueueError {
    /// What is said about the error.
    pub fn message(&self) -> (r: String)
        ensures
            r@ == self@.message(),
    {
        match self {
            QueueError::Io(message) => message.clone(),
            QueueError::Storage { path, message } => phrase(
                "feedback storage error at ",
                path.as_str(),
                ": ",
                message.as_str(),
            ),
            QueueError::NotFound(id) => {
                let mut message = "feedback item ".to_owned();
                message.append(id.as_str());
                message.append(" was not found");
                message
            },
            QueueError::CompareMismatch { expected, actual } => phrase(
                "expected state ",
                expected.as_str(),
                ", but current state is ",
                actual.as_str(),
            ),
            QueueError::InvalidTransition { from, to } => phrase(
                "invalid feedback state transition ",
                from.as_str(),
                " -> ",
                to.as_str(),
            ),
            QueueError::MissingFailureReason =>
                "failed feedback requires a non-empty reason".to_owned(),
            QueueError::LeaseRequired => "feedback item has no active lease".to_owned(),
            QueueError::LeaseOwnerMismatch { expected, actual } => phrase(
                "feedback lease belongs to ",
                actual.as_str(),
                ", not ",
                expected.as_str(),
            ),
        }
    }
}

/// The point in time `duration` after `now`, or the last one there is.
pub open spec fn later(now: u64, duration: u64) -> u64 {
    if now + duration > u64::MAX {
        u64::MAX
    } else {
        (now + duration) as u64
    }
}

/// The later of two points in time.
pub open spec fn latest(left: u64, right: u64) -> u64 {
    if left >= right {
        left
    } else {
        right
    }
}

/// Somebody has the right to work on the item at `now`.
pub open spec fn live(record: RecordView, now: u64) -> bool {
    record.lease matches Some(lease) && lease.expires_at > now
}

/// The item has to go back into the queue: its lease has run out before the
/// work was over, or somebody has taken it up without holding a lease.
pub open spec fn due(record: RecordView, now: u64) -> bool {
    ||| (record.lease matches Some(lease) && lease.expires_at <= now && !record.state.terminal())
    ||| (record.state.in_work() && record.lease is None)
}

/// The item back in the queue, with a note of where it came from.
pub open spec fn recovered(record: RecordView, now: u64) -> RecordView {
    RecordView {
        state: FeedbackState::Pending,
        lease: None,
        recovery: Some(
            RecoveryView {
                previous_state: record.state,
                previous_owner: match record.lease {
                    Some(lease) => Some(lease.owner),
                    None => None,
                },
                recovered_at: now,
                count: match record.recovery {
                    Some(recovery) => if recovery.count == u32::MAX {
                        u32::MAX
                    } else {
                        (recovery.count + 1) as u32
                    },
                    None => 1,
                },
            },
        ),
        ..record
    }
}

/// The item after recovery, where it is due.
pub open spec fn settled(record: RecordView, now: u64) -> RecordView {
    if due(record, now) {
        recovered(record, now)
    } else {
        record
    }
}

/// The items after recovery of those that are due.
pub open spec fn settled_all(records: Seq<RecordView>, now: u64) -> Seq<RecordView> {
    records.map_values(|record: RecordView| settled(record, now))
}

/// How many items are due.
pub open spec fn due_count(records: Seq<RecordView>, now: u64) -> nat
    decreases records.len(),
{
    if records.len() == 0 {
        0
    } else {
        due_count(records.drop_last(), now) + if due(records.last(), now) {
            1nat
        } else {
            0nat
        }
    }
}

/// What each record holds.
pub open spec fn record_views(records: Seq<FeedbackRecord>) -> Seq<RecordView> {
    records.map_values(|record: FeedbackRecord| record@)
}

/// Every item has an acceptable identifier, and no two have the same.
pub open spec fn identified(records: Seq<RecordView>) -> bool {
    &&& forall|i: int|
        0 <= i < records.len() ==> feedback::valid_feedback_id((#[trigger] records[i]).id)
    &&& forall|i: int, j: int| #![trigger records[i], records[j]]
        0 <= i < j < records.len() ==> records[i].id != records[j].id
}

/// The items of a project, each under its own identifier.
pub struct FeedbackStore {
    records: Vec<FeedbackRecord>,
}

impl View for FeedbackStore {
    type V = Seq<RecordView>;

    closed spec fn view(&self) -> Seq<RecordView> {
        record_views(self.records@)
    }
}

/// `records` with the item `record`, in the place of the one with its
/// identifier or else at the end.
pub open spec fn written(records: Seq<RecordView>, record: RecordView) -> Seq<RecordView> {
    let at = id_position(records, record.id, 0);
    if at < records.len() {
        records.update(at, record)
    } else {
        records.push(record)
    }
}

/// The position from `from` on of the item with an identifier, or the number of
/// items.
pub open spec fn id_position(records: Seq<RecordView>, id: Seq<char>, from: int) -> int
    decreases records.len() - from,
{
    if from >= records.len() {
        records.len() as int
    } else if records[from].id == id {
        from
    } else {
        id_position(records, id, from + 1)
    }
}

/// The position found is that of the first item with the identifier.
pub proof fn lemma_id_position(records: Seq<RecordView>, id: Seq<char>, from: int)
    requires
        0 <= from <= records.len(),
    ensures
        from <= id_position(records, id, from) <= records.len(),
        id_position(records, id, from) < records.len() ==> records[id_position(
            records,
            id,
            from,
        )].id == id,
        forall|i: int|
            from <= i < id_position(records, id, from) ==> (#[trigger] records[i]).id != id,
    decreases records.len() - from,
{
    if from < records.len() && records[from].id != id {
        lemma_id_position(records, id, from + 1);
    }
}

impl FeedbackStore {
    /// Every item has an acceptable identifier, and no two have the same.
    pub open spec fn wf(&self) -> bool {
        identified(self@)
    }

    /// A store without items.
    pub fn new() -> (store: Self)
        ensures
            store.wf(),
            store@ == Seq::<RecordView>::empty(),
    {
        let store = FeedbackStore { records: Vec::new() };
        assert(store@ =~= Seq::<RecordView>::empty());
        store
    }

    /// The items.
    pub fn records(&self) -> (records: &Vec<FeedbackRecord>)
        ensures
            record_views(records@) == self@,
    {
        &self.records
    }

    /// How many items there are.
    pub fn len(&self) -> (r: usize)
        ensures
            r == self@.len(),
    {
        self.records.len()
    }

    /// The item at a position.
    pub fn get(&self, index: usize) -> (record: &FeedbackRecord)
        requires
            index < self@.len(),
        ensures
            record@ == self@[index as int],
    {
        &self.records[index]
    }

    /// The position of the item with an identifier.
    pub fn find(&self, id: &str) -> (r: Option<usize>)
        ensures
            match r {
                Some(index) => index < self@.len() && index == id_position(self@, id@, 0),
                None => id_position(self@, id@, 0) == self@.len(),
            },
    {
        let mut i: usize = 0;
        while i < self.records.len()
            invariant
                i <= self.records@.len(),
                id_position(self@, id@, 0) == id_position(self@, id@, i as int),
            decreases self.records.len() - i,
        {
            assert(self@[i as int] == self.records@[i as int]@);
            if same_text(self.records[i].id.as_str(), id) {
                return Some(i);
            }
            i += 1;
        }
        None
    }
}

/// Puts the item back into the queue.
fn recover_record(record: &mut FeedbackRecord, now: u64)
    ensures
        final(record)@ == recovered(old(record)@, now),
{
    let previous_state = record.state;
    let previous_owner = match record.lease.take() {
        Some(lease) => Some(lease.owner),
        None => None,
    };
    let count: u32 = match &record.recovery {
        Some(recovery) => recovery.count.saturating_add(1),
        None => 1,
    };
    record.state = FeedbackState::Pending;
    record.recovery = Some(
        RecoveryMetadata { previous_state, previous_owner, recovered_at: now, count },
    );
}

fn is_due(record: &FeedbackRecord, now: u64) -> (r: bool)
    ensures
        r == due(record@, now),
{
    match &record.lease {
        Some(lease) => lease.expires_at <= now && !record.state.is_terminal(),
        None => record.state.is_in_work(),
    }
}

fn is_live(record: &FeedbackRecord, now: u64) -> (r: bool)
    ensures
        r == live(record@, now),
{
    match &record.lease {
        Some(lease) => lease.expires_at > now,
        None => false,
    }
}

/// Puts every item that is due back into the queue; says how many there were.
pub fn recover_expired_leases_at(store: &mut FeedbackStore, now: u64) -> (recovered_count: usize)
    requires
        old(store).wf(),
    ensures
        final(store).wf(),
        final(store)@ == settled_all(old(store)@, now),
        recovered_count == due_count(old(store)@, now),
{
    let ghost before = store@;
    let mut recovered_count: usize = 0;
    let mut i: usize = 0;
    while i < store.records.len()
        invariant
            identified(before),
            i <= store.records@.len(),
            store@.len() == before.len(),
            forall|k: int|
                0 <= k < before.len() ==> #[trigger] store@[k] == if k < i {
                    settled(before[k], now)
                } else {
                    before[k]
                },
            recovered_count == due_count(before.take(i as int), now),
            recovered_count <= i,
        decreases store.records.len() - i,
    {
        assert(store.records@[i as int]@ == store@[i as int]);
        assert(store@[i as int] == before[i as int]);
        assert(before.take(i + 1).drop_last() =~= before.take(i as int));
        let ghost previous = store@;
        if is_due(&store.records[i], now) {
            recover_record(&mut store.records[i], now);
            recovered_count += 1;
        }
        assert(store@ =~= previous.update(i as int, settled(before[i as int], now)));
        i += 1;
    }
    assert(before.take(before.len() as int) =~= before);
    assert(store@ =~= settled_all(before, now));
    recovered_count
}

/// `left` was created before `right`; the identifier decides between items of
/// the same moment.
pub open spec fn created_before(left: RecordView, right: RecordView) -> bool {
    ||| left.created_at < right.created_at
    ||| (left.created_at == right.created_at && text::text_before(left.id, right.id))
}

/// Tests whether the first item was created before the second.
pub fn is_created_before(left: &FeedbackRecord, right: &FeedbackRecord) -> (r: bool)
    ensures
        r == created_before(left@, right@),
{
    left.created_at < right.created_at || (left.created_at == right.created_at && is_text_before(
        left.id.as_str(),
        right.id.as_str(),
    ))
}

/// Of two items with different identifiers one was created before the other,
/// and the order is transitive and strict.
pub proof fn lemma_creation_order(a: RecordView, b: RecordView, c: RecordView)
    ensures
        !created_before(a, a),
        created_before(a, b) && created_before(b, c) ==> created_before(a, c),
        a.id != b.id ==> created_before(a, b) || created_before(b, a),
        created_before(a, b) ==> !created_before(b, a),
{
    text::lemma_text_before_irreflexive(a.id);
    text::lemma_text_before_total(a.id, b.id);
    if text::text_before(a.id, b.id) && text::text_before(b.id, c.id) {
        text::lemma_text_before_transitive(a.id, b.id, c.id);
    }
    if text::text_before(a.id, b.id) && text::text_before(b.id, a.id) {
        text::lemma_text_before_transitive(a.id, b.id, a.id);
    }
}

/// The item waits to be handed out.
pub open spec fn available(record: RecordView) -> bool {
    record.state is Pending && record.lease is None
}

/// The item at `index` is the oldest of those that wait.
pub open spec fn oldest_available(records: Seq<RecordView>, index: int) -> bool {
    &&& 0 <= index < records.len()
    &&& available(records[index])
    &&& forall|i: int|
        0 <= i < records.len() && i != index && available(#[trigger] records[i])
            ==> created_before(records[index], records[i])
}

/// Somebody has the right to work on an item at `now`.
pub open spec fn any_live(records: Seq<RecordView>, now: u64) -> bool {
    exists|i: int| 0 <= i < records.len() && #[trigger] live(records[i], now)
}

/// An item waits to be handed out.
pub open spec fn any_available(records: Seq<RecordView>) -> bool {
    exists|i: int| 0 <= i < records.len() && #[trigger] available(records[i])
}

/// The item with the right to work on it given to `owner`.
pub open spec fn leased(record: RecordView, owner: Seq<char>, now: u64, duration: u64) -> RecordView {
    RecordView {
        lease: Some(LeaseView { owner, expires_at: later(now, duration) }),
        ..record
    }
}

/// What a request for the next item does: nothing is handed out while somebody
/// has the right to work on an item or while none waits; else the oldest item
/// that waits is.
pub open spec fn lease_outcome(
    records: Seq<RecordView>,
    owner: Seq<char>,
    now: u64,
    duration: u64,
    after: Seq<RecordView>,
    handed_out: Option<RecordView>,
) -> bool {
    let base = settled_all(records, now);
    match handed_out {
        None => after == base && (any_live(base, now) || !any_available(base)),
        Some(item) => !any_live(base, now) && exists|index: int|
            {
                &&& #[trigger] oldest_available(base, index)
                &&& item == leased(base[index], owner, now, duration)
                &&& after == base.update(index, item)
            },
    }
}

/// What an optional record holds.
pub open spec fn optional_record(record: Option<FeedbackRecord>) -> Option<RecordView> {
    match record {
        Some(record) => Some(record@),
        None => None,
    }
}

proof fn lemma_identified_kept(before: Seq<RecordView>, after: Seq<RecordView>)
    requires
        identified(before),
        before.len() == after.len(),
        forall|i: int| 0 <= i < before.len() ==> (#[trigger] after[i]).id == before[i].id,
    ensures
        identified(after),
{
    assert forall|i: int| 0 <= i < after.len() implies feedback::valid_feedback_id(
        (#[trigger] after[i]).id,
    ) by {
        assert(feedback::valid_feedback_id(before[i].id));
    }
    assert forall|i: int, j: int| #![trigger after[i], after[j]]
        0 <= i < j < after.len() implies after[i].id != after[j].id by {
        assert(before[i].id != before[j].id);
    }
}

/// Hands the oldest waiting item to `owner` for `duration_millis`, after putting
/// items that are due back into the queue.
pub fn lease_next_at(
    store: &mut FeedbackStore,
    owner: &str,
    now: u64,
    duration_millis: u64,
) -> (r: Option<FeedbackRecord>)
    requires
        old(store).wf(),
    ensures
        final(store).wf(),
        lease_outcome(
            old(store)@,
            owner@,
            now,
            duration_millis,
            final(store)@,
            optional_record(r),
        ),
{
    recover_expired_leases_at(store, now);
    let ghost base = store@;
    let mut oldest: Option<usize> = None;
    let mut i: usize = 0;
    while i < store.records.len()
        invariant
            store.wf(),
            store@ == base,
            base == settled_all(old(store)@, now),
            i <= store.records@.len(),
            forall|k: int| 0 <= k < i ==> !live(#[trigger] base[k], now),
            match oldest {
                None => forall|k: int| 0 <= k < i ==> !available(#[trigger] base[k]),
                Some(index) => index < i && available(base[index as int]) && (forall|k: int|
                    0 <= k < i && k != index && available(#[trigger] base[k]) ==> created_before(
                        base[index as int],
                        base[k],
                    )),
            },
        decreases store.records.len() - i,
    {
        let record = &store.records[i];
        assert(record@ == base[i as int]);
        if is_live(record, now) {
            assert(live(base[i as int], now));
            return None;
        }
        if record.state == FeedbackState::Pending && record.lease.is_none() {
            match oldest {
                None => {
                    oldest = Some(i);
                },
                Some(index) => {
                    assert(store.records@[index as int]@ == base[index as int]);
                    let ghost older = base[index as int];
                    let ghost newer = base[i as int];
                    proof {
                        lemma_creation_order(older, newer, newer);
                    }
                    if is_created_before(record, &store.records[index]) {
                        proof {
                            assert forall|k: int|
                                0 <= k < i + 1 && k != i && available(
                                    #[trigger] base[k],
                                ) implies created_before(newer, base[k]) by {
                                lemma_creation_order(newer, older, base[k]);
                            }
                        }
                        oldest = Some(i);
                    } else {
                        assert(older.id != newer.id);
                    }
                },
            }
        }
        i += 1;
    }
    assert(!any_live(base, now));
    match oldest {
        None => {
            assert(!any_available(base));
            None
        },
        Some(index) => {
            let lease = FeedbackLease {
                owner: owner.to_owned(),
                expires_at: now.saturating_add(duration_millis),
            };
            assert(store.records@[index as int]@ == base[index as int]);
            assert(oldest_available(base, index as int));
            store.records[index].lease = Some(lease);
            proof {
                let item = leased(base[index as int], owner@, now, duration_millis);
                assert(store@ =~= base.update(index as int, item));
                lemma_identified_kept(base, store@);
            }
            Some(store.records[index].clone())
        },
    }
}

/// Hands the oldest waiting item to `owner` for the usual time.
pub fn lease_next(store: &mut FeedbackStore, owner: &str, now: u64) -> (r: Option<FeedbackRecord>)
    requires
        old(store).wf(),
    ensures
        final(store).wf(),
        lease_outcome(
            old(store)@,
            owner@,
            now,
            DEFAULT_LEASE_DURATION_MILLIS,
            final(store)@,
            optional_record(r),
        ),
{
    lease_next_at(store, owner, now, DEFAULT_LEASE_DURATION_MILLIS)
}

/// The first point in time at which a lease runs out.
pub open spec fn next_expiry(records: Seq<RecordView>) -> Option<u64>
    decreases records.len(),
{
    if records.len() == 0 {
        None
    } else {
        match (next_expiry(records.drop_last()), records.last().lease) {
            (Some(first), Some(lease)) => Some(
                if first <= lease.expires_at {
                    first
                } else {
                    lease.expires_at
                },
            ),
            (Some(first), None) => Some(first),
            (None, Some(lease)) => Some(lease.expires_at),
            (None, None) => None,
        }
    }
}

/// How long it takes until the first lease runs out, if there is one.
pub fn time_until_next_lease_expiry(store: &FeedbackStore, now: u64) -> (r: Option<u64>)
    ensures
        match next_expiry(store@) {
            Some(first) => r == Some(
                if first > now {
                    (first - now) as u64
                } else {
                    0u64
                },
            ),
            None => r is None,
        },
{
    let mut next: Option<u64> = None;
    let mut i: usize = 0;
    while i < store.records.len()
        invariant
            i <= store.records@.len(),
            next == next_expiry(store@.take(i as int)),
        decreases store.records.len() - i,
    {
        assert(store@[i as int] == store.records@[i as int]@);
        assert(store@.take(i + 1).drop_last() =~= store@.take(i as int));
        if let Some(lease) = &store.records[i].lease {
            next = match next {
                Some(first) => if first <= lease.expires_at {
                    Some(first)
                } else {
                    Some(lease.expires_at)
                },
                None => Some(lease.expires_at),
            };
        }
        i += 1;
    }
    assert(store@.take(store@.len() as int) =~= store@);
    match next {
        Some(first) => Some(first.saturating_sub(now)),
        None => None,
    }
}

/// `owner` has the right to work on the item at `now`.
pub open spec fn held_by(record: RecordView, owner: Seq<char>, now: u64) -> bool {
    record.lease matches Some(lease) && lease.owner == owner && lease.expires_at > now
}

/// The item after `owner` gave a sign of life: its lease lasts at least for
/// `duration` more.
pub open spec fn renewed(record: RecordView, owner: Seq<char>, now: u64, duration: u64) -> RecordView {
    if held_by(record, owner, now) {
        RecordView {
            lease: Some(
                LeaseView {
                    owner,
                    expires_at: latest(record.lease->0.expires_at, later(now, duration)),
                },
            ),
            ..record
        }
    } else {
        record
    }
}

/// The items after a sign of life of `owner`.
pub open spec fn renewed_all(
    records: Seq<RecordView>,
    owner: Seq<char>,
    now: u64,
    duration: u64,
) -> Seq<RecordView> {
    records.map_values(|record: RecordView| renewed(record, owner, now, duration))
}

/// How many items `owner` has the right to work on.
pub open spec fn held_count(records: Seq<RecordView>, owner: Seq<char>, now: u64) -> nat
    decreases records.len(),
{
    if records.len() == 0 {
        0
    } else {
        held_count(records.drop_last(), owner, now) + if held_by(records.last(), owner, now) {
            1nat
        } else {
            0nat
        }
    }
}

fn is_held_by(record: &FeedbackRecord, owner: &str, now: u64) -> (r: bool)
    ensures
        r == held_by(record@, owner@, now),
{
    match &record.lease {
        Some(lease) => same_text(lease.owner.as_str(), owner) && lease.expires_at > now,
        None => false,
    }
}

/// Extends the lease, so that it lasts at least for `duration_millis` more.
fn extend_lease(record: &mut FeedbackRecord, now: u64, duration_millis: u64)
    requires
        old(record)@.lease is Some,
    ensures
        final(record)@ == (RecordView {
            lease: Some(
                LeaseView {
                    owner: old(record)@.lease->0.owner,
                    expires_at: latest(
                        old(record)@.lease->0.expires_at,
                        later(now, duration_millis),
                    ),
                },
            ),
            ..old(record)@
        }),
{
    let until: u64 = now.saturating_add(duration_millis);
    match record.lease.take() {
        Some(lease) => {
            let expires_at: u64 = if lease.expires_at >= until {
                lease.expires_at
            } else {
                until
            };
            record.lease = Some(FeedbackLease { owner: lease.owner, expires_at });
        },
        None => {},
    }
}

/// Extends every lease that `owner` holds; says how many there are.
pub fn renew_owner_leases_at(
    store: &mut FeedbackStore,
    owner: &str,
    now: u64,
    duration_millis: u64,
) -> (renewed_count: usize)
    requires
        old(store).wf(),
    ensures
        final(store).wf(),
        final(store)@ == renewed_all(old(store)@, owner@, now, duration_millis),
        renewed_count == held_count(old(store)@, owner@, now),
{
    let ghost before = store@;
    let mut renewed_count: usize = 0;
    let mut i: usize = 0;
    while i < store.records.len()
        invariant
            identified(before),
            i <= store.records@.len(),
            store@.len() == before.len(),
            forall|k: int|
                0 <= k < before.len() ==> #[trigger] store@[k] == if k < i {
                    renewed(before[k], owner@, now, duration_millis)
                } else {
                    before[k]
                },
            renewed_count == held_count(before.take(i as int), owner@, now),
            renewed_count <= i,
        decreases store.records.len() - i,
    {
        assert(store.records@[i as int]@ == store@[i as int]);
        assert(before.take(i + 1).drop_last() =~= before.take(i as int));
        let ghost previous = store@;
        if is_held_by(&store.records[i], owner, now) {
            extend_lease(&mut store.records[i], now, duration_millis);
            renewed_count += 1;
        }
        assert(store@ =~= previous.update(
            i as int,
            renewed(before[i as int], owner@, now, duration_millis),
        ));
        i += 1;
    }
    assert(before.take(before.len() as int) =~= before);
    assert(store@ =~= renewed_all(before, owner@, now, duration_millis));
    proof {
        lemma_identified_kept(before, store@);
    }
    renewed_count
}

/// Extends every lease that `owner` holds to the usual time.
pub fn renew_owner_leases(store: &mut FeedbackStore, owner: &str, now: u64) -> (renewed_count:
    usize)
    requires
        old(store).wf(),
    ensures
        final(store).wf(),
        final(store)@ == renewed_all(old(store)@, owner@, now, DEFAULT_LEASE_DURATION_MILLIS),
        renewed_count == held_count(old(store)@, owner@, now),
{
    renew_owner_leases_at(store, owner, now, DEFAULT_LEASE_DURATION_MILLIS)
}

/// `owner` has the right to work on an item whose work is not over.
pub open spec fn owner_at_work(records: Seq<RecordView>, owner: Seq<char>, now: u64) -> bool {
    exists|i: int|
        0 <= i < records.len() && !records[i].state.terminal() && #[trigger] held_by(
            records[i],
            owner,
            now,
        )
}

/// Tests whether `owner` has the right to work on an item, after putting items
/// that are due back into the queue.
pub fn owner_has_live_lease(store: &mut FeedbackStore, owner: &str, now: u64) -> (r: bool)
    requires
        old(store).wf(),
    ensures
        final(store).wf(),
        final(store)@ == settled_all(old(store)@, now),
        r == owner_at_work(settled_all(old(store)@, now), owner@, now),
{
    recover_expired_leases_at(store, now);
    let mut i: usize = 0;
    while i < store.records.len()
        invariant
            store.wf(),
            store@ == settled_all(old(store)@, now),
            i <= store.records@.len(),
            forall|k: int|
                0 <= k < i ==> store@[k].state.terminal() || !#[trigger] held_by(
                    store@[k],
                    owner@,
                    now,
                ),
        decreases store.records.len() - i,
    {
        assert(store.records@[i as int]@ == store@[i as int]);
        if !store.records[i].state.is_terminal() && is_held_by(&store.records[i], owner, now) {
            assert(held_by(store@[i as int], owner@, now));
            return true;
        }
        i += 1;
    }
    false
}

/// The steps of the life of an item: taken up, worked on, then resolved or
/// failed.
pub open spec fn allowed_step(from: FeedbackState, to: FeedbackState) -> bool {
    ||| (from is Pending && to is Acknowledged)
    ||| (from is Acknowledged && to is Working)
    ||| (from is Working && to is Resolved)
    ||| (from is Working && to is Failed)
}

/// Why a step is refused, or `None` where it is allowed.
pub open spec fn step_problem(
    from: Seq<char>,
    to: Seq<char>,
    reason: Option<Seq<char>>,
) -> Option<QueueErrorView> {
    match (FeedbackState::named(from), FeedbackState::named(to)) {
        (Some(from_state), Some(to_state)) => if !allowed_step(from_state, to_state) {
            Some(QueueErrorView::InvalidTransition { from, to })
        } else if to_state is Failed && !(reason matches Some(given) && !text::blank(given)) {
            Some(QueueErrorView::MissingFailureReason)
        } else {
            None
        },
        _ => Some(QueueErrorView::InvalidTransition { from, to }),
    }
}

/// The characters of an optional text.
pub open spec fn optional_str(value: Option<&str>) -> Option<Seq<char>> {
    match value {
        Some(content) => Some(content@),
        None => None,
    }
}

/// Accepts a step between two states, given by their names, or says why it is
/// refused.
pub fn validate_transition(from: &str, to: &str, reason: Option<&str>) -> (r: Result<
    (),
    QueueError,
>)
    ensures
        match r {
            Ok(_) => step_problem(from@, to@, optional_str(reason)) is None,
            Err(error) => step_problem(from@, to@, optional_str(reason)) == Some(error@),
        },
{
    let valid = match (FeedbackState::try_from(from), FeedbackState::try_from(to)) {
        (Ok(FeedbackState::Pending), Ok(FeedbackState::Acknowledged)) => true,
        (Ok(FeedbackState::Acknowledged), Ok(FeedbackState::Working)) => true,
        (Ok(FeedbackState::Working), Ok(FeedbackState::Resolved)) => true,
        (Ok(FeedbackState::Working), Ok(FeedbackState::Failed)) => match reason {
            Some(given) => if is_blank(given) {
                return Err(QueueError::MissingFailureReason);
            } else {
                true
            },
            None => return Err(QueueError::MissingFailureReason),
        },
        _ => false,
    };
    if valid {
        Ok(())
    } else {
        Err(QueueError::InvalidTransition { from: from.to_owned(), to: to.to_owned() })
    }
}

/// The item after a step to `next`: a failure keeps its reason, the end of the
/// work ends the lease, and any other step extends it.
pub open spec fn advanced(
    record: RecordView,
    next: FeedbackState,
    reason: Option<Seq<char>>,
    now: u64,
) -> RecordView {
    RecordView {
        state: next,
        failure_reason: if next is Failed {
            match reason {
                Some(given) => Some(text::trimmed(given)),
                None => None,
            }
        } else {
            record.failure_reason
        },
        lease: match record.lease {
            Some(lease) => if next.terminal() {
                None
            } else {
                Some(
                    LeaseView {
                        owner: lease.owner,
                        expires_at: latest(
                            lease.expires_at,
                            later(now, DEFAULT_LEASE_DURATION_MILLIS),
                        ),
                    },
                )
            },
            None => None,
        },
        ..record
    }
}

/// What a request to move an item from `expected` to `next` leads to: the item
/// is in the expected state, the step is allowed, and the one who asks holds the
/// lease; or the first of these that fails.
pub open spec fn step_outcome(
    record: RecordView,
    expected: Seq<char>,
    next: Seq<char>,
    owner: Seq<char>,
    reason: Option<Seq<char>>,
    now: u64,
) -> Result<RecordView, QueueErrorView> {
    if record.state.name() != expected {
        Err(QueueErrorView::CompareMismatch { expected, actual: record.state.name() })
    } else {
        match step_problem(expected, next, reason) {
            Some(problem) => Err(problem),
            None => match record.lease {
                None => Err(QueueErrorView::LeaseRequired),
                Some(lease) => if lease.owner != owner {
                    Err(QueueErrorView::LeaseOwnerMismatch { expected: owner, actual: lease.owner })
                } else {
                    Ok(advanced(record, FeedbackState::named(next)->0, reason, now))
                },
            },
        }
    }
}

/// What a result holds.
pub open spec fn outcome_view(r: Result<FeedbackRecord, QueueError>) -> Result<
    RecordView,
    QueueErrorView,
> {
    match r {
        Ok(record) => Ok(record@),
        Err(error) => Err(error@),
    }
}

/// The error for an identifier that no item has.
pub open spec fn missing(id: Seq<char>) -> QueueErrorView {
    if feedback::valid_feedback_id(id) {
        QueueErrorView::NotFound(id)
    } else {
        QueueErrorView::Io("feedback ID must match fb-<timestamp>-<hex suffix>"@)
    }
}

fn locate(store: &FeedbackStore, id: &str) -> (r: Result<usize, QueueError>)
    requires
        store.wf(),
    ensures
        match r {
            Ok(index) => index < store@.len() && index == id_position(store@, id@, 0)
                && store@[index as int].id == id@,
            Err(error) => id_position(store@, id@, 0) == store@.len() && error@ == missing(id@),
        },
{
    proof {
        lemma_id_position(store@, id@, 0);
        let at = id_position(store@, id@, 0);
        if at < store@.len() {
            assert(feedback::valid_feedback_id(store@[at].id));
        }
    }
    match validate_feedback_id(id) {
        Ok(_) => {},
        Err(message) => return Err(QueueError::Io(message.to_owned())),
    }
    match store.find(id) {
        Some(index) => Ok(index),
        None => Err(QueueError::NotFound(id.to_owned())),
    }
}

fn step(
    record: &mut FeedbackRecord,
    expected_state: &str,
    next_state: &str,
    owner: &str,
    reason: Option<&str>,
    now: u64,
) -> (r: Result<(), QueueError>)
    ensures
        match step_outcome(
            old(record)@,
            expected_state@,
            next_state@,
            owner@,
            optional_str(reason),
            now,
        ) {
            Ok(after) => r is Ok && final(record)@ == after,
            Err(problem) => r matches Err(error) && error@ == problem && final(record)@ == old(
                record,
            )@,
        },
{
    if !same_text(record.state.as_str(), expected_state) {
        return Err(
            QueueError::CompareMismatch {
                expected: expected_state.to_owned(),
                actual: record.state.as_str().to_owned(),
            },
        );
    }
    if let Err(error) = validate_transition(expected_state, next_state, reason) {
        return Err(error);
    }
    match &record.lease {
        None => return Err(QueueError::LeaseRequired),
        Some(lease) => if !same_text(lease.owner.as_str(), owner) {
            return Err(
                QueueError::LeaseOwnerMismatch {
                    expected: owner.to_owned(),
                    actual: lease.owner.clone(),
                },
            );
        },
    }
    let next = match FeedbackState::try_from(next_state) {
        Ok(next) => next,
        Err(_) => return Err(
            QueueError::InvalidTransition {
                from: expected_state.to_owned(),
                to: next_state.to_owned(),
            },
        ),
    };
    record.state = next;
    if next == FeedbackState::Failed {
        record.failure_reason = match reason {
            Some(given) => Some(trim(given)),
            None => None,
        };
    }
    if next.is_terminal() {
        record.lease = None;
    } else {
        extend_lease(record, now, DEFAULT_LEASE_DURATION_MILLIS);
    }
    Ok(())
}

/// Moves an item from the expected state to the next one, on behalf of the
/// holder of its lease. An item that is due goes back into the queue first, and
/// stays there whatever becomes of the request.
pub fn transition_at(
    store: &mut FeedbackStore,
    id: &str,
    expected_state: &str,
    next_state: &str,
    owner: &str,
    reason: Option<&str>,
    now: u64,
) -> (r: Result<FeedbackRecord, QueueError>)
    requires
        old(store).wf(),
    ensures
        final(store).wf(),
        ({
            let before = old(store)@;
            let index = id_position(before, id@, 0);
            if index < before.len() {
                let base = settled(before[index], now);
                let outcome = step_outcome(
                    base,
                    expected_state@,
                    next_state@,
                    owner@,
                    optional_str(reason),
                    now,
                );
                &&& outcome_view(r) == outcome
                &&& final(store)@ == before.update(
                    index,
                    match outcome {
                        Ok(after) => after,
                        Err(_) => base,
                    },
                )
            } else {
                &&& outcome_view(r) == Err::<RecordView, QueueErrorView>(missing(id@))
                &&& final(store)@ == before
            }
        }),
{
    let ghost before = store@;
    let index: usize = match locate(store, id) {
        Ok(index) => index,
        Err(error) => return Err(error),
    };
    assert(store.records@[index as int]@ == before[index as int]);
    if is_due(&store.records[index], now) {
        recover_record(&mut store.records[index], now);
    }
    let ghost base = settled(before[index as int], now);
    assert(store@ =~= before.update(index as int, base));
    assert(store.records@[index as int]@ == base);
    let r = step(&mut store.records[index], expected_state, next_state, owner, reason, now);
    let ghost stepped = store.records@[index as int]@;
    proof {
        assert(store@ =~= before.update(index as int, stepped));
        lemma_identified_kept(before, store@);
    }
    match r {
        Ok(_) => Ok(store.records[index].clone()),
        Err(error) => Err(error),
    }
}

/// The item is leased to `owner` and its work is not over.
pub open spec fn unfinished_for(record: RecordView, owner: Seq<char>) -> bool {
    (record.lease matches Some(lease) && lease.owner == owner) && !record.state.terminal()
}

/// The items after `owner` has given up its leases.
pub open spec fn released_all(records: Seq<RecordView>, owner: Seq<char>, now: u64) -> Seq<
    RecordView,
> {
    records.map_values(
        |record: RecordView|
            if unfinished_for(record, owner) {
                recovered(record, now)
            } else {
                record
            },
    )
}

/// How many items are leased to `owner` and unfinished.
pub open spec fn unfinished_count(records: Seq<RecordView>, owner: Seq<char>) -> nat
    decreases records.len(),
{
    if records.len() == 0 {
        0
    } else {
        unfinished_count(records.drop_last(), owner) + if unfinished_for(records.last(), owner) {
            1nat
        } else {
            0nat
        }
    }
}

/// Puts the unfinished items of `owner` back into the queue; says how many there
/// were.
pub fn release_owner_leases_at(store: &mut FeedbackStore, owner: &str, now: u64) -> (released:
    usize)
    requires
        old(store).wf(),
    ensures
        final(store).wf(),
        final(store)@ == released_all(old(store)@, owner@, now),
        released == unfinished_count(old(store)@, owner@),
{
    let ghost before = store@;
    let ghost target = released_all(before, owner@, now);
    let mut released: usize = 0;
    let mut i: usize = 0;
    while i < store.records.len()
        invariant
            identified(before),
            target == released_all(before, owner@, now),
            i <= store.records@.len(),
            store@.len() == before.len(),
            forall|k: int|
                0 <= k < before.len() ==> #[trigger] store@[k] == if k < i {
                    target[k]
                } else {
                    before[k]
                },
            released == unfinished_count(before.take(i as int), owner@),
            released <= i,
        decreases store.records.len() - i,
    {
        assert(store.records@[i as int]@ == store@[i as int]);
        assert(before.take(i + 1).drop_last() =~= before.take(i as int));
        let ghost previous = store@;
        let owned = match &store.records[i].lease {
            Some(lease) => same_text(lease.owner.as_str(), owner),
            None => false,
        };
        if owned && !store.records[i].state.is_terminal() {
            recover_record(&mut store.records[i], now);
            released += 1;
        }
        assert(store@ =~= previous.update(i as int, target[i as int]));
        i += 1;
    }
    assert(before.take(before.len() as int) =~= before);
    assert(store@ =~= target);
    proof {
        lemma_identified_kept(before, store@);
    }
    released
}

/// What a request of `owner` to give up one lease leads to.
pub open spec fn release_outcome(record: RecordView, owner: Seq<char>, now: u64) -> Result<
    RecordView,
    QueueErrorView,
> {
    match record.lease {
        None => Err(QueueErrorView::LeaseRequired),
        Some(lease) => if lease.owner != owner {
            Err(QueueErrorView::LeaseOwnerMismatch { expected: owner, actual: lease.owner })
        } else {
            Ok(recovered(record, now))
        },
    }
}

/// Puts one item back into the queue on behalf of the holder of its lease.
pub fn release_lease(store: &mut FeedbackStore, id: &str, owner: &str, now: u64) -> (r: Result<
    FeedbackRecord,
    QueueError,
>)
    requires
        old(store).wf(),
    ensures
        final(store).wf(),
        ({
            let before = old(store)@;
            let index = id_position(before, id@, 0);
            if index < before.len() {
                let outcome = release_outcome(before[index], owner@, now);
                &&& outcome_view(r) == outcome
                &&& final(store)@ == match outcome {
                    Ok(after) => before.update(index, after),
                    Err(_) => before,
                }
            } else {
                &&& outcome_view(r) == Err::<RecordView, QueueErrorView>(missing(id@))
                &&& final(store)@ == before
            }
        }),
{
    let ghost before = store@;
    let index: usize = match locate(store, id) {
        Ok(index) => index,
        Err(error) => return Err(error),
    };
    assert(store.records@[index as int]@ == before[index as int]);
    match &store.records[index].lease {
        None => return Err(QueueError::LeaseRequired),
        Some(lease) => if !same_text(lease.owner.as_str(), owner) {
            return Err(
                QueueError::LeaseOwnerMismatch {
                    expected: owner.to_owned(),
                    actual: lease.owner.clone(),
                },
            );
        },
    }
    recover_record(&mut store.records[index], now);
    proof {
        assert(store@ =~= before.update(index as int, recovered(before[index as int], now)));
        lemma_identified_kept(before, store@);
    }
    Ok(store.records[index].clone())
}

/// The item with the note whether it has lost its element on the page.
pub open spec fn marked(record: RecordView, orphaned: bool) -> RecordView {
    RecordView { orphaned, ..record }
}

/// Marks an item as having lost its element on the page, or as having it again;
/// nothing else of it changes.
pub fn set_orphaned(store: &mut FeedbackStore, id: &str, orphaned: bool) -> (r: Result<
    FeedbackRecord,
    QueueError,
>)
    requires
        old(store).wf(),
    ensures
        final(store).wf(),
        ({
            let before = old(store)@;
            let index = id_position(before, id@, 0);
            if index < before.len() {
                let after = marked(before[index], orphaned);
                &&& outcome_view(r) == Ok::<RecordView, QueueErrorView>(after)
                &&& final(store)@ == before.update(index, after)
            } else {
                &&& outcome_view(r) == Err::<RecordView, QueueErrorView>(missing(id@))
                &&& final(store)@ == before
            }
        }),
{
    let ghost before = store@;
    let index: usize = match locate(store, id) {
        Ok(index) => index,
        Err(error) => return Err(error),
    };
    assert(store.records@[index as int]@ == before[index as int]);
    store.records[index].orphaned = orphaned;
    proof {
        let after = marked(before[index as int], orphaned);
        assert(store@ =~= before.update(index as int, after));
        lemma_identified_kept(before, store@);
    }
    Ok(store.records[index].clone())
}

/// The item with an identifier.
pub fn read_record(store: &FeedbackStore, id: &str) -> (r: Result<FeedbackRecord, QueueError>)
    requires
        store.wf(),
    ensures
        ({
            let index = id_position(store@, id@, 0);
            if index < store@.len() {
                outcome_view(r) == Ok::<RecordView, QueueErrorView>(store@[index])
            } else {
                outcome_view(r) == Err::<RecordView, QueueErrorView>(missing(id@))
            }
        }),
{
    match locate(store, id) {
        Ok(index) => {
            assert(store.records@[index as int]@ == store@[index as int]);
            Ok(store.records[index].clone())
        },
        Err(error) => Err(error),
    }
}

/// Puts an item in the place of the one with its identifier, or adds it. An
/// identifier that is not accepted is refused.
pub fn write_record(store: &mut FeedbackStore, record: FeedbackRecord) -> (r: Result<
    (),
    &'static str,
>)
    requires
        old(store).wf(),
    ensures
        final(store).wf(),
        match r {
            Ok(_) => feedback::valid_feedback_id(record.id@) && final(store)@ == written(
                old(store)@,
                record@,
            ),
            Err(message) => !feedback::valid_feedback_id(record.id@) && final(store)@ == old(
                store,
            )@ && message@ == "feedback ID must match fb-<timestamp>-<hex suffix>"@,
        },
{
    let ghost before = store@;
    let ghost item = record@;
    if let Err(message) = validate_feedback_id(record.id.as_str()) {
        return Err(message);
    }
    proof {
        lemma_id_position(before, item.id, 0);
    }
    match store.find(record.id.as_str()) {
        Some(index) => {
            store.records[index] = record;
            proof {
                assert(store@ =~= before.update(index as int, item));
                lemma_identified_kept(before, store@);
            }
        },
        None => {
            store.records.push(record);
            proof {
                assert(store@ =~= before.push(item));
                assert forall|i: int, j: int| #![trigger store@[i], store@[j]]
                    0 <= i < j < store@.len() implies store@[i].id != store@[j].id by {
                    if j < before.len() {
                        assert(before[i].id != before[j].id);
                    } else {
                        assert(before[i].id != item.id);
                    }
                }
                assert forall|i: int| 0 <= i < store@.len() implies feedback::valid_feedback_id(
                    (#[trigger] store@[i]).id,
                ) by {
                    if i < before.len() {
                        assert(feedback::valid_feedback_id(before[i].id));
                    }
                }
            }
        },
    }
    Ok(())
}

/// Stores incoming feedback as a new item that waits.
pub fn store(items: &mut FeedbackStore, incoming: IncomingFeedback, created_at: u64) -> (r: Result<
    FeedbackRecord,
    RandomSourceUnavailable,
>)
    requires
        old(items).wf(),
    ensures
        final(items).wf(),
        match r {
            Ok(record) => feedback::valid_feedback_id(record.id@) && final(items)@ == written(
                old(items)@,
                record@,
            ) && exists|suffix: Seq<char>|
                session::hex_token(suffix, 16) && record@ == #[trigger] feedback::prepared(
                    incoming,
                    created_at,
                    suffix,
                ),
            Err(_) => final(items)@ == old(items)@,
        },
{
    let suffix = generate_session_id();
    proof {
        if suffix is Ok {
            feedback::lemma_session_suffix_is_accepted(created_at, suffix->Ok_0@);
        }
    }
    store_suffixed(items, incoming, created_at, suffix)
}

/// Stores incoming feedback as a new item that waits, where a suffix for its
/// identifier could be made.
pub fn store_suffixed(
    items: &mut FeedbackStore,
    incoming: IncomingFeedback,
    created_at: u64,
    suffix: Result<String, RandomSourceUnavailable>,
) -> (r: Result<FeedbackRecord, RandomSourceUnavailable>)
    requires
        old(items).wf(),
        suffix matches Ok(suffix) ==> feedback::valid_feedback_id(
            feedback::feedback_id_of(created_at, suffix@),
        ),
    ensures
        final(items).wf(),
        match suffix {
            Ok(suffix) => {
                &&& r matches Ok(record)
                &&& record@ == feedback::prepared(incoming, created_at, suffix@)
                &&& final(items)@ == written(old(items)@, record@)
            },
            Err(_) => r is Err && final(items)@ == old(items)@,
        },
{
    match prepare_suffixed(incoming, created_at, suffix) {
        Ok(record) => {
            let item = record.clone();
            match write_record(items, item) {
                Ok(_) => {},
                Err(_) => {},
            }
            Ok(record)
        },
        Err(error) => Err(error),
    }
}

} // verus!
