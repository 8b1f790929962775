//! Bounded listings of feedback items, oldest or newest first.
use crate::feedback::{FeedbackKind, FeedbackRecord, FeedbackState, RecordView, FEEDBACK_VIEW_LIMIT};
use crate::queue::{self, is_created_before, FeedbackStore};
use vstd::prelude::*;

verus! {

/// Which items a listing holds.
pub enum Selection {
    All,
    /// Items whose work is not over.
    Active,
    /// Comments on elements that are not resolved.
    Markers,
}

/// The item belongs to the selection.
pub open spec fn selects(selection: Selection, record: RecordView) -> bool {
    match selection {
        Selection::All => true,
        Selection::Active => !record.state.terminal(),
        Selection::Markers => record.kind is ElementComment && !(record.state is Resolved),
    }
}

/// `left` stands before `right` in a listing.
pub open spec fn ahead(left: RecordView, right: RecordView, newest_first: bool) -> bool {
    if newest_first {
        queue::created_before(right, left)
    } else {
        queue::created_before(left, right)
    }
}

/// The place for an item in a listing: before the first item that it stands
/// before.
pub open spec fn slot(listing: Seq<RecordView>, record: RecordView, newest_first: bool) -> int
    decreases listing.len(),
{
    if listing.len() == 0 || ahead(record, listing[0], newest_first) {
        0
    } else {
        1 + slot(listing.drop_first(), record, newest_first)
    }
}

/// The items of a selection in the order of a listing.
pub open spec fn ordered(
    records: Seq<RecordView>,
    selection: Selection,
    newest_first: bool,
) -> Seq<RecordView>
    decreases records.len(),
{
    if records.len() == 0 {
        Seq::empty()
    } else {
        let rest = ordered(records.drop_last(), selection, newest_first);
        if selects(selection, records.last()) {
            rest.insert(slot(rest, records.last(), newest_first), records.last())
        } else {
            rest
        }
    }
}

/// The first `limit` items, or all of them.
pub open spec fn first(listing: Seq<RecordView>, limit: nat) -> Seq<RecordView> {
    if listing.len() <= limit {
        listing
    } else {
        listing.take(limit as int)
    }
}

proof fn lemma_slot(listing: Seq<RecordView>, record: RecordView, newest_first: bool)
    ensures
        0 <= slot(listing, record, newest_first) <= listing.len(),
        slot(listing, record, newest_first) < listing.len() ==> ahead(
            record,
            listing[slot(listing, record, newest_first)],
            newest_first,
        ),
        forall|i: int|
            0 <= i < slot(listing, record, newest_first) ==> !ahead(
                record,
                #[trigger] listing[i],
                newest_first,
            ),
    decreases listing.len(),
{
    if listing.len() > 0 && !ahead(record, listing[0], newest_first) {
        let rest = listing.drop_first();
        lemma_slot(rest, record, newest_first);
        let at = slot(rest, record, newest_first);
        assert forall|i: int| 0 <= i < at + 1 implies !ahead(
            record,
            #[trigger] listing[i],
            newest_first,
        ) by {
            if i > 0 {
                assert(rest[i - 1] == listing[i]);
            }
        }
    }
}

proof fn lemma_slot_unique(
    listing: Seq<RecordView>,
    record: RecordView,
    newest_first: bool,
    at: int,
)
    requires
        0 <= at <= listing.len(),
        at < listing.len() ==> ahead(record, listing[at], newest_first),
        forall|i: int| 0 <= i < at ==> !ahead(record, #[trigger] listing[i], newest_first),
    ensures
        slot(listing, record, newest_first) == at,
{
    lemma_slot(listing, record, newest_first);
    let found = slot(listing, record, newest_first);
    if found < at {
        assert(!ahead(record, listing[found], newest_first));
    } else if at < found {
        assert(!ahead(record, listing[at], newest_first));
    }
}

/// The items of a listing in strict order.
pub open spec fn strictly_ordered(listing: Seq<RecordView>, newest_first: bool) -> bool {
    forall|i: int, j: int| #![trigger listing[i], listing[j]]
        0 <= i < j < listing.len() ==> ahead(listing[i], listing[j], newest_first)
}

proof fn lemma_ahead(a: RecordView, b: RecordView, c: RecordView, newest_first: bool)
    ensures
        !ahead(a, a, newest_first),
        ahead(a, b, newest_first) && ahead(b, c, newest_first) ==> ahead(a, c, newest_first),
        a.id != b.id ==> ahead(a, b, newest_first) || ahead(b, a, newest_first),
{
    queue::lemma_creation_order(a, b, c);
    queue::lemma_creation_order(c, b, a);
}

/// A listing holds the items of the selection, each once and no other, in
/// strict order.
pub proof fn lemma_ordered(records: Seq<RecordView>, selection: Selection, newest_first: bool)
    requires
        queue::identified(records),
    ensures
        strictly_ordered(ordered(records, selection, newest_first), newest_first),
        forall|record: RecordView| #[trigger]
            ordered(records, selection, newest_first).contains(record) <==> records.contains(record)
                && selects(selection, record),
    decreases records.len(),
{
    if records.len() > 0 {
        let init = records.drop_last();
        let last = records.last();
        let rest = ordered(init, selection, newest_first);
        let whole = ordered(records, selection, newest_first);
        assert forall|i: int, j: int| #![trigger init[i], init[j]]
            0 <= i < j < init.len() implies init[i].id != init[j].id by {
            assert(records[i].id != records[j].id);
        }
        assert forall|i: int| 0 <= i < init.len() implies crate::feedback::valid_feedback_id(
            (#[trigger] init[i]).id,
        ) by {
            assert(crate::feedback::valid_feedback_id(records[i].id));
        }
        lemma_ordered(init, selection, newest_first);
        let at = slot(rest, last, newest_first);
        lemma_slot(rest, last, newest_first);
        if selects(selection, last) {
            assert forall|i: int| 0 <= i < rest.len() implies (#[trigger] rest[i]).id != last.id by {
                assert(rest.contains(rest[i]));
                let k = choose|k: int| 0 <= k < init.len() && init[k] == rest[i];
                assert(records[k].id != records[records.len() - 1].id);
            }
            assert forall|i: int, j: int| #![trigger whole[i], whole[j]]
                0 <= i < j < whole.len() implies ahead(whole[i], whole[j], newest_first) by {
                if i < at && j == at {
                    assert(whole[i] == rest[i]);
                    lemma_ahead(rest[i], last, last, newest_first);
                } else if i == at {
                    assert(whole[j] == rest[j - 1]);
                    if j - 1 > at {
                        assert(ahead(rest[at], rest[j - 1], newest_first));
                        lemma_ahead(last, rest[at], rest[j - 1], newest_first);
                    }
                } else {
                    let left = if i < at {
                        i
                    } else {
                        i - 1
                    };
                    let right = if j < at {
                        j
                    } else {
                        j - 1
                    };
                    assert(whole[i] == rest[left] && whole[j] == rest[right]);
                    assert(ahead(rest[left], rest[right], newest_first));
                }
            }
        }
        assert forall|record: RecordView| #[trigger] whole.contains(record) <==> records.contains(
            record,
        ) && selects(selection, record) by {
            if whole.contains(record) {
                let k = choose|k: int| 0 <= k < whole.len() && whole[k] == record;
                if selects(selection, last) {
                    if k == at {
                        assert(records[records.len() - 1] == record);
                    } else {
                        let from = if k < at {
                            k
                        } else {
                            k - 1
                        };
                        assert(rest[from] == record);
                        assert(rest.contains(record));
                        let m = choose|m: int| 0 <= m < init.len() && init[m] == record;
                        assert(records[m] == record);
                    }
                } else {
                    assert(rest.contains(record));
                    let m = choose|m: int| 0 <= m < init.len() && init[m] == record;
                    assert(records[m] == record);
                }
            }
            if records.contains(record) && selects(selection, record) {
                let m = choose|m: int| 0 <= m < records.len() && records[m] == record;
                if m < init.len() {
                    assert(init[m] == record);
                    assert(init.contains(record));
                    assert(rest.contains(record));
                    let k = choose|k: int| 0 <= k < rest.len() && rest[k] == record;
                    if selects(selection, last) {
                        let to = if k < at {
                            k
                        } else {
                            k + 1
                        };
                        assert(whole[to] == record);
                    }
                } else {
                    assert(whole[at] == record);
                }
            }
        }
    }
}

fn is_selected(selection: &Selection, record: &FeedbackRecord) -> (r: bool)
    ensures
        r == selects(*selection, record@),
{
    match selection {
        Selection::All => true,
        Selection::Active => !record.state.is_terminal(),
        Selection::Markers => record.kind == FeedbackKind::ElementComment && record.state
            != FeedbackState::Resolved,
    }
}

fn is_ahead(left: &FeedbackRecord, right: &FeedbackRecord, newest_first: bool) -> (r: bool)
    ensures
        r == ahead(left@, right@, newest_first),
{
    if newest_first {
        is_created_before(right, left)
    } else {
        is_created_before(left, right)
    }
}

proof fn lemma_first_of_inserted(
    listing: Seq<RecordView>,
    record: RecordView,
    newest_first: bool,
    limit: nat,
    at: int,
)
    requires
        at == slot(first(listing, limit), record, newest_first),
    ensures
        first(listing.insert(slot(listing, record, newest_first), record), limit) == first(
            first(listing, limit).insert(at, record),
            limit,
        ),
{
    let kept = first(listing, limit);
    let place = slot(listing, record, newest_first);
    lemma_slot(listing, record, newest_first);
    lemma_slot(kept, record, newest_first);
    if listing.len() > limit {
        if place < limit {
            assert(kept[place] == listing[place]);
            assert forall|i: int| 0 <= i < place implies !ahead(
                record,
                #[trigger] kept[i],
                newest_first,
            ) by {
                assert(kept[i] == listing[i]);
            }
            lemma_slot_unique(kept, record, newest_first, place);
        } else {
            assert forall|i: int| 0 <= i < limit implies !ahead(
                record,
                #[trigger] kept[i],
                newest_first,
            ) by {
                assert(kept[i] == listing[i]);
            }
            lemma_slot_unique(kept, record, newest_first, limit as int);
        }
        assert(first(listing.insert(place, record), limit) =~= first(
            kept.insert(at, record),
            limit,
        ));
    }
}

/// The first `limit` items of a selection.
pub fn bounded(
    records: &[FeedbackRecord],
    selection: Selection,
    newest_first: bool,
    limit: usize,
) -> (kept: Vec<FeedbackRecord>)
    ensures
        queue::record_views(kept@) == first(
            ordered(queue::record_views(records@), selection, newest_first),
            limit as nat,
        ),
{
    let ghost views = queue::record_views(records@);
    let mut kept: Vec<FeedbackRecord> = Vec::new();
    let mut i: usize = 0;
    assert(queue::record_views(kept@) =~= Seq::<RecordView>::empty());
    assert(views.take(0) =~= Seq::<RecordView>::empty());
    while i < records.len()
        invariant
            views == queue::record_views(records@),
            i <= records@.len(),
            queue::record_views(kept@) == first(
                ordered(views.take(i as int), selection, newest_first),
                limit as nat,
            ),
        decreases records.len() - i,
    {
        let record = &records[i];
        let ghost listing = ordered(views.take(i as int), selection, newest_first);
        let ghost before = queue::record_views(kept@);
        assert(views[i as int] == record@);
        assert(views.take(i + 1).drop_last() =~= views.take(i as int));
        if is_selected(&selection, record) {
            let mut at: usize = 0;
            while at < kept.len() && !is_ahead(record, &kept[at], newest_first)
                invariant
                    at <= kept@.len(),
                    before == queue::record_views(kept@),
                    forall|k: int|
                        0 <= k < at ==> !ahead(record@, #[trigger] before[k], newest_first),
                decreases kept.len() - at,
            {
                assert(before[at as int] == kept@[at as int]@);
                at += 1;
            }
            proof {
                if at < kept@.len() {
                    assert(before[at as int] == kept@[at as int]@);
                }
                lemma_slot_unique(before, record@, newest_first, at as int);
                lemma_first_of_inserted(listing, record@, newest_first, limit as nat, at as int);
            }
            kept.insert(at, record.clone());
            assert(queue::record_views(kept@) =~= before.insert(at as int, record@));
            if kept.len() > limit {
                let ghost longer = kept@;
                kept.truncate(limit);
                assert(queue::record_views(kept@) =~= queue::record_views(longer).take(
                    limit as int,
                ));
            }
        }
        i += 1;
    }
    assert(views.take(views.len() as int) =~= views);
    kept
}

/// The oldest items, oldest first.
pub fn list_records(store: &FeedbackStore) -> (records: Vec<FeedbackRecord>)
    ensures
        queue::record_views(records@) == first(
            ordered(store@, Selection::All, false),
            FEEDBACK_VIEW_LIMIT as nat,
        ),
{
    bounded(store.records().as_slice(), Selection::All, false, FEEDBACK_VIEW_LIMIT)
}

/// The oldest items whose work is not over, oldest first.
pub fn list_active_records(store: &FeedbackStore) -> (records: Vec<FeedbackRecord>)
    ensures
        queue::record_views(records@) == first(
            ordered(store@, Selection::Active, false),
            FEEDBACK_VIEW_LIMIT as nat,
        ),
{
    bounded(store.records().as_slice(), Selection::Active, false, FEEDBACK_VIEW_LIMIT)
}

/// The newest comments on elements that are not resolved, newest first.
pub fn marker_records(store: &FeedbackStore, limit: usize) -> (records: Vec<FeedbackRecord>)
    ensures
        queue::record_views(records@) == first(
            ordered(store@, Selection::Markers, true),
            limit as nat,
        ),
{
    bounded(store.records().as_slice(), Selection::Markers, true, limit)
}

/// How many items are in each state.
#[derive(Debug, Clone, Copy, PartialEq, Eq, Structural)]
pub struct FeedbackStateCounts {
    pub pending: usize,
    pub acknowledged: usize,
    pub working: usize,
    pub resolved: usize,
    pub failed: usize,
}

impl Default for FeedbackStateCounts {
    fn default() -> (counts: Self)
        ensures
            counts == (FeedbackStateCounts {
                pending: 0,
                acknowledged: 0,
                working: 0,
                resolved: 0,
                failed: 0,
            }),
    {
        FeedbackStateCounts { pending: 0, acknowledged: 0, working: 0, resolved: 0, failed: 0 }
    }
}

/// How many items are in a state.
pub open spec fn state_count(records: Seq<RecordView>, state: FeedbackState) -> nat
    decreases records.len(),
{
    if records.len() == 0 {
        0
    } else {
        state_count(records.drop_last(), state) + if records.last().state == state {
            1nat
        } else {
            0nat
        }
    }
}

/// The counts are those of the items.
pub open spec fn counts_are(counts: FeedbackStateCounts, records: Seq<RecordView>) -> bool {
    &&& counts.pending == state_count(records, FeedbackState::Pending)
    &&& counts.acknowledged == state_count(records, FeedbackState::Acknowledged)
    &&& counts.working == state_count(records, FeedbackState::Working)
    &&& counts.resolved == state_count(records, FeedbackState::Resolved)
    &&& counts.failed == state_count(records, FeedbackState::Failed)
}

/// Every item is counted once.
pub proof fn lemma_counts_add_up(records: Seq<RecordView>)
    ensures
        state_count(records, FeedbackState::Pending) + state_count(
            records,
            FeedbackState::Acknowledged,
        ) + state_count(records, FeedbackState::Working) + state_count(
            records,
            FeedbackState::Resolved,
        ) + state_count(records, FeedbackState::Failed) == records.len(),
    decreases records.len(),
{
    if records.len() > 0 {
        lemma_counts_add_up(records.drop_last());
    }
}

/// Counts one more item.
fn count_state(counts: &mut FeedbackStateCounts, state: FeedbackState)
    requires
        old(counts).pending < usize::MAX,
        old(counts).acknowledged < usize::MAX,
        old(counts).working < usize::MAX,
        old(counts).resolved < usize::MAX,
        old(counts).failed < usize::MAX,
    ensures
        forall|records: Seq<RecordView>, record: RecordView|
            record.state == state && counts_are(*old(counts), records) ==> #[trigger] counts_are(
                *final(counts),
                records.push(record),
            ),
{
    match state {
        FeedbackState::Pending => {
            counts.pending += 1;
        },
        FeedbackState::Acknowledged => {
            counts.acknowledged += 1;
        },
        FeedbackState::Working => {
            counts.working += 1;
        },
        FeedbackState::Resolved => {
            counts.resolved += 1;
        },
        FeedbackState::Failed => {
            counts.failed += 1;
        },
    }
    assert forall|records: Seq<RecordView>, record: RecordView|
        record.state == state && counts_are(
            *old(counts),
            records,
        ) implies #[trigger] counts_are(*counts, records.push(record)) by {
        assert(records.push(record).drop_last() =~= records);
    }
}

/// The newest items and how many there are of each state.
pub struct FeedbackDashboardView {
    pub records: Vec<FeedbackRecord>,
    pub counts: FeedbackStateCounts,
}

/// How many items there are of each state.
pub fn count_states(records: &[FeedbackRecord]) -> (counts: FeedbackStateCounts)
    ensures
        counts_are(counts, queue::record_views(records@)),
{
    let ghost views = queue::record_views(records@);
    let mut counts = FeedbackStateCounts::default();
    let mut i: usize = 0;
    assert(views.take(0) =~= Seq::<RecordView>::empty());
    while i < records.len()
        invariant
            views == queue::record_views(records@),
            i <= records@.len(),
            counts_are(counts, views.take(i as int)),
        decreases records.len() - i,
    {
        proof {
            lemma_counts_add_up(views.take(i as int));
            assert(views.take(i + 1) =~= views.take(i as int).push(views[i as int]));
            assert(views[i as int] == records@[i as int]@);
        }
        count_state(&mut counts, records[i].state);
        i += 1;
    }
    assert(views.take(views.len() as int) =~= views);
    counts
}

/// The newest items, newest first, and how many there are of each state.
pub fn dashboard_view(store: &FeedbackStore, limit: usize) -> (view: FeedbackDashboardView)
    ensures
        queue::record_views(view.records@) == first(
            ordered(store@, Selection::All, true),
            limit as nat,
        ),
        counts_are(view.counts, store@),
{
    let records = store.records().as_slice();
    FeedbackDashboardView {
        records: bounded(records, Selection::All, true, limit),
        counts: count_states(records),
    }
}

} // verus!
