//! What holds of the feedback queue as a whole.
use crate::feedback::{FeedbackState, RecordView};
use crate::queue;
use crate::text;
use vstd::prelude::*;

verus! {

/// The parts of an item that the one who gave the feedback is responsible for.
pub open spec fn same_payload(left: RecordView, right: RecordView) -> bool {
    &&& left.id == right.id
    &&& left.kind == right.kind
    &&& left.text == right.text
    &&& left.orphaned == right.orphaned
    &&& left.created_at == right.created_at
    &&& left.page_url == right.page_url
    &&& left.viewport == right.viewport
    &&& left.elements == right.elements
    &&& left.attachments == right.attachments
    &&& left.marks == right.marks
    &&& left.preview_draft == right.preview_draft
}

/// Neither recovery nor renewal nor a lease nor a step touches the payload of an
/// item.
pub proof fn lemma_payload_is_kept(
    record: RecordView,
    owner: Seq<char>,
    expected: Seq<char>,
    next: Seq<char>,
    reason: Option<Seq<char>>,
    now: u64,
    duration: u64,
)
    ensures
        same_payload(queue::recovered(record, now), record),
        same_payload(queue::settled(record, now), record),
        same_payload(queue::leased(record, owner, now, duration), record),
        same_payload(queue::renewed(record, owner, now, duration), record),
        queue::step_outcome(record, expected, next, owner, reason, now) matches Ok(after)
            ==> same_payload(after, record),
{
}

/// An item whose lease ran out before the work was over, or that somebody took
/// up without a lease, waits to be handed out again after recovery, with a note
/// of the state and the owner it had.
pub proof fn lemma_interrupted_work_returns(record: RecordView, now: u64)
    requires
        queue::due(record, now),
    ensures
        queue::available(queue::settled(record, now)),
        queue::settled(record, now).recovery matches Some(note) && note.previous_state
            == record.state && note.recovered_at == now && note.previous_owner == (
        match record.lease {
            Some(lease) => Some(lease.owner),
            None => None::<Seq<char>>,
        }),
{
}

/// Recovering a second time changes nothing.
pub proof fn lemma_recovery_is_idempotent(records: Seq<RecordView>, now: u64)
    ensures
        queue::settled_all(queue::settled_all(records, now), now) == queue::settled_all(
            records,
            now,
        ),
        queue::due_count(queue::settled_all(records, now), now) == 0,
    decreases records.len(),
{
    assert(queue::settled_all(queue::settled_all(records, now), now) =~= queue::settled_all(
        records,
        now,
    ));
    if records.len() > 0 {
        lemma_recovery_is_idempotent(records.drop_last(), now);
        assert(queue::settled_all(records, now).drop_last() =~= queue::settled_all(
            records.drop_last(),
            now,
        ));
    }
}

/// An item whose work is over stays as it is: it is not recovered, not given
/// back, not handed out, and no step leads on from it.
pub proof fn lemma_finished_work_stays(
    record: RecordView,
    owner: Seq<char>,
    expected: Seq<char>,
    next: Seq<char>,
    reason: Option<Seq<char>>,
    now: u64,
)
    requires
        record.state.terminal(),
    ensures
        queue::settled(record, now) == record,
        !queue::unfinished_for(record, owner),
        !queue::available(record),
        queue::step_outcome(record, expected, next, owner, reason, now) is Err,
{
    crate::feedback::lemma_state_names(record.state, expected);
}

/// A step that is made is one of the life of an item, starts from the state that
/// was expected, and is asked for by the holder of the lease; the end of the
/// work ends the lease.
pub proof fn lemma_steps_follow_the_life_of_an_item(
    record: RecordView,
    expected: Seq<char>,
    next: Seq<char>,
    owner: Seq<char>,
    reason: Option<Seq<char>>,
    now: u64,
)
    requires
        queue::step_outcome(record, expected, next, owner, reason, now) is Ok,
    ensures
        ({
            let after = queue::step_outcome(record, expected, next, owner, reason, now)->Ok_0;
            &&& queue::allowed_step(record.state, after.state)
            &&& record.state.name() == expected
            &&& after.state.name() == next
            &&& record.lease matches Some(lease) && lease.owner == owner
            &&& after.state.terminal() ==> after.lease is None
            &&& !after.state.terminal() ==> queue::held_by(after, owner, now) || now == u64::MAX
            &&& after.state is Failed ==> (after.failure_reason matches Some(given)
                && given.len() > 0)
        }),
{
    crate::feedback::lemma_state_names(record.state, expected);
    let to = FeedbackState::named(next)->0;
    crate::feedback::lemma_state_names(to, next);
    if let Some(given) = reason {
        text::lemma_blank_iff_trimmed_empty(given);
    }
}

/// A note on the element of an item and a step of the item do not disturb each
/// other: in whichever order they come, the item ends up with both, and the step
/// is refused or not for the same reason.
pub proof fn lemma_marking_commutes_with_steps(
    record: RecordView,
    orphaned: bool,
    expected: Seq<char>,
    next: Seq<char>,
    owner: Seq<char>,
    reason: Option<Seq<char>>,
    now: u64,
)
    ensures
        queue::settled(queue::marked(record, orphaned), now) == queue::marked(
            queue::settled(record, now),
            orphaned,
        ),
        queue::step_outcome(
            queue::settled(queue::marked(record, orphaned), now),
            expected,
            next,
            owner,
            reason,
            now,
        ) == (match queue::step_outcome(
            queue::settled(record, now),
            expected,
            next,
            owner,
            reason,
            now,
        ) {
            Ok(after) => Ok(queue::marked(after, orphaned)),
            Err(problem) => Err(problem),
        }),
{
}

/// At most one item is being worked on.
pub open spec fn single_owner(records: Seq<RecordView>, now: u64) -> bool {
    forall|i: int, j: int| #![trigger records[i], records[j]]
        0 <= i < records.len() && 0 <= j < records.len() && queue::live(records[i], now)
            && queue::live(records[j], now) ==> i == j
}

/// Time alone does not give a second item out.
pub proof fn lemma_single_owner_over_time(records: Seq<RecordView>, now: u64, then: u64)
    requires
        single_owner(records, now),
        now <= then,
    ensures
        single_owner(records, then),
{
    assert forall|i: int, j: int| #![trigger records[i], records[j]]
        0 <= i < records.len() && 0 <= j < records.len() && queue::live(records[i], then)
            && queue::live(records[j], then) implies i == j by {
        assert(queue::live(records[i], now) && queue::live(records[j], now));
    }
}

proof fn lemma_single_owner_of_fewer(before: Seq<RecordView>, after: Seq<RecordView>, now: u64)
    requires
        single_owner(before, now),
        before.len() == after.len(),
        forall|i: int|
            0 <= i < after.len() && queue::live(#[trigger] after[i], now) ==> queue::live(
                before[i],
                now,
            ),
    ensures
        single_owner(after, now),
{
    assert forall|i: int, j: int| #![trigger after[i], after[j]]
        0 <= i < after.len() && 0 <= j < after.len() && queue::live(after[i], now) && queue::live(
            after[j],
            now,
        ) implies i == j by {
        assert(queue::live(before[i], now) && queue::live(before[j], now));
    }
}

/// No operation of the queue lets two items be worked on at a time: not a
/// request for the next item, and neither recovery nor renewal nor giving up
/// leases.
pub proof fn lemma_one_item_at_a_time(
    records: Seq<RecordView>,
    owner: Seq<char>,
    now: u64,
    duration: u64,
    after: Seq<RecordView>,
    handed_out: Option<RecordView>,
)
    requires
        single_owner(records, now),
        queue::lease_outcome(records, owner, now, duration, after, handed_out),
    ensures
        single_owner(after, now),
        single_owner(queue::settled_all(records, now), now),
        single_owner(queue::renewed_all(records, owner, now, duration), now),
        single_owner(queue::released_all(records, owner, now), now),
{
    let base = queue::settled_all(records, now);
    lemma_single_owner_of_fewer(records, base, now);
    lemma_single_owner_of_fewer(
        records,
        queue::renewed_all(records, owner, now, duration),
        now,
    );
    lemma_single_owner_of_fewer(records, queue::released_all(records, owner, now), now);
    if let Some(item) = handed_out {
        let index = choose|index: int|
            {
                &&& #[trigger] queue::oldest_available(base, index)
                &&& item == queue::leased(base[index], owner, now, duration)
                &&& after == base.update(index, item)
            };
        assert forall|i: int, j: int| #![trigger after[i], after[j]]
            0 <= i < after.len() && 0 <= j < after.len() && queue::live(after[i], now)
                && queue::live(after[j], now) implies i == j by {
            if i != index {
                assert(queue::live(base[i], now));
            }
            if j != index {
                assert(queue::live(base[j], now));
            }
        }
    }
}

/// A step does not let a second item be worked on.
pub proof fn lemma_one_item_at_a_time_after_step(
    records: Seq<RecordView>,
    index: int,
    expected: Seq<char>,
    next: Seq<char>,
    owner: Seq<char>,
    reason: Option<Seq<char>>,
    now: u64,
)
    requires
        single_owner(records, now),
        0 <= index < records.len(),
    ensures
        ({
            let base = queue::settled(records[index], now);
            match queue::step_outcome(base, expected, next, owner, reason, now) {
                Ok(after) => single_owner(records.update(index, after), now),
                Err(_) => single_owner(records.update(index, base), now),
            }
        }),
{
    let base = queue::settled(records[index], now);
    match queue::step_outcome(base, expected, next, owner, reason, now) {
        Ok(after) => {
            lemma_steps_follow_the_life_of_an_item(base, expected, next, owner, reason, now);
            lemma_single_owner_of_fewer(records, records.update(index, after), now);
        },
        Err(_) => {
            lemma_single_owner_of_fewer(records, records.update(index, base), now);
        },
    }
}

/// The item that is handed out was created before every other that waits.
pub proof fn lemma_first_in_first_out(
    records: Seq<RecordView>,
    owner: Seq<char>,
    now: u64,
    duration: u64,
    after: Seq<RecordView>,
    item: RecordView,
    other: int,
)
    requires
        queue::lease_outcome(records, owner, now, duration, after, Some(item)),
        0 <= other < records.len(),
        queue::available(queue::settled_all(records, now)[other]),
        queue::settled_all(records, now)[other].id != item.id,
    ensures
        queue::created_before(item, queue::settled_all(records, now)[other]),
{
    let base = queue::settled_all(records, now);
    let index = choose|index: int|
        {
            &&& #[trigger] queue::oldest_available(base, index)
            &&& item == queue::leased(base[index], owner, now, duration)
            &&& after == base.update(index, item)
        };
    assert(index != other);
    assert(queue::created_before(base[index], base[other]));
}

/// While the lease of an item that was handed out lasts, nobody is handed
/// another.
pub proof fn lemma_lease_blocks_the_queue(
    records: Seq<RecordView>,
    owner: Seq<char>,
    now: u64,
    duration: u64,
    after: Seq<RecordView>,
    item: RecordView,
    other_owner: Seq<char>,
    then: u64,
    other_duration: u64,
    later_on: Seq<RecordView>,
    handed_out: Option<RecordView>,
)
    requires
        queue::lease_outcome(records, owner, now, duration, after, Some(item)),
        then < queue::later(now, duration),
        queue::lease_outcome(after, other_owner, then, other_duration, later_on, handed_out),
    ensures
        handed_out is None,
{
    let base = queue::settled_all(records, now);
    let index = choose|index: int|
        {
            &&& #[trigger] queue::oldest_available(base, index)
            &&& item == queue::leased(base[index], owner, now, duration)
            &&& after == base.update(index, item)
        };
    let settled = queue::settled_all(after, then);
    assert(settled[index] == item);
    assert(queue::live(settled[index], then));
}

/// A sign of life keeps an item from going back into the queue until the
/// duration that it asked for is over.
pub proof fn lemma_renewal_holds_off_recovery(
    record: RecordView,
    owner: Seq<char>,
    now: u64,
    duration: u64,
    then: u64,
)
    requires
        queue::held_by(record, owner, now),
        then < queue::later(now, duration),
    ensures
        !queue::due(queue::renewed(record, owner, now, duration), then),
        queue::settled(queue::renewed(record, owner, now, duration), then) == queue::renewed(
            record,
            owner,
            now,
            duration,
        ),
{
}

/// After an owner has given up its leases, no unfinished item is leased to it,
/// its unfinished items wait again, and nothing else has changed.
pub proof fn lemma_release_frees_the_owner(
    records: Seq<RecordView>,
    owner: Seq<char>,
    now: u64,
    index: int,
)
    requires
        0 <= index < records.len(),
    ensures
        ({
            let after = queue::released_all(records, owner, now);
            &&& after.len() == records.len()
            &&& !queue::unfinished_for(after[index], owner)
            &&& queue::unfinished_for(records[index], owner) ==> queue::available(after[index])
            &&& !queue::unfinished_for(records[index], owner) ==> after[index] == records[index]
        }),
{
}

/// Reading an identifier after a write gives the item that was written, where it
/// was written under that identifier, and else what reading gave before.
pub proof fn lemma_read_after_write(records: Seq<RecordView>, record: RecordView, id: Seq<char>)
    requires
        queue::identified(records),
    ensures
        ({
            let after = queue::written(records, record);
            let found = queue::id_position(after, id, 0);
            let found_before = queue::id_position(records, id, 0);
            if id == record.id {
                found < after.len() && after[found] == record
            } else if found_before < records.len() {
                found < after.len() && after[found] == records[found_before]
            } else {
                found == after.len()
            }
        }),
{
    let after = queue::written(records, record);
    queue::lemma_id_position(records, record.id, 0);
    queue::lemma_id_position(records, id, 0);
    queue::lemma_id_position(after, id, 0);
    let at = queue::id_position(records, record.id, 0);
    let found = queue::id_position(after, id, 0);
    let found_before = queue::id_position(records, id, 0);
    if id == record.id {
        if at < records.len() {
            assert(after[at].id == id);
            if found != at {
                if found < at {
                    assert(after[found] == records[found]);
                }
            }
        } else {
            assert(after[records.len() as int].id == id);
            if found < records.len() {
                assert(after[found] == records[found]);
            }
        }
    } else if found_before < records.len() {
        assert(after[found_before] == records[found_before]);
        if found < found_before {
            if at < records.len() && found == at {
            } else {
                assert(after[found] == records[found]);
            }
        }
    } else if found < after.len() {
        if found < records.len() && found != at {
            assert(after[found] == records[found]);
        }
    }
}

} // verus!
