//! What the operations of the queue do, told by the fields of the items: their
//! states, the owners of their leases and the times at which these run out.
use crate::feedback::{self, FeedbackState, LeaseView, RecordView};
use crate::queue::{self, QueueErrorView};
use crate::queue_laws;
use crate::text;
use vstd::prelude::*;
use vstd::string::*;

verus! {

/// The item is back in the queue: it waits without a lease, a note says where it
/// came from, and the rest of it is as it was.
pub open spec fn back_in_queue(before: RecordView, after: RecordView, now: u64) -> bool {
    &&& after.state == FeedbackState::Pending
    &&& after.lease == None::<LeaseView>
    &&& queue_laws::same_payload(after, before)
    &&& after.failure_reason == before.failure_reason
    &&& (after.recovery matches Some(note) && note.previous_state == before.state
        && note.recovered_at == now && note.previous_owner == (match before.lease {
        Some(lease) => Some(lease.owner),
        None => None::<Seq<char>>,
    }) && note.count == (match before.recovery {
        Some(earlier) => if earlier.count < u32::MAX {
            earlier.count + 1
        } else {
            earlier.count as int
        },
        None => 1int,
    }))
}

/// Recovery at `now` puts an item back into the queue exactly where it is not
/// resolved or failed and its lease has run out by then, or where it is
/// acknowledged or worked on without a lease; every other item stays as it is.
pub proof fn lemma_what_recovery_does(record: RecordView, now: u64)
    ensures
        ({
            let after = queue::settled(record, now);
            match record.lease {
                Some(lease) => match record.state {
                    FeedbackState::Pending
                    | FeedbackState::Acknowledged
                    | FeedbackState::Working => if lease.expires_at <= now {
                        back_in_queue(record, after, now)
                    } else {
                        after == record
                    },
                    FeedbackState::Resolved | FeedbackState::Failed => after == record,
                },
                None => match record.state {
                    FeedbackState::Acknowledged | FeedbackState::Working => back_in_queue(
                        record,
                        after,
                        now,
                    ),
                    FeedbackState::Pending
                    | FeedbackState::Resolved
                    | FeedbackState::Failed => after == record,
                },
            }
        }),
{
}

/// After recovery at `now`, no item that is not resolved or failed holds a lease
/// that has run out by then, and none is acknowledged or worked on without a
/// lease; each item is in its place.
pub proof fn lemma_no_lease_outlives_its_time(records: Seq<RecordView>, now: u64, index: int)
    requires
        0 <= index < records.len(),
    ensures
        ({
            let after = queue::settled_all(records, now);
            &&& after.len() == records.len()
            &&& after[index].id == records[index].id
            &&& match after[index].state {
                FeedbackState::Resolved | FeedbackState::Failed => after[index] == records[index],
                FeedbackState::Pending => match after[index].lease {
                    Some(lease) => lease.expires_at > now && after[index] == records[index],
                    None => records[index].state != FeedbackState::Resolved
                        && records[index].state != FeedbackState::Failed,
                },
                FeedbackState::Acknowledged | FeedbackState::Working => {
                    &&& after[index].lease matches Some(lease)
                    &&& lease.expires_at > now
                    &&& after[index] == records[index]
                },
            }
        }),
{
    lemma_what_recovery_does(records[index], now);
}

/// The work on an item is not over.
pub open spec fn unfinished(record: RecordView) -> bool {
    match record.state {
        FeedbackState::Pending | FeedbackState::Acknowledged | FeedbackState::Working => true,
        FeedbackState::Resolved | FeedbackState::Failed => false,
    }
}

/// An item is leased beyond `now`.
pub open spec fn leased_beyond(record: RecordView, now: u64) -> bool {
    match record.lease {
        Some(lease) => lease.expires_at > now,
        None => false,
    }
}

/// The item at `index` was handed out: it is the unfinished one that was created first, it
/// waits, and it is leased to the one who asked for the time that was asked for; no other
/// item is leased by that.
pub open spec fn handed_out_at(
    records: Seq<RecordView>,
    owner: Seq<char>,
    now: u64,
    duration: u64,
    after: Seq<RecordView>,
    item: RecordView,
    index: int,
) -> bool {
    &&& 0 <= index < records.len()
    &&& after[index] == item
    &&& unfinished(records[index])
    &&& queue_laws::same_payload(item, records[index])
    &&& item.state == FeedbackState::Pending
    &&& (item.lease matches Some(lease) && lease.owner == owner && lease.expires_at == if now
        + duration <= u64::MAX {
        now + duration
    } else {
        u64::MAX as int
    })
    &&& forall|i: int|
        #![trigger records[i]]
        0 <= i < records.len() && i != index && unfinished(records[i]) ==> {
            ||| item.created_at < records[i].created_at
            ||| (item.created_at == records[i].created_at && text::text_before(
                item.id,
                records[i].id,
            ))
        }
    &&& forall|i: int|
        #![trigger after[i]]
        0 <= i < records.len() && i != index ==> (after[i].lease is None || after[i]
            == records[i])
}

/// A request for the next item is answered with none only where some item is
/// leased beyond `now` or none is unfinished, and is answered with one wherever
/// neither holds. The one handed out is the unfinished item that was created
/// first; it waits, and is leased to the one who asked for the time that was
/// asked for. No other item is leased by the request.
pub proof fn lemma_next_item_is_owed(
    records: Seq<RecordView>,
    owner: Seq<char>,
    now: u64,
    duration: u64,
    after: Seq<RecordView>,
    handed_out: Option<RecordView>,
)
    requires
        queue::lease_outcome(records, owner, now, duration, after, handed_out),
    ensures
        handed_out is None <==> ((exists|i: int|
            0 <= i < records.len() && leased_beyond(#[trigger] records[i], now)) || (forall|i: int|
            0 <= i < records.len() ==> !unfinished(#[trigger] records[i]))),
        after.len() == records.len(),
        handed_out matches Some(item) ==> exists|index: int| #[trigger]
            handed_out_at(records, owner, now, duration, after, item, index),
{
    let base = queue::settled_all(records, now);
    assert forall|i: int| 0 <= i < records.len() implies {
        &&& #[trigger] base[i] == queue::settled(records[i], now)
        &&& queue::live(base[i], now) == leased_beyond(records[i], now)
        &&& !leased_beyond(records[i], now) ==> (queue::available(base[i]) == unfinished(
            records[i],
        ))
        &&& queue_laws::same_payload(base[i], records[i])
        &&& base[i].lease is None || base[i] == records[i]
    } by {
        lemma_what_recovery_does(records[i], now);
    }
    match handed_out {
        None => {
            if queue::any_live(base, now) {
                let i = choose|i: int| 0 <= i < base.len() && #[trigger] queue::live(base[i], now);
                assert(leased_beyond(records[i], now));
            } else {
                assert forall|i: int| 0 <= i < records.len() implies !unfinished(
                    #[trigger] records[i],
                ) by {
                    assert(!queue::live(base[i], now));
                    assert(!queue::available(base[i]));
                }
            }
        },
        Some(item) => {
            assert forall|i: int| 0 <= i < records.len() implies !leased_beyond(
                #[trigger] records[i],
                now,
            ) by {
                assert(!queue::live(base[i], now));
            }
            let index = choose|index: int|
                {
                    &&& #[trigger] queue::oldest_available(base, index)
                    &&& item == queue::leased(base[index], owner, now, duration)
                    &&& after == base.update(index, item)
                };
            assert(after[index] == item);
            assert(base[index] == queue::settled(records[index], now));
            assert(unfinished(records[index]));
            assert forall|i: int|
                #![trigger records[i]]
                0 <= i < records.len() && i != index && unfinished(records[i]) implies {
                ||| item.created_at < records[i].created_at
                ||| (item.created_at == records[i].created_at && text::text_before(
                    item.id,
                    records[i].id,
                ))
            } by {
                assert(queue::available(base[i]));
                assert(queue::created_before(base[index], base[i]));
            }
            assert forall|i: int|
                #![trigger after[i]]
                0 <= i < records.len() && i != index implies (after[i].lease is None || after[i]
                == records[i]) by {
                assert(after[i] == base[i]);
            }
            assert(handed_out_at(records, owner, now, duration, after, item, index));
        },
    }
}

/// The names of two states form a step of the life of an item.
pub open spec fn named_step(from: Seq<char>, to: Seq<char>) -> bool {
    ||| (from == "pending"@ && to == "acknowledged"@)
    ||| (from == "acknowledged"@ && to == "working"@)
    ||| (from == "working"@ && to == "resolved"@)
    ||| (from == "working"@ && to == "failed"@)
}

/// A reason is given and holds more than white space.
pub open spec fn tells_why(reason: Option<Seq<char>>) -> bool {
    reason matches Some(given) && exists|i: int|
        0 <= i < given.len() && !text::white_space(#[trigger] given[i])
}

proof fn lemma_names_of_states()
    ensures
        "pending"@ != "acknowledged"@,
        "pending"@ != "working"@,
        "pending"@ != "resolved"@,
        "pending"@ != "failed"@,
        "acknowledged"@ != "working"@,
        "acknowledged"@ != "resolved"@,
        "acknowledged"@ != "failed"@,
        "working"@ != "resolved"@,
        "working"@ != "failed"@,
        "resolved"@ != "failed"@,
{
    reveal_strlit("pending");
    reveal_strlit("acknowledged");
    reveal_strlit("working");
    reveal_strlit("resolved");
    reveal_strlit("failed");
    assert("pending"@.len() == 7 && "acknowledged"@.len() == 12 && "working"@.len() == 7
        && "resolved"@.len() == 8 && "failed"@.len() == 6);
    assert("pending"@[0] == 'p' && "working"@[0] == 'w');
}

/// A step is accepted exactly where it leads from pending to acknowledged, from
/// there to working, or from there to resolved or, with a reason, to failed. The
/// only other complaint than that the step does not exist is the one about a
/// missing reason, and it is made only of the step to failed.
pub proof fn lemma_which_steps_exist(from: Seq<char>, to: Seq<char>, reason: Option<Seq<char>>)
    ensures
        queue::step_problem(from, to, reason) is None <==> named_step(from, to) && (to == "failed"@
            ==> tells_why(reason)),
        queue::step_problem(from, to, reason) == Some(QueueErrorView::InvalidTransition { from, to })
            <==> !named_step(from, to),
        queue::step_problem(from, to, reason) == Some(QueueErrorView::MissingFailureReason) <==> (
        from == "working"@ && to == "failed"@ && !tells_why(reason)),
{
    lemma_names_of_states();
}

/// The one who holds the lease of an item, and names the state that it is in,
/// can make each step that exists, whenever the lease runs out. The item is then
/// in the state asked for. A step to acknowledged or working leaves the lease
/// with its holder for five minutes more at least, and never shortens it; the
/// end of the work ends the lease, and a failure keeps the reason without the
/// white space around it. Nothing else of the item changes.
pub proof fn lemma_holder_makes_every_step(
    record: RecordView,
    expected: Seq<char>,
    next: Seq<char>,
    owner: Seq<char>,
    reason: Option<Seq<char>>,
    now: u64,
)
    requires
        record.lease matches Some(lease) && lease.owner == owner,
        ({
            ||| (record.state is Pending && expected == "pending"@ && next == "acknowledged"@)
            ||| (record.state is Acknowledged && expected == "acknowledged"@ && next == "working"@)
            ||| (record.state is Working && expected == "working"@ && next == "resolved"@)
            ||| (record.state is Working && expected == "working"@ && next == "failed"@
                && tells_why(reason))
        }),
    ensures
        ({
            let outcome = queue::step_outcome(record, expected, next, owner, reason, now);
            &&& outcome matches Ok(after)
            &&& queue_laws::same_payload(after, record)
            &&& after.recovery == record.recovery
            &&& next == "acknowledged"@ <==> after.state is Acknowledged
            &&& next == "working"@ <==> after.state is Working
            &&& next == "resolved"@ <==> after.state is Resolved
            &&& next == "failed"@ <==> after.state is Failed
            &&& next == "failed"@ ==> after.failure_reason == Some(text::trimmed(reason->0))
            &&& next != "failed"@ ==> after.failure_reason == record.failure_reason
            &&& next == "resolved"@ || next == "failed"@ ==> after.lease is None
            &&& next == "acknowledged"@ || next == "working"@ ==> {
                &&& after.lease matches Some(lease)
                &&& lease.owner == owner
                &&& lease.expires_at >= record.lease->0.expires_at
                &&& lease.expires_at >= now + 300_000 || lease.expires_at == u64::MAX
                &&& lease.expires_at == record.lease->0.expires_at || lease.expires_at == now
                    + 300_000 || lease.expires_at == u64::MAX
            }
        }),
{
    lemma_names_of_states();
}

/// Who does not name the state that an item is in, asks for a step that does not
/// exist, gives no reason for a failure, or does not hold the lease, is told the
/// first of these that applies.
pub proof fn lemma_what_a_refused_step_is_told(
    record: RecordView,
    expected: Seq<char>,
    next: Seq<char>,
    owner: Seq<char>,
    reason: Option<Seq<char>>,
    now: u64,
)
    ensures
        ({
            let outcome = queue::step_outcome(record, expected, next, owner, reason, now);
            let actual = match record.state {
                FeedbackState::Pending => "pending"@,
                FeedbackState::Acknowledged => "acknowledged"@,
                FeedbackState::Working => "working"@,
                FeedbackState::Resolved => "resolved"@,
                FeedbackState::Failed => "failed"@,
            };
            &&& expected != actual ==> outcome == Err::<RecordView, QueueErrorView>(
                QueueErrorView::CompareMismatch { expected, actual },
            )
            &&& expected == actual && !named_step(expected, next) ==> outcome == Err::<
                RecordView,
                QueueErrorView,
            >(QueueErrorView::InvalidTransition { from: expected, to: next })
            &&& expected == actual && named_step(expected, next) && next == "failed"@ && !tells_why(
                reason,
            ) ==> outcome == Err::<RecordView, QueueErrorView>(QueueErrorView::MissingFailureReason)
            &&& expected == actual && named_step(expected, next) && (next != "failed"@
                || tells_why(reason)) ==> match record.lease {
                None => outcome == Err::<RecordView, QueueErrorView>(QueueErrorView::LeaseRequired),
                Some(lease) => if lease.owner == owner {
                    outcome is Ok
                } else {
                    outcome == Err::<RecordView, QueueErrorView>(
                        QueueErrorView::LeaseOwnerMismatch { expected: owner, actual: lease.owner },
                    )
                },
            }
        }),
{
    lemma_names_of_states();
    lemma_which_steps_exist(expected, next, reason);
}

/// A sign of life makes each lease that its owner holds beyond `now` last for
/// `duration` at least, and never shortens it; it touches no lease of another,
/// none that has run out, and nothing else.
pub proof fn lemma_what_renewal_does(
    records: Seq<RecordView>,
    owner: Seq<char>,
    now: u64,
    duration: u64,
    index: int,
)
    requires
        0 <= index < records.len(),
    ensures
        ({
            let before = records[index];
            let after = queue::renewed_all(records, owner, now, duration)[index];
            &&& queue::renewed_all(records, owner, now, duration).len() == records.len()
            &&& queue_laws::same_payload(after, before)
            &&& after.state == before.state
            &&& after.failure_reason == before.failure_reason
            &&& after.recovery == before.recovery
            &&& match before.lease {
                Some(lease) => if lease.owner == owner && lease.expires_at > now {
                    &&& after.lease matches Some(renewed)
                    &&& renewed.owner == owner
                    &&& renewed.expires_at >= lease.expires_at
                    &&& renewed.expires_at >= now + duration || renewed.expires_at == u64::MAX
                    &&& renewed.expires_at == lease.expires_at || renewed.expires_at == now
                        + duration || (renewed.expires_at == u64::MAX && now + duration
                        > u64::MAX)
                } else {
                    after.lease == before.lease
                },
                None => after.lease is None,
            }
        }),
{
}

/// When an owner gives up its leases, each of its unfinished items is back in
/// the queue, whether its lease has run out or not, and every other item stays
/// as it is.
pub proof fn lemma_what_giving_up_does(
    records: Seq<RecordView>,
    owner: Seq<char>,
    now: u64,
    index: int,
)
    requires
        0 <= index < records.len(),
    ensures
        ({
            let before = records[index];
            let after = queue::released_all(records, owner, now)[index];
            &&& queue::released_all(records, owner, now).len() == records.len()
            &&& match before.lease {
                Some(lease) => if lease.owner == owner && unfinished(before) {
                    back_in_queue(before, after, now)
                } else {
                    after == before
                },
                None => after == before,
            }
        }),
{
}

/// The holder of a lease can give it up: the item is then back in the queue.
/// Nobody else can, and an item without a lease cannot be given up.
pub proof fn lemma_what_releasing_one_item_does(record: RecordView, owner: Seq<char>, now: u64)
    ensures
        match record.lease {
            Some(lease) => if lease.owner == owner {
                queue::release_outcome(record, owner, now) matches Ok(after) && back_in_queue(
                    record,
                    after,
                    now,
                )
            } else {
                queue::release_outcome(record, owner, now) == Err::<RecordView, QueueErrorView>(
                    QueueErrorView::LeaseOwnerMismatch { expected: owner, actual: lease.owner },
                )
            },
            None => queue::release_outcome(record, owner, now) == Err::<
                RecordView,
                QueueErrorView,
            >(QueueErrorView::LeaseRequired),
        },
{
}

/// A note on the element of an item says what was asked for, and changes nothing
/// else.
pub proof fn lemma_what_marking_does(record: RecordView, orphaned: bool)
    ensures
        queue::marked(record, orphaned).orphaned == orphaned,
        queue::marked(queue::marked(record, orphaned), record.orphaned) == record,
{
}

/// The first point in time at which a lease runs out is that of some lease, and
/// no lease runs out before it; there is none exactly where nothing is leased.
pub proof fn lemma_next_expiry_is_the_first(records: Seq<RecordView>)
    ensures
        match queue::next_expiry(records) {
            Some(first) => {
                &&& exists|i: int|
                    0 <= i < records.len() && ((#[trigger] records[i]).lease matches Some(lease)
                        && lease.expires_at == first)
                &&& forall|i: int|
                    0 <= i < records.len() ==> ((#[trigger] records[i]).lease matches Some(lease)
                        ==> first <= lease.expires_at)
            },
            None => forall|i: int|
                0 <= i < records.len() ==> (#[trigger] records[i]).lease is None,
        },
    decreases records.len(),
{
    if records.len() > 0 {
        let rest = records.drop_last();
        lemma_next_expiry_is_the_first(rest);
        assert forall|i: int| 0 <= i < rest.len() implies #[trigger] rest[i] == records[i] by {}
        match queue::next_expiry(rest) {
            Some(first) => {
                let i = choose|i: int|
                    0 <= i < rest.len() && ((#[trigger] rest[i]).lease matches Some(lease)
                        && lease.expires_at == first);
                assert(records[i] == rest[i]);
            },
            None => {},
        }
        assert(records.last() == records[records.len() - 1]);
        assert forall|i: int| 0 <= i < records.len() implies (queue::next_expiry(records) matches
            Some(first) ==> ((#[trigger] records[i]).lease matches Some(lease) ==> first
            <= lease.expires_at)) by {
            if i < rest.len() {
                assert(rest[i] == records[i]);
            }
        }
        assert forall|i: int|
            0 <= i < records.len() && queue::next_expiry(records) is None implies (
        #[trigger] records[i]).lease is None by {
            if i < rest.len() {
                assert(rest[i] == records[i]);
            }
        }
    }
}

/// An owner is at work exactly where an unfinished item is leased to it beyond
/// `now`.
pub proof fn lemma_who_is_at_work(records: Seq<RecordView>, owner: Seq<char>, now: u64)
    ensures
        queue::owner_at_work(records, owner, now) <==> exists|i: int|
            0 <= i < records.len() && unfinished(#[trigger] records[i]) && leased_beyond(
                records[i],
                now,
            ) && records[i].lease->0.owner == owner,
{
    if queue::owner_at_work(records, owner, now) {
        let i = choose|i: int|
            0 <= i < records.len() && !records[i].state.terminal() && #[trigger] queue::held_by(
                records[i],
                owner,
                now,
            );
        assert(unfinished(records[i]));
    }
    if exists|i: int|
        0 <= i < records.len() && unfinished(#[trigger] records[i]) && leased_beyond(
            records[i],
            now,
        ) && records[i].lease->0.owner == owner {
        let i = choose|i: int|
            0 <= i < records.len() && unfinished(#[trigger] records[i]) && leased_beyond(
                records[i],
                now,
            ) && records[i].lease->0.owner == owner;
        assert(queue::held_by(records[i], owner, now));
    }
}

/// The item has to go back into the queue at `now`.
pub open spec fn interrupted(record: RecordView, now: u64) -> bool {
    match record.lease {
        Some(lease) => unfinished(record) && lease.expires_at <= now,
        None => record.state is Acknowledged || record.state is Working,
    }
}

/// The numbers that recovery, renewal and giving up leases report are those of
/// the items concerned.
pub proof fn lemma_reported_numbers(records: Seq<RecordView>, owner: Seq<char>, now: u64)
    ensures
        queue::due_count(records, now) == records.filter(
            |record: RecordView| interrupted(record, now),
        ).len(),
        queue::held_count(records, owner, now) == records.filter(
            |record: RecordView| leased_beyond(record, now) && record.lease->0.owner == owner,
        ).len(),
        queue::unfinished_count(records, owner) == records.filter(
            |record: RecordView|
                unfinished(record) && (record.lease matches Some(lease) && lease.owner == owner),
        ).len(),
    decreases records.len(),
{
    let is_due = |record: RecordView| interrupted(record, now);
    let is_held = |record: RecordView|
        leased_beyond(record, now) && record.lease->0.owner == owner;
    let is_owned = |record: RecordView|
        unfinished(record) && (record.lease matches Some(lease) && lease.owner == owner);
    reveal(Seq::filter);
    if records.len() > 0 {
        lemma_reported_numbers(records.drop_last(), owner, now);
        let last = records.last();
        assert(queue::due(last, now) == is_due(last));
        assert(queue::held_by(last, owner, now) == is_held(last));
        assert(queue::unfinished_for(last, owner) == is_owned(last));
    }
}

/// Nothing is found under an identifier that no item has; the refusal names the
/// identifier where it is well-formed.
pub proof fn lemma_what_is_found(records: Seq<RecordView>, id: Seq<char>)
    ensures
        queue::id_position(records, id, 0) < records.len() <==> exists|i: int|
            0 <= i < records.len() && (#[trigger] records[i]).id == id,
        queue::id_position(records, id, 0) < records.len() ==> records[queue::id_position(
            records,
            id,
            0,
        )].id == id,
        feedback::valid_feedback_id(id) <==> queue::missing(id) is NotFound,
        queue::missing(id) matches QueueErrorView::NotFound(named) ==> named == id,
{
    queue::lemma_id_position(records, id, 0);
    if exists|i: int| 0 <= i < records.len() && (#[trigger] records[i]).id == id {
        let i = choose|i: int| 0 <= i < records.len() && (#[trigger] records[i]).id == id;
        assert(queue::id_position(records, id, 0) <= i);
    }
}

/// Writing an item changes at most the one with its identifier: the others keep
/// their places, and at most one item is added.
pub proof fn lemma_what_writing_does(records: Seq<RecordView>, record: RecordView)
    ensures
        ({
            let after = queue::written(records, record);
            &&& after.contains(record)
            &&& forall|i: int|
                0 <= i < records.len() && (#[trigger] records[i]).id != record.id ==> after[i]
                    == records[i]
            &&& after.len() == records.len() + if exists|i: int|
                0 <= i < records.len() && (#[trigger] records[i]).id == record.id {
                0int
            } else {
                1int
            }
        }),
{
    lemma_what_is_found(records, record.id);
    let at = queue::id_position(records, record.id, 0);
    queue::lemma_id_position(records, record.id, 0);
    let after = queue::written(records, record);
    assert(after[at] == record);
}

} // verus!
