//! What the functions of the queue give back and leave in the store, told by the items
//! that were in it before.
use crate::feedback::{self, FeedbackRecord, FeedbackState, IncomingFeedback, RecordView};
use crate::queue::{
    self, lease_next, lease_next_at, owner_has_live_lease, read_record, recover_expired_leases_at,
    release_lease, release_owner_leases_at, renew_owner_leases, renew_owner_leases_at,
    set_orphaned, store_suffixed, time_until_next_lease_expiry, transition_at,
    validate_transition, write_record, FeedbackStore, QueueError,
};
use crate::queue_laws;
use crate::queue_rules;
use crate::session::RandomSourceUnavailable;
use crate::text;
use vstd::prelude::*;
use vstd::string::*;

verus! {

/// After recovery at `now`, each unfinished item whose lease has run out by then waits
/// without a lease, and so does each that was taken up without one; all others are as
/// they were. The number that is given back is that of the items that were put back.
pub proof fn lemma_recovery(store: &mut FeedbackStore, now: u64, count: usize, index: int)
    requires
        call_ensures(recover_expired_leases_at, (store, now), count),
        0 <= index < old(store)@.len(),
    ensures
        final(store)@.len() == old(store)@.len(),
        count == old(store)@.filter(
            |record: RecordView| queue_rules::interrupted(record, now),
        ).len(),
        ({
            let before = old(store)@[index];
            let after = final(store)@[index];
            if queue_rules::interrupted(before, now) {
                queue_rules::back_in_queue(before, after, now)
            } else {
                after == before
            }
        }),
{
    queue_rules::lemma_what_recovery_does(old(store)@[index], now);
    queue_rules::lemma_reported_numbers(old(store)@, Seq::empty(), now);
}

/// A request for the next item gives none exactly where some item is leased beyond `now`
/// or none is unfinished. Else it gives the unfinished item that was created first, in
/// waiting and leased to the one who asked, and that is what the store then holds.
pub proof fn lemma_next_item(
    store: &mut FeedbackStore,
    owner: &str,
    now: u64,
    duration_millis: u64,
    r: Option<FeedbackRecord>,
)
    requires
        call_ensures(lease_next_at, (store, owner, now, duration_millis), r),
    ensures
        r is None <==> ((exists|i: int|
            0 <= i < old(store)@.len() && queue_rules::leased_beyond(
                #[trigger] old(store)@[i],
                now,
            )) || (forall|i: int|
            0 <= i < old(store)@.len() ==> !queue_rules::unfinished(#[trigger] old(store)@[i]))),
        final(store)@.len() == old(store)@.len(),
        r matches Some(record) ==> {
            &&& final(store)@.contains(record@)
            &&& record@.state == FeedbackState::Pending
            &&& record@.lease matches Some(lease)
            &&& lease.owner == owner@
            &&& lease.expires_at == now + duration_millis || (lease.expires_at == u64::MAX && now
                + duration_millis > u64::MAX)
            &&& forall|i: int|
                #![trigger old(store)@[i]]
                0 <= i < old(store)@.len() && queue_rules::unfinished(old(store)@[i]) ==> (
                record@.created_at < old(store)@[i].created_at || (record@.created_at
                    == old(store)@[i].created_at && text::text_before(
                    record@.id,
                    old(store)@[i].id,
                )) || record@.id == old(store)@[i].id)
        },
{
    queue_rules::lemma_next_item_is_owed(
        old(store)@,
        owner@,
        now,
        duration_millis,
        final(store)@,
        queue::optional_record(r),
    );
    if let Some(record) = r {
        let index = choose|index: int| #[trigger]
            queue_rules::handed_out_at(
                old(store)@,
                owner@,
                now,
                duration_millis,
                final(store)@,
                record@,
                index,
            );
        assert(final(store)@[index] == record@);
        assert(record@.id == old(store)@[index].id);
    }
}

/// An item that is handed out is leased for five minutes.
pub proof fn lemma_next_item_for_five_minutes(
    store: &mut FeedbackStore,
    owner: &str,
    now: u64,
    r: Option<FeedbackRecord>,
)
    requires
        call_ensures(lease_next, (store, owner, now), r),
    ensures
        r is None <==> ((exists|i: int|
            0 <= i < old(store)@.len() && queue_rules::leased_beyond(
                #[trigger] old(store)@[i],
                now,
            )) || (forall|i: int|
            0 <= i < old(store)@.len() ==> !queue_rules::unfinished(#[trigger] old(store)@[i]))),
        r matches Some(record) ==> (record@.lease matches Some(lease) && lease.owner == owner@
            && lease.expires_at == if now + 300_000 <= u64::MAX {
            now + 300_000
        } else {
            u64::MAX as int
        }),
{
    queue_rules::lemma_next_item_is_owed(
        old(store)@,
        owner@,
        now,
        300_000,
        final(store)@,
        queue::optional_record(r),
    );
    if let Some(record) = r {
        let index = choose|index: int| #[trigger]
            queue_rules::handed_out_at(
                old(store)@,
                owner@,
                now,
                300_000,
                final(store)@,
                record@,
                index,
            );
    }
}

/// The time until the first lease runs out: no lease runs out earlier, some lease runs
/// out then, or has already, and there is such a time exactly where something is leased.
pub proof fn lemma_time_until_next_expiry(store: &FeedbackStore, now: u64, r: Option<u64>)
    requires
        call_ensures(time_until_next_lease_expiry, (store, now), r),
    ensures
        match r {
            Some(millis) => {
                &&& forall|i: int|
                    0 <= i < store@.len() ==> ((#[trigger] store@[i]).lease matches Some(lease)
                        ==> millis == 0 || now + millis <= lease.expires_at)
                &&& exists|i: int|
                    0 <= i < store@.len() && ((#[trigger] store@[i]).lease matches Some(lease)
                        && lease.expires_at <= now + millis)
            },
            None => forall|i: int|
                0 <= i < store@.len() ==> (#[trigger] store@[i]).lease is None,
        },
{
    queue_rules::lemma_next_expiry_is_the_first(store@);
}

/// A sign of life makes the leases that its owner holds beyond `now` last for the time
/// asked for at least, and touches no other.
pub proof fn lemma_renewal(
    store: &mut FeedbackStore,
    owner: &str,
    now: u64,
    duration_millis: u64,
    count: usize,
    index: int,
)
    requires
        call_ensures(renew_owner_leases_at, (store, owner, now, duration_millis), count),
        0 <= index < old(store)@.len(),
    ensures
        count == old(store)@.filter(
            |record: RecordView|
                queue_rules::leased_beyond(record, now) && record.lease->0.owner == owner@,
        ).len(),
        ({
            let before = old(store)@[index];
            let after = final(store)@[index];
            if queue_rules::leased_beyond(before, now) && before.lease->0.owner == owner@ {
                &&& after.lease matches Some(lease)
                &&& lease.owner == owner@
                &&& lease.expires_at >= before.lease->0.expires_at
                &&& lease.expires_at >= now + duration_millis || lease.expires_at == u64::MAX
                &&& lease.expires_at == before.lease->0.expires_at || lease.expires_at == now
                    + duration_millis || (lease.expires_at == u64::MAX && now + duration_millis
                    > u64::MAX)
                &&& after.state == before.state
                &&& queue_laws::same_payload(after, before)
            } else {
                after == before
            }
        }),
{
    queue_rules::lemma_what_renewal_does(old(store)@, owner@, now, duration_millis, index);
    queue_rules::lemma_reported_numbers(old(store)@, owner@, now);
}

/// A sign of life of an agent renews its leases for five minutes.
pub proof fn lemma_renewal_for_five_minutes(
    store: &mut FeedbackStore,
    owner: &str,
    now: u64,
    count: usize,
    index: int,
)
    requires
        call_ensures(renew_owner_leases, (store, owner, now), count),
        0 <= index < old(store)@.len(),
        now + 300_000 <= u64::MAX,
        queue_rules::leased_beyond(old(store)@[index], now),
        old(store)@[index].lease->0.owner == owner@,
    ensures
        final(store)@[index].lease matches Some(lease) && lease.owner == owner@
            && lease.expires_at >= now + 300_000,
{
    queue_rules::lemma_what_renewal_does(old(store)@, owner@, now, 300_000, index);
}

/// An agent has a live lease exactly where an unfinished item is leased to it beyond
/// `now`.
pub proof fn lemma_live_lease(store: &mut FeedbackStore, owner: &str, now: u64, r: bool)
    requires
        call_ensures(owner_has_live_lease, (store, owner, now), r),
    ensures
        r <==> exists|i: int|
            0 <= i < old(store)@.len() && queue_rules::unfinished(#[trigger] old(store)@[i])
                && queue_rules::leased_beyond(old(store)@[i], now)
                && old(store)@[i].lease->0.owner == owner@,
{
    let before = old(store)@;
    let after = queue::settled_all(before, now);
    queue_rules::lemma_who_is_at_work(after, owner@, now);
    assert forall|i: int| 0 <= i < before.len() implies (queue_rules::unfinished(
        #[trigger] after[i],
    ) && queue_rules::leased_beyond(after[i], now) && after[i].lease->0.owner == owner@) == (
    queue_rules::unfinished(before[i]) && queue_rules::leased_beyond(before[i], now)
        && before[i].lease->0.owner == owner@) by {
        queue_rules::lemma_what_recovery_does(before[i], now);
    }
    if r {
        let i = choose|i: int|
            0 <= i < after.len() && queue_rules::unfinished(#[trigger] after[i])
                && queue_rules::leased_beyond(after[i], now) && after[i].lease->0.owner == owner@;
        assert(queue_rules::unfinished(before[i]));
    }
    if exists|i: int|
        0 <= i < before.len() && queue_rules::unfinished(#[trigger] before[i])
            && queue_rules::leased_beyond(before[i], now) && before[i].lease->0.owner == owner@ {
        let i = choose|i: int|
            0 <= i < before.len() && queue_rules::unfinished(#[trigger] before[i])
                && queue_rules::leased_beyond(before[i], now) && before[i].lease->0.owner == owner@;
        assert(queue_rules::unfinished(after[i]));
    }
}

/// A step is accepted exactly where it is one of the life of an item, and names its
/// reason where it leads to a failure.
pub proof fn lemma_accepted_step(
    from: &str,
    to: &str,
    reason: Option<&str>,
    r: Result<(), QueueError>,
)
    requires
        call_ensures(validate_transition, (from, to, reason), r),
    ensures
        r is Ok <==> queue_rules::named_step(from@, to@) && (to@ == "failed"@
            ==> queue_rules::tells_why(queue::optional_str(reason))),
{
    queue_rules::lemma_which_steps_exist(from@, to@, queue::optional_str(reason));
}

/// The holder of a lease that lasts beyond `now` can make each step from the state that
/// the item is in; the item that is given back is in the state asked for, and is what
/// the store then holds in its place.
pub proof fn lemma_step(
    store: &mut FeedbackStore,
    id: &str,
    expected_state: &str,
    next_state: &str,
    owner: &str,
    reason: Option<&str>,
    now: u64,
    r: Result<FeedbackRecord, QueueError>,
    index: int,
)
    requires
        call_ensures(
            transition_at,
            (store, id, expected_state, next_state, owner, reason, now),
            r,
        ),
        queue::identified(old(store)@),
        0 <= index < old(store)@.len(),
        old(store)@[index].id == id@,
    ensures
        final(store)@.len() == old(store)@.len(),
        forall|i: int|
            0 <= i < old(store)@.len() && i != index ==> #[trigger] final(store)@[i]
                == old(store)@[i],
        r matches Ok(record) ==> record@ == final(store)@[index],
        queue_rules::leased_beyond(old(store)@[index], now) && old(store)@[index].lease->0.owner
            == owner@ && ({
            let state = old(store)@[index].state;
            ||| (state is Pending && expected_state@ == "pending"@ && next_state@
                == "acknowledged"@)
            ||| (state is Acknowledged && expected_state@ == "acknowledged"@ && next_state@
                == "working"@)
            ||| (state is Working && expected_state@ == "working"@ && next_state@ == "resolved"@)
            ||| (state is Working && expected_state@ == "working"@ && next_state@ == "failed"@
                && queue_rules::tells_why(queue::optional_str(reason)))
        }) ==> {
            &&& r matches Ok(record)
            &&& next_state@ == "acknowledged"@ ==> record@.state is Acknowledged
            &&& next_state@ == "working"@ ==> record@.state is Working
            &&& next_state@ == "resolved"@ ==> record@.state is Resolved
            &&& next_state@ == "failed"@ ==> record@.state is Failed
            &&& next_state@ == "resolved"@ || next_state@ == "failed"@ ==> record@.lease is None
            &&& next_state@ == "acknowledged"@ || next_state@ == "working"@ ==> (record@.lease matches Some(
                lease,
            ) && lease.owner == owner@ && (lease.expires_at >= now + 300_000 || lease.expires_at
                == u64::MAX))
        },
        old(store)@[index].lease is None ==> r is Err,
        old(store)@[index].lease matches Some(lease) ==> (lease.owner != owner@ ==> r is Err),
        queue_rules::unfinished(old(store)@[index]) && old(store)@[index].lease is Some
            && !queue_rules::leased_beyond(old(store)@[index], now) ==> r is Err
            && queue_rules::back_in_queue(old(store)@[index], final(store)@[index], now),
{
    let before = old(store)@;
    queue::lemma_id_position(before, id@, 0);
    let found = queue::id_position(before, id@, 0);
    assert(found == index) by {
        if found < index {
            assert(before[found].id != before[index].id);
        }
    }
    let record = before[index];
    let base = queue::settled(record, now);
    let why = queue::optional_str(reason);
    queue_rules::lemma_what_recovery_does(record, now);
    queue_rules::lemma_what_a_refused_step_is_told(
        base,
        expected_state@,
        next_state@,
        owner@,
        why,
        now,
    );
    if queue_rules::leased_beyond(record, now) && record.lease->0.owner == owner@ && ({
        let state = record.state;
        ||| (state is Pending && expected_state@ == "pending"@ && next_state@ == "acknowledged"@)
        ||| (state is Acknowledged && expected_state@ == "acknowledged"@ && next_state@
            == "working"@)
        ||| (state is Working && expected_state@ == "working"@ && next_state@ == "resolved"@)
        ||| (state is Working && expected_state@ == "working"@ && next_state@ == "failed"@
            && queue_rules::tells_why(why))
    }) {
        queue_rules::lemma_holder_makes_every_step(
            base,
            expected_state@,
            next_state@,
            owner@,
            why,
            now,
        );
    }
}

/// When an owner gives up its leases, its unfinished items wait again, and all others are
/// as they were.
pub proof fn lemma_giving_up(
    store: &mut FeedbackStore,
    owner: &str,
    now: u64,
    count: usize,
    index: int,
)
    requires
        call_ensures(release_owner_leases_at, (store, owner, now), count),
        0 <= index < old(store)@.len(),
    ensures
        final(store)@.len() == old(store)@.len(),
        count == old(store)@.filter(
            |record: RecordView|
                queue_rules::unfinished(record) && (record.lease matches Some(lease) && lease.owner
                    == owner@),
        ).len(),
        ({
            let before = old(store)@[index];
            let after = final(store)@[index];
            if queue_rules::unfinished(before) && (before.lease matches Some(lease) && lease.owner
                == owner@) {
                queue_rules::back_in_queue(before, after, now)
            } else {
                after == before
            }
        }),
{
    queue_rules::lemma_what_giving_up_does(old(store)@, owner@, now, index);
    queue_rules::lemma_reported_numbers(old(store)@, owner@, now);
}

/// The holder of a lease, and nobody else, can give one item up, and a note on its element
/// can be made of any item; either way no other item changes.
pub proof fn lemma_single_item(
    store: &mut FeedbackStore,
    other: &mut FeedbackStore,
    id: &str,
    owner: &str,
    now: u64,
    orphaned: bool,
    released: Result<FeedbackRecord, QueueError>,
    noted: Result<FeedbackRecord, QueueError>,
    index: int,
)
    requires
        call_ensures(release_lease, (store, id, owner, now), released),
        call_ensures(set_orphaned, (other, id, orphaned), noted),
        queue::identified(old(store)@),
        old(other)@ == old(store)@,
        0 <= index < old(store)@.len(),
        old(store)@[index].id == id@,
    ensures
        released is Ok <==> (old(store)@[index].lease matches Some(lease) && lease.owner == owner@),
        released is Ok ==> queue_rules::back_in_queue(
            old(store)@[index],
            final(store)@[index],
            now,
        ) && released->Ok_0@ == final(store)@[index],
        released is Err ==> final(store)@ == old(store)@,
        noted matches Ok(record) && record@ == final(other)@[index] && record@.orphaned == orphaned
            && (RecordView { orphaned: old(store)@[index].orphaned, ..record@ })
            == old(store)@[index],
        forall|i: int|
            0 <= i < old(store)@.len() && i != index ==> #[trigger] final(store)@[i]
                == old(store)@[i],
        forall|i: int|
            0 <= i < old(store)@.len() && i != index ==> #[trigger] final(other)@[i]
                == old(store)@[i],
{
    let before = old(store)@;
    queue::lemma_id_position(before, id@, 0);
    let found = queue::id_position(before, id@, 0);
    assert(found == index) by {
        if found < index {
            assert(before[found].id != before[index].id);
        }
    }
    queue_rules::lemma_what_releasing_one_item_does(before[index], owner@, now);
    queue_rules::lemma_what_marking_does(before[index], orphaned);
}

/// Reading gives the item with the identifier exactly where there is one.
pub proof fn lemma_reading(
    store: &FeedbackStore,
    id: &str,
    r: Result<FeedbackRecord, QueueError>,
)
    requires
        call_ensures(read_record, (store, id), r),
    ensures
        r matches Ok(record) ==> record@.id == id@ && store@.contains(record@),
        r is Ok <==> exists|i: int| 0 <= i < store@.len() && (#[trigger] store@[i]).id == id@,
{
    queue_rules::lemma_what_is_found(store@, id@);
    queue::lemma_id_position(store@, id@, 0);
    if r is Ok {
        let at = queue::id_position(store@, id@, 0);
        assert(store@[at].id == id@);
    }
}

/// An item is written exactly where its identifier is acceptable; then the store holds
/// it, and every item with another identifier is where it was.
pub proof fn lemma_writing(
    store: &mut FeedbackStore,
    record: FeedbackRecord,
    r: Result<(), &'static str>,
)
    requires
        call_ensures(write_record, (store, record), r),
    ensures
        r is Ok <==> feedback::valid_feedback_id(record@.id),
        r is Ok ==> final(store)@.contains(record@),
        r is Ok ==> forall|i: int|
            0 <= i < old(store)@.len() && (#[trigger] old(store)@[i]).id != record@.id
                ==> final(store)@[i] == old(store)@[i],
        r is Err ==> final(store)@ == old(store)@,
{
    queue_rules::lemma_what_writing_does(old(store)@, record@);
}

/// Feedback that is stored is in the store, waiting without a lease under the identifier
/// made of the time and the suffix.
pub proof fn lemma_storing(
    items: &mut FeedbackStore,
    incoming: IncomingFeedback,
    created_at: u64,
    suffix: String,
    r: Result<FeedbackRecord, RandomSourceUnavailable>,
)
    requires
        call_ensures(
            store_suffixed,
            (
                items,
                incoming,
                created_at,
                Ok::<String, RandomSourceUnavailable>(suffix),
            ),
            r,
        ),
    ensures
        r matches Ok(record) && final(items)@.contains(record@) && record@.state
            == FeedbackState::Pending && record@.lease is None && record@.created_at == created_at
            && record@.text == incoming.text@ && record@.kind == incoming.kind,
{
    let record = r->Ok_0;
    queue_rules::lemma_what_writing_does(old(items)@, record@);
}

} // verus!
