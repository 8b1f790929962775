//! What holds of the attached agents as a whole: the page shows the collaboration
//! tools exactly while an agent takes feedback, and silence, not anything else,
//! ends an attachment that nobody ended.
use crate::attachments::{self, ControlStep, DetachStep, StepView};
use crate::dashboard::ATTACHMENT_CAPACITY;
use crate::operations::{Attachment, CollaborationState};
use vstd::prelude::*;

verus! {

/// No two attachments have the same identifier.
pub open spec fn distinct(attachments: Seq<Attachment>) -> bool {
    forall|i: int, j: int|
        0 <= i < j < attachments.len() ==> (#[trigger] attachments[i]).attachment_id@ != (
        #[trigger] attachments[j]).attachment_id@
}

proof fn lemma_position(attachments: Seq<Attachment>, id: Seq<char>, from: int)
    requires
        0 <= from <= attachments.len(),
    ensures
        from <= attachments::position(attachments, id, from) <= attachments.len(),
        forall|i: int|
            from <= i < attachments::position(attachments, id, from) ==> (
            #[trigger] attachments[i]).attachment_id@ != id,
        attachments::position(attachments, id, from) < attachments.len()
            ==> attachments[attachments::position(attachments, id, from)].attachment_id@ == id,
    decreases attachments.len() - from,
{
    if from < attachments.len() && attachments[from].attachment_id@ != id {
        lemma_position(attachments, id, from + 1);
    }
}

proof fn lemma_position_of(attachments: Seq<Attachment>, at: int)
    requires
        distinct(attachments),
        0 <= at < attachments.len(),
    ensures
        attachments::position(attachments, attachments[at].attachment_id@, 0) == at,
{
    lemma_position(attachments, attachments[at].attachment_id@, 0);
}

proof fn lemma_first_connected(attachments: Seq<Attachment>, from: int)
    requires
        0 <= from <= attachments.len(),
    ensures
        from <= attachments::first_connected(attachments, from) <= attachments.len(),
        attachments::first_connected(attachments, from) < attachments.len()
            ==> attachments[attachments::first_connected(
            attachments,
            from,
        )].collaboration_state.connected(),
        forall|i: int|
            from <= i < attachments::first_connected(attachments, from) ==> !(
            #[trigger] attachments[i]).collaboration_state.connected(),
    decreases attachments.len() - from,
{
    if from < attachments.len() && !attachments[from].collaboration_state.connected() {
        lemma_first_connected(attachments, from + 1);
    }
}

proof fn lemma_connected_listed(attachments: Seq<Attachment>)
    ensures
        attachments::connected_ids(attachments).len() == 0 <==> !attachments::any_connected(
            attachments,
        ),
    decreases attachments.len(),
{
    if attachments.len() > 0 {
        let rest = attachments.drop_last();
        lemma_connected_listed(rest);
        let last = attachments.len() - 1;
        if attachments[last].collaboration_state.connected() {
            assert(attachments::any_connected(attachments));
        } else if attachments::any_connected(attachments) {
            let i = choose|i: int|
                0 <= i < attachments.len() && (
                #[trigger] attachments[i]).collaboration_state.connected();
            assert(rest[i].collaboration_state.connected());
        } else if attachments::any_connected(rest) {
            let i = choose|i: int|
                0 <= i < rest.len() && (#[trigger] rest[i]).collaboration_state.connected();
            assert(attachments[i].collaboration_state.connected());
        }
    }
}

/// The agent that a request reaches is registered, connected and found again by
/// its identifier.
proof fn lemma_target(attachments: Seq<Attachment>, requested: Option<Seq<char>>)
    requires
        distinct(attachments),
    ensures
        attachments::target(attachments, requested) matches attachments::Target::At(at) ==> 0
            <= at < attachments.len() && attachments[at].collaboration_state.connected()
            && attachments::position(attachments, attachments[at].attachment_id@, 0) == at,
{
    match requested {
        Some(id) => {
            lemma_position(attachments, id, 0);
        },
        None => {
            lemma_first_connected(attachments, 0);
            lemma_connected_listed(attachments);
            if attachments::connected_ids(attachments).len() == 1 {
                let i = choose|i: int|
                    0 <= i < attachments.len() && (
                    #[trigger] attachments[i]).collaboration_state.connected();
                assert(attachments::first_connected(attachments, 0) <= i);
            }
        },
    }
    if let attachments::Target::At(at) = attachments::target(attachments, requested) {
        lemma_position_of(attachments, at);
    }
}

/// Taking one agent out of those that take feedback leaves none exactly where it
/// was the only one.
proof fn lemma_one_leaves(attachments: Seq<Attachment>, at: int, state: CollaborationState)
    requires
        0 <= at < attachments.len(),
        !(state is Active),
    ensures
        attachments::any_active(attachments.update(at, attachments[at].in_state(state))) == (
        attachments::any_active(attachments) && !attachments::only_active(attachments, at)),
{
    let after = attachments.update(at, attachments[at].in_state(state));
    if attachments::any_active(after) {
        let i = choose|i: int|
            0 <= i < after.len() && (#[trigger] after[i]).collaboration_state is Active;
        assert(attachments[i].collaboration_state is Active);
    }
    if attachments::any_active(attachments) && !attachments::only_active(attachments, at) {
        if attachments[at].collaboration_state is Active {
            let i = choose|i: int|
                0 <= i < attachments.len() && i != at && (
                #[trigger] attachments[i]).collaboration_state is Active;
            assert(after[i].collaboration_state is Active);
        } else {
            let i = choose|i: int|
                0 <= i < attachments.len() && (
                #[trigger] attachments[i]).collaboration_state is Active;
            assert(after[i].collaboration_state is Active);
        }
    }
}

proof fn lemma_shown_after_switching(needed: bool, shown: bool, before: bool)
    ensures
        attachments::shown_after(attachments::switching(needed, shown), before) == if needed {
            shown
        } else {
            before
        },
{
    assert(attachments::switching(needed, shown).len() <= 1);
}

proof fn lemma_shown_after_releases(
    steps: Seq<StepView>,
    owners: Seq<Seq<char>>,
    shown: bool,
)
    ensures
        attachments::shown_after(steps + attachments::releasing(owners), shown)
            == attachments::shown_after(steps, shown),
    decreases owners.len(),
{
    let all = steps + attachments::releasing(owners);
    if owners.len() == 0 {
        assert(all =~= steps);
    } else {
        assert(all.drop_last() =~= steps + attachments::releasing(owners.drop_last()));
        lemma_shown_after_releases(steps, owners.drop_last(), shown);
    }
}

/// Pausing keeps the page right: when the tools were shown exactly while an agent
/// took feedback, the same holds once the steps are taken and the agent pauses.
pub proof fn lemma_pausing_keeps_the_tools_right(
    attachments: Seq<Attachment>,
    requested: Option<Seq<char>>,
    has_current_lease: bool,
)
    requires
        distinct(attachments),
    ensures
        attachments::pause_step(attachments, requested) matches ControlStep::Change {
            attachment_id,
            steps,
        } ==> attachments::shown_after(steps, attachments::any_active(attachments))
            == attachments::any_active(
            attachments::moved(
                attachments,
                attachment_id,
                attachments::paused_state(has_current_lease),
            ),
        ),
{
    lemma_target(attachments, requested);
    if let attachments::Target::At(at) = attachments::target(attachments, requested) {
        let needed = attachments::only_active(attachments, at);
        let ask = seq![StepView::AskLease(attachments[at].attachment_id@)];
        let steps = ask + attachments::switching(needed, false);
        lemma_one_leaves(attachments, at, attachments::paused_state(has_current_lease));
        if needed {
            assert(steps.last() == StepView::ShowTools(false));
        } else {
            assert(steps =~= ask);
            assert(ask.drop_last().len() == 0);
            reveal_with_fuel(attachments::shown_after, 2);
        }
    }
}

/// Resuming keeps the page right in the same way.
pub proof fn lemma_resuming_keeps_the_tools_right(
    attachments: Seq<Attachment>,
    requested: Option<Seq<char>>,
)
    requires
        distinct(attachments),
    ensures
        attachments::resume_step(attachments, requested) matches ControlStep::Change {
            attachment_id,
            steps,
        } ==> attachments::shown_after(steps, attachments::any_active(attachments))
            == attachments::any_active(
            attachments::moved(attachments, attachment_id, CollaborationState::Active),
        ),
{
    lemma_target(attachments, requested);
    if let attachments::Target::At(at) = attachments::target(attachments, requested) {
        lemma_shown_after_switching(
            !attachments::any_active(attachments),
            true,
            attachments::any_active(attachments),
        );
        let after = attachments.update(at, attachments[at].in_state(CollaborationState::Active));
        assert(after[at].collaboration_state is Active);
    }
}

/// Leaving keeps the page right in the same way.
pub proof fn lemma_leaving_keeps_the_tools_right(
    attachments: Seq<Attachment>,
    requested: Option<Seq<char>>,
)
    requires
        distinct(attachments),
    ensures
        attachments::detach_step(attachments, requested) matches DetachStep::Change {
            attachment_id,
            steps,
        } ==> attachments::shown_after(steps, attachments::any_active(attachments))
            == attachments::any_active(
            attachments::moved(attachments, attachment_id, CollaborationState::Inactive),
        ),
{
    lemma_target(attachments, requested);
    if let attachments::Target::At(at) = attachments::target(attachments, requested) {
        let needed = attachments::only_active(attachments, at);
        let switched = attachments::switching(needed, false);
        let steps = switched.push(StepView::ReleaseLeases(attachments[at].attachment_id@));
        assert(steps.drop_last() =~= switched);
        lemma_shown_after_switching(needed, false, attachments::any_active(attachments));
        lemma_one_leaves(attachments, at, CollaborationState::Inactive);
    }
}

/// Giving up on silent agents keeps the page right in the same way.
pub proof fn lemma_expiry_keeps_the_tools_right(attachments: Seq<Attachment>, now: u64)
    ensures
        attachments::shown_after(
            attachments::expiry_steps(attachments, now),
            attachments::any_active(attachments),
        ) == attachments::any_active(
            attachments::given_up(attachments, attachments::stale_ids(attachments, now)),
        ),
{
    let ids = attachments::stale_ids(attachments, now);
    let before = attachments::any_active(attachments);
    let needed = before && attachments::active_among(attachments, ids);
    lemma_shown_after_releases(attachments::switching(needed, false), ids, before);
    lemma_shown_after_switching(needed, false, before);
    let after = attachments::given_up(attachments, ids);
    if attachments::any_active(after) {
        let i = choose|i: int|
            0 <= i < after.len() && (#[trigger] after[i]).collaboration_state is Active;
        assert(!ids.contains(attachments[i].attachment_id@));
        assert(attachments[i].collaboration_state is Active);
    }
    if before && !needed {
        let i = choose|i: int|
            0 <= i < attachments.len() && (
            #[trigger] attachments[i]).collaboration_state is Active && !ids.contains(
                attachments[i].attachment_id@,
            );
        assert(after[i].collaboration_state is Active);
    }
}

/// After closing, no agent takes feedback and the page shows no tools.
pub proof fn lemma_closing_keeps_the_tools_right(attachments: Seq<Attachment>)
    ensures
        !attachments::any_connected(attachments::disconnected(attachments)),
        !attachments::any_active(attachments::disconnected(attachments)),
        !attachments::shown_after(
            attachments::close_steps(attachments),
            attachments::any_active(attachments),
        ),
{
    let ids = attachments::connected_ids(attachments);
    let before = attachments::any_active(attachments);
    let released = attachments::releasing(ids);
    if before {
        assert(attachments::close_steps(attachments).last() == StepView::ShowTools(false));
    } else {
        assert(attachments::close_steps(attachments) =~= Seq::<StepView>::empty() + released);
        lemma_shown_after_releases(Seq::empty(), ids, before);
    }
    let after = attachments::disconnected(attachments);
    assert forall|i: int| 0 <= i < after.len() implies !(
    #[trigger] after[i]).collaboration_state.connected() by {}
}

/// Joining keeps the page right in the same way.
pub proof fn lemma_joining_keeps_the_tools_right(
    attachments: Seq<Attachment>,
    attachment: Attachment,
)
    requires
        !attachments::full(attachments),
        attachment.collaboration_state is Active,
    ensures
        attachments::shown_after(
            attachments::switching(
                !attachments::any_active(attachments::with_room(attachments)),
                true,
            ),
            attachments::any_active(attachments),
        ) == attachments::any_active(attachments::with_room(attachments).push(attachment)),
{
    let roomy = attachments::with_room(attachments);
    lemma_room_keeps_the_active(attachments);
    lemma_shown_after_switching(
        !attachments::any_active(roomy),
        true,
        attachments::any_active(attachments),
    );
    let after = roomy.push(attachment);
    assert(after[roomy.len() as int].collaboration_state is Active);
}

proof fn lemma_first_gone(attachments: Seq<Attachment>, from: int)
    requires
        0 <= from <= attachments.len(),
    ensures
        from <= attachments::first_gone(attachments, from) <= attachments.len(),
        attachments::first_gone(attachments, from) < attachments.len()
            ==> !attachments[attachments::first_gone(
            attachments,
            from,
        )].collaboration_state.connected(),
    decreases attachments.len() - from,
{
    if from < attachments.len() && attachments[from].collaboration_state.connected() {
        lemma_first_gone(attachments, from + 1);
    }
}

proof fn lemma_room_keeps_the_active(attachments: Seq<Attachment>)
    requires
        !attachments::full(attachments),
    ensures
        attachments::any_active(attachments::with_room(attachments)) == attachments::any_active(
            attachments,
        ),
{
    let roomy = attachments::with_room(attachments);
    let gone = attachments::first_gone(attachments, 0);
    lemma_first_gone(attachments, 0);
    if attachments.len() == ATTACHMENT_CAPACITY {
        if attachments::any_active(attachments) {
            let i = choose|i: int|
                0 <= i < attachments.len() && (
                #[trigger] attachments[i]).collaboration_state is Active;
            let k = if i < gone {
                i
            } else {
                i - 1
            };
            assert(roomy[k].collaboration_state is Active);
        }
        if attachments::any_active(roomy) {
            let k = choose|k: int|
                0 <= k < roomy.len() && (#[trigger] roomy[k]).collaboration_state is Active;
            let i = if k < gone {
                k
            } else {
                k + 1
            };
            assert(attachments[i].collaboration_state is Active);
        }
    }
}

proof fn lemma_stale_listed(attachments: Seq<Attachment>, now: u64, i: int)
    requires
        0 <= i < attachments.len(),
        attachments::stale(attachments[i], now),
    ensures
        attachments::stale_ids(attachments, now).contains(attachments[i].attachment_id@),
    decreases attachments.len(),
{
    let rest = attachments::stale_ids(attachments.drop_last(), now);
    let all = attachments::stale_ids(attachments, now);
    if i == attachments.len() - 1 {
        assert(all[rest.len() as int] == attachments[i].attachment_id@);
    } else {
        assert(attachments.drop_last()[i] == attachments[i]);
        lemma_stale_listed(attachments.drop_last(), now, i);
        let k = choose|k: int| 0 <= k < rest.len() && rest[k] == attachments[i].attachment_id@;
        assert(all[k] == attachments[i].attachment_id@);
    }
}

proof fn lemma_listed_stale(attachments: Seq<Attachment>, now: u64, id: Seq<char>)
    requires
        attachments::stale_ids(attachments, now).contains(id),
    ensures
        exists|i: int|
            0 <= i < attachments.len() && attachments::stale(#[trigger] attachments[i], now)
                && attachments[i].attachment_id@ == id,
    decreases attachments.len(),
{
    if attachments.len() > 0 {
        let rest = attachments::stale_ids(attachments.drop_last(), now);
        let all = attachments::stale_ids(attachments, now);
        let last = attachments.len() - 1;
        let k = choose|k: int| 0 <= k < all.len() && all[k] == id;
        if k < rest.len() {
            assert(rest[k] == id);
            lemma_listed_stale(attachments.drop_last(), now, id);
            let i = choose|i: int|
                0 <= i < last && attachments::stale(
                    #[trigger] attachments.drop_last()[i],
                    now,
                ) && attachments.drop_last()[i].attachment_id@ == id;
            assert(attachments::stale(attachments[i], now));
        } else {
            assert(attachments::stale(attachments[last], now));
        }
    }
}

/// Silence, and nothing else, ends an attachment that nobody ended: once the
/// silent agents are given up on, none that is left connected has been silent for
/// too long, those that were given up on are disconnected, and all others are as
/// they were.
pub proof fn lemma_silence_ends_an_attachment(attachments: Seq<Attachment>, now: u64)
    requires
        distinct(attachments),
    ensures
        ({
            let after = attachments::given_up(
                attachments,
                attachments::stale_ids(attachments, now),
            );
            &&& after.len() == attachments.len()
            &&& forall|i: int|
                0 <= i < attachments.len() ==> #[trigger] after[i] == if attachments::stale(
                    attachments[i],
                    now,
                ) {
                    attachments[i].in_state(CollaborationState::Inactive)
                } else {
                    attachments[i]
                }
            &&& attachments::stale_ids(after, now).len() == 0
        }),
{
    let ids = attachments::stale_ids(attachments, now);
    let after = attachments::given_up(attachments, ids);
    assert forall|i: int| 0 <= i < attachments.len() implies #[trigger] after[i]
        == if attachments::stale(attachments[i], now) {
        attachments[i].in_state(CollaborationState::Inactive)
    } else {
        attachments[i]
    } by {
        if attachments::stale(attachments[i], now) {
            lemma_stale_listed(attachments, now, i);
        } else if ids.contains(attachments[i].attachment_id@) {
            lemma_listed_stale(attachments, now, attachments[i].attachment_id@);
        }
    }
    if attachments::stale_ids(after, now).len() > 0 {
        let id = attachments::stale_ids(after, now)[0];
        assert(attachments::stale_ids(after, now).contains(id));
        lemma_listed_stale(after, now, id);
    }
}

/// An agent that gives a sign of life is not given up on for as long as it may be
/// silent.
pub proof fn lemma_sign_of_life_holds_off_expiry(attachment: Attachment, now: u64, later: u64)
    requires
        later <= now + attachments::ATTACHMENT_EXPIRY_SECS,
    ensures
        !attachments::stale(
            Attachment { last_heartbeat_epoch_secs: now, ..attachment },
            later,
        ),
{
}

/// No operation makes two attachments share an identifier, as long as each agent
/// that joins has a new one.
pub proof fn lemma_identifiers_stay_distinct(
    attachments: Seq<Attachment>,
    id: Seq<char>,
    state: CollaborationState,
    ids: Seq<Seq<char>>,
    attachment: Attachment,
)
    requires
        distinct(attachments),
    ensures
        distinct(attachments::moved(attachments, id, state)),
        distinct(attachments::given_up(attachments, ids)),
        distinct(attachments::disconnected(attachments)),
        !attachments::full(attachments) ==> distinct(attachments::with_room(attachments)),
        attachments::position(attachments, attachment.attachment_id@, 0) == attachments.len()
            ==> distinct(attachments.push(attachment)),
{
    lemma_position(attachments, id, 0);
    lemma_position(attachments, attachment.attachment_id@, 0);
    lemma_first_gone(attachments, 0);
    let roomy = attachments::with_room(attachments);
    if !attachments::full(attachments) && attachments.len() == ATTACHMENT_CAPACITY {
        let gone = attachments::first_gone(attachments, 0);
        assert forall|i: int, j: int| 0 <= i < j < roomy.len() implies (
        #[trigger] roomy[i]).attachment_id@ != (#[trigger] roomy[j]).attachment_id@ by {
            let first = if i < gone {
                i
            } else {
                i + 1
            };
            let second = if j < gone {
                j
            } else {
                j + 1
            };
            assert(attachments[first].attachment_id@ != attachments[second].attachment_id@);
        }
    }
}

/// Resuming undoes a pause that took effect at once: everything is as before.
pub proof fn lemma_resuming_undoes_pausing(attachments: Seq<Attachment>, id: Seq<char>)
    requires
        attachments::registered(attachments),
        attachments::state_of(attachments, id) == Some(CollaborationState::Active),
    ensures
        attachments::moved(
            attachments::moved(attachments, id, CollaborationState::Paused),
            id,
            CollaborationState::Active,
        ) == attachments,
{
    let at = attachments::position(attachments, id, 0);
    lemma_position(attachments, id, 0);
    let paused = attachments::moved(attachments, id, CollaborationState::Paused);
    lemma_position(paused, id, 0);
    assert(paused[at].attachment_id@ == id);
    assert forall|i: int| 0 <= i < at implies (#[trigger] paused[i]).attachment_id@ != id by {
        assert(attachments[i].attachment_id@ != id);
    }
    assert(attachments::position(paused, id, 0) == at);
    assert(attachments[at].wf());
    assert(attachments::moved(paused, id, CollaborationState::Active) =~= attachments);
}

/// A pause that takes effect later changes nothing for the page: the agent takes
/// no feedback either way.
pub proof fn lemma_settling_a_pause_keeps_the_tools(attachments: Seq<Attachment>, id: Seq<char>)
    requires
        attachments::state_of(attachments, id) == Some(CollaborationState::PauseRequested),
    ensures
        attachments::any_active(attachments::moved(attachments, id, CollaborationState::Paused))
            == attachments::any_active(attachments),
{
    let at = attachments::position(attachments, id, 0);
    lemma_position(attachments, id, 0);
    lemma_one_leaves(attachments, at, CollaborationState::Paused);
}

} // verus!
