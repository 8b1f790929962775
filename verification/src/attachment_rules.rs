//! What the requests of agents come to, told by the states of the agents, their
//! identifiers and the times of their last signs of life.
use crate::attachments::{self, ControlStep, ControlView, DetachStep, DetachView, StepView, Target};
use crate::operations::{Attachment, CollaborationState};
use crate::replies;
use vstd::prelude::*;
use vstd::string::*;

verus! {

/// The agent is active, about to pause or paused.
pub open spec fn takes_part(attachment: Attachment) -> bool {
    match attachment.collaboration_state {
        CollaborationState::Active
        | CollaborationState::PauseRequested
        | CollaborationState::Paused => true,
        CollaborationState::Inactive => false,
    }
}

/// The agent takes part and gave its last sign of life more than a minute before
/// `now`.
pub open spec fn silent(attachment: Attachment, now: u64) -> bool {
    takes_part(attachment) && now > attachment.last_heartbeat_epoch_secs + 60
}

/// The attachment at `at` is the first with the identifier.
pub open spec fn first_named(attachments: Seq<Attachment>, id: Seq<char>, at: int) -> bool {
    &&& 0 <= at < attachments.len()
    &&& attachments[at].attachment_id@ == id
    &&& forall|i: int| 0 <= i < at ==> (#[trigger] attachments[i]).attachment_id@ != id
}

/// The agent at `at` is the only one that takes part.
pub open spec fn alone(attachments: Seq<Attachment>, at: int) -> bool {
    &&& 0 <= at < attachments.len()
    &&& takes_part(attachments[at])
    &&& forall|i: int|
        0 <= i < attachments.len() && i != at ==> !takes_part(#[trigger] attachments[i])
}

/// A request is aimed at the agent at `at`: it names that agent, or it names none
/// and that agent is the only one that takes part.
pub open spec fn aimed_at(
    attachments: Seq<Attachment>,
    requested: Option<Seq<char>>,
    at: int,
) -> bool {
    match requested {
        Some(id) => first_named(attachments, id, at),
        None => alone(attachments, at),
    }
}

/// Another agent than the one at `at` takes feedback.
pub open spec fn another_active(attachments: Seq<Attachment>, at: int) -> bool {
    exists|i: int|
        0 <= i < attachments.len() && i != at && (#[trigger] attachments[i]).collaboration_state
            == CollaborationState::Active
}

proof fn lemma_found(attachments: Seq<Attachment>, id: Seq<char>, from: int)
    requires
        0 <= from <= attachments.len(),
    ensures
        from <= attachments::position(attachments, id, from) <= attachments.len(),
        forall|i: int|
            from <= i < attachments::position(attachments, id, from) ==> (
            #[trigger] attachments[i]).attachment_id@ != id,
        attachments::position(attachments, id, from) < attachments.len()
            ==> attachments[attachments::position(attachments, id, from)].attachment_id@ == id,
    decreases attachments.len() - from,
{
    if from < attachments.len() && attachments[from].attachment_id@ != id {
        lemma_found(attachments, id, from + 1);
    }
}

proof fn lemma_first_taking_part(attachments: Seq<Attachment>, from: int)
    requires
        0 <= from <= attachments.len(),
    ensures
        from <= attachments::first_connected(attachments, from) <= attachments.len(),
        attachments::first_connected(attachments, from) < attachments.len() ==> takes_part(
            attachments[attachments::first_connected(attachments, from)],
        ),
        forall|i: int|
            from <= i < attachments::first_connected(attachments, from) ==> !takes_part(
                #[trigger] attachments[i],
            ),
    decreases attachments.len() - from,
{
    if from < attachments.len() && !takes_part(attachments[from]) {
        lemma_first_taking_part(attachments, from + 1);
    }
}

/// The identifiers that are listed as those of connected agents are those of the
/// agents that take part, in order, each as often as it occurs.
pub proof fn lemma_who_is_connected(attachments: Seq<Attachment>)
    ensures
        attachments::connected_ids(attachments) == attachments.filter(
            |attachment: Attachment| takes_part(attachment),
        ).map_values(|attachment: Attachment| attachment.attachment_id@),
    decreases attachments.len(),
{
    reveal(Seq::filter);
    let listed = attachments.filter(|attachment: Attachment| takes_part(attachment)).map_values(
        |attachment: Attachment| attachment.attachment_id@,
    );
    if attachments.len() == 0 {
        assert(attachments::connected_ids(attachments) =~= listed);
    } else {
        let rest = attachments.drop_last();
        lemma_who_is_connected(rest);
        let kept = rest.filter(|attachment: Attachment| takes_part(attachment));
        if takes_part(attachments.last()) {
            assert(attachments.filter(|attachment: Attachment| takes_part(attachment)) =~= kept.push(
                attachments.last(),
            ));
            assert(listed =~= kept.map_values(
                |attachment: Attachment| attachment.attachment_id@,
            ).push(attachments.last().attachment_id@));
        } else {
            assert(attachments.filter(|attachment: Attachment| takes_part(attachment)) =~= kept);
        }
    }
}

proof fn lemma_listed(attachments: Seq<Attachment>, id: Seq<char>)
    ensures
        attachments::connected_ids(attachments).contains(id) <==> exists|i: int|
            0 <= i < attachments.len() && takes_part(#[trigger] attachments[i])
                && attachments[i].attachment_id@ == id,
    decreases attachments.len(),
{
    if attachments.len() > 0 {
        let rest = attachments.drop_last();
        let earlier = attachments::connected_ids(rest);
        let all = attachments::connected_ids(attachments);
        let last = attachments.len() - 1;
        lemma_listed(rest, id);
        if all.contains(id) {
            let k = choose|k: int| 0 <= k < all.len() && all[k] == id;
            if k < earlier.len() {
                assert(earlier[k] == id);
                let i = choose|i: int|
                    0 <= i < rest.len() && takes_part(#[trigger] rest[i])
                        && rest[i].attachment_id@ == id;
                assert(takes_part(attachments[i]));
            } else {
                assert(takes_part(attachments[last]));
            }
        }
        if exists|i: int|
            0 <= i < attachments.len() && takes_part(#[trigger] attachments[i])
                && attachments[i].attachment_id@ == id {
            let i = choose|i: int|
                0 <= i < attachments.len() && takes_part(#[trigger] attachments[i])
                    && attachments[i].attachment_id@ == id;
            if i < last {
                assert(takes_part(rest[i]));
                let k = choose|k: int| 0 <= k < earlier.len() && earlier[k] == id;
                assert(all[k] == id);
            } else {
                assert(all[earlier.len() as int] == id);
            }
        }
    }
}

proof fn lemma_number_taking_part(attachments: Seq<Attachment>)
    ensures
        attachments::connected_ids(attachments).len() == 0 <==> forall|i: int|
            0 <= i < attachments.len() ==> !takes_part(#[trigger] attachments[i]),
        attachments::connected_ids(attachments).len() == 1 <==> exists|at: int|
            alone(attachments, at),
    decreases attachments.len(),
{
    if attachments.len() == 0 {
        assert forall|at: int| !alone(attachments, at) by {}
    } else {
        let rest = attachments.drop_last();
        lemma_number_taking_part(rest);
        let last = attachments.len() - 1;
        assert forall|i: int| 0 <= i < last implies #[trigger] rest[i] == attachments[i] by {}
        if takes_part(attachments[last]) {
            if attachments::connected_ids(rest).len() == 0 {
                assert forall|i: int| 0 <= i < attachments.len() && i != last implies !takes_part(
                    #[trigger] attachments[i],
                ) by {
                    assert(!takes_part(rest[i]));
                }
                assert(alone(attachments, last));
            } else {
                assert forall|at: int| !alone(attachments, at) by {
                    if alone(attachments, at) {
                        assert(at == last);
                        assert forall|i: int| 0 <= i < rest.len() implies !takes_part(
                            #[trigger] rest[i],
                        ) by {
                            assert(!takes_part(attachments[i]));
                        }
                    }
                }
            }
        } else {
            if exists|at: int| alone(rest, at) {
                let at = choose|at: int| alone(rest, at);
                assert forall|i: int| 0 <= i < attachments.len() && i != at implies !takes_part(
                    #[trigger] attachments[i],
                ) by {
                    if i < last {
                        assert(!takes_part(rest[i]));
                    }
                }
                assert(takes_part(rest[at]));
                assert(alone(attachments, at));
            }
            if exists|at: int| alone(attachments, at) {
                let at = choose|at: int| alone(attachments, at);
                assert(at != last);
                assert forall|i: int| 0 <= i < rest.len() && i != at implies !takes_part(
                    #[trigger] rest[i],
                ) by {
                    assert(!takes_part(attachments[i]));
                }
                assert(takes_part(rest[at]));
                assert(alone(rest, at));
            }
            if forall|i: int| 0 <= i < rest.len() ==> !takes_part(#[trigger] rest[i]) {
                assert forall|i: int| 0 <= i < attachments.len() implies !takes_part(
                    #[trigger] attachments[i],
                ) by {
                    if i < last {
                        assert(!takes_part(rest[i]));
                    }
                }
            }
            if forall|i: int| 0 <= i < attachments.len() ==> !takes_part(#[trigger] attachments[i]) {
                assert forall|i: int| 0 <= i < rest.len() implies !takes_part(
                    #[trigger] rest[i],
                ) by {
                    assert(!takes_part(attachments[i]));
                }
            }
        }
    }
}

/// A request that names an agent reaches the first attachment with that
/// identifier where it takes part. One that names none reaches the only agent that
/// takes part; where several do, it reaches nobody because it is ambiguous.
pub proof fn lemma_whom_a_request_reaches(
    attachments: Seq<Attachment>,
    requested: Option<Seq<char>>,
    at: int,
)
    ensures
        attachments::target(attachments, requested) == Target::At(at) <==> aimed_at(
            attachments,
            requested,
            at,
        ) && takes_part(attachments[at]),
        requested matches Some(id) ==> {
            &&& attachments::target(attachments, requested) == Target::Unknown(id) <==> (forall|
                i: int,
            |
                0 <= i < attachments.len() ==> (#[trigger] attachments[i]).attachment_id@ != id)
            &&& first_named(attachments, id, at) && !takes_part(attachments[at])
                ==> attachments::target(attachments, requested) == Target::Gone(id)
        },
        requested is None ==> {
            &&& attachments::target(attachments, requested) == Target::Nobody <==> (forall|i: int|
                0 <= i < attachments.len() ==> !takes_part(#[trigger] attachments[i]))
            &&& attachments::target(attachments, requested) == Target::Ambiguous <==> (exists|
                i: int,
                j: int,
            |
                0 <= i < j < attachments.len() && takes_part(#[trigger] attachments[i])
                    && takes_part(#[trigger] attachments[j]))
        },
{
    match requested {
        Some(id) => {
            lemma_found(attachments, id, 0);
            let found = attachments::position(attachments, id, 0);
            if first_named(attachments, id, at) {
                assert(found == at);
            }
            if found < attachments.len() {
                assert(first_named(attachments, id, found));
            }
        },
        None => {
            lemma_first_taking_part(attachments, 0);
            lemma_number_taking_part(attachments);
            let found = attachments::first_connected(attachments, 0);
            if alone(attachments, at) {
                assert(found == at) by {
                    if found != at {
                        if found < attachments.len() {
                            assert(!takes_part(attachments[found]));
                        } else {
                            assert(!takes_part(attachments[at]));
                        }
                    }
                }
            }
            if attachments::connected_ids(attachments).len() == 1 {
                let only = choose|only: int| alone(attachments, only);
                assert(found == only) by {
                    if found != only {
                        if found < attachments.len() {
                            assert(!takes_part(attachments[found]));
                        } else {
                            assert(!takes_part(attachments[only]));
                        }
                    }
                }
            }
            if exists|i: int, j: int|
                0 <= i < j < attachments.len() && takes_part(#[trigger] attachments[i])
                    && takes_part(#[trigger] attachments[j]) {
                let (i, j) = choose|i: int, j: int|
                    0 <= i < j < attachments.len() && takes_part(#[trigger] attachments[i])
                        && takes_part(#[trigger] attachments[j]);
                assert forall|only: int| !alone(attachments, only) by {
                    if alone(attachments, only) {
                        assert(i == only && j == only);
                    }
                }
            } else if attachments::connected_ids(attachments).len() > 0 {
                let i = choose|i: int| 0 <= i < attachments.len() && takes_part(
                    #[trigger] attachments[i],
                );
                assert forall|k: int| 0 <= k < attachments.len() && k != i implies !takes_part(
                    #[trigger] attachments[k],
                ) by {
                    if k < i {
                        assert(!(takes_part(attachments[k]) && takes_part(attachments[i])));
                    } else {
                        assert(!(takes_part(attachments[i]) && takes_part(attachments[k])));
                    }
                }
                assert(alone(attachments, i));
            }
        },
    }
}

/// A request to leave that comes to a change releases the leases of the agent that
/// leaves, whether or not it is the only one that takes feedback, and those of
/// nobody else. Before that the tools are hidden where the agent takes feedback and
/// no other does, and only there.
pub proof fn lemma_leaving_releases_the_leases(
    attachments: Seq<Attachment>,
    requested: Option<Seq<char>>,
)
    ensures
        attachments::detach_step(attachments, requested) matches DetachStep::Change {
            attachment_id,
            steps,
        } ==> {
            &&& steps.contains(StepView::ReleaseLeases(attachment_id))
            &&& steps.last() == StepView::ReleaseLeases(attachment_id)
            &&& forall|owner: Seq<char>|
                #[trigger] steps.contains(StepView::ReleaseLeases(owner)) ==> owner
                    == attachment_id
            &&& exists|at: int|
                {
                    &&& aimed_at(attachments, requested, at)
                    &&& takes_part(#[trigger] attachments[at])
                    &&& attachments[at].attachment_id@ == attachment_id
                    &&& steps.contains(StepView::ShowTools(false)) <==> (
                    attachments[at].collaboration_state == CollaborationState::Active
                        && !another_active(attachments, at))
                }
            &&& !steps.contains(StepView::ShowTools(true))
            &&& forall|owner: Seq<char>| !#[trigger] steps.contains(StepView::AskLease(owner))
        },
{
    if let DetachStep::Change { attachment_id, steps } = attachments::detach_step(
        attachments,
        requested,
    ) {
        let at = attachments::target(attachments, requested)->At_0;
        lemma_whom_a_request_reaches(attachments, requested, at);
        let release = StepView::ReleaseLeases(attachment_id);
        assert(steps[steps.len() - 1] == release);
        let hides = attachments[at].collaboration_state == CollaborationState::Active
            && !another_active(attachments, at);
        assert(attachments::only_active(attachments, at) == hides) by {
            if hides {
                assert forall|i: int| 0 <= i < attachments.len() && i != at implies !((
                #[trigger] attachments[i]).collaboration_state is Active) by {}
            }
        }
        if hides {
            assert(steps[0] == StepView::ShowTools(false));
            assert(steps.len() == 2);
        } else {
            assert(steps.len() == 1);
        }
        assert(takes_part(attachments[at]));
    }
}

/// A request to leave that is aimed at an agent comes to a change where that agent
/// takes part, and else says that it has left already. One that names nobody is
/// answered in the same way where nobody takes part, and refused where several do;
/// one that names an unknown identifier is refused.
pub proof fn lemma_what_leaving_comes_to(
    attachments: Seq<Attachment>,
    requested: Option<Seq<char>>,
    at: int,
)
    ensures
        aimed_at(attachments, requested, at) && takes_part(attachments[at])
            ==> (attachments::detach_step(attachments, requested) matches DetachStep::Change {
            attachment_id,
            ..
        } && attachment_id == attachments[at].attachment_id@),
        aimed_at(attachments, requested, at) && !takes_part(attachments[at])
            ==> attachments::detach_step(attachments, requested) == DetachStep::Settled(
            DetachView {
                status: "already-detached"@,
                attachment_id: requested,
                active_attachment_count: attachments.filter(
                    |attachment: Attachment| takes_part(attachment),
                ).len() as int,
            },
        ),
        requested is None && (forall|i: int|
            0 <= i < attachments.len() ==> !takes_part(#[trigger] attachments[i]))
            ==> attachments::detach_step(attachments, requested) == DetachStep::Settled(
            DetachView {
                status: "already-detached"@,
                attachment_id: None,
                active_attachment_count: 0,
            },
        ),
        requested is None && (exists|i: int, j: int|
            0 <= i < j < attachments.len() && takes_part(#[trigger] attachments[i]) && takes_part(
                #[trigger] attachments[j],
            )) ==> attachments::detach_step(attachments, requested) is Refused,
        requested matches Some(id) ==> ((forall|i: int|
            0 <= i < attachments.len() ==> (#[trigger] attachments[i]).attachment_id@ != id)
            ==> attachments::detach_step(attachments, requested) is Refused),
{
    lemma_whom_a_request_reaches(attachments, requested, at);
    lemma_who_is_connected(attachments);
}

/// A request to pause that is aimed at an agent that takes feedback comes to a
/// change of that agent: first the queue is asked whether it has some to finish,
/// then the tools are hidden where no other agent takes feedback. One that pauses,
/// or is about to, is left as it is.
pub proof fn lemma_what_pausing_comes_to(
    attachments: Seq<Attachment>,
    requested: Option<Seq<char>>,
    at: int,
)
    requires
        aimed_at(attachments, requested, at),
    ensures
        ({
            let id = attachments[at].attachment_id@;
            let outcome = attachments::pause_step(attachments, requested);
            match attachments[at].collaboration_state {
                CollaborationState::Active => {
                    &&& outcome matches ControlStep::Change { attachment_id, steps }
                    &&& attachment_id == id
                    &&& steps[0] == StepView::AskLease(id)
                    &&& if another_active(attachments, at) {
                        steps.len() == 1
                    } else {
                        steps.len() == 2 && steps[1] == StepView::ShowTools(false)
                    }
                },
                CollaborationState::PauseRequested => {
                    &&& outcome matches ControlStep::Settled(answer)
                    &&& answer.status == "pause-requested"@
                    &&& answer.attachment_id == Some(id)
                    &&& answer.collaboration_state == CollaborationState::PauseRequested
                },
                CollaborationState::Paused => {
                    &&& outcome matches ControlStep::Settled(answer)
                    &&& answer.status == "already-paused"@
                    &&& answer.attachment_id == Some(id)
                    &&& answer.collaboration_state == CollaborationState::Paused
                },
                CollaborationState::Inactive => outcome == ControlStep::Refused(
                    replies::inactive_reply(id),
                ),
            }
        }),
{
    lemma_whom_a_request_reaches(attachments, requested, at);
    if attachments[at].collaboration_state == CollaborationState::Active && !another_active(
        attachments,
        at,
    ) {
        assert forall|i: int| 0 <= i < attachments.len() && i != at implies !((
        #[trigger] attachments[i]).collaboration_state is Active) by {}
        assert(attachments::only_active(attachments, at));
    }
}

/// A request to resume that is aimed at an agent that pauses comes to a change of
/// that agent, before which the tools are shown where no agent takes feedback yet.
/// One that takes feedback is left as it is, and one that is about to pause has to
/// finish its feedback first.
pub proof fn lemma_what_resuming_comes_to(
    attachments: Seq<Attachment>,
    requested: Option<Seq<char>>,
    at: int,
)
    requires
        aimed_at(attachments, requested, at),
    ensures
        ({
            let id = attachments[at].attachment_id@;
            let outcome = attachments::resume_step(attachments, requested);
            match attachments[at].collaboration_state {
                CollaborationState::Active => {
                    &&& outcome matches ControlStep::Settled(answer)
                    &&& answer.status == "already-active"@
                    &&& answer.attachment_id == Some(id)
                    &&& answer.collaboration_state == CollaborationState::Active
                },
                CollaborationState::PauseRequested => outcome is Refused,
                CollaborationState::Paused => {
                    &&& outcome matches ControlStep::Change { attachment_id, steps }
                    &&& attachment_id == id
                    &&& if another_active(attachments, at) {
                        steps.len() == 0
                    } else {
                        steps.len() == 1 && steps[0] == StepView::ShowTools(true)
                    }
                },
                CollaborationState::Inactive => outcome == ControlStep::Refused(
                    replies::inactive_reply(id),
                ),
            }
        }),
{
    lemma_whom_a_request_reaches(attachments, requested, at);
    if another_active(attachments, at) {
        let i = choose|i: int|
            0 <= i < attachments.len() && i != at && (
            #[trigger] attachments[i]).collaboration_state == CollaborationState::Active;
        assert(attachments[i].collaboration_state is Active);
    }
}

/// A request to pause or to resume that names nobody needs no change where nobody
/// takes part, and is refused where several do; one that names an unknown
/// identifier is refused.
pub proof fn lemma_control_without_a_target(
    attachments: Seq<Attachment>,
    requested: Option<Seq<char>>,
)
    ensures
        requested is None && (forall|i: int|
            0 <= i < attachments.len() ==> !takes_part(#[trigger] attachments[i])) ==> {
            &&& attachments::pause_step(attachments, requested) == ControlStep::Settled(
                ControlView {
                    status: "already-paused"@,
                    attachment_id: None,
                    collaboration_state: CollaborationState::Paused,
                },
            )
            &&& attachments::resume_step(attachments, requested) == ControlStep::Settled(
                ControlView {
                    status: "already-active"@,
                    attachment_id: None,
                    collaboration_state: CollaborationState::Active,
                },
            )
        },
        requested is None && (exists|i: int, j: int|
            0 <= i < j < attachments.len() && takes_part(#[trigger] attachments[i]) && takes_part(
                #[trigger] attachments[j],
            )) ==> attachments::pause_step(attachments, requested) is Refused
            && attachments::resume_step(attachments, requested) is Refused,
        requested matches Some(id) ==> ((forall|i: int|
            0 <= i < attachments.len() ==> (#[trigger] attachments[i]).attachment_id@ != id) ==> (
        attachments::pause_step(attachments, requested) == ControlStep::Refused(
            replies::not_found_reply(id),
        ) && attachments::resume_step(attachments, requested) == ControlStep::Refused(
            replies::not_found_reply(id),
        ))),
{
    lemma_whom_a_request_reaches(attachments, requested, 0);
}

proof fn lemma_releases(owners: Seq<Seq<char>>, owner: Seq<char>)
    ensures
        attachments::releasing(owners).contains(StepView::ReleaseLeases(owner)) <==> owners.contains(
            owner,
        ),
{
    let released = attachments::releasing(owners);
    if owners.contains(owner) {
        let k = choose|k: int| 0 <= k < owners.len() && owners[k] == owner;
        assert(released[k] == StepView::ReleaseLeases(owner));
    }
    if released.contains(StepView::ReleaseLeases(owner)) {
        let k = choose|k: int| 0 <= k < released.len() && released[k] == StepView::ReleaseLeases(
            owner,
        );
        assert(owners[k] == owner);
    }
}

/// The agents that are given up on are those that take part and have been silent
/// for more than a minute.
pub proof fn lemma_who_is_given_up_on(attachments: Seq<Attachment>, now: u64, id: Seq<char>)
    ensures
        attachments::stale_ids(attachments, now).contains(id) <==> exists|i: int|
            0 <= i < attachments.len() && silent(#[trigger] attachments[i], now)
                && attachments[i].attachment_id@ == id,
    decreases attachments.len(),
{
    if attachments.len() > 0 {
        let rest = attachments.drop_last();
        let earlier = attachments::stale_ids(rest, now);
        let all = attachments::stale_ids(attachments, now);
        let last = attachments.len() - 1;
        lemma_who_is_given_up_on(rest, now, id);
        if all.contains(id) {
            let k = choose|k: int| 0 <= k < all.len() && all[k] == id;
            if k < earlier.len() {
                assert(earlier[k] == id);
                let i = choose|i: int|
                    0 <= i < rest.len() && silent(#[trigger] rest[i], now)
                        && rest[i].attachment_id@ == id;
                assert(silent(attachments[i], now));
            } else {
                assert(silent(attachments[last], now));
            }
        }
        if exists|i: int|
            0 <= i < attachments.len() && silent(#[trigger] attachments[i], now)
                && attachments[i].attachment_id@ == id {
            let i = choose|i: int|
                0 <= i < attachments.len() && silent(#[trigger] attachments[i], now)
                    && attachments[i].attachment_id@ == id;
            if i < last {
                assert(silent(rest[i], now));
                let k = choose|k: int| 0 <= k < earlier.len() && earlier[k] == id;
                assert(all[k] == id);
            } else {
                assert(all[earlier.len() as int] == id);
            }
        }
    }
}

/// Before silent agents are given up on, the leases of each of them are released,
/// and those of nobody else.
pub proof fn lemma_expiry_releases_the_leases(attachments: Seq<Attachment>, now: u64)
    ensures
        forall|owner: Seq<char>| #[trigger]
            attachments::expiry_steps(attachments, now).contains(StepView::ReleaseLeases(owner))
                <==> exists|i: int|
                0 <= i < attachments.len() && silent(#[trigger] attachments[i], now)
                    && attachments[i].attachment_id@ == owner,
{
    let ids = attachments::stale_ids(attachments, now);
    let steps = attachments::expiry_steps(attachments, now);
    let released = attachments::releasing(ids);
    let head = attachments::switching(
        attachments::any_active(attachments) && attachments::active_among(attachments, ids),
        false,
    );
    assert forall|owner: Seq<char>| #[trigger]
        steps.contains(StepView::ReleaseLeases(owner)) <==> exists|i: int|
            0 <= i < attachments.len() && silent(#[trigger] attachments[i], now)
                && attachments[i].attachment_id@ == owner by {
        lemma_who_is_given_up_on(attachments, now, owner);
        lemma_releases(ids, owner);
        let release = StepView::ReleaseLeases(owner);
        if released.contains(release) {
            let k = choose|k: int| 0 <= k < released.len() && released[k] == release;
            assert(steps[head.len() + k] == release);
        }
        if steps.contains(release) {
            let k = choose|k: int| 0 <= k < steps.len() && steps[k] == release;
            assert(k >= head.len());
            assert(released[k - head.len()] == release);
        }
    }
}

/// Before everything is closed, the leases of each agent that takes part are
/// released, and those of nobody else.
pub proof fn lemma_closing_releases_the_leases(attachments: Seq<Attachment>)
    ensures
        forall|owner: Seq<char>| #[trigger]
            attachments::close_steps(attachments).contains(StepView::ReleaseLeases(owner))
                <==> exists|i: int|
                0 <= i < attachments.len() && takes_part(#[trigger] attachments[i])
                    && attachments[i].attachment_id@ == owner,
{
    let ids = attachments::connected_ids(attachments);
    let steps = attachments::close_steps(attachments);
    let released = attachments::releasing(ids);
    assert forall|owner: Seq<char>| #[trigger]
        steps.contains(StepView::ReleaseLeases(owner)) <==> exists|i: int|
            0 <= i < attachments.len() && takes_part(#[trigger] attachments[i])
                && attachments[i].attachment_id@ == owner by {
        lemma_listed(attachments, owner);
        lemma_releases(ids, owner);
        let release = StepView::ReleaseLeases(owner);
        if released.contains(release) {
            let k = choose|k: int| 0 <= k < released.len() && released[k] == release;
            assert(steps[k] == release);
        }
        if steps.contains(release) {
            let k = choose|k: int| 0 <= k < steps.len() && steps[k] == release;
            assert(k < released.len());
            assert(released[k] == release);
        }
    }
}

/// The attachment in a state, with the flag that goes with it; all else is as it
/// was.
pub open spec fn changed_to(
    before: Attachment,
    after: Attachment,
    state: CollaborationState,
) -> bool {
    &&& after.collaboration_state == state
    &&& after.active == (state != CollaborationState::Inactive)
    &&& after.attachment_id == before.attachment_id
    &&& after.agent_kind == before.agent_kind
    &&& after.tui_session_id == before.tui_session_id
    &&& after.pid == before.pid
    &&& after.attached_at_epoch_secs == before.attached_at_epoch_secs
    &&& after.last_heartbeat_epoch_secs == before.last_heartbeat_epoch_secs
}

/// A change of state concerns the first attachment with the identifier and no
/// other. Giving up on agents concerns all with one of the identifiers, and closing
/// concerns all that take part.
pub proof fn lemma_whose_state_changes(
    attachments: Seq<Attachment>,
    id: Seq<char>,
    state: CollaborationState,
    ids: Seq<Seq<char>>,
    at: int,
)
    requires
        0 <= at < attachments.len(),
    ensures
        attachments::moved(attachments, id, state).len() == attachments.len(),
        attachments::given_up(attachments, ids).len() == attachments.len(),
        attachments::disconnected(attachments).len() == attachments.len(),
        if first_named(attachments, id, at) {
            changed_to(attachments[at], attachments::moved(attachments, id, state)[at], state)
        } else {
            attachments::moved(attachments, id, state)[at] == attachments[at]
        },
        if ids.contains(attachments[at].attachment_id@) {
            changed_to(
                attachments[at],
                attachments::given_up(attachments, ids)[at],
                CollaborationState::Inactive,
            )
        } else {
            attachments::given_up(attachments, ids)[at] == attachments[at]
        },
        if takes_part(attachments[at]) {
            changed_to(
                attachments[at],
                attachments::disconnected(attachments)[at],
                CollaborationState::Inactive,
            )
        } else {
            attachments::disconnected(attachments)[at] == attachments[at]
        },
{
    lemma_found(attachments, id, 0);
    let found = attachments::position(attachments, id, 0);
    if first_named(attachments, id, at) {
        assert(found == at);
    }
}

/// An agent that has feedback to finish is about to pause; one that has none pauses.
pub proof fn lemma_pausing_waits_for_current_work(has_current_lease: bool)
    ensures
        has_current_lease <==> attachments::paused_state(has_current_lease)
            == CollaborationState::PauseRequested,
        !has_current_lease <==> attachments::paused_state(has_current_lease)
            == CollaborationState::Paused,
{
}

proof fn lemma_first_not_taking_part(attachments: Seq<Attachment>, from: int)
    requires
        0 <= from <= attachments.len(),
    ensures
        from <= attachments::first_gone(attachments, from) <= attachments.len(),
        attachments::first_gone(attachments, from) < attachments.len() ==> !takes_part(
            attachments[attachments::first_gone(attachments, from)],
        ),
        forall|i: int|
            from <= i < attachments::first_gone(attachments, from) ==> takes_part(
                #[trigger] attachments[i],
            ),
    decreases attachments.len() - from,
{
    if from < attachments.len() && takes_part(attachments[from]) {
        lemma_first_not_taking_part(attachments, from + 1);
    }
}

/// There is no room exactly where as many attachments as may be kept all take part.
/// Making room forgets nobody while there are fewer, and else only the earliest
/// that does not take part; the others stay in their order.
pub proof fn lemma_room_is_made_by_forgetting(attachments: Seq<Attachment>)
    requires
        attachments.len() <= 32,
    ensures
        attachments::full(attachments) <==> attachments.len() == 32 && (forall|i: int|
            0 <= i < attachments.len() ==> takes_part(#[trigger] attachments[i])),
        attachments.len() < 32 ==> attachments::with_room(attachments) == attachments,
        attachments.len() == 32 && !attachments::full(attachments) ==> exists|gone: int|
            {
                &&& 0 <= gone < 32
                &&& !takes_part(#[trigger] attachments[gone])
                &&& (forall|i: int| 0 <= i < gone ==> takes_part(#[trigger] attachments[i]))
                &&& attachments::with_room(attachments) == attachments.take(gone)
                    + attachments.skip(gone + 1)
            },
{
    lemma_first_not_taking_part(attachments, 0);
    let gone = attachments::first_gone(attachments, 0);
    if attachments.len() == 32 && gone < 32 {
        assert(!takes_part(attachments[gone]));
        assert(attachments.remove(gone) =~= attachments.take(gone) + attachments.skip(gone + 1));
    }
}

} // verus!
