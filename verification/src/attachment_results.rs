//! What the functions of the registry of agents give back and leave in it, told by the
//! agents that were registered before.
use crate::attachment_rules;
use crate::attachments::{
    self, join, AttachmentActivity, AttachmentRegistry, ControlPlan, DetachPlan, ExpiryPlan, Step,
};
use crate::feedback;
use crate::operations::{
    AttachRequest, Attachment, CollaborationControlResult, CollaborationState, DetachResult,
};
use crate::replies::Reply;
use vstd::prelude::*;
use vstd::string::*;

verus! {

/// The steps release the leases of an owner.
pub open spec fn releases(steps: Seq<Step>, owner: Seq<char>) -> bool {
    exists|i: int|
        0 <= i < steps.len() && (#[trigger] steps[i] matches Step::ReleaseLeases(named) && named@
            == owner)
}

/// The steps hide or show the tools.
pub open spec fn switches(steps: Seq<Step>, shown: bool) -> bool {
    exists|i: int| 0 <= i < steps.len() && #[trigger] steps[i] == Step::ShowTools(shown)
}

proof fn lemma_releases(steps: Seq<Step>, owner: Seq<char>)
    ensures
        releases(steps, owner) <==> attachments::step_views(steps).contains(
            attachments::StepView::ReleaseLeases(owner),
        ),
{
    let views = attachments::step_views(steps);
    let wanted = attachments::StepView::ReleaseLeases(owner);
    if releases(steps, owner) {
        let i = choose|i: int|
            0 <= i < steps.len() && (#[trigger] steps[i] matches Step::ReleaseLeases(named)
                && named@ == owner);
        assert(views[i] == wanted);
    }
    if views.contains(wanted) {
        let i = choose|i: int| 0 <= i < views.len() && views[i] == wanted;
        assert(steps[i]@ == wanted);
    }
}

proof fn lemma_switches(steps: Seq<Step>, shown: bool)
    ensures
        switches(steps, shown) <==> attachments::step_views(steps).contains(
            attachments::StepView::ShowTools(shown),
        ),
{
    let views = attachments::step_views(steps);
    let wanted = attachments::StepView::ShowTools(shown);
    if switches(steps, shown) {
        let i = choose|i: int| 0 <= i < steps.len() && #[trigger] steps[i] == Step::ShowTools(shown);
        assert(views[i] == wanted);
    }
    if views.contains(wanted) {
        let i = choose|i: int| 0 <= i < views.len() && views[i] == wanted;
        assert(steps[i]@ == wanted);
        assert(steps[i] == Step::ShowTools(shown));
    }
}

/// A request to leave that comes to a change is aimed at an agent that takes part, and
/// releases the leases of that agent and of nobody else, whether or not it is the only one
/// that takes feedback. It hides the tools exactly where it is.
pub proof fn lemma_leaving(
    registry: &AttachmentRegistry,
    requested: Option<&str>,
    outcome: Result<DetachPlan, Reply>,
)
    requires
        call_ensures(AttachmentRegistry::plan_detach, (registry, requested), outcome),
    ensures
        outcome matches Ok(DetachPlan::Change { attachment_id, steps }) ==> {
            &&& releases(steps@, attachment_id@)
            &&& forall|owner: Seq<char>| #[trigger] releases(steps@, owner) ==> owner
                == attachment_id@
            &&& !switches(steps@, true)
            &&& exists|at: int|
                {
                    &&& attachment_rules::aimed_at(
                        registry@,
                        attachments::optional_view(requested),
                        at,
                    )
                    &&& attachment_rules::takes_part(#[trigger] registry@[at])
                    &&& registry@[at].attachment_id@ == attachment_id@
                    &&& switches(steps@, false) <==> registry@[at].collaboration_state
                        == CollaborationState::Active && !attachment_rules::another_active(
                        registry@,
                        at,
                    )
                }
        },
{
    if let Ok(DetachPlan::Change { attachment_id, steps }) = outcome {
        attachment_rules::lemma_leaving_releases_the_leases(
            registry@,
            attachments::optional_view(requested),
        );
        assert forall|owner: Seq<char>| #[trigger]
            releases(steps@, owner) == attachments::step_views(steps@).contains(
                attachments::StepView::ReleaseLeases(owner),
            ) by {
            lemma_releases(steps@, owner);
        }
        assert(releases(steps@, attachment_id@));
        lemma_switches(steps@, true);
        lemma_switches(steps@, false);
    }
}

/// A request to leave comes to a change exactly where it is aimed at an agent that takes
/// part.
pub proof fn lemma_who_leaves(
    registry: &AttachmentRegistry,
    requested: Option<&str>,
    outcome: Result<DetachPlan, Reply>,
    at: int,
)
    requires
        call_ensures(AttachmentRegistry::plan_detach, (registry, requested), outcome),
        attachment_rules::aimed_at(registry@, attachments::optional_view(requested), at),
    ensures
        attachment_rules::takes_part(registry@[at]) ==> (outcome matches Ok(DetachPlan::Change {
            attachment_id,
            ..
        }) && attachment_id@ == registry@[at].attachment_id@),
        !attachment_rules::takes_part(registry@[at]) ==> (outcome matches Ok(DetachPlan::Settled(
            result,
        )) && result.status@ == "already-detached"@),
{
    attachment_rules::lemma_what_leaving_comes_to(
        registry@,
        attachments::optional_view(requested),
        at,
    );
}

/// Before silent agents are given up on, the leases of each of them are released, and
/// those of nobody else; and it is they who are then given up on.
pub proof fn lemma_expiry(registry: &AttachmentRegistry, now: u64, plan: ExpiryPlan)
    requires
        call_ensures(AttachmentRegistry::plan_expiry, (registry, now), plan),
    ensures
        forall|owner: Seq<char>| #[trigger]
            releases(plan.steps@, owner) <==> exists|i: int|
                0 <= i < registry@.len() && attachment_rules::silent(#[trigger] registry@[i], now)
                    && registry@[i].attachment_id@ == owner,
        forall|owner: Seq<char>| #[trigger]
            feedback::texts(plan.stale_ids@).contains(owner) <==> exists|i: int|
                0 <= i < registry@.len() && attachment_rules::silent(#[trigger] registry@[i], now)
                    && registry@[i].attachment_id@ == owner,
{
    attachment_rules::lemma_expiry_releases_the_leases(registry@, now);
    assert forall|owner: Seq<char>| #[trigger]
        releases(plan.steps@, owner) == attachments::expiry_steps(registry@, now).contains(
            attachments::StepView::ReleaseLeases(owner),
        ) by {
        lemma_releases(plan.steps@, owner);
    }
    assert forall|owner: Seq<char>| #[trigger]
        feedback::texts(plan.stale_ids@).contains(owner) <==> exists|i: int|
            0 <= i < registry@.len() && attachment_rules::silent(#[trigger] registry@[i], now)
                && registry@[i].attachment_id@ == owner by {
        attachment_rules::lemma_who_is_given_up_on(registry@, now, owner);
    }
}

/// Before everything is closed, the leases of each agent that takes part are released; then
/// none takes part any more.
pub proof fn lemma_closing(
    registry: &AttachmentRegistry,
    closed: &mut AttachmentRegistry,
    steps: Vec<Step>,
)
    requires
        call_ensures(AttachmentRegistry::plan_close, (registry,), steps),
        call_ensures(AttachmentRegistry::finish_close, (closed,), ()),
    ensures
        forall|owner: Seq<char>| #[trigger]
            releases(steps@, owner) <==> exists|i: int|
                0 <= i < registry@.len() && attachment_rules::takes_part(#[trigger] registry@[i])
                    && registry@[i].attachment_id@ == owner,
        final(closed)@.len() == old(closed)@.len(),
        forall|i: int|
            0 <= i < old(closed)@.len() ==> !attachment_rules::takes_part(
                #[trigger] final(closed)@[i],
            ) && final(closed)@[i].attachment_id == old(closed)@[i].attachment_id,
{
    attachment_rules::lemma_closing_releases_the_leases(registry@);
    assert forall|owner: Seq<char>| #[trigger]
        releases(steps@, owner) == attachments::close_steps(registry@).contains(
            attachments::StepView::ReleaseLeases(owner),
        ) by {
        lemma_releases(steps@, owner);
    }
    assert forall|i: int| 0 <= i < old(closed)@.len() implies !attachment_rules::takes_part(
        #[trigger] final(closed)@[i],
    ) && final(closed)@[i].attachment_id == old(closed)@[i].attachment_id by {
        attachment_rules::lemma_whose_state_changes(
            old(closed)@,
            Seq::empty(),
            CollaborationState::Active,
            Seq::empty(),
            i,
        );
    }
}

/// A request to pause, to resume or to leave that has been planned for an agent brings that
/// agent, and no other, into the state that goes with it: paused, or about to pause where
/// it has feedback to finish; active; or gone.
pub proof fn lemma_finished_requests(
    paused: &mut AttachmentRegistry,
    resumed: &mut AttachmentRegistry,
    left: &mut AttachmentRegistry,
    id: &str,
    has_current_lease: bool,
    pause: CollaborationControlResult,
    resumption: CollaborationControlResult,
    leave: DetachResult,
    at: int,
)
    requires
        call_ensures(AttachmentRegistry::finish_pause, (paused, id, has_current_lease), pause),
        call_ensures(AttachmentRegistry::finish_resume, (resumed, id), resumption),
        call_ensures(AttachmentRegistry::finish_detach, (left, id), leave),
        old(resumed)@ == old(paused)@,
        old(left)@ == old(paused)@,
        0 <= at < old(paused)@.len(),
    ensures
        ({
            let before = old(paused)@[at];
            let waiting = if has_current_lease {
                CollaborationState::PauseRequested
            } else {
                CollaborationState::Paused
            };
            if attachment_rules::first_named(old(paused)@, id@, at) {
                &&& attachment_rules::changed_to(before, final(paused)@[at], waiting)
                &&& attachment_rules::changed_to(
                    before,
                    final(resumed)@[at],
                    CollaborationState::Active,
                )
                &&& attachment_rules::changed_to(
                    before,
                    final(left)@[at],
                    CollaborationState::Inactive,
                )
            } else {
                &&& final(paused)@[at] == before
                &&& final(resumed)@[at] == before
                &&& final(left)@[at] == before
            }
        }),
        pause.collaboration_state == if has_current_lease {
            CollaborationState::PauseRequested
        } else {
            CollaborationState::Paused
        },
        pause.status@ == if has_current_lease {
            "pause-requested"@
        } else {
            "paused"@
        },
        resumption.collaboration_state == CollaborationState::Active,
        resumption.status@ == "resumed"@,
        leave.status@ == "detached"@,
        leave.active_attachment_count == final(left)@.filter(
            |attachment: Attachment| attachment_rules::takes_part(attachment),
        ).len(),
{
    let before = old(paused)@;
    attachment_rules::lemma_pausing_waits_for_current_work(has_current_lease);
    attachment_rules::lemma_whose_state_changes(
        before,
        id@,
        attachments::paused_state(has_current_lease),
        Seq::empty(),
        at,
    );
    attachment_rules::lemma_whose_state_changes(
        before,
        id@,
        CollaborationState::Active,
        Seq::empty(),
        at,
    );
    attachment_rules::lemma_whose_state_changes(
        before,
        id@,
        CollaborationState::Inactive,
        Seq::empty(),
        at,
    );
    attachment_rules::lemma_who_is_connected(final(left)@);
}

/// A request to pause that is aimed at an agent that takes feedback comes to a change of
/// it, and one to resume that is aimed at an agent that pauses does so too.
pub proof fn lemma_planned_control(
    registry: &AttachmentRegistry,
    requested: Option<&str>,
    pause: Result<ControlPlan, Reply>,
    resumption: Result<ControlPlan, Reply>,
    at: int,
)
    requires
        call_ensures(AttachmentRegistry::plan_pause, (registry, requested), pause),
        call_ensures(AttachmentRegistry::plan_resume, (registry, requested), resumption),
        attachment_rules::aimed_at(registry@, attachments::optional_view(requested), at),
    ensures
        ({
            let agent = registry@[at];
            let id = agent.attachment_id@;
            match agent.collaboration_state {
                CollaborationState::Active => {
                    &&& pause matches Ok(ControlPlan::Change { attachment_id, steps })
                    &&& attachment_id@ == id
                    &&& steps@[0]@ == attachments::StepView::AskLease(id)
                    &&& switches(steps@, false) <==> !attachment_rules::another_active(registry@, at)
                    &&& resumption matches Ok(ControlPlan::Settled(answer))
                    &&& answer.collaboration_state == CollaborationState::Active
                },
                CollaborationState::PauseRequested => {
                    &&& pause matches Ok(ControlPlan::Settled(answer))
                    &&& answer.collaboration_state == CollaborationState::PauseRequested
                    &&& resumption is Err
                },
                CollaborationState::Paused => {
                    &&& pause matches Ok(ControlPlan::Settled(answer))
                    &&& answer.collaboration_state == CollaborationState::Paused
                    &&& resumption matches Ok(ControlPlan::Change { attachment_id, steps })
                    &&& attachment_id@ == id
                    &&& switches(steps@, true) <==> !attachment_rules::another_active(registry@, at)
                },
                CollaborationState::Inactive => pause is Err && resumption is Err,
            }
        }),
{
    let wanted = attachments::optional_view(requested);
    attachment_rules::lemma_what_pausing_comes_to(registry@, wanted, at);
    attachment_rules::lemma_what_resuming_comes_to(registry@, wanted, at);
    let agent = registry@[at];
    if agent.collaboration_state == CollaborationState::Active {
        let steps = pause->Ok_0->Change_steps;
        let views = attachments::step_views(steps@);
        lemma_switches(steps@, false);
        assert(views[0] == steps@[0]@);
        if !attachment_rules::another_active(registry@, at) {
            assert(views[1] == attachments::StepView::ShowTools(false));
        }
    }
    if agent.collaboration_state == CollaborationState::Paused {
        let steps = resumption->Ok_0->Change_steps;
        let views = attachments::step_views(steps@);
        lemma_switches(steps@, true);
        if !attachment_rules::another_active(registry@, at) {
            assert(views[0] == attachments::StepView::ShowTools(true));
        }
    }
}

/// A sign of life of an agent that takes part is noted with its time; one of an agent that
/// takes part no longer, or is not known, changes nothing.
pub proof fn lemma_sign_of_life(
    registry: &mut AttachmentRegistry,
    id: &str,
    now: u64,
    activity: AttachmentActivity,
    at: int,
)
    requires
        call_ensures(AttachmentRegistry::heartbeat, (registry, id, now), activity),
    ensures
        (forall|i: int|
            0 <= i < old(registry)@.len() ==> (#[trigger] old(registry)@[i]).attachment_id@ != id@)
            ==> activity == AttachmentActivity::Missing,
        attachment_rules::first_named(old(registry)@, id@, at) ==> activity == (
        if attachment_rules::takes_part(old(registry)@[at]) {
            AttachmentActivity::Active
        } else {
            AttachmentActivity::Inactive
        }),
        activity == AttachmentActivity::Active && attachment_rules::first_named(
            old(registry)@,
            id@,
            at,
        ) ==> {
            &&& final(registry)@[at].last_heartbeat_epoch_secs == now
            &&& final(registry)@[at].collaboration_state
                == old(registry)@[at].collaboration_state
            &&& !attachment_rules::silent(final(registry)@[at], now)
            &&& forall|i: int|
                0 <= i < old(registry)@.len() && i != at ==> #[trigger] final(registry)@[i]
                    == old(registry)@[i]
        },
        activity != AttachmentActivity::Active ==> final(registry)@ == old(registry)@,
{
    lemma_place(old(registry)@, id@, 0);
    let found = attachments::position(old(registry)@, id@, 0);
    if found < old(registry)@.len() {
        assert(old(registry)@[found].attachment_id@ == id@);
    }
}

proof fn lemma_place(attached: Seq<Attachment>, id: Seq<char>, from: int)
    requires
        0 <= from <= attached.len(),
    ensures
        from <= attachments::position(attached, id, from) <= attached.len(),
        attachments::position(attached, id, from) < attached.len()
            ==> attached[attachments::position(attached, id, from)].attachment_id@ == id,
        forall|i: int|
            from <= i < attachments::position(attached, id, from) ==> (
            #[trigger] attached[i]).attachment_id@ != id,
    decreases attached.len() - from,
{
    if from < attached.len() && attached[from].attachment_id@ != id {
        lemma_place(attached, id, from + 1);
    }
}

/// An agent that is about to pause pauses at its next sign of life without feedback to
/// finish, and nothing else changes; where it is not about to, or has feedback to finish,
/// nothing changes at all.
pub proof fn lemma_settled_pause(
    registry: &mut AttachmentRegistry,
    id: &str,
    has_current_lease: bool,
    settled: bool,
    at: int,
)
    requires
        call_ensures(
            AttachmentRegistry::settle_at_heartbeat,
            (registry, id, has_current_lease),
            settled,
        ),
        attachment_rules::first_named(old(registry)@, id@, at),
    ensures
        settled <==> !has_current_lease && old(registry)@[at].collaboration_state
            == CollaborationState::PauseRequested,
        settled ==> attachment_rules::changed_to(
            old(registry)@[at],
            final(registry)@[at],
            CollaborationState::Paused,
        ) && forall|i: int|
            0 <= i < old(registry)@.len() && i != at ==> #[trigger] final(registry)@[i]
                == old(registry)@[i],
        !settled ==> final(registry)@ == old(registry)@,
{
    lemma_place(old(registry)@, id@, 0);
    attachment_rules::lemma_whose_state_changes(
        old(registry)@,
        id@,
        CollaborationState::Paused,
        Seq::empty(),
        at,
    );
}

/// Giving up on agents ends the part of those with the given identifiers and of no other.
pub proof fn lemma_given_up(registry: &mut AttachmentRegistry, ids: &Vec<String>, at: int)
    requires
        call_ensures(AttachmentRegistry::finish_expiry, (registry, ids), ()),
        0 <= at < old(registry)@.len(),
    ensures
        if feedback::texts(ids@).contains(old(registry)@[at].attachment_id@) {
            attachment_rules::changed_to(
                old(registry)@[at],
                final(registry)@[at],
                CollaborationState::Inactive,
            )
        } else {
            final(registry)@[at] == old(registry)@[at]
        },
{
    attachment_rules::lemma_whose_state_changes(
        old(registry)@,
        Seq::empty(),
        CollaborationState::Active,
        feedback::texts(ids@),
        at,
    );
}

/// An agent can join exactly while fewer than may be kept are registered or one of them
/// takes part no longer. The tools are shown first where no agent takes feedback yet. Then
/// it is registered last, takes feedback, and has just given a sign of life.
pub proof fn lemma_joining(
    registry: &mut AttachmentRegistry,
    then: &mut AttachmentRegistry,
    outcome: Result<Vec<Step>, Reply>,
    id: String,
    request: AttachRequest,
    now: u64,
    attachment: Attachment,
)
    requires
        old(registry)@.len() <= 32,
        call_ensures(AttachmentRegistry::plan_attach, (registry,), outcome),
        call_ensures(join, (id, request, now), attachment),
        call_ensures(AttachmentRegistry::finish_attach, (then, attachment), ()),
    ensures
        outcome is Ok <==> old(registry)@.len() < 32 || exists|i: int|
            0 <= i < old(registry)@.len() && !attachment_rules::takes_part(
                #[trigger] old(registry)@[i],
            ),
        outcome matches Err(reply) ==> reply.status == 503 && final(registry)@ == old(registry)@,
        outcome matches Ok(steps) ==> (switches(steps@, true) <==> forall|i: int|
            0 <= i < final(registry)@.len() ==> (#[trigger] final(registry)@[i]).collaboration_state
                != CollaborationState::Active),
        final(then)@ == old(then)@.push(attachment),
        attachment.attachment_id@ == id@,
        attachment.agent_kind == request.agent_kind,
        attachment.tui_session_id == request.tui_session_id,
        attachment.pid == request.pid,
        attachment.attached_at_epoch_secs == now,
        attachment.last_heartbeat_epoch_secs == now,
        attachment.collaboration_state == CollaborationState::Active,
        attachment.active,
{
    attachment_rules::lemma_room_is_made_by_forgetting(old(registry)@);
    if let Ok(steps) = outcome {
        lemma_switches(steps@, true);
        let after = final(registry)@;
        let views = attachments::step_views(steps@);
        if attachments::any_active(after) {
            let i = choose|i: int|
                0 <= i < after.len() && (#[trigger] after[i]).collaboration_state is Active;
            assert(after[i].collaboration_state == CollaborationState::Active);
            assert(views.len() == 0);
        } else {
            assert(views[0] == attachments::StepView::ShowTools(true));
        }
    }
}

} // verus!
