//! The agents that are attached to a preview: joining, pausing, resuming,
//! leaving and being given up on.
//!
//! An operation that needs the page or the feedback queue comes in two parts.
//! The first says what is to be done there; the second is for when that is
//! done, and changes the registry. Times are in seconds since the epoch.
use crate::dashboard::ATTACHMENT_CAPACITY;
use crate::feedback;
use crate::json::{
    self, entry, object_1, object_3, text_entry, text_list, JsonFieldView,
};
use crate::operations::{
    AttachRequest, Attachment, CollaborationControlResult, CollaborationState, DetachResult,
};
use crate::replies::{
    self, attachment_inactive, attachment_not_found, error, Reply, ReplyView,
};
use crate::text::same_text;
use vstd::prelude::*;
use vstd::string::*;

verus! {

/// How long an attachment may be silent, in seconds.
pub const ATTACHMENT_EXPIRY_SECS: u64 = 60;

/// The agents that are or were attached, oldest first.
pub struct AttachmentRegistry {
    attachments: Vec<Attachment>,
}

impl View for AttachmentRegistry {
    type V = Seq<Attachment>;

    closed spec fn view(&self) -> Seq<Attachment> {
        self.attachments@
    }
}

/// There are no more attachments than may be kept, and the flag of each agrees
/// with its state.
pub open spec fn registered(attachments: Seq<Attachment>) -> bool {
    &&& attachments.len() <= ATTACHMENT_CAPACITY
    &&& forall|i: int| 0 <= i < attachments.len() ==> (#[trigger] attachments[i]).wf()
}

/// An agent takes feedback.
pub open spec fn any_active(attachments: Seq<Attachment>) -> bool {
    exists|i: int|
        0 <= i < attachments.len() && (#[trigger] attachments[i]).collaboration_state is Active
}

/// An agent is connected.
pub open spec fn any_connected(attachments: Seq<Attachment>) -> bool {
    exists|i: int|
        0 <= i < attachments.len() && (#[trigger] attachments[i]).collaboration_state.connected()
}

/// The position of the first attachment with an identifier, from `from` on, or
/// the number of attachments.
pub open spec fn position(attachments: Seq<Attachment>, id: Seq<char>, from: int) -> int
    decreases attachments.len() - from,
{
    if from >= attachments.len() {
        attachments.len() as int
    } else if attachments[from].attachment_id@ == id {
        from
    } else {
        position(attachments, id, from + 1)
    }
}

/// The state of the first attachment with an identifier.
pub open spec fn state_of(attachments: Seq<Attachment>, id: Seq<char>) -> Option<
    CollaborationState,
> {
    let at = position(attachments, id, 0);
    if at < attachments.len() {
        Some(attachments[at].collaboration_state)
    } else {
        None
    }
}

/// The attachments after the first with an identifier is in another state.
pub open spec fn moved(
    attachments: Seq<Attachment>,
    id: Seq<char>,
    state: CollaborationState,
) -> Seq<Attachment> {
    let at = position(attachments, id, 0);
    if at < attachments.len() {
        attachments.update(at, attachments[at].in_state(state))
    } else {
        attachments
    }
}

/// The state of an agent that is to pause: it finishes the feedback that it has
/// leased first.
pub open spec fn paused_state(has_current_lease: bool) -> CollaborationState {
    if has_current_lease {
        CollaborationState::PauseRequested
    } else {
        CollaborationState::Paused
    }
}

/// The identifiers of the connected agents, in order.
pub open spec fn connected_ids(attachments: Seq<Attachment>) -> Seq<Seq<char>>
    decreases attachments.len(),
{
    if attachments.len() == 0 {
        Seq::empty()
    } else {
        let rest = connected_ids(attachments.drop_last());
        if attachments.last().collaboration_state.connected() {
            rest.push(attachments.last().attachment_id@)
        } else {
            rest
        }
    }
}

/// The first connected agent, from `from` on, or the number of attachments.
pub open spec fn first_connected(attachments: Seq<Attachment>, from: int) -> int
    decreases attachments.len() - from,
{
    if from >= attachments.len() {
        attachments.len() as int
    } else if attachments[from].collaboration_state.connected() {
        from
    } else {
        first_connected(attachments, from + 1)
    }
}

/// An agent is connected and has been silent for too long.
pub open spec fn stale(attachment: Attachment, now: u64) -> bool {
    attachment.collaboration_state.connected() && now - attachment.last_heartbeat_epoch_secs
        > ATTACHMENT_EXPIRY_SECS
}

/// The identifiers of the agents that have been silent for too long, in order.
pub open spec fn stale_ids(attachments: Seq<Attachment>, now: u64) -> Seq<Seq<char>>
    decreases attachments.len(),
{
    if attachments.len() == 0 {
        Seq::empty()
    } else {
        let rest = stale_ids(attachments.drop_last(), now);
        if stale(attachments.last(), now) {
            rest.push(attachments.last().attachment_id@)
        } else {
            rest
        }
    }
}

/// The attachments after those with the given identifiers are given up on.
pub open spec fn given_up(attachments: Seq<Attachment>, ids: Seq<Seq<char>>) -> Seq<Attachment> {
    attachments.map_values(
        |attachment: Attachment|
            if ids.contains(attachment.attachment_id@) {
                attachment.in_state(CollaborationState::Inactive)
            } else {
                attachment
            },
    )
}

/// Every agent that takes feedback has one of the given identifiers.
pub open spec fn active_among(attachments: Seq<Attachment>, ids: Seq<Seq<char>>) -> bool {
    forall|i: int|
        0 <= i < attachments.len() && (#[trigger] attachments[i]).collaboration_state is Active
            ==> ids.contains(attachments[i].attachment_id@)
}

/// The steps before agents that are silent are given up on: the tools are
/// hidden where no other agent takes feedback, and the leases are released.
pub open spec fn expiry_steps(attachments: Seq<Attachment>, now: u64) -> Seq<StepView> {
    let ids = stale_ids(attachments, now);
    switching(any_active(attachments) && active_among(attachments, ids), false) + releasing(ids)
}

/// The attachments after all of them are disconnected.
pub open spec fn disconnected(attachments: Seq<Attachment>) -> Seq<Attachment> {
    attachments.map_values(
        |attachment: Attachment|
            if attachment.collaboration_state.connected() {
                attachment.in_state(CollaborationState::Inactive)
            } else {
                attachment
            },
    )
}

/// The agent at `index` is the only one that takes feedback.
pub open spec fn only_active(attachments: Seq<Attachment>, index: int) -> bool {
    &&& 0 <= index < attachments.len()
    &&& attachments[index].collaboration_state is Active
    &&& forall|i: int|
        0 <= i < attachments.len() && i != index ==> !((
        #[trigger] attachments[i]).collaboration_state is Active)
}

/// Something to be done before the registry changes. The steps of an operation
/// are taken in order, and the operation ends at the first that fails.
#[derive(Debug, PartialEq, Eq)]
pub enum Step {
    /// The page is to show or to hide the collaboration tools.
    ShowTools(bool),
    /// The feedback that an agent has leased goes back to the queue.
    ReleaseLeases(String),
    /// The queue is to say whether an agent has a live lease.
    AskLease(String),
}

/// What a step says.
pub enum StepView {
    ShowTools(bool),
    ReleaseLeases(Seq<char>),
    AskLease(Seq<char>),
}

impl View for Step {
    type V = StepView;

    open spec fn view(&self) -> StepView {
        match self {
            Step::ShowTools(shown) => StepView::ShowTools(*shown),
            Step::ReleaseLeases(owner) => StepView::ReleaseLeases(owner@),
            Step::AskLease(owner) => StepView::AskLease(owner@),
        }
    }
}

/// What the steps say.
pub open spec fn step_views(steps: Seq<Step>) -> Seq<StepView> {
    steps.map_values(|step: Step| step@)
}

/// The step that switches the tools, where there is one.
pub open spec fn switching(needed: bool, shown: bool) -> Seq<StepView> {
    if needed {
        seq![StepView::ShowTools(shown)]
    } else {
        Seq::empty()
    }
}

/// The steps that release the leases of each owner in turn.
pub open spec fn releasing(owners: Seq<Seq<char>>) -> Seq<StepView> {
    owners.map_values(|owner: Seq<char>| StepView::ReleaseLeases(owner))
}

/// Whether the page shows the tools after the steps, when it did so before as
/// `shown` says.
pub open spec fn shown_after(steps: Seq<StepView>, shown: bool) -> bool
    decreases steps.len(),
{
    if steps.len() == 0 {
        shown
    } else {
        match steps.last() {
            StepView::ShowTools(last) => last,
            _ => shown_after(steps.drop_last(), shown),
        }
    }
}

/// What is to be done before agents that are silent are given up on.
pub struct ExpiryPlan {
    /// Whose leases are released, and who is then given up on.
    pub stale_ids: Vec<String>,
    pub steps: Vec<Step>,
}

/// What the sign of life of an agent meant.
#[derive(Debug, Clone, Copy, PartialEq, Eq, Structural)]
pub enum AttachmentActivity {
    Active,
    Inactive,
    Missing,
}

impl AttachmentRegistry {
    /// There are no more attachments than may be kept, and the flag of each
    /// agrees with its state.
    pub open spec fn wf(&self) -> bool {
        registered(self@)
    }

    /// A registry without attachments.
    pub fn new() -> (registry: Self)
        ensures
            registry.wf(),
            registry@ == Seq::<Attachment>::empty(),
    {
        AttachmentRegistry { attachments: Vec::new() }
    }

    /// The attachments.
    pub fn attachments(&self) -> (attachments: &Vec<Attachment>)
        ensures
            attachments@ == self@,
    {
        &self.attachments
    }

    /// How many attachments are kept.
    pub fn len(&self) -> (r: usize)
        ensures
            r == self@.len(),
    {
        self.attachments.len()
    }

    /// The position of the first attachment with an identifier.
    pub fn find(&self, id: &str) -> (r: Option<usize>)
        ensures
            match r {
                Some(at) => at < self@.len() && at == position(self@, id@, 0)
                    && self@[at as int].attachment_id@ == id@,
                None => position(self@, id@, 0) == self@.len(),
            },
    {
        let mut i: usize = 0;
        while i < self.attachments.len()
            invariant
                i <= self.attachments@.len(),
                position(self@, id@, 0) == position(self@, id@, i as int),
            decreases self.attachments.len() - i,
        {
            if same_text(self.attachments[i].attachment_id.as_str(), id) {
                return Some(i);
            }
            i += 1;
        }
        None
    }

    /// The state of the first attachment with an identifier.
    pub fn collaboration_state(&self, id: &str) -> (r: Option<CollaborationState>)
        ensures
            r == state_of(self@, id@),
    {
        match self.find(id) {
            Some(at) => Some(self.attachments[at].collaboration_state),
            None => None,
        }
    }

    /// Tests whether an agent takes feedback.
    pub fn has_active(&self) -> (r: bool)
        ensures
            r == any_active(self@),
    {
        let mut i: usize = 0;
        while i < self.attachments.len()
            invariant
                i <= self.attachments@.len(),
                forall|k: int|
                    0 <= k < i ==> !((#[trigger] self@[k]).collaboration_state is Active),
            decreases self.attachments.len() - i,
        {
            if self.attachments[i].collaboration_state.accepts_feedback() {
                assert(self@[i as int].collaboration_state is Active);
                return true;
            }
            i += 1;
        }
        false
    }

    /// Tests whether an agent is connected.
    pub fn has_connected(&self) -> (r: bool)
        ensures
            r == any_connected(self@),
    {
        let mut i: usize = 0;
        while i < self.attachments.len()
            invariant
                i <= self.attachments@.len(),
                forall|k: int|
                    0 <= k < i ==> !(#[trigger] self@[k]).collaboration_state.connected(),
            decreases self.attachments.len() - i,
        {
            if self.attachments[i].collaboration_state.is_connected() {
                assert(self@[i as int].collaboration_state.connected());
                return true;
            }
            i += 1;
        }
        false
    }

    /// How many agents are connected.
    pub fn active_count(&self) -> (r: usize)
        requires
            self.wf(),
        ensures
            r == connected_ids(self@).len(),
    {
        let mut count: usize = 0;
        let mut i: usize = 0;
        while i < self.attachments.len()
            invariant
                self.wf(),
                i <= self.attachments@.len(),
                count == connected_ids(self@.take(i as int)).len(),
                count <= i,
            decreases self.attachments.len() - i,
        {
            assert(self@.take(i + 1).drop_last() =~= self@.take(i as int));
            assert(self@[i as int].wf());
            if self.attachments[i].active {
                count += 1;
            }
            i += 1;
        }
        assert(self@.take(self@.len() as int) =~= self@);
        count
    }

    fn is_only_active(&self, index: usize) -> (r: bool)
        requires
            index < self@.len(),
        ensures
            r == only_active(self@, index as int),
    {
        if !self.attachments[index].collaboration_state.accepts_feedback() {
            return false;
        }
        let mut i: usize = 0;
        while i < self.attachments.len()
            invariant
                index < self.attachments@.len(),
                i <= self.attachments@.len(),
                forall|k: int|
                    0 <= k < i && k != index ==> !((
                    #[trigger] self@[k]).collaboration_state is Active),
            decreases self.attachments.len() - i,
        {
            if i != index && self.attachments[i].collaboration_state.accepts_feedback() {
                assert(self@[i as int].collaboration_state is Active);
                return false;
            }
            i += 1;
        }
        true
    }

    fn collect_connected_ids(&self) -> (ids: Vec<String>)
        ensures
            feedback::texts(ids@) == connected_ids(self@),
    {
        let mut ids: Vec<String> = Vec::new();
        let mut i: usize = 0;
        assert(self@.take(0) =~= Seq::<Attachment>::empty());
        assert(feedback::texts(ids@) =~= Seq::<Seq<char>>::empty());
        while i < self.attachments.len()
            invariant
                i <= self.attachments@.len(),
                feedback::texts(ids@) == connected_ids(self@.take(i as int)),
            decreases self.attachments.len() - i,
        {
            let ghost before = feedback::texts(ids@);
            assert(self@.take(i + 1).drop_last() =~= self@.take(i as int));
            if self.attachments[i].collaboration_state.is_connected() {
                ids.push(self.attachments[i].attachment_id.clone());
                assert(feedback::texts(ids@) =~= before.push(self@[i as int].attachment_id@));
            }
            i += 1;
        }
        assert(self@.take(self@.len() as int) =~= self@);
        ids
    }

    /// Which agents have been silent for too long, and what is to be done before
    /// they are given up on.
    pub fn plan_expiry(&self, now: u64) -> (plan: ExpiryPlan)
        ensures
            feedback::texts(plan.stale_ids@) == stale_ids(self@, now),
            step_views(plan.steps@) == expiry_steps(self@, now),
    {
        let mut ids: Vec<String> = Vec::new();
        let mut i: usize = 0;
        assert(self@.take(0) =~= Seq::<Attachment>::empty());
        assert(feedback::texts(ids@) =~= Seq::<Seq<char>>::empty());
        while i < self.attachments.len()
            invariant
                i <= self.attachments@.len(),
                feedback::texts(ids@) == stale_ids(self@.take(i as int), now),
            decreases self.attachments.len() - i,
        {
            let attachment = &self.attachments[i];
            let ghost before = feedback::texts(ids@);
            assert(self@.take(i + 1).drop_last() =~= self@.take(i as int));
            if attachment.collaboration_state.is_connected() && now.saturating_sub(
                attachment.last_heartbeat_epoch_secs,
            ) > ATTACHMENT_EXPIRY_SECS {
                ids.push(attachment.attachment_id.clone());
                assert(feedback::texts(ids@) =~= before.push(self@[i as int].attachment_id@));
            }
            i += 1;
        }
        assert(self@.take(self@.len() as int) =~= self@);
        let mut steps: Vec<Step> = Vec::new();
        push_switch(&mut steps, self.has_active() && self.are_active_among(&ids), false);
        push_releases(&mut steps, &ids);
        ExpiryPlan { stale_ids: ids, steps }
    }

    fn are_active_among(&self, ids: &Vec<String>) -> (r: bool)
        ensures
            r == active_among(self@, feedback::texts(ids@)),
    {
        let mut i: usize = 0;
        while i < self.attachments.len()
            invariant
                i <= self.attachments@.len(),
                forall|k: int|
                    0 <= k < i && (#[trigger] self@[k]).collaboration_state is Active
                        ==> feedback::texts(ids@).contains(self@[k].attachment_id@),
            decreases self.attachments.len() - i,
        {
            if self.attachments[i].collaboration_state.accepts_feedback() && !holds_text(
                ids,
                self.attachments[i].attachment_id.as_str(),
            ) {
                assert(self@[i as int].collaboration_state is Active);
                return false;
            }
            i += 1;
        }
        true
    }

    /// Gives up on the agents with the given identifiers.
    pub fn finish_expiry(&mut self, ids: &Vec<String>)
        requires
            old(self).wf(),
        ensures
            final(self).wf(),
            final(self)@ == given_up(old(self)@, feedback::texts(ids@)),
    {
        let ghost before = self@;
        let ghost target = given_up(before, feedback::texts(ids@));
        let mut i: usize = 0;
        while i < self.attachments.len()
            invariant
                registered(before),
                target == given_up(before, feedback::texts(ids@)),
                i <= self.attachments@.len(),
                self@.len() == before.len(),
                forall|k: int|
                    0 <= k < before.len() ==> #[trigger] self@[k] == if k < i {
                        target[k]
                    } else {
                        before[k]
                    },
            decreases self.attachments.len() - i,
        {
            let ghost previous = self@;
            assert(self@[i as int] == before[i as int]);
            if holds_text(ids, self.attachments[i].attachment_id.as_str()) {
                self.attachments[i].set_collaboration_state(CollaborationState::Inactive);
            }
            assert(self@ =~= previous.update(i as int, target[i as int]));
            i += 1;
        }
        assert(self@ =~= target);
    }

    /// Notes a sign of life of an agent.
    pub fn heartbeat(&mut self, id: &str, now: u64) -> (activity: AttachmentActivity)
        requires
            old(self).wf(),
        ensures
            final(self).wf(),
            match activity {
                AttachmentActivity::Missing => position(old(self)@, id@, 0) == old(self)@.len()
                    && final(self)@ == old(self)@,
                AttachmentActivity::Inactive => position(old(self)@, id@, 0) < old(self)@.len()
                    && !old(self)@[position(
                    old(self)@,
                    id@,
                    0,
                )].collaboration_state.connected() && final(self)@ == old(self)@,
                AttachmentActivity::Active => {
                    let at = position(old(self)@, id@, 0);
                    &&& at < old(self)@.len()
                    &&& old(self)@[at].collaboration_state.connected()
                    &&& final(self)@ == old(self)@.update(
                        at,
                        Attachment { last_heartbeat_epoch_secs: now, ..old(self)@[at] },
                    )
                },
            },
    {
        match self.find(id) {
            Some(at) => {
                if self.attachments[at].collaboration_state.is_connected() {
                    let ghost before = self@;
                    self.attachments[at].last_heartbeat_epoch_secs = now;
                    assert(self@ =~= before.update(
                        at as int,
                        Attachment { last_heartbeat_epoch_secs: now, ..before[at as int] },
                    ));
                    assert forall|i: int| 0 <= i < self@.len() implies (
                    #[trigger] self@[i]).wf() by {
                        assert(before[i].wf());
                    }
                    AttachmentActivity::Active
                } else {
                    AttachmentActivity::Inactive
                }
            },
            None => AttachmentActivity::Missing,
        }
    }

    fn move_to(&mut self, id: &str, state: CollaborationState)
        requires
            old(self).wf(),
        ensures
            final(self).wf(),
            final(self)@ == moved(old(self)@, id@, state),
    {
        let ghost before = self@;
        if let Some(at) = self.find(id) {
            self.attachments[at].set_collaboration_state(state);
            assert(self@ =~= before.update(at as int, before[at as int].in_state(state)));
        }
    }

    /// Turns the pause that an agent has asked for into a pause: it has no
    /// feedback to finish, or has just finished it. Says whether that was so.
    pub fn settle_pause(&mut self, id: &str) -> (settled: bool)
        requires
            old(self).wf(),
        ensures
            final(self).wf(),
            settled == (state_of(old(self)@, id@) == Some(CollaborationState::PauseRequested)),
            final(self)@ == if settled {
                moved(old(self)@, id@, CollaborationState::Paused)
            } else {
                old(self)@
            },
    {
        if let Some(CollaborationState::PauseRequested) = self.collaboration_state(id) {
            self.move_to(id, CollaborationState::Paused);
            true
        } else {
            false
        }
    }

    /// Turns the pause that an agent has asked for into a pause at its sign of life,
    /// where it has no feedback to finish. Says whether that was so.
    pub fn settle_at_heartbeat(&mut self, id: &str, has_current_lease: bool) -> (settled: bool)
        requires
            old(self).wf(),
        ensures
            final(self).wf(),
            settled == (!has_current_lease && state_of(old(self)@, id@) == Some(
                CollaborationState::PauseRequested,
            )),
            final(self)@ == if settled {
                moved(old(self)@, id@, CollaborationState::Paused)
            } else {
                old(self)@
            },
    {
        !has_current_lease && self.settle_pause(id)
    }
}

/// Tests whether a text is in the list.
fn holds_text(values: &Vec<String>, value: &str) -> (r: bool)
    ensures
        r == feedback::texts(values@).contains(value@),
{
    let ghost contents = feedback::texts(values@);
    let mut i: usize = 0;
    while i < values.len()
        invariant
            contents == feedback::texts(values@),
            i <= values@.len(),
            forall|k: int| 0 <= k < i ==> #[trigger] contents[k] != value@,
        decreases values.len() - i,
    {
        assert(contents[i as int] == values@[i as int]@);
        if same_text(values[i].as_str(), value) {
            return true;
        }
        i += 1;
    }
    false
}

/// Appends the step that switches the tools, where one is needed.
fn push_switch(steps: &mut Vec<Step>, needed: bool, shown: bool)
    ensures
        step_views(final(steps)@) == step_views(old(steps)@) + switching(needed, shown),
{
    if needed {
        steps.push(Step::ShowTools(shown));
    }
    assert(step_views(steps@) =~= step_views(old(steps)@) + switching(needed, shown));
}

/// Appends the steps that release the leases of each owner in turn.
fn push_releases(steps: &mut Vec<Step>, owners: &Vec<String>)
    ensures
        step_views(final(steps)@) == step_views(old(steps)@) + releasing(
            feedback::texts(owners@),
        ),
{
    let ghost before = step_views(steps@);
    let ghost released = releasing(feedback::texts(owners@));
    let mut i: usize = 0;
    assert(step_views(steps@) =~= before + released.take(0));
    while i < owners.len()
        invariant
            i <= owners@.len(),
            released == releasing(feedback::texts(owners@)),
            step_views(steps@) == before + released.take(i as int),
        decreases owners.len() - i,
    {
        let ghost previous = steps@;
        steps.push(Step::ReleaseLeases(owners[i].clone()));
        assert(step_views(steps@) =~= step_views(previous).push(released[i as int]));
        assert(step_views(steps@) =~= before + released.take(i + 1));
        i += 1;
    }
    assert(released.take(owners@.len() as int) =~= released);
}

/// The agent at which a request is aimed.
pub enum Target {
    /// No attachment has the requested identifier.
    Unknown(Seq<char>),
    /// The requested agent is not connected.
    Gone(Seq<char>),
    /// No agent was requested, and more than one is connected.
    Ambiguous,
    /// No agent was requested, and none is connected.
    Nobody,
    /// The agent at this position.
    At(int),
}

/// The only connected agent.
pub open spec fn lone_target(attachments: Seq<Attachment>) -> Target {
    if connected_ids(attachments).len() == 0 {
        Target::Nobody
    } else if connected_ids(attachments).len() == 1 {
        Target::At(first_connected(attachments, 0))
    } else {
        Target::Ambiguous
    }
}

/// The connected agent at which a request is aimed: the requested one, or else
/// the only one.
pub open spec fn target(attachments: Seq<Attachment>, requested: Option<Seq<char>>) -> Target {
    match requested {
        Some(id) => {
            let at = position(attachments, id, 0);
            if at == attachments.len() {
                Target::Unknown(id)
            } else if !attachments[at].collaboration_state.connected() {
                Target::Gone(id)
            } else {
                Target::At(at)
            }
        },
        None => lone_target(attachments),
    }
}

/// The refusal of a request that does not say which of several agents it means.
pub open spec fn ambiguous_reply(attachments: Seq<Attachment>, message: Seq<char>) -> ReplyView {
    ReplyView {
        status: 409,
        body: json::object_of(
            seq![
                json::text_entry_of("code"@, "ambiguous-attachment"@),
                json::text_entry_of("message"@, message),
                JsonFieldView {
                    name: "details"@,
                    value: json::object_of(
                        seq![
                            JsonFieldView {
                                name: "candidateAttachmentIds"@,
                                value: json::text_list_of(connected_ids(attachments)),
                            },
                        ],
                    ),
                },
            ],
        ),
    }
}

/// What the answer to a request to pause or to resume says.
pub struct ControlView {
    pub status: Seq<char>,
    pub attachment_id: Option<Seq<char>>,
    pub collaboration_state: CollaborationState,
}

impl View for CollaborationControlResult {
    type V = ControlView;

    open spec fn view(&self) -> ControlView {
        ControlView {
            status: self.status@,
            attachment_id: feedback::optional_text(self.attachment_id),
            collaboration_state: self.collaboration_state,
        }
    }
}

/// What the answer to a request to leave says.
pub struct DetachView {
    pub status: Seq<char>,
    pub attachment_id: Option<Seq<char>>,
    pub active_attachment_count: int,
}

impl View for DetachResult {
    type V = DetachView;

    open spec fn view(&self) -> DetachView {
        DetachView {
            status: self.status@,
            attachment_id: feedback::optional_text(self.attachment_id),
            active_attachment_count: self.active_attachment_count as int,
        }
    }
}

/// What a request to pause or to resume comes to.
#[derive(Debug)]
pub enum ControlPlan {
    /// Nothing is to be changed.
    Settled(CollaborationControlResult),
    /// The agent changes its state after the steps.
    Change { attachment_id: String, steps: Vec<Step> },
}

/// What a request to pause or to resume comes to, or its refusal.
pub enum ControlStep {
    Refused(ReplyView),
    Settled(ControlView),
    Change { attachment_id: Seq<char>, steps: Seq<StepView> },
}

/// What the outcome of planning says.
pub open spec fn control_step(outcome: Result<ControlPlan, Reply>) -> ControlStep {
    match outcome {
        Err(reply) => ControlStep::Refused(reply@),
        Ok(ControlPlan::Settled(result)) => ControlStep::Settled(result@),
        Ok(ControlPlan::Change { attachment_id, steps }) => ControlStep::Change {
            attachment_id: attachment_id@,
            steps: step_views(steps@),
        },
    }
}

/// The refusal of a request that names no connected agent.
pub open spec fn no_target(attachments: Seq<Attachment>, target: Target) -> ReplyView {
    match target {
        Target::Unknown(id) => replies::not_found_reply(id),
        Target::Gone(id) => replies::inactive_reply(id),
        _ => ambiguous_reply(
            attachments,
            "multiple collaboration attachments exist; select one explicitly"@,
        ),
    }
}

/// What a request to pause comes to. An agent that takes feedback is asked
/// whether it has some to finish; the tools are hidden where no other agent takes
/// feedback.
pub open spec fn pause_step(attachments: Seq<Attachment>, requested: Option<Seq<char>>) -> ControlStep {
    match target(attachments, requested) {
        Target::Nobody => ControlStep::Settled(
            ControlView {
                status: "already-paused"@,
                attachment_id: None,
                collaboration_state: CollaborationState::Paused,
            },
        ),
        Target::At(at) => {
            let id = attachments[at].attachment_id@;
            match attachments[at].collaboration_state {
                CollaborationState::Paused => ControlStep::Settled(
                    ControlView {
                        status: "already-paused"@,
                        attachment_id: Some(id),
                        collaboration_state: CollaborationState::Paused,
                    },
                ),
                CollaborationState::PauseRequested => ControlStep::Settled(
                    ControlView {
                        status: "pause-requested"@,
                        attachment_id: Some(id),
                        collaboration_state: CollaborationState::PauseRequested,
                    },
                ),
                _ => ControlStep::Change {
                    attachment_id: id,
                    steps: seq![StepView::AskLease(id)] + switching(
                        only_active(attachments, at),
                        false,
                    ),
                },
            }
        },
        missing => ControlStep::Refused(no_target(attachments, missing)),
    }
}

/// What a request to resume comes to. The tools are shown where no agent takes
/// feedback yet.
pub open spec fn resume_step(attachments: Seq<Attachment>, requested: Option<Seq<char>>) -> ControlStep {
    match target(attachments, requested) {
        Target::Nobody => ControlStep::Settled(
            ControlView {
                status: "already-active"@,
                attachment_id: None,
                collaboration_state: CollaborationState::Active,
            },
        ),
        Target::At(at) => {
            let id = attachments[at].attachment_id@;
            match attachments[at].collaboration_state {
                CollaborationState::Active => ControlStep::Settled(
                    ControlView {
                        status: "already-active"@,
                        attachment_id: Some(id),
                        collaboration_state: CollaborationState::Active,
                    },
                ),
                CollaborationState::PauseRequested => ControlStep::Refused(
                    replies::error_reply(
                        409,
                        "pause-pending"@,
                        "current feedback must reach resolved or failed before resume"@,
                    ),
                ),
                _ => ControlStep::Change {
                    attachment_id: id,
                    steps: switching(!any_active(attachments), true),
                },
            }
        },
        missing => ControlStep::Refused(no_target(attachments, missing)),
    }
}

/// What a request to leave comes to.
#[derive(Debug)]
pub enum DetachPlan {
    /// Nothing is to be changed.
    Settled(DetachResult),
    /// The agent is disconnected after the steps.
    Change { attachment_id: String, steps: Vec<Step> },
}

/// What a request to leave comes to, or its refusal.
pub enum DetachStep {
    Refused(ReplyView),
    Settled(DetachView),
    Change { attachment_id: Seq<char>, steps: Seq<StepView> },
}

/// What the outcome of planning says.
pub open spec fn detach_outcome(outcome: Result<DetachPlan, Reply>) -> DetachStep {
    match outcome {
        Err(reply) => DetachStep::Refused(reply@),
        Ok(DetachPlan::Settled(result)) => DetachStep::Settled(result@),
        Ok(DetachPlan::Change { attachment_id, steps }) => DetachStep::Change {
            attachment_id: attachment_id@,
            steps: step_views(steps@),
        },
    }
}

/// What a request to leave comes to. The tools are hidden where no other agent
/// takes feedback, and the leases are released.
pub open spec fn detach_step(attachments: Seq<Attachment>, requested: Option<Seq<char>>) -> DetachStep {
    match target(attachments, requested) {
        Target::Unknown(id) => DetachStep::Refused(replies::not_found_reply(id)),
        Target::Ambiguous => DetachStep::Refused(
            ambiguous_reply(
                attachments,
                "multiple active attachments exist; select one explicitly"@,
            ),
        ),
        Target::Nobody => DetachStep::Settled(
            DetachView {
                status: "already-detached"@,
                attachment_id: None,
                active_attachment_count: 0,
            },
        ),
        Target::Gone(id) => DetachStep::Settled(
            DetachView {
                status: "already-detached"@,
                attachment_id: Some(id),
                active_attachment_count: connected_ids(attachments).len() as int,
            },
        ),
        Target::At(at) => {
            let id = attachments[at].attachment_id@;
            DetachStep::Change {
                attachment_id: id,
                steps: switching(only_active(attachments, at), false).push(
                    StepView::ReleaseLeases(id),
                ),
            }
        },
    }
}

/// The steps before every agent is disconnected: the leases are released, and
/// the tools hidden where an agent takes feedback.
pub open spec fn close_steps(attachments: Seq<Attachment>) -> Seq<StepView> {
    releasing(connected_ids(attachments)) + switching(any_active(attachments), false)
}

/// The attachments with room for one more: where there are as many as may be
/// kept, the first that is not connected is forgotten.
pub open spec fn with_room(attachments: Seq<Attachment>) -> Seq<Attachment> {
    if attachments.len() == ATTACHMENT_CAPACITY {
        attachments.remove(first_gone(attachments, 0))
    } else {
        attachments
    }
}

/// The first agent that is not connected, from `from` on, or the number of
/// attachments.
pub open spec fn first_gone(attachments: Seq<Attachment>, from: int) -> int
    decreases attachments.len() - from,
{
    if from >= attachments.len() {
        attachments.len() as int
    } else if !attachments[from].collaboration_state.connected() {
        from
    } else {
        first_gone(attachments, from + 1)
    }
}

/// There are as many attachments as may be kept, and all are connected.
pub open spec fn full(attachments: Seq<Attachment>) -> bool {
    attachments.len() == ATTACHMENT_CAPACITY && first_gone(attachments, 0) == attachments.len()
}

/// The attachment of an agent that has just joined.
pub open spec fn joined(attachment: Attachment, id: Seq<char>, request: AttachRequest, now: u64) -> bool {
    &&& attachment.attachment_id@ == id
    &&& attachment.agent_kind == request.agent_kind
    &&& attachment.tui_session_id == request.tui_session_id
    &&& attachment.pid == request.pid
    &&& attachment.attached_at_epoch_secs == now
    &&& attachment.last_heartbeat_epoch_secs == now
    &&& attachment.collaboration_state is Active
    &&& attachment.active
}

/// The attachment of an agent that has just joined.
pub fn join(id: String, request: AttachRequest, now: u64) -> (attachment: Attachment)
    ensures
        joined(attachment, id@, request, now),
        attachment.wf(),
{
    Attachment {
        attachment_id: id,
        agent_kind: request.agent_kind,
        tui_session_id: request.tui_session_id,
        pid: request.pid,
        attached_at_epoch_secs: now,
        last_heartbeat_epoch_secs: now,
        collaboration_state: CollaborationState::Active,
        active: true,
    }
}

impl AttachmentRegistry {
    fn find_connected(&self) -> (r: usize)
        ensures
            r == first_connected(self@, 0),
            r < self@.len() ==> self@[r as int].collaboration_state.connected(),
    {
        let mut i: usize = 0;
        while i < self.attachments.len()
            invariant
                i <= self.attachments@.len(),
                first_connected(self@, 0) == first_connected(self@, i as int),
            decreases self.attachments.len() - i,
        {
            if self.attachments[i].collaboration_state.is_connected() {
                return i;
            }
            i += 1;
        }
        i
    }

    fn find_gone(&self) -> (r: usize)
        ensures
            r == first_gone(self@, 0),
            r <= self@.len(),
            r < self@.len() ==> !self@[r as int].collaboration_state.connected(),
    {
        let mut i: usize = 0;
        while i < self.attachments.len()
            invariant
                i <= self.attachments@.len(),
                first_gone(self@, 0) == first_gone(self@, i as int),
            decreases self.attachments.len() - i,
        {
            if !self.attachments[i].collaboration_state.is_connected() {
                return i;
            }
            i += 1;
        }
        i
    }

    fn ambiguous(&self, message: &str) -> (reply: Reply)
        ensures
            reply@ == ambiguous_reply(self@, message@),
    {
        let ids = self.collect_connected_ids();
        let candidates = text_list(&ids);
        Reply {
            status: 409,
            body: object_3(
                text_entry("code", "ambiguous-attachment"),
                text_entry("message", message),
                entry("details", object_1(entry("candidateAttachmentIds", candidates))),
            ),
        }
    }

    /// The connected agent at which a request is aimed, or the refusal.
    pub fn select_connected_attachment(&self, requested: Option<&str>) -> (r: Result<
        Option<usize>,
        Reply,
    >)
        ensures
            match target(self@, optional_view(requested)) {
                Target::Nobody => r == Ok::<Option<usize>, Reply>(None),
                Target::At(at) => (r matches Ok(Some(index)) && index == at && at
                    < self@.len() && self@[at].collaboration_state.connected()),
                missing => (r matches Err(reply) && reply@ == no_target(self@, missing)),
            },
    {
        if let Some(id) = requested {
            return match self.find(id) {
                None => Err(attachment_not_found(id)),
                Some(at) => if self.attachments[at].collaboration_state.is_connected() {
                    Ok(Some(at))
                } else {
                    Err(attachment_inactive(id))
                },
            };
        }
        let connected = self.collect_connected_ids();
        if connected.len() == 0 {
            Ok(None)
        } else if connected.len() == 1 {
            proof {
                lemma_first_connected(self@);
            }
            Ok(Some(self.find_connected()))
        } else {
            Err(
                self.ambiguous("multiple collaboration attachments exist; select one explicitly"),
            )
        }
    }

    /// What a request to pause comes to.
    pub fn plan_pause(&self, requested: Option<&str>) -> (outcome: Result<ControlPlan, Reply>)
        ensures
            control_step(outcome) == pause_step(self@, optional_view(requested)),
    {
        let at = match self.select_connected_attachment(requested) {
            Err(reply) => return Err(reply),
            Ok(None) => return Ok(
                ControlPlan::Settled(
                    control_result("already-paused", None, CollaborationState::Paused),
                ),
            ),
            Ok(Some(at)) => at,
        };
        let id = self.attachments[at].attachment_id.clone();
        match self.attachments[at].collaboration_state {
            CollaborationState::Paused => Ok(
                ControlPlan::Settled(
                    control_result("already-paused", Some(id), CollaborationState::Paused),
                ),
            ),
            CollaborationState::PauseRequested => Ok(
                ControlPlan::Settled(
                    control_result("pause-requested", Some(id), CollaborationState::PauseRequested),
                ),
            ),
            CollaborationState::Inactive => Err(attachment_inactive(id.as_str())),
            CollaborationState::Active => {
                let mut steps: Vec<Step> = Vec::new();
                steps.push(Step::AskLease(id.clone()));
                assert(step_views(steps@) =~= seq![StepView::AskLease(id@)]);
                push_switch(&mut steps, self.is_only_active(at), false);
                Ok(ControlPlan::Change { attachment_id: id, steps })
            },
        }
    }

    /// Pauses an agent once the steps of the plan have been taken: at once, or
    /// when it has finished the feedback that it has leased.
    pub fn finish_pause(
        &mut self,
        id: &str,
        has_current_lease: bool,
    ) -> (result: CollaborationControlResult)
        requires
            old(self).wf(),
            state_of(old(self)@, id@) is Some,
        ensures
            final(self).wf(),
            final(self)@ == moved(old(self)@, id@, paused_state(has_current_lease)),
            result@ == (ControlView {
                status: if has_current_lease {
                    "pause-requested"@
                } else {
                    "paused"@
                },
                attachment_id: Some(id@),
                collaboration_state: paused_state(has_current_lease),
            }),
    {
        if has_current_lease {
            self.move_to(id, CollaborationState::PauseRequested);
            control_result(
                "pause-requested",
                Some(id.to_owned()),
                CollaborationState::PauseRequested,
            )
        } else {
            self.move_to(id, CollaborationState::Paused);
            control_result("paused", Some(id.to_owned()), CollaborationState::Paused)
        }
    }

    /// What a request to resume comes to.
    pub fn plan_resume(&self, requested: Option<&str>) -> (outcome: Result<ControlPlan, Reply>)
        ensures
            control_step(outcome) == resume_step(self@, optional_view(requested)),
    {
        let at = match self.select_connected_attachment(requested) {
            Err(reply) => return Err(reply),
            Ok(None) => return Ok(
                ControlPlan::Settled(
                    control_result("already-active", None, CollaborationState::Active),
                ),
            ),
            Ok(Some(at)) => at,
        };
        let id = self.attachments[at].attachment_id.clone();
        match self.attachments[at].collaboration_state {
            CollaborationState::Active => Ok(
                ControlPlan::Settled(
                    control_result("already-active", Some(id), CollaborationState::Active),
                ),
            ),
            CollaborationState::PauseRequested => Err(
                error(
                    409,
                    "pause-pending",
                    "current feedback must reach resolved or failed before resume",
                ),
            ),
            CollaborationState::Inactive => Err(attachment_inactive(id.as_str())),
            CollaborationState::Paused => {
                let mut steps: Vec<Step> = Vec::new();
                assert(step_views(steps@) =~= Seq::<StepView>::empty());
                push_switch(&mut steps, !self.has_active(), true);
                assert(step_views(steps@) =~= switching(!any_active(self@), true));
                Ok(ControlPlan::Change { attachment_id: id, steps })
            },
        }
    }

    /// Resumes an agent once the steps of the plan have been taken.
    pub fn finish_resume(&mut self, id: &str) -> (result: CollaborationControlResult)
        requires
            old(self).wf(),
            state_of(old(self)@, id@) is Some,
        ensures
            final(self).wf(),
            final(self)@ == moved(old(self)@, id@, CollaborationState::Active),
            result@ == (ControlView {
                status: "resumed"@,
                attachment_id: Some(id@),
                collaboration_state: CollaborationState::Active,
            }),
    {
        self.move_to(id, CollaborationState::Active);
        control_result("resumed", Some(id.to_owned()), CollaborationState::Active)
    }

    /// What a request to leave comes to.
    pub fn plan_detach(&self, requested: Option<&str>) -> (outcome: Result<DetachPlan, Reply>)
        requires
            self.wf(),
        ensures
            detach_outcome(outcome) == detach_step(self@, optional_view(requested)),
    {
        let at = match requested {
            Some(id) => match self.find(id) {
                Some(at) => at,
                None => return Err(attachment_not_found(id)),
            },
            None => {
                let connected = self.collect_connected_ids();
                if connected.len() == 0 {
                    return Ok(DetachPlan::Settled(detach_answer("already-detached", None, 0)));
                } else if connected.len() == 1 {
                    proof {
                        lemma_first_connected(self@);
                    }
                    self.find_connected()
                } else {
                    return Err(
                        self.ambiguous("multiple active attachments exist; select one explicitly"),
                    );
                }
            },
        };
        let id = self.attachments[at].attachment_id.clone();
        if !self.attachments[at].collaboration_state.is_connected() {
            return Ok(
                DetachPlan::Settled(
                    detach_answer("already-detached", Some(id), self.active_count()),
                ),
            );
        }
        let mut steps: Vec<Step> = Vec::new();
        assert(step_views(steps@) =~= Seq::<StepView>::empty());
        push_switch(&mut steps, self.is_only_active(at), false);
        let ghost switched = step_views(steps@);
        assert(switched =~= switching(only_active(self@, at as int), false));
        steps.push(Step::ReleaseLeases(id.clone()));
        assert(step_views(steps@) =~= switched.push(StepView::ReleaseLeases(id@)));
        Ok(DetachPlan::Change { attachment_id: id, steps })
    }

    /// Disconnects an agent once the steps of the plan have been taken.
    pub fn finish_detach(&mut self, id: &str) -> (result: DetachResult)
        requires
            old(self).wf(),
            state_of(old(self)@, id@) is Some,
        ensures
            final(self).wf(),
            final(self)@ == moved(old(self)@, id@, CollaborationState::Inactive),
            result@ == (DetachView {
                status: "detached"@,
                attachment_id: Some(id@),
                active_attachment_count: connected_ids(final(self)@).len() as int,
            }),
    {
        self.move_to(id, CollaborationState::Inactive);
        detach_answer("detached", Some(id.to_owned()), self.active_count())
    }

    /// What is to be done before every agent is disconnected.
    pub fn plan_close(&self) -> (steps: Vec<Step>)
        ensures
            step_views(steps@) == close_steps(self@),
    {
        let mut steps: Vec<Step> = Vec::new();
        assert(step_views(steps@) =~= Seq::<StepView>::empty());
        let ids = self.collect_connected_ids();
        push_releases(&mut steps, &ids);
        push_switch(&mut steps, self.has_active(), false);
        assert(step_views(steps@) =~= close_steps(self@));
        steps
    }

    /// Disconnects every agent.
    pub fn finish_close(&mut self)
        requires
            old(self).wf(),
        ensures
            final(self).wf(),
            final(self)@ == disconnected(old(self)@),
    {
        let ghost before = self@;
        let ghost goal = disconnected(before);
        let mut i: usize = 0;
        while i < self.attachments.len()
            invariant
                registered(before),
                goal == disconnected(before),
                i <= self.attachments@.len(),
                self@.len() == before.len(),
                forall|k: int|
                    0 <= k < before.len() ==> #[trigger] self@[k] == if k < i {
                        goal[k]
                    } else {
                        before[k]
                    },
            decreases self.attachments.len() - i,
        {
            let ghost previous = self@;
            assert(self@[i as int] == before[i as int]);
            if self.attachments[i].collaboration_state.is_connected() {
                self.attachments[i].set_collaboration_state(CollaborationState::Inactive);
            }
            assert(self@ =~= previous.update(i as int, goal[i as int]));
            i += 1;
        }
        assert(self@ =~= goal);
        assert forall|k: int| 0 <= k < self@.len() implies (#[trigger] self@[k]).wf() by {
            assert(before[k].wf());
        }
    }

    /// Makes room for one more agent, and says what is to be done before it
    /// joins: the tools are shown where no agent takes feedback yet.
    pub fn plan_attach(&mut self) -> (outcome: Result<Vec<Step>, Reply>)
        requires
            old(self).wf(),
        ensures
            final(self).wf(),
            match outcome {
                Ok(steps) => !full(old(self)@) && final(self)@ == with_room(old(self)@)
                    && final(self)@.len() < ATTACHMENT_CAPACITY && step_views(steps@) == switching(
                    !any_active(final(self)@),
                    true,
                ),
                Err(reply) => full(old(self)@) && final(self)@ == old(self)@ && reply@
                    == replies::error_reply(
                    503,
                    "attachment-capacity"@,
                    "attachment registry is full of active attachments"@,
                ),
            },
    {
        if self.attachments.len() == ATTACHMENT_CAPACITY {
            let gone = self.find_gone();
            if gone == self.attachments.len() {
                return Err(
                    error(
                        503,
                        "attachment-capacity",
                        "attachment registry is full of active attachments",
                    ),
                );
            }
            let ghost before = self@;
            self.attachments.remove(gone);
            assert(self@ =~= before.remove(gone as int));
            assert forall|k: int| 0 <= k < self@.len() implies (#[trigger] self@[k]).wf() by {
                assert(before[if k < gone {
                    k
                } else {
                    k + 1
                }].wf());
            }
        }
        let mut steps: Vec<Step> = Vec::new();
        assert(step_views(steps@) =~= Seq::<StepView>::empty());
        push_switch(&mut steps, !self.has_active(), true);
        assert(step_views(steps@) =~= switching(!any_active(self@), true));
        Ok(steps)
    }

    /// Adds an agent once there is room and the steps of the plan have been
    /// taken.
    pub fn finish_attach(&mut self, attachment: Attachment)
        requires
            old(self).wf(),
            old(self)@.len() < ATTACHMENT_CAPACITY,
            attachment.wf(),
        ensures
            final(self).wf(),
            final(self)@ == old(self)@.push(attachment),
    {
        self.attachments.push(attachment);
    }
}

/// What an optional text says.
pub open spec fn optional_view(value: Option<&str>) -> Option<Seq<char>> {
    match value {
        Some(content) => Some(content@),
        None => None,
    }
}

proof fn lemma_first_connected(attachments: Seq<Attachment>)
    requires
        connected_ids(attachments).len() > 0,
    ensures
        first_connected(attachments, 0) < attachments.len(),
{
    if first_connected(attachments, 0) >= attachments.len() {
        lemma_none_connected(attachments, 0);
        lemma_no_ids(attachments);
    }
}

proof fn lemma_none_connected(attachments: Seq<Attachment>, from: int)
    requires
        first_connected(attachments, from) >= attachments.len(),
        0 <= from,
    ensures
        forall|i: int|
            from <= i < attachments.len() ==> !(
            #[trigger] attachments[i]).collaboration_state.connected(),
    decreases attachments.len() - from,
{
    if from < attachments.len() {
        lemma_none_connected(attachments, from + 1);
    }
}

proof fn lemma_no_ids(attachments: Seq<Attachment>)
    requires
        forall|i: int|
            0 <= i < attachments.len() ==> !(
            #[trigger] attachments[i]).collaboration_state.connected(),
    ensures
        connected_ids(attachments).len() == 0,
    decreases attachments.len(),
{
    if attachments.len() > 0 {
        assert forall|i: int| 0 <= i < attachments.len() - 1 implies !(
        #[trigger] attachments.drop_last()[i]).collaboration_state.connected() by {
            assert(attachments.drop_last()[i] == attachments[i]);
        }
        lemma_no_ids(attachments.drop_last());
    }
}

fn control_result(
    status: &str,
    attachment_id: Option<String>,
    collaboration_state: CollaborationState,
) -> (result: CollaborationControlResult)
    ensures
        result@ == (ControlView {
            status: status@,
            attachment_id: feedback::optional_text(attachment_id),
            collaboration_state,
        }),
{
    CollaborationControlResult { status: status.to_owned(), attachment_id, collaboration_state }
}

fn detach_answer(
    status: &str,
    attachment_id: Option<String>,
    active_attachment_count: usize,
) -> (result: DetachResult)
    ensures
        result@ == (DetachView {
            status: status@,
            attachment_id: feedback::optional_text(attachment_id),
            active_attachment_count: active_attachment_count as int,
        }),
{
    DetachResult { status: status.to_owned(), attachment_id, active_attachment_count }
}

} // verus!
