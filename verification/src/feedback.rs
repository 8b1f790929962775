//! Feedback items: what they hold, which incoming ones are accepted and how
//! they are named.
use crate::json::{self, Json, JsonView};
use crate::paths::{self, join};
use crate::session::{self, generate_session_id, RandomSourceUnavailable, SESSION_DIR};
use crate::text::{
    self, chars_of, decimal_of, find_from, is_ascii_white_space, is_blank, is_match_at, same_text,
    text_of, to_ascii_lowered, utf8_len_of,
};
use vstd::prelude::*;
use vstd::string::*;

verus! {

/// The directory of feedback records below the session directory.
pub const FEEDBACK_DIR: &'static str = "feedback";

/// The most records that a listing holds.
pub const FEEDBACK_VIEW_LIMIT: usize = 256;

/// The most bytes that a preview draft document may take in UTF-8.
pub const PREVIEW_DRAFT_DOCUMENT_LIMIT_BYTES: usize = 262_144;

/// How long a lease lasts, in milliseconds.
pub const DEFAULT_LEASE_DURATION_MILLIS: u64 = 300_000;

#[derive(Debug, Clone, Copy, PartialEq, Eq, Structural)]
pub enum FeedbackKind {
    ElementComment,
    Painting,
    PreviewDraft,
    Textbox,
}

impl FeedbackKind {
    /// The name that the kind has in records and messages.
    pub open spec fn name(self) -> Seq<char> {
        match self {
            FeedbackKind::ElementComment => "element-comment"@,
            FeedbackKind::Painting => "painting"@,
            FeedbackKind::PreviewDraft => "preview-draft"@,
            FeedbackKind::Textbox => "textbox"@,
        }
    }

    pub fn as_str(self) -> (r: &'static str)
        ensures
            r@ == self.name(),
    {
        match self {
            FeedbackKind::ElementComment => "element-comment",
            FeedbackKind::Painting => "painting",
            FeedbackKind::PreviewDraft => "preview-draft",
            FeedbackKind::Textbox => "textbox",
        }
    }
}

#[derive(Debug, Clone, Copy, PartialEq, Eq, Structural)]
pub enum FeedbackState {
    Pending,
    Acknowledged,
    Working,
    Resolved,
    Failed,
}

impl FeedbackState {
    /// The name that the state has in records and messages.
    pub open spec fn name(self) -> Seq<char> {
        match self {
            FeedbackState::Pending => "pending"@,
            FeedbackState::Acknowledged => "acknowledged"@,
            FeedbackState::Working => "working"@,
            FeedbackState::Resolved => "resolved"@,
            FeedbackState::Failed => "failed"@,
        }
    }

    /// The state with a name, if there is one.
    pub open spec fn named(name: Seq<char>) -> Option<FeedbackState> {
        if name == "pending"@ {
            Some(FeedbackState::Pending)
        } else if name == "acknowledged"@ {
            Some(FeedbackState::Acknowledged)
        } else if name == "working"@ {
            Some(FeedbackState::Working)
        } else if name == "resolved"@ {
            Some(FeedbackState::Resolved)
        } else if name == "failed"@ {
            Some(FeedbackState::Failed)
        } else {
            None
        }
    }

    /// Work on the item is over.
    pub open spec fn terminal(self) -> bool {
        self is Resolved || self is Failed
    }

    /// Someone has taken the item up.
    pub open spec fn in_work(self) -> bool {
        self is Acknowledged || self is Working
    }

    pub fn as_str(self) -> (r: &'static str)
        ensures
            r@ == self.name(),
    {
        match self {
            FeedbackState::Pending => "pending",
            FeedbackState::Acknowledged => "acknowledged",
            FeedbackState::Working => "working",
            FeedbackState::Resolved => "resolved",
            FeedbackState::Failed => "failed",
        }
    }

    /// The state with a name; an error where no state has it.
    pub fn try_from(value: &str) -> (r: Result<FeedbackState, ()>)
        ensures
            match r {
                Ok(state) => FeedbackState::named(value@) == Some(state),
                Err(_) => FeedbackState::named(value@) is None,
            },
    {
        if same_text(value, "pending") {
            Ok(FeedbackState::Pending)
        } else if same_text(value, "acknowledged") {
            Ok(FeedbackState::Acknowledged)
        } else if same_text(value, "working") {
            Ok(FeedbackState::Working)
        } else if same_text(value, "resolved") {
            Ok(FeedbackState::Resolved)
        } else if same_text(value, "failed") {
            Ok(FeedbackState::Failed)
        } else {
            Err(())
        }
    }

    /// Tests whether work on the item is over.
    pub fn is_terminal(self) -> (r: bool)
        ensures
            r == self.terminal(),
    {
        match self {
            FeedbackState::Resolved | FeedbackState::Failed => true,
            _ => false,
        }
    }

    /// Tests whether someone has taken the item up.
    pub fn is_in_work(self) -> (r: bool)
        ensures
            r == self.in_work(),
    {
        match self {
            FeedbackState::Acknowledged | FeedbackState::Working => true,
            _ => false,
        }
    }
}

/// The name of a state names that state, and a name that names a state is its
/// name.
pub proof fn lemma_state_names(state: FeedbackState, name: Seq<char>)
    ensures
        FeedbackState::named(state.name()) == Some(state),
        FeedbackState::named(name) == Some(state) <==> name == state.name(),
{
    reveal_strlit("pending");
    reveal_strlit("acknowledged");
    reveal_strlit("working");
    reveal_strlit("resolved");
    reveal_strlit("failed");
    assert("pending"@.len() == 7 && "acknowledged"@.len() == 12 && "working"@.len() == 7
        && "resolved"@.len() == 8 && "failed"@.len() == 6);
    assert("pending"@[0] == 'p' && "working"@[0] == 'w');
}

/// The right of one attachment to work on an item until a point in time, in
/// milliseconds since the epoch.
#[derive(Debug, PartialEq, Eq)]
pub struct FeedbackLease {
    pub owner: String,
    pub expires_at: u64,
}

pub struct LeaseView {
    pub owner: Seq<char>,
    pub expires_at: u64,
}

impl View for FeedbackLease {
    type V = LeaseView;

    open spec fn view(&self) -> LeaseView {
        LeaseView { owner: self.owner@, expires_at: self.expires_at }
    }
}

impl Clone for FeedbackLease {
    fn clone(&self) -> (copy: Self)
        ensures
            copy@ == self@,
    {
        FeedbackLease { owner: self.owner.clone(), expires_at: self.expires_at }
    }
}

/// How an item came back into the queue.
#[derive(Debug, PartialEq, Eq)]
pub struct RecoveryMetadata {
    pub previous_state: FeedbackState,
    pub previous_owner: Option<String>,
    pub recovered_at: u64,
    pub count: u32,
}

pub struct RecoveryView {
    pub previous_state: FeedbackState,
    pub previous_owner: Option<Seq<char>>,
    pub recovered_at: u64,
    pub count: u32,
}

/// The characters of an optional text.
pub open spec fn optional_text(value: Option<String>) -> Option<Seq<char>> {
    match value {
        Some(content) => Some(content@),
        None => None,
    }
}

impl View for RecoveryMetadata {
    type V = RecoveryView;

    open spec fn view(&self) -> RecoveryView {
        RecoveryView {
            previous_state: self.previous_state,
            previous_owner: optional_text(self.previous_owner),
            recovered_at: self.recovered_at,
            count: self.count,
        }
    }
}

impl Clone for RecoveryMetadata {
    fn clone(&self) -> (copy: Self)
        ensures
            copy@ == self@,
    {
        RecoveryMetadata {
            previous_state: self.previous_state,
            previous_owner: self.previous_owner.clone(),
            recovered_at: self.recovered_at,
            count: self.count,
        }
    }
}

/// An edit of the whole document that the page shows.
#[derive(Debug, PartialEq, Eq)]
pub struct PreviewDraft {
    pub selector: String,
    pub before_html: String,
    pub after_html: String,
}

pub struct DraftView {
    pub selector: Seq<char>,
    pub before_html: Seq<char>,
    pub after_html: Seq<char>,
}

impl View for PreviewDraft {
    type V = DraftView;

    open spec fn view(&self) -> DraftView {
        DraftView {
            selector: self.selector@,
            before_html: self.before_html@,
            after_html: self.after_html@,
        }
    }
}

impl Clone for PreviewDraft {
    fn clone(&self) -> (copy: Self)
        ensures
            copy@ == self@,
    {
        PreviewDraft {
            selector: self.selector.clone(),
            before_html: self.before_html.clone(),
            after_html: self.after_html.clone(),
        }
    }
}

/// A stretch of the page, in CSS pixels, that a painting is captured from.
#[derive(Debug, Clone, Copy, PartialEq, Eq, Structural)]
pub struct CaptureRegion {
    pub x: i64,
    pub y: i64,
    pub width: u64,
    pub height: u64,
}

/// A feedback item. `created_at` is in milliseconds since the epoch and orders
/// the queue; `attachments` holds absolute paths of the files that belong to a
/// painting; `marks` holds its vector marks.
#[derive(Debug, PartialEq, Eq)]
pub struct FeedbackRecord {
    pub id: String,
    pub kind: FeedbackKind,
    pub text: String,
    pub state: FeedbackState,
    pub orphaned: bool,
    pub created_at: u64,
    pub page_url: String,
    pub viewport: Json,
    pub elements: Json,
    pub attachments: Vec<String>,
    pub lease: Option<FeedbackLease>,
    pub marks: Json,
    pub preview_draft: Option<PreviewDraft>,
    pub failure_reason: Option<String>,
    pub recovery: Option<RecoveryMetadata>,
}

/// What a feedback item holds.
pub struct RecordView {
    pub id: Seq<char>,
    pub kind: FeedbackKind,
    pub text: Seq<char>,
    pub state: FeedbackState,
    pub orphaned: bool,
    pub created_at: u64,
    pub page_url: Seq<char>,
    pub viewport: JsonView,
    pub elements: JsonView,
    pub attachments: Seq<Seq<char>>,
    pub lease: Option<LeaseView>,
    pub marks: JsonView,
    pub preview_draft: Option<DraftView>,
    pub failure_reason: Option<Seq<char>>,
    pub recovery: Option<RecoveryView>,
}

/// The characters of each text.
pub open spec fn texts(values: Seq<String>) -> Seq<Seq<char>> {
    values.map_values(|value: String| value@)
}

impl View for FeedbackRecord {
    type V = RecordView;

    open spec fn view(&self) -> RecordView {
        RecordView {
            id: self.id@,
            kind: self.kind,
            text: self.text@,
            state: self.state,
            orphaned: self.orphaned,
            created_at: self.created_at,
            page_url: self.page_url@,
            viewport: self.viewport@,
            elements: self.elements@,
            attachments: texts(self.attachments@),
            lease: match self.lease {
                Some(lease) => Some(lease@),
                None => None,
            },
            marks: self.marks@,
            preview_draft: match self.preview_draft {
                Some(draft) => Some(draft@),
                None => None,
            },
            failure_reason: optional_text(self.failure_reason),
            recovery: match self.recovery {
                Some(recovery) => Some(recovery@),
                None => None,
            },
        }
    }
}

/// Copies a list of texts.
pub fn clone_texts(values: &Vec<String>) -> (copies: Vec<String>)
    ensures
        texts(copies@) == texts(values@),
{
    let mut copies: Vec<String> = Vec::new();
    let mut i: usize = 0;
    while i < values.len()
        invariant
            i <= values@.len(),
            texts(copies@) =~= texts(values@).take(i as int),
        decreases values.len() - i,
    {
        let ghost before = copies@;
        copies.push(values[i].clone());
        i += 1;
        assert(texts(copies@) =~= texts(before).push(values@[i - 1]@));
    }
    assert(texts(values@).take(values@.len() as int) =~= texts(values@));
    copies
}

impl Clone for FeedbackRecord {
    fn clone(&self) -> (copy: Self)
        ensures
            copy@ == self@,
    {
        FeedbackRecord {
            id: self.id.clone(),
            kind: self.kind,
            text: self.text.clone(),
            state: self.state,
            orphaned: self.orphaned,
            created_at: self.created_at,
            page_url: self.page_url.clone(),
            viewport: self.viewport.clone(),
            elements: self.elements.clone(),
            attachments: clone_texts(&self.attachments),
            lease: match &self.lease {
                Some(lease) => Some(lease.clone()),
                None => None,
            },
            marks: self.marks.clone(),
            preview_draft: match &self.preview_draft {
                Some(draft) => Some(draft.clone()),
                None => None,
            },
            failure_reason: self.failure_reason.clone(),
            recovery: match &self.recovery {
                Some(recovery) => Some(recovery.clone()),
                None => None,
            },
        }
    }
}

/// What the overlay sends in, without the fields that the queue assigns.
#[derive(Debug, PartialEq, Eq)]
pub struct IncomingFeedback {
    pub kind: FeedbackKind,
    pub text: String,
    pub page_url: String,
    pub viewport: Json,
    pub elements: Json,
    pub marks: Json,
    pub svg: Option<String>,
    pub preview_draft: Option<PreviewDraft>,
    pub capture_regions: Vec<CaptureRegion>,
}

/// A start tag `tag` stands in the document: its name in small letters, and
/// behind it white space or the end of the tag.
pub open spec fn has_start_tag(lowered: Seq<char>, tag: Seq<char>) -> bool {
    exists|at: int|
        {
            &&& #[trigger] text::matches_at(lowered, at, tag)
            &&& at + tag.len() < lowered.len()
            &&& text::ascii_white_space(lowered[at + tag.len()]) || lowered[at + tag.len()] == '>'
        }
}

/// The document has an `html`, a `head` and a `body` tag, of any case.
pub open spec fn complete_html_document(html: Seq<char>) -> bool {
    let lowered = text::ascii_lowered(html);
    &&& !text::blank(html)
    &&& has_start_tag(lowered, "<html"@)
    &&& has_start_tag(lowered, "<head"@)
    &&& has_start_tag(lowered, "<body"@)
}

fn finds_start_tag(lowered: &Vec<char>, tag: &str) -> (r: bool)
    ensures
        r == has_start_tag(lowered@, tag@),
{
    let pattern = chars_of(tag);
    let mut at: usize = 0;
    while at < lowered.len()
        invariant
            pattern@ == tag@,
            at <= lowered@.len(),
            forall|k: int|
                0 <= k < at && #[trigger] text::matches_at(lowered@, k, tag@) ==> !(k + tag@.len()
                    < lowered@.len() && (text::ascii_white_space(lowered@[k + tag@.len()])
                    || lowered@[k + tag@.len()] == '>')),
        decreases lowered.len() - at,
    {
        if is_match_at(lowered, at, &pattern) {
            if pattern.len() < lowered.len() - at {
                let next: char = lowered[at + pattern.len()];
                if is_ascii_white_space(next) || next == '>' {
                    return true;
                }
            }
        }
        at += 1;
    }
    false
}

/// Tests for a document with an `html`, a `head` and a `body` tag.
pub fn is_complete_html_document(html: &str) -> (r: bool)
    ensures
        r == complete_html_document(html@),
{
    let chars = chars_of(html);
    let lowered = to_ascii_lowered(&chars);
    !is_blank(html) && finds_start_tag(&lowered, "<html") && finds_start_tag(&lowered, "<head")
        && finds_start_tag(&lowered, "<body")
}

/// The selector of the only element, where there is just one and it has a
/// selector that is not blank.
pub open spec fn only_selector(elements: JsonView) -> Option<Seq<char>> {
    match elements {
        JsonView::Array(items) => if items.len() == 1 {
            match items[0].text_field("selector"@) {
                Some(selector) => if text::blank(selector) {
                    None
                } else {
                    Some(selector)
                },
                None => None,
            }
        } else {
            None
        },
        _ => None,
    }
}

/// Why a preview draft is refused, or `None` where it is accepted.
pub open spec fn draft_problem(incoming: IncomingFeedback) -> Option<Seq<char>> {
    match incoming.preview_draft {
        None => Some("preview-draft requires previewDraft"@),
        Some(draft) => if !(incoming.elements@ matches JsonView::Array(items) && items.len()
            == 1) {
            Some("preview-draft requires exactly one element"@)
        } else if only_selector(incoming.elements@) is None {
            Some("preview-draft element requires a selector"@)
        } else if only_selector(incoming.elements@) != Some(draft.selector@) {
            Some("previewDraft selector must match the element selector"@)
        } else if !complete_html_document(draft.before_html@) || !complete_html_document(
            draft.after_html@,
        ) {
            Some("previewDraft beforeHtml and afterHtml must be complete HTML documents"@)
        } else if draft.before_html@ == draft.after_html@ {
            Some("previewDraft complete documents must be different"@)
        } else if text::utf8_len(draft.before_html@) > PREVIEW_DRAFT_DOCUMENT_LIMIT_BYTES
            || text::utf8_len(draft.after_html@) > PREVIEW_DRAFT_DOCUMENT_LIMIT_BYTES {
            Some("previewDraft documents must not exceed 262144 UTF-8 bytes"@)
        } else {
            None
        },
    }
}

/// Why an incoming item is refused, or `None` where it is accepted.
pub open spec fn incoming_problem(incoming: IncomingFeedback) -> Option<Seq<char>> {
    if !(incoming.viewport@ is Object) {
        Some("feedback viewport must be an object"@)
    } else if incoming.kind is PreviewDraft {
        draft_problem(incoming)
    } else if incoming.preview_draft is Some {
        Some("previewDraft is only valid for preview-draft feedback"@)
    } else {
        match incoming.kind {
            FeedbackKind::ElementComment => if text::blank(incoming.text@) {
                Some("element-comment requires non-empty text"@)
            } else if !incoming.elements@.nonempty_array() {
                Some("element-comment requires at least one element"@)
            } else {
                None
            },
            FeedbackKind::Textbox => if text::blank(incoming.text@) {
                Some("textbox feedback requires non-empty text"@)
            } else {
                None
            },
            _ => if !incoming.marks@.nonempty_array() {
                Some("painting feedback requires at least one mark"@)
            } else if !(incoming.svg matches Some(svg) && text::contains(svg@, "<svg"@)) {
                Some("painting feedback requires serialized SVG markup"@)
            } else {
                None
            },
        }
    }
}

/// Refuses a preview draft with feedback of another kind.
fn reject_preview_draft(incoming: &IncomingFeedback) -> (r: Result<(), String>)
    ensures
        match r {
            Ok(_) => incoming.preview_draft is None,
            Err(message) => incoming.preview_draft is Some && message@
                == "previewDraft is only valid for preview-draft feedback"@,
        },
{
    if incoming.preview_draft.is_some() {
        Err("previewDraft is only valid for preview-draft feedback".to_owned())
    } else {
        Ok(())
    }
}

fn only_selector_of(elements: &Json) -> (r: Option<&String>)
    ensures
        match r {
            Some(selector) => only_selector(elements@) == Some(selector@),
            None => only_selector(elements@) is None,
        },
{
    match elements {
        Json::Array(items) => {
            proof {
                json::lemma_array_view(*elements, items@);
            }
            if items.len() == 1 {
                match items[0].text_field("selector") {
                    Some(selector) => if is_blank(selector.as_str()) {
                        None
                    } else {
                        Some(selector)
                    },
                    None => None,
                }
            } else {
                None
            }
        },
        _ => None,
    }
}

fn holds_one_item(elements: &Json) -> (r: bool)
    ensures
        r == (elements@ matches JsonView::Array(items) && items.len() == 1),
{
    match elements {
        Json::Array(items) => {
            proof {
                json::lemma_array_view(*elements, items@);
            }
            items.len() == 1
        },
        _ => false,
    }
}

/// Accepts a preview draft, or says why it is refused.
fn validate_preview_draft(incoming: &IncomingFeedback) -> (r: Result<(), String>)
    ensures
        match r {
            Ok(_) => draft_problem(*incoming) is None,
            Err(message) => draft_problem(*incoming) == Some(message@),
        },
{
    let draft = match &incoming.preview_draft {
        Some(draft) => draft,
        None => return Err("preview-draft requires previewDraft".to_owned()),
    };
    if !holds_one_item(&incoming.elements) {
        return Err("preview-draft requires exactly one element".to_owned());
    }
    let selector = match only_selector_of(&incoming.elements) {
        Some(selector) => selector,
        None => return Err("preview-draft element requires a selector".to_owned()),
    };
    if !same_text(selector.as_str(), draft.selector.as_str()) {
        return Err("previewDraft selector must match the element selector".to_owned());
    }
    if !is_complete_html_document(draft.before_html.as_str()) || !is_complete_html_document(
        draft.after_html.as_str(),
    ) {
        return Err(
            "previewDraft beforeHtml and afterHtml must be complete HTML documents".to_owned(),
        );
    }
    if same_text(draft.before_html.as_str(), draft.after_html.as_str()) {
        return Err("previewDraft complete documents must be different".to_owned());
    }
    if utf8_len_of(draft.before_html.as_str()) > PREVIEW_DRAFT_DOCUMENT_LIMIT_BYTES
        || utf8_len_of(draft.after_html.as_str()) > PREVIEW_DRAFT_DOCUMENT_LIMIT_BYTES {
        return Err("previewDraft documents must not exceed 262144 UTF-8 bytes".to_owned());
    }
    Ok(())
}

fn holds_svg(svg: &Option<String>) -> (r: bool)
    ensures
        r == (svg matches Some(markup) && text::contains(markup@, "<svg"@)),
{
    match svg {
        Some(markup) => {
            let chars = chars_of(markup.as_str());
            let pattern = chars_of("<svg");
            match find_from(&chars, 0, &pattern) {
                Some(at) => {
                    assert(text::matches_at(markup@, at as int, "<svg"@));
                    true
                },
                None => {
                    assert forall|at: int| !#[trigger] text::matches_at(markup@, at, "<svg"@) by {
                        if at >= 0 {
                            assert(!text::matches_at(chars@, at, pattern@));
                        }
                    }
                    false
                },
            }
        },
        None => false,
    }
}

/// The message for a payload that could not be read, from the reason.
pub open spec fn unreadable_feedback(reason: Seq<char>) -> Seq<char> {
    "invalid feedback kind or payload: "@ + reason
}

/// Accepts an incoming item as it is, or says why it is refused. `payload` is
/// the item, or the reason why it could not be read.
pub fn validate(payload: Result<IncomingFeedback, String>) -> (r: Result<IncomingFeedback, String>)
    ensures
        match (payload, r) {
            (Ok(incoming), Ok(accepted)) => accepted == incoming && incoming_problem(
                incoming,
            ) is None,
            (Ok(incoming), Err(message)) => incoming_problem(incoming) == Some(message@),
            (Err(reason), Err(message)) => message@ == unreadable_feedback(reason@),
            (Err(_), Ok(_)) => false,
        },
{
    let incoming = match payload {
        Ok(incoming) => incoming,
        Err(reason) => {
            let mut message = "invalid feedback kind or payload: ".to_owned();
            message.append(reason.as_str());
            return Err(message);
        },
    };
    if !incoming.viewport.is_object() {
        return Err("feedback viewport must be an object".to_owned());
    }
    match incoming.kind {
        FeedbackKind::ElementComment => {
            if let Err(message) = reject_preview_draft(&incoming) {
                return Err(message);
            }
            if is_blank(incoming.text.as_str()) {
                return Err("element-comment requires non-empty text".to_owned());
            }
            if !incoming.elements.is_nonempty_array() {
                return Err("element-comment requires at least one element".to_owned());
            }
        },
        FeedbackKind::Textbox => {
            if let Err(message) = reject_preview_draft(&incoming) {
                return Err(message);
            }
            if is_blank(incoming.text.as_str()) {
                return Err("textbox feedback requires non-empty text".to_owned());
            }
        },
        FeedbackKind::Painting => {
            if let Err(message) = reject_preview_draft(&incoming) {
                return Err(message);
            }
            if !incoming.marks.is_nonempty_array() {
                return Err("painting feedback requires at least one mark".to_owned());
            }
            if !holds_svg(&incoming.svg) {
                return Err("painting feedback requires serialized SVG markup".to_owned());
            }
        },
        FeedbackKind::PreviewDraft => {
            if let Err(message) = validate_preview_draft(&incoming) {
                return Err(message);
            }
        },
    }
    Ok(incoming)
}

/// `fb-`, decimal digits, `-`, hexadecimal digits.
pub open spec fn valid_feedback_id(id: Seq<char>) -> bool {
    exists|dash: int| #[trigger] feedback_id_split(id, dash)
}

/// The identifier with its second dash at `dash`.
pub open spec fn feedback_id_split(id: Seq<char>, dash: int) -> bool {
    &&& 3 < dash < id.len() - 1
    &&& id[0] == 'f'
    &&& id[1] == 'b'
    &&& id[2] == '-'
    &&& id[dash] == '-'
    &&& forall|i: int| 3 <= i < dash ==> text::ascii_digit(#[trigger] id[i])
    &&& forall|i: int| dash < i < id.len() ==> text::ascii_hex_digit(#[trigger] id[i])
}

/// An identifier that is accepted holds nothing but letters, digits and dashes:
/// no separator and no dot that a path could be made of.
pub proof fn lemma_feedback_id_is_plain(id: Seq<char>)
    requires
        valid_feedback_id(id),
    ensures
        forall|i: int|
            0 <= i < id.len() ==> (#[trigger] id[i] == '-' || 'a' <= id[i] <= 'z' || 'A' <= id[i]
                <= 'Z' || '0' <= id[i] <= '9'),
{
    let dash = choose|dash: int| #[trigger] feedback_id_split(id, dash);
    assert forall|i: int| 0 <= i < id.len() implies (#[trigger] id[i] == '-' || 'a' <= id[i] <= 'z'
        || 'A' <= id[i] <= 'Z' || '0' <= id[i] <= '9') by {
        if 3 <= i < dash {
            assert(text::ascii_digit(id[i]));
        } else if dash < i {
            assert(text::ascii_hex_digit(id[i]));
        }
    }
}

fn matches_feedback_id(chars: &Vec<char>) -> (r: bool)
    ensures
        r == valid_feedback_id(chars@),
{
    if chars.len() < 6 || chars[0] != 'f' || chars[1] != 'b' || chars[2] != '-' {
        return false;
    }
    let mut dash: usize = 3;
    while dash < chars.len() && '0' <= chars[dash] && chars[dash] <= '9'
        invariant
            3 <= dash <= chars@.len(),
            forall|i: int| 3 <= i < dash ==> text::ascii_digit(#[trigger] chars@[i]),
        decreases chars.len() - dash,
    {
        dash += 1;
    }
    assert forall|other: int| #[trigger] feedback_id_split(chars@, other) implies other == dash by {
        if other < dash {
            assert(text::ascii_digit(chars@[other]));
        } else if dash < other {
            assert(text::ascii_digit(chars@[dash as int]));
        }
    }
    if dash == 3 || dash >= chars.len() || chars[dash] != '-' || chars.len() - dash < 2 {
        return false;
    }
    let mut i: usize = dash + 1;
    while i < chars.len()
        invariant
            3 <= dash < i <= chars@.len(),
            forall|k: int| dash < k < i ==> text::ascii_hex_digit(#[trigger] chars@[k]),
            forall|other: int| #[trigger] feedback_id_split(chars@, other) ==> other == dash,
        decreases chars.len() - i,
    {
        let c: char = chars[i];
        if !(('0' <= c && c <= '9') || ('a' <= c && c <= 'f') || ('A' <= c && c <= 'F')) {
            assert(!feedback_id_split(chars@, dash as int)) by {
                assert(!text::ascii_hex_digit(chars@[i as int]));
            }
            return false;
        }
        i += 1;
    }
    assert(feedback_id_split(chars@, dash as int));
    true
}

/// Hands back an identifier of the form `fb-<timestamp>-<hex suffix>` and
/// refuses every other.
pub fn validate_feedback_id(id: &str) -> (r: Result<&str, &'static str>)
    ensures
        match r {
            Ok(accepted) => valid_feedback_id(id@) && accepted@ == id@,
            Err(message) => !valid_feedback_id(id@) && message@
                == "feedback ID must match fb-<timestamp>-<hex suffix>"@,
        },
{
    let chars = chars_of(id);
    if matches_feedback_id(&chars) {
        Ok(id)
    } else {
        Err("feedback ID must match fb-<timestamp>-<hex suffix>")
    }
}

/// The path of the directory of feedback records.
pub open spec fn feedback_dir_of(project_root: Seq<char>) -> Seq<char> {
    paths::joined(paths::joined(project_root, ".collab"@), "feedback"@)
}

/// The directory of the feedback records of a project.
pub fn feedback_dir(project_root: &str) -> (path: String)
    ensures
        path@ == feedback_dir_of(project_root@),
{
    join(join(project_root, SESSION_DIR).as_str(), FEEDBACK_DIR)
}

/// The file of the record with an identifier that is accepted.
pub fn feedback_path(project_root: &str, id: &str) -> (r: Result<String, &'static str>)
    ensures
        match r {
            Ok(path) => valid_feedback_id(id@) && path@ == paths::joined(
                feedback_dir_of(project_root@),
                id@ + ".json"@,
            ),
            Err(message) => !valid_feedback_id(id@) && message@
                == "feedback ID must match fb-<timestamp>-<hex suffix>"@,
        },
{
    match validate_feedback_id(id) {
        Ok(_) => {
            let mut name = id.to_owned();
            name.append(".json");
            Ok(join(feedback_dir(project_root).as_str(), name.as_str()))
        },
        Err(message) => Err(message),
    }
}

/// The identifier that a record file stands for: the name before `.json`.
pub open spec fn record_file_id(file_name: Seq<char>) -> Option<Seq<char>> {
    let stem_len = file_name.len() - 5;
    if stem_len >= 0 && file_name.skip(stem_len) == ".json"@ {
        Some(file_name.take(stem_len))
    } else {
        None
    }
}

/// The identifier that a record file stands for, if it is one.
pub fn file_id(file_name: &str) -> (r: Option<String>)
    ensures
        match r {
            Some(id) => record_file_id(file_name@) == Some(id@),
            None => record_file_id(file_name@) is None,
        },
{
    let chars = chars_of(file_name);
    let suffix = chars_of(".json");
    proof {
        reveal_strlit(".json");
        assert(suffix@.len() == 5);
    }
    if chars.len() < 5 {
        return None;
    }
    let stem_len: usize = chars.len() - 5;
    assert(file_name@.skip(stem_len as int) =~= file_name@.subrange(
        stem_len as int,
        stem_len + 5,
    ));
    if is_match_at(&chars, stem_len, &suffix) {
        assert(file_name@.take(stem_len as int) =~= chars@.subrange(0, stem_len as int));
        Some(text_of(&chars, 0, stem_len))
    } else {
        None
    }
}

/// A record file counts where its name is an identifier that is accepted and
/// the record in it has that identifier.
pub open spec fn record_file_counts(file_id: Seq<char>, record_id: Seq<char>) -> bool {
    valid_feedback_id(file_id) && record_id == file_id
}

/// Tests whether a record file counts.
pub fn accepts_record_file(file_id: &str, record_id: &str) -> (r: bool)
    ensures
        r == record_file_counts(file_id@, record_id@),
{
    validate_feedback_id(file_id).is_ok() && same_text(record_id, file_id)
}

/// The identifier made of a creation time and a suffix.
pub open spec fn feedback_id_of(created_at: u64, suffix: Seq<char>) -> Seq<char> {
    "fb-"@ + text::decimal(created_at as nat) + "-"@ + suffix
}

/// A creation time and a suffix of hexadecimal digits make an identifier that
/// is accepted.
pub proof fn lemma_assigned_id_is_valid(created_at: u64, suffix: Seq<char>)
    requires
        suffix.len() > 0,
        forall|i: int| 0 <= i < suffix.len() ==> text::ascii_hex_digit(#[trigger] suffix[i]),
    ensures
        valid_feedback_id(feedback_id_of(created_at, suffix)),
{
    reveal_strlit("fb-");
    reveal_strlit("-");
    let digits = text::decimal(created_at as nat);
    text::lemma_decimal_digits(created_at as nat);
    let id = feedback_id_of(created_at, suffix);
    let dash = 3 + digits.len() as int;
    assert("fb-"@.len() == 3 && "-"@.len() == 1);
    assert(id[0] == 'f' && id[1] == 'b' && id[2] == '-');
    assert(id[dash] == '-');
    assert forall|i: int| 3 <= i < dash implies text::ascii_digit(#[trigger] id[i]) by {
        assert(id[i] == digits[i - 3]);
    }
    assert forall|i: int| dash < i < id.len() implies text::ascii_hex_digit(#[trigger] id[i]) by {
        assert(id[i] == suffix[i - dash - 1]);
    }
    assert(feedback_id_split(id, dash));
}

/// The item that an incoming one becomes: pending, without a lease, without
/// files, under a new identifier.
pub open spec fn prepared(
    incoming: IncomingFeedback,
    created_at: u64,
    suffix: Seq<char>,
) -> RecordView {
    RecordView {
        id: feedback_id_of(created_at, suffix),
        kind: incoming.kind,
        text: incoming.text@,
        state: FeedbackState::Pending,
        orphaned: false,
        created_at,
        page_url: incoming.page_url@,
        viewport: incoming.viewport@,
        elements: incoming.elements@,
        attachments: Seq::empty(),
        lease: None,
        marks: incoming.marks@,
        preview_draft: match incoming.preview_draft {
            Some(draft) => Some(draft@),
            None => None,
        },
        failure_reason: None,
        recovery: None,
    }
}

/// Makes an item of an incoming one, under an identifier with the given suffix.
pub fn prepare_as(incoming: IncomingFeedback, created_at: u64, suffix: &str) -> (record:
    FeedbackRecord)
    ensures
        record@ == prepared(incoming, created_at, suffix@),
{
    let mut id = "fb-".to_owned();
    id.append(decimal_of(created_at).as_str());
    id.append("-");
    id.append(suffix);
    let attachments: Vec<String> = Vec::new();
    assert(texts(attachments@) =~= Seq::<Seq<char>>::empty());
    FeedbackRecord {
        id,
        kind: incoming.kind,
        text: incoming.text,
        state: FeedbackState::Pending,
        orphaned: false,
        created_at,
        page_url: incoming.page_url,
        viewport: incoming.viewport,
        elements: incoming.elements,
        attachments,
        lease: None,
        marks: incoming.marks,
        preview_draft: incoming.preview_draft,
        failure_reason: None,
        recovery: None,
    }
}

/// Makes an item of an incoming one, where a suffix for its identifier could be
/// made.
pub fn prepare_suffixed(
    incoming: IncomingFeedback,
    created_at: u64,
    suffix: Result<String, RandomSourceUnavailable>,
) -> (r: Result<FeedbackRecord, RandomSourceUnavailable>)
    ensures
        match suffix {
            Ok(suffix) => r matches Ok(record) && record@ == prepared(
                incoming,
                created_at,
                suffix@,
            ),
            Err(_) => r is Err,
        },
{
    match suffix {
        Ok(suffix) => Ok(prepare_as(incoming, created_at, suffix.as_str())),
        Err(error) => Err(error),
    }
}

/// A suffix as sessions are identified by makes an identifier that is accepted.
pub proof fn lemma_session_suffix_is_accepted(created_at: u64, suffix: Seq<char>)
    requires
        session::hex_token(suffix, 16),
    ensures
        valid_feedback_id(feedback_id_of(created_at, suffix)),
{
    assert forall|i: int| 0 <= i < suffix.len() implies text::ascii_hex_digit(
        #[trigger] suffix[i],
    ) by {
        assert(session::small_hex_digit(suffix[i]));
    }
    lemma_assigned_id_is_valid(created_at, suffix);
}

/// Makes an item of an incoming one, under a new identifier that is accepted.
pub fn prepare(incoming: IncomingFeedback, created_at: u64) -> (r: Result<
    FeedbackRecord,
    RandomSourceUnavailable,
>)
    ensures
        r matches Ok(record) ==> valid_feedback_id(record.id@) && exists|suffix: Seq<char>|
            session::hex_token(suffix, 16) && record@ == #[trigger] prepared(
                incoming,
                created_at,
                suffix,
            ),
{
    let suffix = generate_session_id();
    proof {
        if suffix is Ok {
            lemma_session_suffix_is_accepted(created_at, suffix->Ok_0@);
        }
    }
    prepare_suffixed(incoming, created_at, suffix)
}

} // verus!
