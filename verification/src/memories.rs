//! Memories: adding them, forgetting them, editing them, and taking in whole conversations.

use vstd::prelude::*;
use crate::calls::{add_call, adds, metadata_of, normalize_metadata, stored_metadata, AddCall};
use crate::container_tag::{parsed_scope, reconstructed_tag, ScopeView};
use crate::error::{ApiError, ApiErrorView};
use crate::ident::{id_text, id_value, parse_id, print_id};
use crate::json::{no_fields, Json};
use crate::request::{
    resolve_target, resolved_scope, resolved_tag, scope_gives_the_tag_back, target_fault,
    the_tag_used_is_the_tag_sent, Target,
};
use crate::text::{
    as_str_opt, blank, blank_is_all_white, case_is_all_that_differs, eq_ignore_ascii_case, is_blank,
    is_white_space, join, join_holds_its_parts, join_of_two_lists, join_texts,
    same_ignoring_ascii_case, str_of, text_of, texts, texts_of, trim, trimmed,
    white_space_around_is_ignored,
};
use crate::time::{
    accept_time, bad_date, date_in, read_rfc3339_opt, reading_of, rfc3339, rfc3339_of,
    rfc3339_value, time_of, to_rfc3339_opt, Timestamp,
};

verus! {

/// The kind of source that a conversation, or a text saved as one, is stored as.
pub open spec fn conversation_kind() -> Seq<char> {
    "conversation"@
}

// ---------------------------------------------------------------------------------------------
// Adding
// ---------------------------------------------------------------------------------------------

/// A text to remember.
#[derive(Debug)]
pub struct AddMemoryRequest {
    pub content: String,
    pub container_tag: Option<String>,
    pub container_tags: Option<Vec<String>>,
    pub custom_id: Option<String>,
    /// `dynamic` leaves the extraction to a worker; anything else extracts at once.
    pub dreaming: Option<String>,
    pub metadata: Option<Json>,
}

/// What became of a text.
#[derive(Debug)]
pub struct AddMemoryResponse {
    /// The identifier of the source.
    pub id: String,
    /// The container tag as it was sent.
    pub container_tag: String,
    /// `saved`, `queued`, or `skipped` for a text that was taken in before.
    pub status: String,
}

/// A call of the engine that queues a text for a worker to extract memories from.
#[derive(Debug)]
pub struct EnqueueCall {
    pub actor_id: String,
    pub container_tags: Vec<String>,
    pub content: String,
    pub kind: String,
    pub custom_id: Option<String>,
}

/// What the engine is asked to do with a text.
#[derive(Debug)]
pub enum AddAction {
    Enqueue(EnqueueCall),
    Add(AddCall),
}

/// How a text is remembered.
#[derive(Debug)]
pub struct AddMemoryPlan {
    pub container_tag: String,
    pub action: AddAction,
}

/// Why a text is refused, if it is.
pub open spec fn add_fault(req: AddMemoryRequest) -> Option<ApiErrorView> {
    if is_blank(req.content@) {
        Some(ApiErrorView::BadRequest("content is empty"@))
    } else {
        target_fault(text_of(req.container_tag), texts_of(req.container_tags))
    }
}

/// The extraction is left to a worker.
pub open spec fn is_dynamic(dreaming: Option<Seq<char>>) -> bool {
    dreaming is Some && same_ignoring_ascii_case(dreaming->0, "dynamic"@)
}

/// The plan remembers the text. Metadata does not go with a text that is queued.
pub open spec fn plans_add(plan: AddMemoryPlan, req: AddMemoryRequest) -> bool {
    let tag = text_of(req.container_tag);
    let tags = texts_of(req.container_tags);
    let scope = resolved_scope(tag, tags);
    &&& plan.container_tag@ == resolved_tag(tag, tags)->Ok_0
    &&& match plan.action {
        AddAction::Enqueue(call) => {
            &&& is_dynamic(text_of(req.dreaming))
            &&& call.actor_id@ == scope.actor_id
            &&& texts(call.container_tags@) == scope.container_tags
            &&& call.content@ == req.content@
            &&& call.kind@ == conversation_kind()
            &&& text_of(call.custom_id) == text_of(req.custom_id)
        },
        AddAction::Add(call) => {
            &&& !is_dynamic(text_of(req.dreaming))
            &&& adds(
                call,
                scope,
                req.content@,
                conversation_kind(),
                text_of(req.custom_id),
                stored_metadata(metadata_of(req.metadata)),
            )
        },
    }
}

/// Decides how a text is remembered.
pub fn plan_add(req: AddMemoryRequest) -> (r: Result<AddMemoryPlan, ApiError>)
    ensures
        match r {
            Ok(plan) => add_fault(req) is None && plans_add(plan, req),
            Err(e) => add_fault(req) == Some(e@),
        },
{
    if blank(req.content.as_str()) {
        return Err(ApiError::bad_request("content is empty"));
    }
    let target: Target = match resolve_target(req.container_tag, req.container_tags) {
        Ok(target) => target,
        Err(e) => {
            return Err(e);
        },
    };
    let dynamic: bool = match &req.dreaming {
        Some(mode) => eq_ignore_ascii_case(mode.as_str(), "dynamic"),
        None => false,
    };
    let action: AddAction = if dynamic {
        AddAction::Enqueue(
            EnqueueCall {
                actor_id: target.scope.actor_id,
                container_tags: target.scope.container_tags,
                content: req.content,
                kind: "conversation".to_owned(),
                custom_id: req.custom_id,
            },
        )
    } else {
        let metadata: Json = normalize_metadata(req.metadata);
        AddAction::Add(
            add_call(target.scope, req.content, "conversation", req.custom_id, metadata),
        )
    };
    Ok(AddMemoryPlan { container_tag: target.container_tag, action })
}

/// The answer once a text was queued; `queued` is false where it had been taken in before.
pub fn memory_enqueued(container_tag: String, source_id: u128, queued: bool) -> (r:
    AddMemoryResponse)
    ensures
        r.id@ == id_text(source_id),
        id_value(r.id@) == Some(source_id),
        r.container_tag@ == container_tag@,
        r.status@ == if queued {
            "queued"@
        } else {
            "skipped"@
        },
{
    let status: &str = if queued {
        "queued"
    } else {
        "skipped"
    };
    AddMemoryResponse { id: print_id(source_id), container_tag, status: status.to_owned() }
}

/// The answer once memories were extracted from a text; `skipped` says that it had been taken in
/// before.
pub fn memory_added(container_tag: String, source_id: u128, skipped: bool) -> (r: AddMemoryResponse)
    ensures
        r.id@ == id_text(source_id),
        id_value(r.id@) == Some(source_id),
        r.container_tag@ == container_tag@,
        r.status@ == if skipped {
            "skipped"@
        } else {
            "saved"@
        },
{
    let status: &str = if skipped {
        "skipped"
    } else {
        "saved"
    };
    AddMemoryResponse { id: print_id(source_id), container_tag, status: status.to_owned() }
}

// ---------------------------------------------------------------------------------------------
// Identifiers in requests
// ---------------------------------------------------------------------------------------------

/// The text of a field once the white space around it is gone, where anything is left.
pub open spec fn filled(field: Option<Seq<char>>) -> Option<Seq<char>> {
    match field {
        Some(text) => if trimmed(text).len() > 0 {
            Some(trimmed(text))
        } else {
            None
        },
        None => None,
    }
}

/// The text of a field once the white space around it is gone, where anything is left.
pub fn filled_text<'a>(field: &'a Option<String>) -> (r: Option<&'a str>)
    ensures
        str_of(r) == filled(text_of(*field)),
{
    match field {
        Some(text) => {
            let rest: &'a str = trim(text.as_str());
            if rest.is_empty() {
                None
            } else {
                Some(rest)
            }
        },
        None => None,
    }
}

/// A text that is no identifier is refused.
pub open spec fn bad_id() -> ApiErrorView {
    ApiErrorView::BadRequest("id is not a valid memory id"@)
}

/// The identifier a text was read as, or the refusal of a text that is none.
pub fn accept_id(read: Option<u128>) -> (r: Result<u128, ApiError>)
    ensures
        match r {
            Ok(id) => read == Some(id),
            Err(e) => read is None && e@ == bad_id(),
        },
{
    match read {
        Some(id) => Ok(id),
        None => Err(ApiError::bad_request("id is not a valid memory id")),
    }
}

// ---------------------------------------------------------------------------------------------
// Forgetting
// ---------------------------------------------------------------------------------------------

/// What to forget: one memory, or the memories that a text describes.
#[derive(Debug)]
pub struct ForgetRequest {
    pub container_tag: Option<String>,
    pub container_tags: Option<Vec<String>>,
    pub id: Option<String>,
    pub content: Option<String>,
    pub reason: Option<String>,
}

/// What became of a request to forget.
#[derive(Debug)]
pub struct ForgetResponse {
    /// The identifier as it was sent, or that of the first memory that was forgotten.
    pub id: String,
    pub forgotten: bool,
}

/// What the engine is asked to forget.
#[derive(Debug)]
pub enum ForgetPlan {
    ById { actor_id: String, id: u128, id_text: String, reason: Option<String> },
    ByContent { actor_id: String, content: String },
}

/// Why a request to forget is refused, if it is. `read` is the identifier that the text in the
/// request reads as, where there is such a text and it reads as one.
pub open spec fn forget_fault_with(req: ForgetRequest, read: Option<u128>) -> Option<ApiErrorView> {
    if target_fault(text_of(req.container_tag), texts_of(req.container_tags)) is Some {
        target_fault(text_of(req.container_tag), texts_of(req.container_tags))
    } else if filled(text_of(req.id)) is Some {
        if read is None {
            Some(bad_id())
        } else {
            None
        }
    } else if filled(text_of(req.content)) is None {
        Some(ApiErrorView::BadRequest("forget requires id or content"@))
    } else {
        None
    }
}

/// The plan forgets what was asked for. An identifier counts before a text.
pub open spec fn plans_forget_with(
    plan: ForgetPlan,
    req: ForgetRequest,
    read: Option<u128>,
) -> bool {
    let scope = resolved_scope(text_of(req.container_tag), texts_of(req.container_tags));
    match plan {
        ForgetPlan::ById { actor_id, id, id_text, reason } => {
            &&& filled(text_of(req.id)) == Some(id_text@)
            &&& read == Some(id)
            &&& actor_id@ == scope.actor_id
            &&& text_of(reason) == text_of(req.reason)
        },
        ForgetPlan::ByContent { actor_id, content } => {
            &&& filled(text_of(req.id)) is None
            &&& filled(text_of(req.content)) == Some(content@)
            &&& actor_id@ == scope.actor_id
        },
    }
}

/// The identifier that the text in a field reads as.
pub open spec fn id_in(field: Option<Seq<char>>) -> Option<u128> {
    match filled(field) {
        Some(text) => id_value(text),
        None => None,
    }
}

fn read_id(field: &Option<String>) -> (r: Option<u128>)
    ensures
        r == id_in(text_of(*field)),
{
    match filled_text(field) {
        Some(text) => parse_id(text),
        None => None,
    }
}

/// Decides what is forgotten, once the identifier in the request was read.
pub fn decide_forget(req: ForgetRequest, read: Option<u128>) -> (r: Result<ForgetPlan, ApiError>)
    ensures
        match r {
            Ok(plan) => forget_fault_with(req, read) is None && plans_forget_with(plan, req, read),
            Err(e) => forget_fault_with(req, read) == Some(e@),
        },
{
    let target: Target = match resolve_target(req.container_tag, req.container_tags) {
        Ok(target) => target,
        Err(e) => {
            return Err(e);
        },
    };
    match filled_text(&req.id) {
        Some(text) => {
            let id: u128 = match accept_id(read) {
                Ok(id) => id,
                Err(e) => {
                    return Err(e);
                },
            };
            let id_text: String = text.to_owned();
            return Ok(
                ForgetPlan::ById {
                    actor_id: target.scope.actor_id,
                    id,
                    id_text,
                    reason: req.reason,
                },
            );
        },
        None => {},
    }
    match filled_text(&req.content) {
        Some(text) => {
            let content: String = text.to_owned();
            Ok(ForgetPlan::ByContent { actor_id: target.scope.actor_id, content })
        },
        None => Err(ApiError::bad_request("forget requires id or content")),
    }
}

/// Decides what is forgotten.
pub fn plan_forget(req: ForgetRequest) -> (r: Result<ForgetPlan, ApiError>)
    ensures
        ({
            let read = id_in(text_of(req.id));
            match r {
                Ok(plan) => forget_fault_with(req, read) is None && plans_forget_with(
                    plan,
                    req,
                    read,
                ),
                Err(e) => forget_fault_with(req, read) == Some(e@),
            }
        }),
{
    let read: Option<u128> = read_id(&req.id);
    decide_forget(req, read)
}

/// The answer once one memory was to be forgotten; `forgotten` says whether there was one.
pub fn forgotten_by_id(id_text: String, forgotten: bool) -> (r: ForgetResponse)
    ensures
        r.id@ == id_text@,
        r.forgotten == forgotten,
{
    ForgetResponse { id: id_text, forgotten }
}

/// The answer once the memories that a text describes were forgotten.
pub fn forgotten_by_content(ids: &Vec<u128>) -> (r: ForgetResponse)
    ensures
        r.id@ == if ids@.len() > 0 {
            id_text(ids@[0])
        } else {
            ""@
        },
        r.forgotten == (ids@.len() > 0),
{
    if ids.len() > 0 {
        ForgetResponse { id: print_id(ids[0]), forgotten: true }
    } else {
        ForgetResponse { id: "".to_owned(), forgotten: false }
    }
}

// ---------------------------------------------------------------------------------------------
// Editing
// ---------------------------------------------------------------------------------------------

/// When the content of a memory was written and what it speaks of happened.
#[derive(Debug)]
pub struct TemporalContext {
    pub document_date: Option<String>,
    pub event_date: Option<Vec<String>>,
}

/// A new version of a memory.
#[derive(Debug)]
pub struct UpdateMemoryRequest {
    pub container_tag: Option<String>,
    pub container_tags: Option<Vec<String>>,
    pub new_content: String,
    pub id: Option<String>,
    /// Accepted and not read: the identifier alone names the memory.
    pub content: Option<String>,
    pub forget_after: Option<String>,
    pub forget_reason: Option<String>,
    pub metadata: Option<Json>,
    pub temporal_context: Option<TemporalContext>,
}

/// The new version of a memory.
#[derive(Debug)]
pub struct UpdateMemoryResponse {
    pub id: String,
    pub created_at: String,
    pub forget_after: Option<String>,
    pub forget_reason: Option<String>,
    pub memory: String,
    pub parent_memory_id: Option<String>,
    pub root_memory_id: Option<String>,
    pub version: i32,
}

/// A call of the engine that stores a new version of a memory.
#[derive(Debug)]
pub struct UpdatePlan {
    pub actor_id: String,
    pub id: u128,
    pub new_content: String,
    pub forget_after: Option<Timestamp>,
    pub forget_reason: Option<String>,
    pub metadata: Json,
    pub document_date: Option<Timestamp>,
    pub event_date: Option<Timestamp>,
}

/// The version of a memory that an edit stored.
#[derive(Debug)]
pub struct UpdatedMemory {
    pub id: u128,
    pub created_at: Timestamp,
    pub forget_after: Option<Timestamp>,
    pub forget_reason: Option<String>,
    pub parent_memory_id: u128,
    pub root_memory_id: u128,
    pub version: i32,
}

/// The text of the document's date.
pub open spec fn document_date(context: Option<TemporalContext>) -> Option<Seq<char>> {
    match context {
        Some(c) => text_of(c.document_date),
        None => None,
    }
}

/// The text of the event's date: the first one given.
pub open spec fn event_date(context: Option<TemporalContext>) -> Option<Seq<char>> {
    match context {
        Some(c) => match c.event_date {
            Some(dates) => if dates@.len() > 0 {
                Some(dates@[0]@)
            } else {
                None
            },
            None => None,
        },
        None => None,
    }
}

/// What the texts in an edit read as: the identifier, and each date. A date that is absent reads
/// as none; the outer `None` is a text that is no date.
#[derive(Debug)]
pub struct UpdateReadings {
    pub id: Option<u128>,
    pub forget_after: Option<Option<Timestamp>>,
    pub document_date: Option<Option<Timestamp>>,
    pub event_date: Option<Option<Timestamp>>,
}

/// What an [`UpdateReadings`] holds.
pub struct UpdateReadingsView {
    pub id: Option<u128>,
    pub forget_after: Option<Option<(i64, u32)>>,
    pub document_date: Option<Option<(i64, u32)>>,
    pub event_date: Option<Option<(i64, u32)>>,
}

impl View for UpdateReadings {
    type V = UpdateReadingsView;

    open spec fn view(&self) -> UpdateReadingsView {
        UpdateReadingsView {
            id: self.id,
            forget_after: reading_of(self.forget_after),
            document_date: reading_of(self.document_date),
            event_date: reading_of(self.event_date),
        }
    }
}

/// What the texts in an edit read as.
pub open spec fn readings_in(req: UpdateMemoryRequest) -> UpdateReadingsView {
    UpdateReadingsView {
        id: id_in(text_of(req.id)),
        forget_after: date_in(text_of(req.forget_after)),
        document_date: date_in(document_date(req.temporal_context)),
        event_date: date_in(event_date(req.temporal_context)),
    }
}

/// Why an edit is refused, if it is.
pub open spec fn update_fault_with(
    req: UpdateMemoryRequest,
    readings: UpdateReadingsView,
) -> Option<ApiErrorView> {
    if target_fault(text_of(req.container_tag), texts_of(req.container_tags)) is Some {
        target_fault(text_of(req.container_tag), texts_of(req.container_tags))
    } else if is_blank(req.new_content@) {
        Some(ApiErrorView::BadRequest("newContent is empty"@))
    } else if filled(text_of(req.id)) is None {
        Some(ApiErrorView::BadRequest("id is required"@))
    } else if readings.id is None {
        Some(bad_id())
    } else if readings.forget_after is None {
        Some(bad_date("forgetAfter"@))
    } else if readings.document_date is None {
        Some(bad_date("temporalContext.documentDate"@))
    } else if readings.event_date is None {
        Some(bad_date("temporalContext.eventDate"@))
    } else {
        None
    }
}

/// The plan stores the new version.
pub open spec fn plans_update_with(
    plan: UpdatePlan,
    req: UpdateMemoryRequest,
    readings: UpdateReadingsView,
) -> bool {
    let scope = resolved_scope(text_of(req.container_tag), texts_of(req.container_tags));
    &&& plan.actor_id@ == scope.actor_id
    &&& readings.id == Some(plan.id)
    &&& plan.new_content@ == trimmed(req.new_content@)
    &&& readings.forget_after == Some(time_of(plan.forget_after))
    &&& text_of(plan.forget_reason) == text_of(req.forget_reason)
    &&& plan.metadata@ == stored_metadata(metadata_of(req.metadata))
    &&& readings.document_date == Some(time_of(plan.document_date))
    &&& readings.event_date == Some(time_of(plan.event_date))
}

/// What the texts in an edit read as.
pub fn read_update(req: &UpdateMemoryRequest) -> (r: UpdateReadings)
    ensures
        r@ == readings_in(*req),
{
    let written: Option<&str> = match &req.temporal_context {
        Some(context) => as_str_opt(&context.document_date),
        None => None,
    };
    let happened: Option<&str> = match &req.temporal_context {
        Some(context) => match &context.event_date {
            Some(dates) => if dates.len() > 0 {
                Some(dates[0].as_str())
            } else {
                None
            },
            None => None,
        },
        None => None,
    };
    UpdateReadings {
        id: read_id(&req.id),
        forget_after: read_rfc3339_opt(as_str_opt(&req.forget_after)),
        document_date: read_rfc3339_opt(written),
        event_date: read_rfc3339_opt(happened),
    }
}

/// Decides how an edit is stored, once the texts in it were read.
pub fn decide_update(req: UpdateMemoryRequest, readings: UpdateReadings) -> (r: Result<
    UpdatePlan,
    ApiError,
>)
    ensures
        match r {
            Ok(plan) => update_fault_with(req, readings@) is None && plans_update_with(
                plan,
                req,
                readings@,
            ),
            Err(e) => update_fault_with(req, readings@) == Some(e@),
        },
{
    let target: Target = match resolve_target(req.container_tag, req.container_tags) {
        Ok(target) => target,
        Err(e) => {
            return Err(e);
        },
    };
    let new_content: &str = trim(req.new_content.as_str());
    if new_content.is_empty() {
        return Err(ApiError::bad_request("newContent is empty"));
    }
    if filled_text(&req.id).is_none() {
        return Err(ApiError::bad_request("id is required"));
    }
    let id: u128 = match accept_id(readings.id) {
        Ok(id) => id,
        Err(e) => {
            return Err(e);
        },
    };
    let forget_after: Option<Timestamp> = match accept_time(readings.forget_after, "forgetAfter") {
        Ok(time) => time,
        Err(e) => {
            return Err(e);
        },
    };
    let document_date: Option<Timestamp> = match accept_time(
        readings.document_date,
        "temporalContext.documentDate",
    ) {
        Ok(time) => time,
        Err(e) => {
            return Err(e);
        },
    };
    let event_date: Option<Timestamp> = match accept_time(
        readings.event_date,
        "temporalContext.eventDate",
    ) {
        Ok(time) => time,
        Err(e) => {
            return Err(e);
        },
    };
    let new_content: String = new_content.to_owned();
    Ok(
        UpdatePlan {
            actor_id: target.scope.actor_id,
            id,
            new_content,
            forget_after,
            forget_reason: req.forget_reason,
            metadata: normalize_metadata(req.metadata),
            document_date,
            event_date,
        },
    )
}
/// Decides how an edit is stored.
pub fn plan_update(req: UpdateMemoryRequest) -> (r: Result<UpdatePlan, ApiError>)
    ensures
        ({
            let readings = readings_in(req);
            match r {
                Ok(plan) => update_fault_with(req, readings) is None && plans_update_with(
                    plan,
                    req,
                    readings,
                ),
                Err(e) => update_fault_with(req, readings) == Some(e@),
            }
        }),
{
    let readings: UpdateReadings = read_update(&req);
    decide_update(req, readings)
}

/// The answer to an edit: the version that was stored, or that there is no such memory.
pub fn memory_updated(new_content: String, updated: Option<UpdatedMemory>) -> (r: Result<
    UpdateMemoryResponse,
    ApiError,
>)
    ensures
        match r {
            Ok(response) => {
                &&& updated matches Some(v)
                &&& response.id@ == id_text(v.id)
                &&& id_value(response.id@) == Some(v.id)
                &&& response.created_at@ == rfc3339(v.created_at@.0, v.created_at@.1)
                &&& text_of(response.forget_after) == rfc3339_of(time_of(v.forget_after))
                &&& text_of(response.forget_reason) == text_of(v.forget_reason)
                &&& response.memory@ == new_content@
                &&& text_of(response.parent_memory_id) == Some(id_text(v.parent_memory_id))
                &&& id_value(response.parent_memory_id->0@) == Some(v.parent_memory_id)
                &&& text_of(response.root_memory_id) == Some(id_text(v.root_memory_id))
                &&& id_value(response.root_memory_id->0@) == Some(v.root_memory_id)
                &&& response.version == v.version
            },
            Err(e) => updated is None && e@ == ApiErrorView::NotFound,
        },
{
    match updated {
        None => Err(ApiError::NotFound),
        Some(v) => Ok(
            UpdateMemoryResponse {
                id: print_id(v.id),
                created_at: v.created_at.to_rfc3339(),
                forget_after: to_rfc3339_opt(&v.forget_after),
                forget_reason: v.forget_reason,
                memory: new_content,
                parent_memory_id: Some(print_id(v.parent_memory_id)),
                root_memory_id: Some(print_id(v.root_memory_id)),
                version: v.version,
            },
        ),
    }
}

// ---------------------------------------------------------------------------------------------
// Conversations
// ---------------------------------------------------------------------------------------------

/// One message of a conversation.
#[derive(Debug)]
pub struct Message {
    pub role: String,
    pub content: String,
}

/// A conversation to take in as a whole.
#[derive(Debug)]
pub struct ConversationRequest {
    pub conversation_id: String,
    pub messages: Vec<Message>,
    pub container_tag: Option<String>,
    pub container_tags: Option<Vec<String>>,
    pub metadata: Option<Json>,
}

/// What became of a conversation.
#[derive(Debug)]
pub struct ConversationResponse {
    pub conversation_id: String,
    pub id: String,
    pub status: String,
}

/// A message as a line of the transcript.
pub open spec fn transcript_line(message: Message) -> Seq<char> {
    message.role@ + ": "@ + message.content@
}

/// The messages as lines.
pub open spec fn transcript_lines(messages: Seq<Message>) -> Seq<Seq<char>> {
    Seq::new(messages.len(), |i: int| transcript_line(messages[i]))
}

/// The conversation as one text, a line for each message.
pub open spec fn transcript(messages: Seq<Message>) -> Seq<char> {
    join(transcript_lines(messages), "\n"@)
}

/// Why a conversation is refused, if it is.
pub open spec fn conversation_fault(req: ConversationRequest) -> Option<ApiErrorView> {
    if target_fault(text_of(req.container_tag), texts_of(req.container_tags)) is Some {
        target_fault(text_of(req.container_tag), texts_of(req.container_tags))
    } else if is_blank(transcript(req.messages@)) {
        Some(ApiErrorView::BadRequest("messages have no content"@))
    } else {
        None
    }
}

/// The conversation as one text, a line for each message.
pub fn conversation_text(messages: &Vec<Message>) -> (r: String)
    ensures
        r@ == transcript(messages@),
{
    let mut lines: Vec<String> = Vec::new();
    let mut i: usize = 0;
    while i < messages.len()
        invariant
            i <= messages@.len(),
            texts(lines@) =~= transcript_lines(messages@).take(i as int),
        decreases messages@.len() - i,
    {
        let ghost before = texts(lines@);
        let mut line: String = messages[i].role.clone();
        line.append(": ");
        line.append(messages[i].content.as_str());
        let ghost held = line@;
        lines.push(line);
        i += 1;
        assert(texts(lines@) =~= before.push(held));
    }
    assert(texts(lines@) =~= transcript_lines(messages@));
    join_texts(&lines, "\n")
}

/// Decides how a conversation is taken in: as one text, with the conversation's identifier as
/// the one under which it is taken in only once.
pub fn plan_conversation(req: ConversationRequest) -> (r: Result<AddCall, ApiError>)
    ensures
        match r {
            Ok(call) => conversation_fault(req) is None && adds(
                call,
                resolved_scope(text_of(req.container_tag), texts_of(req.container_tags)),
                transcript(req.messages@),
                conversation_kind(),
                Some(req.conversation_id@),
                stored_metadata(metadata_of(req.metadata)),
            ),
            Err(e) => conversation_fault(req) == Some(e@),
        },
        r matches Ok(call) ==> {
            &&& call.content@ == transcript(req.messages@)
            &&& call.kind@ == "conversation"@
            &&& call.custom_id is Some && call.custom_id->0@ == req.conversation_id@
            &&& call.actor_id@ == parsed_scope(
                resolved_tag(text_of(req.container_tag), texts_of(req.container_tags))->Ok_0,
            ).actor_id
            &&& texts(call.container_tags@) == parsed_scope(
                resolved_tag(text_of(req.container_tag), texts_of(req.container_tags))->Ok_0,
            ).container_tags
            &&& req.metadata is Some && !(req.metadata->0@ is Null) ==> call.metadata@
                == req.metadata->0@
            &&& req.metadata is None || req.metadata->0@ is Null ==> call.metadata@ == no_fields()
        },
{
    let target: Target = match resolve_target(req.container_tag, req.container_tags) {
        Ok(target) => target,
        Err(e) => {
            return Err(e);
        },
    };
    let text: String = conversation_text(&req.messages);
    if blank(text.as_str()) {
        return Err(ApiError::bad_request("messages have no content"));
    }
    let metadata: Json = normalize_metadata(req.metadata);
    Ok(add_call(target.scope, text, "conversation", Some(req.conversation_id), metadata))
}

/// The answer once a conversation was taken in; `skipped` says that it had been before.
pub fn conversation_ingested(conversation_id: String, source_id: u128, skipped: bool) -> (r:
    ConversationResponse)
    ensures
        r.conversation_id@ == conversation_id@,
        r.id@ == id_text(source_id),
        id_value(r.id@) == Some(source_id),
        r.status@ == crate::documents::ingest_status(skipped),
        skipped ==> r.status@ == "skipped"@,
        !skipped ==> r.status@ == "ingested"@,
{
    let status: &str = if skipped {
        "skipped"
    } else {
        "ingested"
    };
    ConversationResponse { conversation_id, id: print_id(source_id), status: status.to_owned() }
}

/// A conversation with a message in it always has something to take in: each message puts at
/// least a colon into the transcript.
pub proof fn any_message_is_content(messages: Seq<Message>)
    requires
        messages.len() > 0,
    ensures
        !is_blank(transcript(messages)),
{
    let lines = transcript_lines(messages);
    let role = messages[0].role@.len() as int;
    let whole = transcript(messages);
    reveal_strlit(": ");
    assert(lines[0][role] == ':');
    join_holds_its_parts(lines, "\n"@, 0, role);
    let k = choose|k: int| 0 <= k < whole.len() && whole[k] == ':';
    assert(!is_white_space(whole[k]));
    blank_is_all_white(whole);
}

// ---------------------------------------------------------------------------------------------
// Laws
// ---------------------------------------------------------------------------------------------

/// A text is remembered in the container that the request names, as it was sent and under the
/// identifier that it was sent with. It is queued exactly where the request says `dynamic`, in
/// whatever case.
pub proof fn texts_are_remembered_as_sent(plan: AddMemoryPlan, req: AddMemoryRequest)
    requires
        add_fault(req) is None,
        plans_add(plan, req),
    ensures
        resolved_tag(text_of(req.container_tag), texts_of(req.container_tags)) == Ok::<
            Seq<char>,
            ApiErrorView,
        >(plan.container_tag@),
        match plan.action {
            AddAction::Enqueue(call) => {
                let scope = ScopeView {
                    actor_id: call.actor_id@,
                    container_tags: texts(call.container_tags@),
                };
                &&& reconstructed_tag(scope) == plan.container_tag@
                &&& scope == parsed_scope(plan.container_tag@)
                &&& call.content@ == req.content@
                &&& call.kind@ == "conversation"@
                &&& text_of(call.custom_id) == text_of(req.custom_id)
            },
            AddAction::Add(call) => {
                let scope = ScopeView {
                    actor_id: call.actor_id@,
                    container_tags: texts(call.container_tags@),
                };
                &&& reconstructed_tag(scope) == plan.container_tag@
                &&& scope == parsed_scope(plan.container_tag@)
                &&& call.content@ == req.content@
                &&& call.kind@ == "conversation"@
                &&& text_of(call.custom_id) == text_of(req.custom_id)
                &&& req.metadata is Some && !(req.metadata->0@ is Null) ==> call.metadata@
                    == req.metadata->0@
                &&& req.metadata is None || req.metadata->0@ is Null ==> call.metadata@
                    == no_fields()
            },
        },
        req.dreaming is None ==> plan.action is Add,
        req.dreaming matches Some(mode) ==> (plan.action is Enqueue <==> mode@.len() == 7 && forall|
            i: int,
        |
            0 <= i < 7 ==> {
                ||| #[trigger] mode@[i] == "dynamic"@[i]
                ||| 65 <= mode@[i] as int <= 90 && "dynamic"@[i] as int == mode@[i] as int + 32
            }),
{
    let tag = text_of(req.container_tag);
    let tags = texts_of(req.container_tags);
    scope_gives_the_tag_back(tag, tags);
    if let Some(mode) = req.dreaming {
        let word = "dynamic"@;
        reveal_strlit("dynamic");
        case_is_all_that_differs(mode@, word);
        assert(word.len() == 7);
        assert(word[0] == 'd' && word[1] == 'y' && word[2] == 'n' && word[3] == 'a' && word[4]
            == 'm' && word[5] == 'i' && word[6] == 'c');
        assert forall|i: int| 0 <= i < 7 implies 97 <= #[trigger] word[i] as int by {}
    }
}

/// A text is refused exactly where it is blank or its container is not named properly.
pub proof fn blank_texts_are_not_remembered(req: AddMemoryRequest)
    ensures
        add_fault(req) is None <==> !is_blank(req.content@) && resolved_tag(
            text_of(req.container_tag),
            texts_of(req.container_tags),
        ) is Ok,
        add_fault(req) matches Some(e) ==> e is BadRequest,
        is_blank(req.content@) ==> add_fault(req) == Some(
            ApiErrorView::BadRequest("content is empty"@),
        ),
{
    the_tag_used_is_the_tag_sent(text_of(req.container_tag), texts_of(req.container_tags));
}

/// White space around what a field holds does not count, and a field of white space alone holds
/// nothing.
pub proof fn fields_are_read_without_white_space(
    before: Seq<char>,
    text: Seq<char>,
    behind: Seq<char>,
)
    requires
        forall|i: int| 0 <= i < before.len() ==> is_white_space(#[trigger] before[i]),
        forall|i: int| 0 <= i < behind.len() ==> is_white_space(#[trigger] behind[i]),
    ensures
        text.len() > 0 && !is_white_space(text[0]) && !is_white_space(text.last()) ==> filled(
            Some(before + text + behind),
        ) == Some(text),
        filled(Some(before)) is None,
        filled(None) is None,
{
    if text.len() > 0 && !is_white_space(text[0]) && !is_white_space(text.last()) {
        white_space_around_is_ignored(before, text, behind);
    }
    blank_is_all_white(before);
}

/// A request to forget is about the actor of the container it names. An identifier in it counts
/// before a text; it is refused where neither is there, where the identifier is none, and where
/// the container is not named properly.
pub proof fn forgetting_goes_by_identifier_first(
    plan: ForgetPlan,
    req: ForgetRequest,
    read: Option<u128>,
)
    ensures
        ({
            let tag = resolved_tag(text_of(req.container_tag), texts_of(req.container_tags));
            let named = req.id is Some && !is_blank(req.id->0@);
            let described = req.content is Some && !is_blank(req.content->0@);
            &&& forget_fault_with(req, read) is None <==> tag is Ok && (if named {
                read is Some
            } else {
                described
            })
            &&& forget_fault_with(req, read) matches Some(e) ==> e is BadRequest
            &&& plans_forget_with(plan, req, read) && tag is Ok ==> match plan {
                ForgetPlan::ById { actor_id, id, id_text, reason } => {
                    &&& named
                    &&& read == Some(id)
                    &&& actor_id@ == parsed_scope(tag->Ok_0).actor_id
                    &&& id_text@ == trimmed(req.id->0@)
                    &&& text_of(reason) == text_of(req.reason)
                },
                ForgetPlan::ByContent { actor_id, content } => {
                    &&& !named
                    &&& described
                    &&& actor_id@ == parsed_scope(tag->Ok_0).actor_id
                    &&& content@ == trimmed(req.content->0@)
                },
            }
        }),
{
    the_tag_used_is_the_tag_sent(text_of(req.container_tag), texts_of(req.container_tags));
}

/// An edit is stored for the actor of the container that the request names, under the identifier
/// and with the dates that its texts read as, and with its new text without the white space around
/// it. It is refused exactly where the container is not named properly, where the new text is
/// blank, and where the identifier or one of the dates is none; a date that is absent is not
/// missed.
pub proof fn edits_are_stored_as_sent(
    plan: UpdatePlan,
    req: UpdateMemoryRequest,
    readings: UpdateReadingsView,
)
    ensures
        ({
            let tag = resolved_tag(text_of(req.container_tag), texts_of(req.container_tags));
            &&& update_fault_with(req, readings) is None <==> {
                &&& tag is Ok
                &&& !is_blank(req.new_content@)
                &&& req.id is Some && !is_blank(req.id->0@)
                &&& readings.id is Some
                &&& readings.forget_after is Some
                &&& readings.document_date is Some
                &&& readings.event_date is Some
            }
            &&& update_fault_with(req, readings) matches Some(e) ==> e is BadRequest
            &&& plans_update_with(plan, req, readings) && tag is Ok ==> {
                &&& plan.actor_id@ == parsed_scope(tag->Ok_0).actor_id
                &&& readings.id == Some(plan.id)
                &&& plan.new_content@ == trimmed(req.new_content@)
                &&& readings.forget_after is Some && readings.forget_after->0 == time_of(
                    plan.forget_after,
                )
                &&& readings.document_date is Some && readings.document_date->0 == time_of(
                    plan.document_date,
                )
                &&& readings.event_date is Some && readings.event_date->0 == time_of(
                    plan.event_date,
                )
                &&& text_of(plan.forget_reason) == text_of(req.forget_reason)
                &&& req.metadata is Some && !(req.metadata->0@ is Null) ==> plan.metadata@
                    == req.metadata->0@
                &&& req.metadata is None || req.metadata->0@ is Null ==> plan.metadata@
                    == no_fields()
            }
        }),
{
    the_tag_used_is_the_tag_sent(text_of(req.container_tag), texts_of(req.container_tags));
}

/// Each text in an edit is read by itself: the identifier from `id`, and the three dates from the
/// fields they stand in, the event's from the first of its dates.
pub proof fn each_text_of_an_edit_is_read_by_itself(req: UpdateMemoryRequest)
    ensures
        ({
            let read = readings_in(req);
            let context = req.temporal_context;
            &&& req.id is Some && !is_blank(req.id->0@) ==> read.id == id_value(
                trimmed(req.id->0@),
            )
            &&& req.forget_after is None ==> read.forget_after == Some(None::<(i64, u32)>)
            &&& req.forget_after matches Some(text) ==> (read.forget_after is Some
                <==> rfc3339_value(text@) is Some) && (read.forget_after is Some
                ==> read.forget_after->0 == rfc3339_value(text@))
            &&& context is None || context->0.document_date is None ==> read.document_date == Some(
                None::<(i64, u32)>,
            )
            &&& context is Some && context->0.document_date is Some ==> {
                let text = context->0.document_date->0@;
                &&& read.document_date is Some <==> rfc3339_value(text) is Some
                &&& read.document_date is Some ==> read.document_date->0 == rfc3339_value(text)
            }
            &&& context is None || context->0.event_date is None
                || context->0.event_date->0@.len() == 0 ==> read.event_date == Some(
                None::<(i64, u32)>,
            )
            &&& context is Some && context->0.event_date is Some
                && context->0.event_date->0@.len() > 0 ==> {
                let text = context->0.event_date->0@[0]@;
                &&& read.event_date is Some <==> rfc3339_value(text) is Some
                &&& read.event_date is Some ==> read.event_date->0 == rfc3339_value(text)
            }
        }),
{
}

/// The transcript of one message is its role, a colon and its text; that of a longer conversation
/// is the transcript of its first messages, a line break, and the transcript of the others.
pub proof fn each_message_is_a_line(a: Seq<Message>, b: Seq<Message>, message: Message)
    ensures
        transcript(seq![message]) == message.role@ + ": "@ + message.content@,
        a.len() > 0 && b.len() > 0 ==> transcript(a + b) == transcript(a) + seq!['\n'] + transcript(
            b,
        ),
        transcript(Seq::<Message>::empty()).len() == 0,
{
    reveal_strlit("\n");
    assert("\n"@ =~= seq!['\n']);
    reveal_with_fuel(join, 2);
    let one = transcript_lines(seq![message]);
    assert(one.len() == 1);
    assert(one[0] == message.role@ + ": "@ + message.content@);
    assert(join(one, "\n"@) =~= one[0]);
    if a.len() > 0 && b.len() > 0 {
        join_of_two_lists(transcript_lines(a), transcript_lines(b), "\n"@);
        assert(transcript_lines(a + b) =~= transcript_lines(a) + transcript_lines(b));
    }
}

/// A conversation is refused exactly where it has no message or its container is not named
/// properly.
pub proof fn conversations_without_messages_are_refused(req: ConversationRequest)
    ensures
        conversation_fault(req) is None <==> req.messages@.len() > 0 && resolved_tag(
            text_of(req.container_tag),
            texts_of(req.container_tags),
        ) is Ok,
        conversation_fault(req) matches Some(e) ==> e is BadRequest,
        resolved_tag(text_of(req.container_tag), texts_of(req.container_tags)) matches Err(e)
            ==> conversation_fault(req) == Some(e),
        req.messages@.len() == 0 && resolved_tag(
            text_of(req.container_tag),
            texts_of(req.container_tags),
        ) is Ok ==> conversation_fault(req) == Some(
            ApiErrorView::BadRequest("messages have no content"@),
        ),
{
    the_tag_used_is_the_tag_sent(text_of(req.container_tag), texts_of(req.container_tags));
    if req.messages@.len() > 0 {
        any_message_is_content(req.messages@);
    } else {
        reveal_strlit("\n");
        assert(transcript_lines(req.messages@) =~= Seq::empty());
        assert(transcript(req.messages@).len() == 0);
        blank_is_all_white(transcript(req.messages@));
    }
}

/// An edit that is refused is told the first thing that is wrong with it: its container, its text,
/// its identifier, or one of its dates, by the name of the date's field.
pub proof fn refused_edits_are_told_why(req: UpdateMemoryRequest, readings: UpdateReadingsView)
    ensures
        ({
            let tag = resolved_tag(text_of(req.container_tag), texts_of(req.container_tags));
            let fault = update_fault_with(req, readings);
            let written = tag is Ok && !is_blank(req.new_content@);
            let named = written && req.id is Some && !is_blank(req.id->0@);
            let known = named && readings.id is Some;
            &&& tag is Err ==> fault == Some(tag->Err_0)
            &&& tag is Ok && is_blank(req.new_content@) ==> fault == Some(
                ApiErrorView::BadRequest("newContent is empty"@),
            )
            &&& written && (req.id is None || is_blank(req.id->0@)) ==> fault == Some(
                ApiErrorView::BadRequest("id is required"@),
            )
            &&& named && readings.id is None ==> fault == Some(
                ApiErrorView::BadRequest("id is not a valid memory id"@),
            )
            &&& known && readings.forget_after is None ==> fault == Some(
                ApiErrorView::BadRequest("forgetAfter is not a valid RFC3339 timestamp"@),
            )
            &&& known && readings.forget_after is Some && readings.document_date is None ==> fault
                == Some(
                ApiErrorView::BadRequest(
                    "temporalContext.documentDate is not a valid RFC3339 timestamp"@,
                ),
            )
            &&& known && readings.forget_after is Some && readings.document_date is Some
                && readings.event_date is None ==> fault == Some(
                ApiErrorView::BadRequest(
                    "temporalContext.eventDate is not a valid RFC3339 timestamp"@,
                ),
            )
        }),
{
    reveal_strlit(" is not a valid RFC3339 timestamp");
    reveal_strlit("forgetAfter");
    reveal_strlit("forgetAfter is not a valid RFC3339 timestamp");
    reveal_strlit("temporalContext.documentDate");
    reveal_strlit("temporalContext.documentDate is not a valid RFC3339 timestamp");
    reveal_strlit("temporalContext.eventDate");
    reveal_strlit("temporalContext.eventDate is not a valid RFC3339 timestamp");
    let rest = " is not a valid RFC3339 timestamp"@;
    assert("forgetAfter"@ + rest =~= "forgetAfter is not a valid RFC3339 timestamp"@);
    assert("temporalContext.documentDate"@ + rest
        =~= "temporalContext.documentDate is not a valid RFC3339 timestamp"@);
    assert("temporalContext.eventDate"@ + rest
        =~= "temporalContext.eventDate is not a valid RFC3339 timestamp"@);
}

/// A request to forget that is refused is told the first thing that is wrong with it: its
/// container, its identifier, or that it has neither an identifier nor a text.
pub proof fn refused_forgets_are_told_why(req: ForgetRequest, read: Option<u128>)
    ensures
        ({
            let tag = resolved_tag(text_of(req.container_tag), texts_of(req.container_tags));
            let fault = forget_fault_with(req, read);
            let named = req.id is Some && !is_blank(req.id->0@);
            let described = req.content is Some && !is_blank(req.content->0@);
            &&& tag is Err ==> fault == Some(tag->Err_0)
            &&& tag is Ok && named && read is None ==> fault == Some(
                ApiErrorView::BadRequest("id is not a valid memory id"@),
            )
            &&& tag is Ok && !named && !described ==> fault == Some(
                ApiErrorView::BadRequest("forget requires id or content"@),
            )
        }),
{
}

} // verus!
