//! The memory tool: `/v4/memory`, which saves a text or forgets what a text describes.

use vstd::prelude::*;
use crate::calls::{add_call, adds, metadata_of, normalize_metadata, stored_metadata, AddCall};
use crate::container_tag::{parsed_scope, reconstructed_tag, ScopeView};
use crate::error::{ApiError, ApiErrorView};
use crate::ident::{id_text, id_texts, id_value, print_id, print_ids};
use crate::json::{no_fields, Json};
use crate::memories::conversation_kind;
use crate::request::{
    resolve_target, resolved_scope, resolved_tag, scope_gives_the_tag_back, target_fault,
    the_tag_used_is_the_tag_sent, Target,
};
use crate::text::{blank, is_blank, quote, quoted, same_text, text_of, texts, texts_of};

verus! {

/// A text to save, or one that describes what to forget.
#[derive(Debug)]
pub struct MemoryToolRequest {
    pub action: String,
    pub content: String,
    pub container_tag: Option<String>,
    pub container_tags: Option<Vec<String>>,
    pub custom_id: Option<String>,
    pub metadata: Option<Json>,
}

/// What became of a text.
#[derive(Debug)]
pub struct MemoryToolResponse {
    pub action: String,
    pub status: String,
    /// The identifier of the source, after a save.
    pub id: Option<String>,
    /// The identifiers of the memories that were forgotten.
    pub forgotten: Option<Vec<String>>,
}

/// What the engine is asked to do with a text.
#[derive(Debug)]
pub enum ToolPlan {
    Save(AddCall),
    Forget { actor_id: String, content: String },
}

/// The action of a request that names none.
pub fn default_action() -> (r: String)
    ensures
        r@ == "save"@,
{
    "save".to_owned()
}

/// The refusal of an action that there is not, given as it is shown.
pub open spec fn unknown_action_error(shown: Seq<char>) -> ApiErrorView {
    ApiErrorView::BadRequest("unknown action "@ + shown + " (use save or forget)"@)
}

/// Why a request is refused, if it is.
pub open spec fn tool_fault(req: MemoryToolRequest) -> Option<ApiErrorView> {
    if is_blank(req.content@) {
        Some(ApiErrorView::BadRequest("content is empty"@))
    } else if target_fault(text_of(req.container_tag), texts_of(req.container_tags)) is Some {
        target_fault(text_of(req.container_tag), texts_of(req.container_tags))
    } else if req.action@ == "save"@ {
        None
    } else if req.action@ == "forget"@ {
        if req.custom_id is Some {
            Some(ApiErrorView::BadRequest("customId is not used by forget"@))
        } else {
            None
        }
    } else {
        Some(unknown_action_error(quoted(req.action@)))
    }
}

/// The plan does what was asked.
pub open spec fn plans_tool(plan: ToolPlan, req: MemoryToolRequest) -> bool {
    let scope = resolved_scope(text_of(req.container_tag), texts_of(req.container_tags));
    match plan {
        ToolPlan::Save(call) => req.action@ == "save"@ && adds(
            call,
            scope,
            req.content@,
            conversation_kind(),
            text_of(req.custom_id),
            stored_metadata(metadata_of(req.metadata)),
        ),
        ToolPlan::Forget { actor_id, content } => req.action@ == "forget"@ && actor_id@
            == scope.actor_id && content@ == req.content@,
    }
}

/// The refusal of an action that there is not, given as it is shown.
pub fn unknown_action(shown: &str) -> (r: ApiError)
    ensures
        r@ == unknown_action_error(shown@),
{
    let mut message: String = "unknown action ".to_owned();
    message.append(shown);
    message.append(" (use save or forget)");
    ApiError::BadRequest(message)
}

/// Decides what is done with a text.
pub fn plan_tool(req: MemoryToolRequest) -> (r: Result<ToolPlan, ApiError>)
    ensures
        match r {
            Ok(plan) => tool_fault(req) is None && plans_tool(plan, req),
            Err(e) => tool_fault(req) == Some(e@),
        },
{
    if blank(req.content.as_str()) {
        return Err(ApiError::bad_request("content is empty"));
    }
    let target: Target = match resolve_target(req.container_tag, req.container_tags) {
        Ok(target) => target,
        Err(e) => {
            return Err(e);
        },
    };
    proof {
        reveal_strlit("save");
        reveal_strlit("forget");
        assert("save"@.len() == 4);
        assert("forget"@.len() == 6);
    }
    if same_text(req.action.as_str(), "save") {
        let metadata: Json = normalize_metadata(req.metadata);
        Ok(
            ToolPlan::Save(
                add_call(target.scope, req.content, "conversation", req.custom_id, metadata),
            ),
        )
    } else if same_text(req.action.as_str(), "forget") {
        if req.custom_id.is_some() {
            return Err(ApiError::bad_request("customId is not used by forget"));
        }
        Ok(ToolPlan::Forget { actor_id: target.scope.actor_id, content: req.content })
    } else {
        Err(unknown_action(quote(req.action.as_str()).as_str()))
    }
}

/// The answer to a save; `skipped` says that the text had been taken in before.
pub fn tool_saved(source_id: u128, skipped: bool) -> (r: MemoryToolResponse)
    ensures
        r.action@ == "save"@,
        r.status@ == if skipped {
            "skipped"@
        } else {
            "saved"@
        },
        text_of(r.id) == Some(id_text(source_id)),
        r.id is Some && id_value(r.id->0@) == Some(source_id),
        r.forgotten is None,
{
    let status: &str = if skipped {
        "skipped"
    } else {
        "saved"
    };
    MemoryToolResponse {
        action: "save".to_owned(),
        status: status.to_owned(),
        id: Some(print_id(source_id)),
        forgotten: None,
    }
}

/// The answer once memories were forgotten.
pub fn tool_forgot(ids: &Vec<u128>) -> (r: MemoryToolResponse)
    ensures
        r.action@ == "forget"@,
        r.status@ == "forgotten"@,
        r.id is None,
        texts_of(r.forgotten) == Some(id_texts(ids@)),
        r.forgotten is Some && r.forgotten->0@.len() == ids@.len() && forall|i: int|
            0 <= i < ids@.len() ==> id_value(#[trigger] r.forgotten->0@[i]@) == Some(ids@[i]),
{
    MemoryToolResponse {
        action: "forget".to_owned(),
        status: "forgotten".to_owned(),
        id: None,
        forgotten: Some(print_ids(ids)),
    }
}

/// A text is saved in the container that the request names, as it was sent, and forgotten of the
/// actor of that container.
pub proof fn tools_do_as_they_are_told(plan: ToolPlan, req: MemoryToolRequest)
    requires
        tool_fault(req) is None,
        plans_tool(plan, req),
    ensures
        ({
            let tag = resolved_tag(text_of(req.container_tag), texts_of(req.container_tags));
            &&& tag is Ok
            &&& plan is Save <==> req.action@ == "save"@
            &&& plan is Forget <==> req.action@ == "forget"@
            &&& match plan {
                ToolPlan::Save(call) => {
                    let scope = ScopeView {
                        actor_id: call.actor_id@,
                        container_tags: texts(call.container_tags@),
                    };
                    &&& reconstructed_tag(scope) == tag->Ok_0
                    &&& scope == parsed_scope(tag->Ok_0)
                    &&& call.content@ == req.content@
                    &&& call.kind@ == "conversation"@
                    &&& text_of(call.custom_id) == text_of(req.custom_id)
                    &&& req.metadata is Some && !(req.metadata->0@ is Null) ==> call.metadata@
                        == req.metadata->0@
                    &&& req.metadata is None || req.metadata->0@ is Null ==> call.metadata@
                        == no_fields()
                },
                ToolPlan::Forget { actor_id, content } => {
                    &&& actor_id@ == parsed_scope(tag->Ok_0).actor_id
                    &&& content@ == req.content@
                    &&& req.custom_id is None
                },
            }
        }),
{
    let tag = text_of(req.container_tag);
    let tags = texts_of(req.container_tags);
    scope_gives_the_tag_back(tag, tags);
    reveal_strlit("save");
    reveal_strlit("forget");
    assert("save"@.len() == 4);
    assert("forget"@.len() == 6);
}

/// A request is refused exactly where its text is blank, its container is not named properly, its
/// action is neither to save nor to forget, or it is to forget under an identifier of its own.
pub proof fn tools_are_refused_in_four_cases(req: MemoryToolRequest)
    ensures
        tool_fault(req) is None <==> {
            &&& !is_blank(req.content@)
            &&& resolved_tag(text_of(req.container_tag), texts_of(req.container_tags)) is Ok
            &&& req.action@ == "save"@ || req.action@ == "forget"@ && req.custom_id is None
        },
        tool_fault(req) matches Some(e) ==> e is BadRequest,
        is_blank(req.content@) ==> tool_fault(req) == Some(
            ApiErrorView::BadRequest("content is empty"@),
        ),
        !is_blank(req.content@) ==> (resolved_tag(
            text_of(req.container_tag),
            texts_of(req.container_tags),
        ) matches Err(e) ==> tool_fault(req) == Some(e)),
        !is_blank(req.content@) && resolved_tag(
            text_of(req.container_tag),
            texts_of(req.container_tags),
        ) is Ok ==> {
            &&& req.action@ == "forget"@ && req.custom_id is Some ==> tool_fault(req) == Some(
                ApiErrorView::BadRequest("customId is not used by forget"@),
            )
            &&& req.action@ != "save"@ && req.action@ != "forget"@ ==> tool_fault(req) == Some(
                ApiErrorView::BadRequest(
                    "unknown action "@ + quoted(req.action@) + " (use save or forget)"@,
                ),
            )
        },
{
    the_tag_used_is_the_tag_sent(text_of(req.container_tag), texts_of(req.container_tags));
    reveal_strlit("save");
    reveal_strlit("forget");
    assert("save"@.len() == 4);
    assert("forget"@.len() == 6);
}

} // verus!
