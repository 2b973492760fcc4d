//! What the engine is asked to store.

use vstd::prelude::*;
use crate::container_tag::{Scope, ScopeView};
use crate::json::{no_fields, Json, JsonView};
use crate::text::{text_of, texts};

verus! {

/// A call of the engine that stores a text and the memories extracted from it.
#[derive(Debug)]
pub struct AddCall {
    pub actor_id: String,
    pub container_tags: Vec<String>,
    pub content: String,
    pub kind: String,
    pub custom_id: Option<String>,
    pub metadata: Json,
}

/// The call stores just this, within the scope.
pub open spec fn adds(
    call: AddCall,
    scope: ScopeView,
    content: Seq<char>,
    kind: Seq<char>,
    custom_id: Option<Seq<char>>,
    metadata: JsonView,
) -> bool {
    &&& call.actor_id@ == scope.actor_id
    &&& texts(call.container_tags@) == scope.container_tags
    &&& call.content@ == content
    &&& call.kind@ == kind
    &&& text_of(call.custom_id) == custom_id
    &&& call.metadata@ == metadata
}

/// The call that stores a text within a scope.
pub fn add_call(
    scope: Scope,
    content: String,
    kind: &str,
    custom_id: Option<String>,
    metadata: Json,
) -> (r: AddCall)
    ensures
        adds(r, scope@, content@, kind@, text_of(custom_id), metadata@),
{
    AddCall {
        actor_id: scope.actor_id,
        container_tags: scope.container_tags,
        content,
        kind: kind.to_owned(),
        custom_id,
        metadata,
    }
}

/// The metadata that is stored: the object without fields where none, or null, was given.
pub open spec fn stored_metadata(metadata: Option<JsonView>) -> JsonView {
    match metadata {
        None | Some(JsonView::Null) => no_fields(),
        Some(other) => other,
    }
}

/// What an optional value holds.
pub open spec fn metadata_of(metadata: Option<Json>) -> Option<JsonView> {
    match metadata {
        Some(json) => Some(json@),
        None => None,
    }
}

/// The metadata that is stored.
pub fn normalize_metadata(metadata: Option<Json>) -> (r: Json)
    ensures
        r@ == stored_metadata(metadata_of(metadata)),
{
    match metadata {
        None | Some(Json::Null) => Json::empty_object(),
        Some(other) => other,
    }
}

/// Metadata is never stored as null.
pub proof fn metadata_is_never_null(metadata: Option<JsonView>)
    ensures
        stored_metadata(metadata) != JsonView::Null,
{
}

} // verus!
