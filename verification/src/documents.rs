//! Documents: `/v3/documents`, which takes a text in, and `/v3/search`, which looks for chunks
//! and groups them by the document they come from.

use vstd::prelude::*;
use crate::calls::{add_call, adds, metadata_of, normalize_metadata, stored_metadata, AddCall};
use crate::container_tag::{parsed_scope, reconstructed_tag, ScopeView};
use crate::error::{ApiError, ApiErrorView};
use crate::filter::{filter_of, meta_filter_of, meta_of, FilterNode};
use crate::ident::{id_text, id_value, print_id};
use crate::json::{no_fields, Json, JsonView};
use crate::query::{
    asks_for, filters_are_kept, same_filter, scope_asked, scoped_query, ChunkHit, ScopedQuery,
};
use crate::request::{
    chunk_budget, chunk_budget_for, clamp_limit, clamped_limit, resolve_target, resolved_scope,
    resolved_tag, scope_gives_the_tag_back, target_fault, the_tag_used_is_the_tag_sent, Target,
};
use crate::score::{exceeds, is_at_most, is_below, is_nan, Score, ScoreView};
use crate::text::{blank, copy_opt, is_blank, is_text, text_of, texts, texts_of};
use crate::time::{rfc3339_of, time_of, to_rfc3339_opt};

verus! {

// ---------------------------------------------------------------------------------------------
// Taking a text in
// ---------------------------------------------------------------------------------------------

/// A text to take in.
#[derive(Debug)]
pub struct IngestRequest {
    pub content: String,
    pub container_tag: Option<String>,
    pub container_tags: Option<Vec<String>>,
    pub title: Option<String>,
    pub uri: Option<String>,
    pub custom_id: Option<String>,
    /// `superrag` keeps the text as chunks; anything else extracts memories from it.
    pub task_type: Option<String>,
    pub metadata: Option<Json>,
}

/// What became of a text.
#[derive(Debug)]
pub struct IngestResponse {
    /// The identifier of the document, or of the source of the memories.
    pub id: Option<String>,
    pub status: String,
    /// How many chunks were stored; none where memories were extracted.
    pub chunks: usize,
}

/// A call of the engine that stores a text as the chunks of a document.
#[derive(Debug)]
pub struct DocumentCall {
    pub actor_id: String,
    pub container_tags: Vec<String>,
    pub title: Option<String>,
    pub uri: Option<String>,
    pub content: String,
    pub custom_id: Option<String>,
    pub metadata: Json,
}

/// How a text is taken in.
#[derive(Debug)]
pub enum IngestPlan {
    Document(DocumentCall),
    Memories(AddCall),
}

/// The text is kept as chunks.
pub open spec fn keeps_chunks(req: IngestRequest) -> bool {
    text_of(req.task_type) == Some("superrag"@)
}

/// Why a text is refused, if it is.
pub open spec fn ingest_fault(req: IngestRequest) -> Option<ApiErrorView> {
    if is_blank(req.content@) {
        Some(ApiErrorView::BadRequest("content is empty"@))
    } else if target_fault(text_of(req.container_tag), texts_of(req.container_tags)) is Some {
        target_fault(text_of(req.container_tag), texts_of(req.container_tags))
    } else if !keeps_chunks(req) && (req.title is Some || req.uri is Some) {
        Some(ApiErrorView::BadRequest("title and uri require taskType=superrag"@))
    } else {
        None
    }
}

/// The call stores the text as the chunks of a document.
pub open spec fn stores_document(call: DocumentCall, scope: ScopeView, req: IngestRequest) -> bool {
    &&& call.actor_id@ == scope.actor_id
    &&& texts(call.container_tags@) == scope.container_tags
    &&& text_of(call.title) == text_of(req.title)
    &&& text_of(call.uri) == text_of(req.uri)
    &&& call.content@ == req.content@
    &&& text_of(call.custom_id) == text_of(req.custom_id)
    &&& call.metadata@ == stored_metadata(metadata_of(req.metadata))
}

/// The plan takes the text in.
pub open spec fn plans_ingest(plan: IngestPlan, req: IngestRequest) -> bool {
    let scope = resolved_scope(text_of(req.container_tag), texts_of(req.container_tags));
    match plan {
        IngestPlan::Document(call) => keeps_chunks(req) && stores_document(call, scope, req),
        IngestPlan::Memories(call) => !keeps_chunks(req) && adds(
            call,
            scope,
            req.content@,
            "document"@,
            text_of(req.custom_id),
            stored_metadata(metadata_of(req.metadata)),
        ),
    }
}

/// Decides how a text is taken in.
pub fn plan_ingest(req: IngestRequest) -> (r: Result<IngestPlan, ApiError>)
    ensures
        match r {
            Ok(plan) => ingest_fault(req) is None && plans_ingest(plan, req),
            Err(e) => ingest_fault(req) == Some(e@),
        },
{
    if blank(req.content.as_str()) {
        return Err(ApiError::bad_request("content is empty"));
    }
    let metadata: Json = normalize_metadata(req.metadata);
    let target: Target = match resolve_target(req.container_tag, req.container_tags) {
        Ok(target) => target,
        Err(e) => {
            return Err(e);
        },
    };
    let superrag: bool = is_text(&req.task_type, "superrag");
    if !superrag && (req.title.is_some() || req.uri.is_some()) {
        return Err(ApiError::bad_request("title and uri require taskType=superrag"));
    }
    if superrag {
        Ok(
            IngestPlan::Document(
                DocumentCall {
                    actor_id: target.scope.actor_id,
                    container_tags: target.scope.container_tags,
                    title: req.title,
                    uri: req.uri,
                    content: req.content,
                    custom_id: req.custom_id,
                    metadata,
                },
            ),
        )
    } else {
        Ok(
            IngestPlan::Memories(
                add_call(target.scope, req.content, "document", req.custom_id, metadata),
            ),
        )
    }
}

/// A text sent again with the same tag, task and identifier reaches the engine as the first did:
/// the same kind of call, in the same scope, under the same identifier. By that identifier the
/// engine tells that it was taken in before.
pub proof fn repeated_texts_reach_the_engine_alike(
    first: IngestRequest,
    again: IngestRequest,
    plan: IngestPlan,
    replan: IngestPlan,
)
    requires
        plans_ingest(plan, first),
        plans_ingest(replan, again),
        text_of(first.container_tag) == text_of(again.container_tag),
        texts_of(first.container_tags) == texts_of(again.container_tags),
        text_of(first.task_type) == text_of(again.task_type),
        text_of(first.custom_id) == text_of(again.custom_id),
    ensures
        match (plan, replan) {
            (IngestPlan::Document(a), IngestPlan::Document(b)) => {
                &&& a.actor_id@ == b.actor_id@
                &&& texts(a.container_tags@) == texts(b.container_tags@)
                &&& text_of(a.custom_id) == text_of(b.custom_id)
            },
            (IngestPlan::Memories(a), IngestPlan::Memories(b)) => {
                &&& a.actor_id@ == b.actor_id@
                &&& texts(a.container_tags@) == texts(b.container_tags@)
                &&& a.kind@ == b.kind@
                &&& text_of(a.custom_id) == text_of(b.custom_id)
            },
            _ => false,
        },
{
}

/// What became of a text that was taken in.
pub open spec fn ingest_status(skipped: bool) -> Seq<char> {
    if skipped {
        "skipped"@
    } else {
        "ingested"@
    }
}

fn status_of(skipped: bool) -> (r: String)
    ensures
        r@ == ingest_status(skipped),
{
    if skipped {
        "skipped".to_owned()
    } else {
        "ingested".to_owned()
    }
}

/// The answer once a text was stored as the chunks of a document. `skipped` says that it had
/// been stored before.
pub fn document_ingested(document_id: u128, skipped: bool, chunks: usize) -> (r: IngestResponse)
    ensures
        text_of(r.id) == Some(id_text(document_id)),
        r.id is Some && id_value(r.id->0@) == Some(document_id),
        skipped ==> r.status@ == "skipped"@,
        !skipped ==> r.status@ == "ingested"@,
        r.status@ == ingest_status(skipped),
        r.chunks == chunks,
{
    IngestResponse { id: Some(print_id(document_id)), status: status_of(skipped), chunks }
}

/// The answer once memories were extracted from a text. `skipped` says that the text had been
/// taken in before.
pub fn memories_ingested(source_id: u128, skipped: bool) -> (r: IngestResponse)
    ensures
        text_of(r.id) == Some(id_text(source_id)),
        r.id is Some && id_value(r.id->0@) == Some(source_id),
        skipped ==> r.status@ == "skipped"@,
        !skipped ==> r.status@ == "ingested"@,
        r.status@ == ingest_status(skipped),
        r.chunks == 0,
{
    IngestResponse { id: Some(print_id(source_id)), status: status_of(skipped), chunks: 0 }
}

// ---------------------------------------------------------------------------------------------
// Grouping chunks by document
// ---------------------------------------------------------------------------------------------

/// A chunk that was found, in its document.
#[derive(Debug)]
pub struct DocChunk {
    pub content: String,
    /// Every chunk shown was found, so each is relevant.
    pub is_relevant: bool,
    pub score: Score,
}

/// A document with the chunks of it that were found.
#[derive(Debug)]
pub struct DocumentResult {
    pub document_id: String,
    pub chunks: Vec<DocChunk>,
    /// The best score among the chunks.
    pub score: Score,
    pub title: Option<String>,
    /// Documents have no type.
    pub doc_type: Option<String>,
    pub metadata: Json,
    pub created_at: Option<String>,
    /// A document does not change, so it was updated when it was created.
    pub updated_at: Option<String>,
}

/// What a [`DocChunk`] holds.
pub struct DocChunkView {
    pub content: Seq<char>,
    pub is_relevant: bool,
    pub score: ScoreView,
}

/// What a [`DocumentResult`] holds.
pub struct DocumentResultView {
    pub document_id: Seq<char>,
    pub chunks: Seq<DocChunkView>,
    pub score: ScoreView,
    pub title: Option<Seq<char>>,
    pub doc_type: Option<Seq<char>>,
    pub metadata: JsonView,
    pub created_at: Option<Seq<char>>,
    pub updated_at: Option<Seq<char>>,
}

impl View for DocChunk {
    type V = DocChunkView;

    open spec fn view(&self) -> DocChunkView {
        DocChunkView {
            content: self.content@,
            is_relevant: self.is_relevant,
            score: self.score@,
        }
    }
}

/// What a list of chunks holds.
pub open spec fn chunk_views(chunks: Seq<DocChunk>) -> Seq<DocChunkView> {
    Seq::new(chunks.len(), |i: int| chunks[i]@)
}

impl View for DocumentResult {
    type V = DocumentResultView;

    open spec fn view(&self) -> DocumentResultView {
        DocumentResultView {
            document_id: self.document_id@,
            chunks: chunk_views(self.chunks@),
            score: self.score@,
            title: text_of(self.title),
            doc_type: text_of(self.doc_type),
            metadata: self.metadata@,
            created_at: text_of(self.created_at),
            updated_at: text_of(self.updated_at),
        }
    }
}

/// What a list of documents holds.
pub open spec fn document_views(documents: Seq<DocumentResult>) -> Seq<DocumentResultView> {
    Seq::new(documents.len(), |i: int| documents[i]@)
}

/// The documents that the hits come from, each once, in the order in which they first appear.
pub open spec fn documents_of(hits: Seq<ChunkHit>) -> Seq<u128>
    decreases hits.len(),
{
    if hits.len() == 0 {
        Seq::empty()
    } else {
        let before = documents_of(hits.drop_last());
        if before.contains(hits.last().document_id) {
            before
        } else {
            before.push(hits.last().document_id)
        }
    }
}

/// The first hit in a document.
pub open spec fn first_hit(hits: Seq<ChunkHit>, document_id: u128) -> Option<ChunkHit>
    decreases hits.len(),
{
    if hits.len() == 0 {
        None
    } else {
        match first_hit(hits.drop_last(), document_id) {
            Some(hit) => Some(hit),
            None => if hits.last().document_id == document_id {
                Some(hits.last())
            } else {
                None
            },
        }
    }
}

/// A hit as it is shown in its document.
pub open spec fn chunk_view(hit: ChunkHit) -> DocChunkView {
    DocChunkView { content: hit.content@, is_relevant: true, score: hit.score@ }
}

/// The hits in a document, in order.
pub open spec fn chunks_in(hits: Seq<ChunkHit>, document_id: u128) -> Seq<DocChunkView>
    decreases hits.len(),
{
    if hits.len() == 0 {
        Seq::empty()
    } else {
        let before = chunks_in(hits.drop_last(), document_id);
        if hits.last().document_id == document_id {
            before.push(chunk_view(hits.last()))
        } else {
            before
        }
    }
}

/// The best score among some chunks.
pub open spec fn best_chunk_score(chunks: Seq<DocChunkView>) -> ScoreView
    recommends
        chunks.len() > 0,
    decreases chunks.len(),
{
    if chunks.len() <= 1 {
        chunks[0].score
    } else {
        let before = best_chunk_score(chunks.drop_last());
        let last = chunks.last().score;
        if is_nan(before.bits) || is_below(before.bits, last.bits) {
            last
        } else {
            before
        }
    }
}

/// A document with its hits. What is said of the document is said by its first hit.
pub open spec fn document_result(hits: Seq<ChunkHit>, document_id: u128) -> DocumentResultView {
    let first = first_hit(hits, document_id)->0;
    let created_at = rfc3339_of(time_of(first.document_created_at));
    let chunks = chunks_in(hits, document_id);
    DocumentResultView {
        document_id: id_text(document_id),
        chunks,
        score: best_chunk_score(chunks),
        title: text_of(first.document_title),
        doc_type: None,
        metadata: first.document_metadata@,
        created_at,
        updated_at: created_at,
    }
}

/// The hits grouped by document, in the order in which the documents first appear.
pub open spec fn grouped(hits: Seq<ChunkHit>) -> Seq<DocumentResultView> {
    Seq::new(
        documents_of(hits).len(),
        |i: int| document_result(hits, documents_of(hits)[i]),
    )
}

proof fn document_has_hits(hits: Seq<ChunkHit>, document_id: u128)
    ensures
        documents_of(hits).contains(document_id) <==> first_hit(hits, document_id) is Some,
        documents_of(hits).contains(document_id) <==> chunks_in(hits, document_id).len() > 0,
    decreases hits.len(),
{
    if hits.len() > 0 {
        let before = documents_of(hits.drop_last());
        let last = hits.last().document_id;
        document_has_hits(hits.drop_last(), document_id);
        document_has_hits(hits.drop_last(), last);
        if !before.contains(last) {
            let now = before.push(last);
            assert(now[now.len() - 1] == last);
            if before.contains(document_id) {
                let i = choose|i: int| 0 <= i < before.len() && before[i] == document_id;
                assert(now[i] == document_id);
            }
            if now.contains(document_id) && document_id != last {
                let i = choose|i: int| 0 <= i < now.len() && now[i] == document_id;
                assert(before[i] == document_id);
            }
        }
    }
}

proof fn documents_are_distinct(hits: Seq<ChunkHit>)
    ensures
        documents_of(hits).no_duplicates(),
    decreases hits.len(),
{
    if hits.len() > 0 {
        documents_are_distinct(hits.drop_last());
    }
}

fn place_of(ids: &Vec<u128>, id: u128) -> (r: Option<usize>)
    ensures
        match r {
            Some(i) => i < ids@.len() && ids@[i as int] == id,
            None => !ids@.contains(id),
        },
{
    let mut i: usize = 0;
    while i < ids.len()
        invariant
            i <= ids@.len(),
            forall|j: int| 0 <= j < i ==> ids@[j] != id,
        decreases ids@.len() - i,
    {
        if ids[i] == id {
            return Some(i);
        }
        i += 1;
    }
    None
}

fn show_chunk(hit: &ChunkHit) -> (r: DocChunk)
    ensures
        r@ == chunk_view(*hit),
{
    DocChunk { content: hit.content.clone(), is_relevant: true, score: hit.score.copy() }
}

/// The document of a hit, with that hit alone.
fn open_document(hit: &ChunkHit) -> (r: DocumentResult)
    ensures
        r@ == document_result(seq![*hit], hit.document_id),
{
    let mut chunks: Vec<DocChunk> = Vec::new();
    chunks.push(show_chunk(hit));
    proof {
        let one = seq![*hit];
        reveal_with_fuel(chunks_in, 2);
        reveal_with_fuel(first_hit, 2);
        assert(one.drop_last() =~= Seq::empty());
        assert(chunk_views(chunks@) =~= chunks_in(one, hit.document_id));
    }
    DocumentResult {
        document_id: print_id(hit.document_id),
        chunks,
        score: hit.score.copy(),
        title: copy_opt(&hit.document_title),
        doc_type: None,
        metadata: hit.document_metadata.copy(),
        created_at: to_rfc3339_opt(&hit.document_created_at),
        updated_at: to_rfc3339_opt(&hit.document_created_at),
    }
}

/// The document with one more hit.
fn extend_document(document: DocumentResult, hit: &ChunkHit, Ghost(hits): Ghost<Seq<ChunkHit>>) -> (r:
    DocumentResult)
    requires
        document@ == document_result(hits, hit.document_id),
        documents_of(hits).contains(hit.document_id),
    ensures
        r@ == document_result(hits.push(*hit), hit.document_id),
{
    let mut chunks: Vec<DocChunk> = document.chunks;
    let ghost before = chunks@;
    chunks.push(show_chunk(hit));
    let score: Score = if exceeds(hit.score.bits(), document.score.bits()) {
        hit.score.copy()
    } else {
        document.score
    };
    proof {
        document_has_hits(hits, hit.document_id);
        assert(hits.push(*hit).drop_last() =~= hits);
        assert(chunk_views(chunks@) =~= chunk_views(before).push(chunk_view(*hit)));
        let now = chunks_in(hits.push(*hit), hit.document_id);
        assert(now.drop_last() =~= chunks_in(hits, hit.document_id));
    }
    DocumentResult {
        document_id: document.document_id,
        chunks,
        score,
        title: document.title,
        doc_type: document.doc_type,
        metadata: document.metadata,
        created_at: document.created_at,
        updated_at: document.updated_at,
    }
}

/// The hits grouped by document, in the order in which the documents first appear.
pub fn group_by_document(hits: &Vec<ChunkHit>) -> (r: Vec<DocumentResult>)
    ensures
        document_views(r@) == grouped(hits@),
{
    let mut ids: Vec<u128> = Vec::new();
    let mut documents: Vec<DocumentResult> = Vec::new();
    let mut i: usize = 0;
    assert(document_views(documents@) =~= grouped(hits@.take(0)));
    while i < hits.len()
        invariant
            i <= hits@.len(),
            ids@ == documents_of(hits@.take(i as int)),
            document_views(documents@) == grouped(hits@.take(i as int)),
        decreases hits@.len() - i,
    {
        let ghost seen = hits@.take(i as int);
        let ghost now = hits@.take(i + 1);
        let ghost before = documents@;
        let hit: &ChunkHit = &hits[i];
        proof {
            assert(now =~= seen.push(*hit));
            assert(now.drop_last() =~= seen);
            assert(document_views(before).len() == ids@.len());
            documents_are_distinct(seen);
            document_has_hits(seen, hit.document_id);
            assert forall|k: int| 0 <= k < ids@.len() && ids@[k] != hit.document_id implies
                #[trigger] document_result(now, ids@[k]) == document_result(seen, ids@[k]) by {
                document_has_hits(seen, ids@[k]);
            }
        }
        match place_of(&ids, hit.document_id) {
            Some(k) => {
                assert(document_views(before)[k as int] == before[k as int]@);
                let document: DocumentResult = documents.remove(k);
                let grown: DocumentResult = extend_document(document, hit, Ghost(seen));
                let ghost held = grown@;
                documents.insert(k, grown);
                proof {
                    assert(documents@ =~= before.update(k as int, documents@[k as int]));
                    assert forall|j: int| 0 <= j < documents@.len() implies document_views(
                        documents@,
                    )[j] == grouped(now)[j] by {
                        if j != k {
                            assert(ids@[j] != ids@[k as int]);
                            assert(document_views(before)[j] == grouped(seen)[j]);
                        }
                    }
                    assert(document_views(documents@) =~= grouped(now));
                }
            },
            None => {
                let opened: DocumentResult = open_document(hit);
                let ghost held = opened@;
                let ghost old_ids = ids@;
                ids.push(hit.document_id);
                documents.push(opened);
                proof {
                    lone_hit(seen, *hit);
                    assert forall|j: int| 0 <= j < documents@.len() implies document_views(
                        documents@,
                    )[j] == grouped(now)[j] by {
                        if j < before.len() {
                            assert(old_ids.contains(old_ids[j]));
                            assert(document_views(before)[j] == grouped(seen)[j]);
                        }
                    }
                    assert(document_views(documents@) =~= grouped(now));
                }
            },
        }
        i += 1;
    }
    assert(hits@.take(i as int) =~= hits@);
    documents
}

proof fn lone_hit(seen: Seq<ChunkHit>, hit: ChunkHit)
    requires
        !documents_of(seen).contains(hit.document_id),
    ensures
        document_result(seen.push(hit), hit.document_id) == document_result(
            seq![hit],
            hit.document_id,
        ),
{
    document_has_hits(seen, hit.document_id);
    assert(seen.push(hit).drop_last() =~= seen);
    reveal_with_fuel(chunks_in, 2);
    reveal_with_fuel(first_hit, 2);
    assert(seq![hit].drop_last() =~= Seq::empty());
    assert(chunks_in(seen.push(hit), hit.document_id) =~= chunks_in(seq![hit], hit.document_id));
}

// ---------------------------------------------------------------------------------------------
// Laws of grouping
// ---------------------------------------------------------------------------------------------

/// How many hits there are in some documents.
pub open spec fn hits_in(hits: Seq<ChunkHit>, documents: Seq<u128>) -> nat
    decreases documents.len(),
{
    if documents.len() == 0 {
        0
    } else {
        hits_in(hits, documents.drop_last()) + chunks_in(hits, documents.last()).len()
    }
}

proof fn one_more_hit(hits: Seq<ChunkHit>, hit: ChunkHit, documents: Seq<u128>)
    requires
        documents.no_duplicates(),
    ensures
        hits_in(hits.push(hit), documents) == hits_in(hits, documents) + if documents.contains(
            hit.document_id,
        ) {
            1nat
        } else {
            0nat
        },
    decreases documents.len(),
{
    if documents.len() > 0 {
        let rest = documents.drop_last();
        one_more_hit(hits, hit, rest);
        assert(hits.push(hit).drop_last() =~= hits);
        if rest.contains(hit.document_id) {
            let i = choose|i: int| 0 <= i < rest.len() && rest[i] == hit.document_id;
            assert(documents[i] == hit.document_id);
            assert(documents.last() != hit.document_id);
        }
        if documents.contains(hit.document_id) && documents.last() != hit.document_id {
            let i = choose|i: int| 0 <= i < documents.len() && documents[i] == hit.document_id;
            assert(rest[i] == hit.document_id);
        }
        assert(documents.last() == documents[documents.len() - 1]);
    }
}

/// Every hit is shown, and shown once: no document comes up twice, and the chunks of all the
/// documents together are as many as the hits.
pub proof fn every_hit_is_shown_once(hits: Seq<ChunkHit>)
    ensures
        documents_of(hits).no_duplicates(),
        forall|i: int|
            0 <= i < hits.len() ==> documents_of(hits).contains(
                (#[trigger] hits[i]).document_id,
            ),
        hits_in(hits, documents_of(hits)) == hits.len(),
    decreases hits.len(),
{
    if hits.len() > 0 {
        let seen = hits.drop_last();
        let hit = hits.last();
        let before = documents_of(seen);
        let now = documents_of(hits);
        every_hit_is_shown_once(seen);
        assert(hits =~= seen.push(hit));
        one_more_hit(seen, hit, before);
        document_has_hits(seen, hit.document_id);
        documents_are_distinct(hits);
        if !before.contains(hit.document_id) {
            assert(now.drop_last() =~= before);
            assert(now.last() == hit.document_id);
            assert(chunks_in(seen, hit.document_id).len() == 0);
            assert(chunks_in(hits, hit.document_id).len() == 1);
            assert(now[now.len() - 1] == hit.document_id);
        }
        assert forall|i: int| 0 <= i < hits.len() implies now.contains(
            (#[trigger] hits[i]).document_id,
        ) by {
            if i < seen.len() {
                assert(seen[i] == hits[i]);
                assert(before.contains(seen[i].document_id));
                let k = choose|k: int| 0 <= k < before.len() && before[k] == seen[i].document_id;
                assert(now[k] == seen[i].document_id);
            }
        }
    }
}

/// The hits stand in the order of their scores, the best first.
pub open spec fn best_first(hits: Seq<ChunkHit>) -> bool {
    forall|i: int, j: int|
        0 <= i <= j < hits.len() ==> is_at_most(
            (#[trigger] hits[j]).score@.bits,
            (#[trigger] hits[i]).score@.bits,
        )
}

proof fn chunks_reach(hits: Seq<ChunkHit>, document_id: u128, floor: u64)
    requires
        forall|i: int| 0 <= i < hits.len() ==> is_at_most(floor, (#[trigger] hits[i]).score@.bits),
    ensures
        forall|i: int|
            0 <= i < chunks_in(hits, document_id).len() ==> is_at_most(
                floor,
                (#[trigger] chunks_in(hits, document_id)[i]).score.bits,
            ),
    decreases hits.len(),
{
    if hits.len() > 0 {
        assert forall|i: int| 0 <= i < hits.drop_last().len() implies is_at_most(
            floor,
            (#[trigger] hits.drop_last()[i]).score@.bits,
        ) by {
            assert(hits.drop_last()[i] == hits[i]);
        }
        chunks_reach(hits.drop_last(), document_id, floor);
        assert(hits[hits.len() - 1] == hits.last());
    }
}

proof fn best_reaches(chunks: Seq<DocChunkView>, floor: u64)
    requires
        chunks.len() > 0,
        forall|i: int|
            0 <= i < chunks.len() ==> is_at_most(floor, (#[trigger] chunks[i]).score.bits),
    ensures
        is_at_most(floor, best_chunk_score(chunks).bits),
    decreases chunks.len(),
{
    if chunks.len() > 1 {
        assert forall|i: int| 0 <= i < chunks.drop_last().len() implies is_at_most(
            floor,
            (#[trigger] chunks.drop_last()[i]).score.bits,
        ) by {
            assert(chunks.drop_last()[i] == chunks[i]);
        }
        best_reaches(chunks.drop_last(), floor);
        assert(chunks[chunks.len() - 1] == chunks.last());
    } else {
        assert(is_at_most(floor, chunks[0].score.bits));
    }
}

/// Where the hits come the best first, so do the documents.
pub proof fn best_documents_lead(hits: Seq<ChunkHit>)
    requires
        best_first(hits),
    ensures
        forall|i: int, j: int|
            0 <= i <= j < grouped(hits).len() ==> is_at_most(
                (#[trigger] grouped(hits)[j]).score.bits,
                (#[trigger] grouped(hits)[i]).score.bits,
            ),
    decreases hits.len(),
{
    if hits.len() > 0 {
        let seen = hits.drop_last();
        let hit = hits.last();
        let before = documents_of(seen);
        let now = documents_of(hits);
        let floor = hit.score@.bits;
        assert(hits[hits.len() - 1] == hit);
        assert forall|i: int, j: int| 0 <= i <= j < seen.len() implies is_at_most(
            (#[trigger] seen[j]).score@.bits,
            (#[trigger] seen[i]).score@.bits,
        ) by {
            assert(seen[i] == hits[i] && seen[j] == hits[j]);
        }
        best_documents_lead(seen);
        assert(hits =~= seen.push(hit));
        document_has_hits(seen, hit.document_id);
        assert forall|k: int| 0 <= k < before.len() implies {
            &&& is_at_most(floor, document_result(seen, #[trigger] before[k]).score.bits)
            &&& document_result(hits, before[k]).score == document_result(seen, before[k]).score
        } by {
            let id = before[k];
            document_has_hits(seen, id);
            assert forall|i: int| 0 <= i < seen.len() implies is_at_most(
                floor,
                (#[trigger] seen[i]).score@.bits,
            ) by {
                assert(seen[i] == hits[i]);
            }
            chunks_reach(seen, id, floor);
            best_reaches(chunks_in(seen, id), floor);
            if id == hit.document_id {
                let chunks = chunks_in(hits, id);
                assert(chunks.drop_last() =~= chunks_in(seen, id));
            }
        }
        if !before.contains(hit.document_id) {
            lone_hit(seen, hit);
            assert(document_result(hits, hit.document_id).score.bits == floor) by {
                reveal_with_fuel(chunks_in, 2);
                assert(seq![hit].drop_last() =~= Seq::empty());
            }
        }
        assert forall|i: int, j: int| 0 <= i <= j < grouped(hits).len() implies is_at_most(
            (#[trigger] grouped(hits)[j]).score.bits,
            (#[trigger] grouped(hits)[i]).score.bits,
        ) by {
            assert(i < before.len() ==> now[i] == before[i]);
            assert(j < before.len() ==> now[j] == before[j]);
            if j < before.len() {
                assert(grouped(seen)[i].score.bits == document_result(seen, before[i]).score.bits);
                assert(grouped(seen)[j].score.bits == document_result(seen, before[j]).score.bits);
            }
        }
    }
}

// ---------------------------------------------------------------------------------------------
// Searching documents
// ---------------------------------------------------------------------------------------------

/// A search of documents.
#[derive(Debug)]
pub struct DocSearchRequest {
    pub q: String,
    pub container_tag: Option<String>,
    pub container_tags: Option<Vec<String>>,
    pub limit: Option<i64>,
    /// Applies to the documents' metadata.
    pub filters: Option<FilterNode>,
}

/// The answer to a search of documents.
#[derive(Debug)]
pub struct DocSearchResponse {
    pub container_tag: String,
    pub results: Vec<DocumentResult>,
    /// How many milliseconds the engine took.
    pub timing: u64,
    pub total: usize,
}

/// How a search of documents is carried out.
#[derive(Debug)]
pub struct DocSearchPlan {
    pub container_tag: String,
    pub call: ScopedQuery,
    pub limit: usize,
}

/// Why a search of documents is refused, if it is.
pub open spec fn doc_search_fault(req: DocSearchRequest) -> Option<ApiErrorView> {
    if is_blank(req.q@) {
        Some(ApiErrorView::BadRequest("q is empty"@))
    } else {
        target_fault(text_of(req.container_tag), texts_of(req.container_tags))
    }
}

/// The plan carries out the search: more chunks are fetched than documents are shown, as several
/// of them can come from one document.
pub open spec fn plans_doc_search(plan: DocSearchPlan, req: DocSearchRequest) -> bool {
    let tag = text_of(req.container_tag);
    let tags = texts_of(req.container_tags);
    &&& plan.container_tag@ == resolved_tag(tag, tags)->Ok_0
    &&& asks_for(
        plan.call,
        resolved_scope(tag, tags),
        req.q@,
        chunk_budget_for(clamped_limit(req.limit)),
        meta_filter_of(filter_of(req.filters)),
    )
    &&& plan.limit == clamped_limit(req.limit)
}

/// Decides how a search of documents is carried out.
pub fn plan_doc_search(req: DocSearchRequest) -> (r: Result<DocSearchPlan, ApiError>)
    ensures
        match r {
            Ok(plan) => doc_search_fault(req) is None && plans_doc_search(plan, req),
            Err(e) => doc_search_fault(req) == Some(e@),
        },
{
    if blank(req.q.as_str()) {
        return Err(ApiError::bad_request("q is empty"));
    }
    let target: Target = match resolve_target(req.container_tag, req.container_tags) {
        Ok(target) => target,
        Err(e) => {
            return Err(e);
        },
    };
    let limit: i64 = clamp_limit(req.limit);
    let call: ScopedQuery = scoped_query(
        &target.scope,
        req.q.as_str(),
        chunk_budget(limit),
        &req.filters,
    );
    Ok(DocSearchPlan { container_tag: target.container_tag, call, limit: limit as usize })
}

/// The first documents, at most `limit` of them.
pub open spec fn first_documents(
    documents: Seq<DocumentResultView>,
    limit: int,
) -> Seq<DocumentResultView> {
    if documents.len() <= limit {
        documents
    } else {
        documents.take(limit)
    }
}

/// The answer to a search of documents.
pub fn finish_doc_search(
    container_tag: String,
    hits: &Vec<ChunkHit>,
    limit: usize,
    timing: u64,
) -> (r: DocSearchResponse)
    ensures
        r.container_tag@ == container_tag@,
        document_views(r.results@) == first_documents(grouped(hits@), limit as int),
        r.results@.len() <= limit,
        r.results@.len() == limit || r.results@.len() == documents_of(hits@).len(),
        forall|i: int|
            0 <= i < r.results@.len() ==> (#[trigger] r.results@[i]).document_id@ == id_text(
                documents_of(hits@)[i],
            ),
        forall|i: int| 0 <= i < r.results@.len() ==> (#[trigger] r.results@[i])@ == grouped(hits@)[i],
        r.timing == timing,
        r.total == r.results@.len(),
{
    let mut results: Vec<DocumentResult> = group_by_document(hits);
    let ghost all = document_views(results@);
    if results.len() > limit {
        results.truncate(limit);
        assert(document_views(results@) =~= all.take(limit as int));
    }
    proof {
        the_documents_shown_come_first(hits@, limit as int);
        assert forall|i: int| 0 <= i < results@.len() implies (#[trigger] results@[i])@ == grouped(
            hits@,
        )[i] by {
            assert(document_views(results@)[i] == results@[i]@);
        }
    }
    let total: usize = results.len();
    DocSearchResponse { container_tag, results, timing, total }
}

// ---------------------------------------------------------------------------------------------
// Laws of searching
// ---------------------------------------------------------------------------------------------

/// What a search of documents shows is a beginning of the documents in the order in which the
/// hits lead to them: as many as there are or as the limit allows, each in its place.
pub proof fn the_documents_shown_come_first(hits: Seq<ChunkHit>, limit: int)
    requires
        limit >= 0,
    ensures
        ({
            let shown = first_documents(grouped(hits), limit);
            let found = documents_of(hits);
            &&& shown.len() == if found.len() < limit { found.len() as int } else { limit }
            &&& forall|i: int|
                0 <= i < shown.len() ==> (#[trigger] shown[i]).document_id == id_text(found[i])
            &&& forall|i: int| 0 <= i < shown.len() ==> #[trigger] shown[i] == grouped(hits)[i]
        }),
{
}

/// Where the hits come the best first, no document that is left out has a better score than one
/// that is shown.
pub proof fn no_better_document_is_left_out(hits: Seq<ChunkHit>, limit: int)
    requires
        limit >= 0,
        best_first(hits),
    ensures
        ({
            let shown = first_documents(grouped(hits), limit);
            forall|i: int, j: int|
                0 <= i < shown.len() && limit <= j < grouped(hits).len() ==> is_at_most(
                    (#[trigger] grouped(hits)[j]).score.bits,
                    (#[trigger] shown[i]).score.bits,
                )
        }),
{
    best_documents_lead(hits);
    let shown = first_documents(grouped(hits), limit);
    assert forall|i: int, j: int|
        0 <= i < shown.len() && limit <= j < grouped(hits).len() implies is_at_most(
        (#[trigger] grouped(hits)[j]).score.bits,
        (#[trigger] shown[i]).score.bits,
    ) by {
        assert(shown[i] == grouped(hits)[i]);
    }
}

/// A higher limit shows what a lower one shows, in the same places, and then more.
pub proof fn higher_limits_show_more(hits: Seq<ChunkHit>, lower: int, higher: int)
    requires
        0 <= lower <= higher,
    ensures
        first_documents(grouped(hits), lower).is_prefix_of(first_documents(grouped(hits), higher)),
{
    let few = first_documents(grouped(hits), lower);
    let many = first_documents(grouped(hits), higher);
    assert(few =~= many.subrange(0, few.len() as int));
}

/// Further hits put no document in front of one that was there, nor take one away: the documents
/// stand in the order in which they first appear.
pub proof fn documents_stand_where_they_first_appear(hits: Seq<ChunkHit>, more: Seq<ChunkHit>)
    ensures
        documents_of(hits).len() <= documents_of(hits + more).len(),
        forall|i: int|
            0 <= i < documents_of(hits).len() ==> #[trigger] documents_of(hits + more)[i]
                == documents_of(hits)[i],
        hits.len() > 0 ==> documents_of(hits).len() > 0 && documents_of(hits)[0]
            == hits[0].document_id,
        more.len() > 0 && !documents_of(hits).contains(more[0].document_id) ==> documents_of(
            hits + more,
        ).len() > documents_of(hits).len() && documents_of(hits + more)[documents_of(
            hits,
        ).len() as int] == more[0].document_id,
    decreases hits.len() + more.len(),
{
    if more.len() > 0 {
        documents_stand_where_they_first_appear(hits, more.drop_last());
        assert((hits + more).drop_last() =~= hits + more.drop_last());
        if more.len() == 1 {
            assert(hits + more.drop_last() =~= hits);
            assert((hits + more).last() == more[0]);
        } else {
            assert(more.drop_last()[0] == more[0]);
        }
    } else {
        assert(hits + more =~= hits);
    }
    if hits.len() > 1 {
        documents_stand_where_they_first_appear(hits.drop_last(), Seq::empty());
        assert(hits.drop_last()[0] == hits[0]);
    } else if hits.len() == 1 {
        reveal_with_fuel(documents_of, 2);
        assert(documents_of(hits.drop_last()) =~= Seq::empty());
        assert(hits.last() == hits[0]);
    }
}

/// Only documents that the hits come from are among the documents.
pub proof fn documents_come_from_hits(hits: Seq<ChunkHit>)
    ensures
        forall|k: int|
            0 <= k < documents_of(hits).len() ==> exists|i: int|
                0 <= i < hits.len() && (#[trigger] hits[i]).document_id == #[trigger] documents_of(
                    hits,
                )[k],
    decreases hits.len(),
{
    if hits.len() > 0 {
        let seen = hits.drop_last();
        documents_come_from_hits(seen);
        let before = documents_of(seen);
        let now = documents_of(hits);
        assert forall|k: int| 0 <= k < now.len() implies exists|i: int|
            0 <= i < hits.len() && (#[trigger] hits[i]).document_id == #[trigger] now[k] by {
            if k < before.len() {
                assert(now[k] == before[k]);
                let i = choose|i: int|
                    0 <= i < seen.len() && (#[trigger] seen[i]).document_id == before[k];
                assert(hits[i] == seen[i]);
                assert(hits[i].document_id == now[k]);
            } else {
                assert(hits[hits.len() - 1].document_id == now[k]);
            }
        }
    }
}

/// What is said of a document is said by the hit that leads to it first, wherever that hit stands
/// and whatever comes behind it.
pub proof fn the_first_hit_describes_the_document(
    before: Seq<ChunkHit>,
    hit: ChunkHit,
    behind: Seq<ChunkHit>,
)
    requires
        forall|i: int|
            0 <= i < before.len() ==> (#[trigger] before[i]).document_id != hit.document_id,
    ensures
        ({
            let shown = document_result(before + seq![hit] + behind, hit.document_id);
            &&& shown.document_id == id_text(hit.document_id)
            &&& shown.title == text_of(hit.document_title)
            &&& shown.metadata == hit.document_metadata@
            &&& shown.created_at == rfc3339_of(time_of(hit.document_created_at))
            &&& shown.updated_at == shown.created_at
            &&& shown.doc_type is None
        }),
{
    first_hit_found(before, hit, behind);
}

proof fn first_hit_found(before: Seq<ChunkHit>, hit: ChunkHit, behind: Seq<ChunkHit>)
    requires
        forall|i: int|
            0 <= i < before.len() ==> (#[trigger] before[i]).document_id != hit.document_id,
    ensures
        first_hit(before, hit.document_id) is None,
        first_hit(before + seq![hit] + behind, hit.document_id) == Some(hit),
    decreases before.len() + behind.len(),
{
    let all = before + seq![hit] + behind;
    if before.len() > 0 {
        let fewer = before.drop_last();
        assert forall|i: int| 0 <= i < fewer.len() implies (#[trigger] fewer[i]).document_id
            != hit.document_id by {
            assert(fewer[i] == before[i]);
        }
        first_hit_found(fewer, hit, Seq::empty());
        assert(before[before.len() - 1] == before.last());
    }
    if behind.len() > 0 {
        first_hit_found(before, hit, behind.drop_last());
        assert(all.drop_last() =~= before + seq![hit] + behind.drop_last());
    } else {
        assert(all.drop_last() =~= before);
        assert(all.last() == hit);
    }
}

/// The chunks shown of a document in two lists of hits are those in the one and then those in the
/// other; one hit shows its own text and score, in its own document only.
pub proof fn chunks_of_two_lists(a: Seq<ChunkHit>, b: Seq<ChunkHit>, hit: ChunkHit, id: u128)
    ensures
        chunks_in(a + b, id) == chunks_in(a, id) + chunks_in(b, id),
        hit.document_id == id ==> chunks_in(seq![hit], id).len() == 1 && {
            let shown = chunks_in(seq![hit], id)[0];
            &&& shown.content == hit.content@
            &&& shown.score == hit.score@
            &&& shown.is_relevant
        },
        hit.document_id != id ==> chunks_in(seq![hit], id).len() == 0,
        chunks_in(Seq::<ChunkHit>::empty(), id).len() == 0,
    decreases b.len(),
{
    reveal_with_fuel(chunks_in, 2);
    assert(seq![hit].drop_last() =~= Seq::empty());
    assert(seq![hit].last() == hit);
    if b.len() == 0 {
        assert(a + b =~= a);
        assert(chunks_in(a, id) + chunks_in(b, id) =~= chunks_in(a, id));
    } else {
        chunks_of_two_lists(a, b.drop_last(), hit, id);
        assert((a + b).drop_last() =~= a + b.drop_last());
        assert((a + b).last() == b.last());
        assert(chunks_in(a + b, id) =~= chunks_in(a, id) + chunks_in(b, id));
    }
}

/// A document's score is that of one of its chunks, and none of them has a better one.
pub proof fn a_document_scores_as_its_best_chunk(chunks: Seq<DocChunkView>)
    requires
        chunks.len() > 0,
    ensures
        exists|i: int|
            0 <= i < chunks.len() && (#[trigger] chunks[i]).score == best_chunk_score(chunks),
        forall|i: int|
            0 <= i < chunks.len() ==> !is_below(
                best_chunk_score(chunks).bits,
                (#[trigger] chunks[i]).score.bits,
            ),
        is_nan(best_chunk_score(chunks).bits) ==> forall|i: int|
            0 <= i < chunks.len() ==> is_nan((#[trigger] chunks[i]).score.bits),
    decreases chunks.len(),
{
    let best = best_chunk_score(chunks);
    if chunks.len() == 1 {
        assert(chunks[0].score == best);
    } else {
        let rest = chunks.drop_last();
        a_document_scores_as_its_best_chunk(rest);
        let before = best_chunk_score(rest);
        if best == before {
            let i = choose|i: int| 0 <= i < rest.len() && (#[trigger] rest[i]).score == before;
            assert(chunks[i].score == best);
        } else {
            assert(chunks[chunks.len() - 1].score == best);
        }
        assert forall|i: int| 0 <= i < chunks.len() implies !is_below(
            best.bits,
            (#[trigger] chunks[i]).score.bits,
        ) && (is_nan(best.bits) ==> is_nan(chunks[i].score.bits)) by {
            if i < rest.len() {
                assert(rest[i] == chunks[i]);
            }
        }
    }
}

/// A search of documents is carried out in the container that the request names, with its query
/// and behind a filter that lets the same metadata through. Eight chunks are fetched for each
/// document to be shown, and at least fifty and at most two hundred.
pub proof fn document_searches_ask_for_what_was_asked(plan: DocSearchPlan, req: DocSearchRequest)
    requires
        doc_search_fault(req) is None,
        plans_doc_search(plan, req),
    ensures
        resolved_tag(text_of(req.container_tag), texts_of(req.container_tags)) == Ok::<
            Seq<char>,
            ApiErrorView,
        >(plan.container_tag@),
        reconstructed_tag(scope_asked(plan.call)) == plan.container_tag@,
        scope_asked(plan.call) == parsed_scope(plan.container_tag@),
        plan.call.query@ == req.q@,
        same_filter(filter_of(req.filters), meta_of(plan.call.filter)),
        req.limit is None ==> plan.limit == 10,
        req.limit matches Some(n) ==> {
            &&& 1 <= n <= 100 ==> plan.limit == n
            &&& n < 1 ==> plan.limit == 1
            &&& n > 100 ==> plan.limit == 100
        },
        plan.limit <= 6 ==> plan.call.limit == 50,
        7 <= plan.limit <= 25 ==> plan.call.limit == 8 * plan.limit,
        plan.limit >= 25 ==> plan.call.limit == 200,
{
    let tag = text_of(req.container_tag);
    let tags = texts_of(req.container_tags);
    scope_gives_the_tag_back(tag, tags);
    filters_are_kept(filter_of(req.filters));
    assert(scope_asked(plan.call) == resolved_scope(tag, tags));
}

/// A search of documents is refused exactly where its query is blank, or its container is not
/// named properly.
pub proof fn document_searches_are_refused_without_query_or_container(req: DocSearchRequest)
    ensures
        doc_search_fault(req) is None <==> !is_blank(req.q@) && resolved_tag(
            text_of(req.container_tag),
            texts_of(req.container_tags),
        ) is Ok,
        doc_search_fault(req) matches Some(e) ==> e is BadRequest,
        is_blank(req.q@) ==> doc_search_fault(req) == Some(ApiErrorView::BadRequest("q is empty"@)),
{
    the_tag_used_is_the_tag_sent(text_of(req.container_tag), texts_of(req.container_tags));
}

/// A text is taken in under the container that the request names, as it was sent: with its own
/// identifier, title, address and metadata, where it has them.
pub proof fn texts_are_taken_in_as_sent(plan: IngestPlan, req: IngestRequest)
    requires
        ingest_fault(req) is None,
        plans_ingest(plan, req),
    ensures
        ({
            let tag = resolved_tag(text_of(req.container_tag), texts_of(req.container_tags));
            let chunked = req.task_type is Some && req.task_type->0@ == "superrag"@;
            &&& tag is Ok
            &&& plan is Document <==> chunked
            &&& match plan {
                IngestPlan::Document(call) => {
                    let scope = ScopeView {
                        actor_id: call.actor_id@,
                        container_tags: texts(call.container_tags@),
                    };
                    &&& reconstructed_tag(scope) == tag->Ok_0
                    &&& scope == parsed_scope(tag->Ok_0)
                    &&& call.content@ == req.content@
                    &&& text_of(call.title) == text_of(req.title)
                    &&& text_of(call.uri) == text_of(req.uri)
                    &&& text_of(call.custom_id) == text_of(req.custom_id)
                    &&& req.metadata is Some && !(req.metadata->0@ is Null) ==> call.metadata@
                        == req.metadata->0@
                    &&& req.metadata is None || req.metadata->0@ is Null ==> call.metadata@
                        == no_fields()
                },
                IngestPlan::Memories(call) => {
                    let scope = ScopeView {
                        actor_id: call.actor_id@,
                        container_tags: texts(call.container_tags@),
                    };
                    &&& reconstructed_tag(scope) == tag->Ok_0
                    &&& scope == parsed_scope(tag->Ok_0)
                    &&& call.content@ == req.content@
                    &&& call.kind@ == "document"@
                    &&& text_of(call.custom_id) == text_of(req.custom_id)
                    &&& req.title is None && req.uri is None
                    &&& req.metadata is Some && !(req.metadata->0@ is Null) ==> call.metadata@
                        == req.metadata->0@
                    &&& req.metadata is None || req.metadata->0@ is Null ==> call.metadata@
                        == no_fields()
                },
            }
        }),
{
    let tag = text_of(req.container_tag);
    let tags = texts_of(req.container_tags);
    scope_gives_the_tag_back(tag, tags);
}

/// A text is refused exactly where it is blank, where its container is not named properly, and
/// where it has a title or an address but is not to be kept as chunks.
pub proof fn texts_are_refused_in_three_cases(req: IngestRequest)
    ensures
        ingest_fault(req) is None <==> {
            &&& !is_blank(req.content@)
            &&& resolved_tag(text_of(req.container_tag), texts_of(req.container_tags)) is Ok
            &&& req.title is None && req.uri is None || req.task_type is Some
                && req.task_type->0@ == "superrag"@
        },
        ingest_fault(req) matches Some(e) ==> e is BadRequest,
        is_blank(req.content@) ==> ingest_fault(req) == Some(
            ApiErrorView::BadRequest("content is empty"@),
        ),
        !is_blank(req.content@) ==> (resolved_tag(
            text_of(req.container_tag),
            texts_of(req.container_tags),
        ) matches Err(e) ==> ingest_fault(req) == Some(e)),
{
    the_tag_used_is_the_tag_sent(text_of(req.container_tag), texts_of(req.container_tags));
}

} // verus!
