//! Recall: `/v4/search`, which looks for memories, documents or both, and `/v4/profile`, which
//! shows what is known of an actor and the memories that bear on a query.

use vstd::prelude::*;
use crate::container_tag::{parsed_scope, reconstructed_tag, Scope, ScopeView};
use crate::error::{ApiError, ApiErrorView};
use crate::filter::{
    filter_of, meta_filter, meta_filter_of, meta_matches, meta_of, node_matches, store_form_agrees,
    to_meta_filter_opt, FilterNode, FilterView, MetaFilter, MetaFilterView,
};
use crate::ident::{id_text, id_value, print_id};
use crate::json::{Json, JsonView};
use crate::request::{
    candidate_pool, chunk_budget_for, clamp_limit, clamped_limit, filter_pool, resolve_target,
    resolved_scope, resolved_tag, scope_gives_the_tag_back, target_fault,
    the_tag_used_is_the_tag_sent, Target,
};
use crate::score::{at_most, below, exceeds, is_at_most, is_below, larger, Score, ScoreView};
use crate::text::{
    blank, copy_opt, copy_texts, is_blank, is_text, text_of, texts, texts_of,
};
use crate::time::{rfc3339, rfc3339_of, time_of, to_rfc3339_opt, Timestamp};

verus! {

// ---------------------------------------------------------------------------------------------
// Hits
// ---------------------------------------------------------------------------------------------

/// A memory that recall found.
#[derive(Debug)]
pub struct RecallHit {
    pub id: u128,
    /// The text, or none for a row that is encrypted at rest.
    pub content: Option<String>,
    pub recorded_at: Option<Timestamp>,
    pub score: Score,
    pub metadata: Json,
    /// What the memory descends from and led to, where that is known.
    pub lineage: Option<Lineage>,
}

/// A chunk of a document that a search found, with what is known of its document.
#[derive(Debug)]
pub struct ChunkHit {
    pub id: u128,
    pub document_id: u128,
    pub content: String,
    pub score: Score,
    pub document_title: Option<String>,
    pub document_metadata: Json,
    pub document_created_at: Option<Timestamp>,
}

/// Another version of a memory.
#[derive(Debug)]
pub struct MemoryVersion {
    pub version: i32,
    pub content: Option<String>,
}

/// An edge between a memory and a neighbour. It is outgoing where it leads from the memory to
/// the neighbour.
#[derive(Debug)]
pub struct RelationEdge {
    pub outgoing: bool,
    pub relation: String,
    pub neighbour: Option<String>,
}

/// A source that a memory was extracted from.
#[derive(Debug)]
pub struct SourceRow {
    pub id: u128,
    pub kind: String,
    pub ingested_at: Timestamp,
}

/// What surrounds a memory: the other versions of it, the edges at it, and its sources.
#[derive(Debug)]
pub struct Lineage {
    pub version: i32,
    pub versions: Vec<MemoryVersion>,
    pub edges: Vec<RelationEdge>,
    pub sources: Vec<SourceRow>,
}

// ---------------------------------------------------------------------------------------------
// What surrounds a hit
// ---------------------------------------------------------------------------------------------

/// A memory beside a hit, and how the two are related.
#[derive(Debug)]
pub struct Relative {
    pub relation: String,
    pub memory: Option<String>,
}

/// A source of a hit.
#[derive(Debug)]
pub struct SourceDocument {
    pub id: String,
    pub kind: String,
    pub created_at: String,
    pub updated_at: String,
}

/// What surrounds a hit, as it is shown.
#[derive(Debug)]
pub struct Aggregate {
    pub parents: Vec<Relative>,
    pub children: Vec<Relative>,
    pub documents: Vec<SourceDocument>,
}

/// What a [`Relative`] holds.
pub struct RelativeView {
    pub relation: Seq<char>,
    pub memory: Option<Seq<char>>,
}

/// What a [`SourceDocument`] holds.
pub struct SourceDocumentView {
    pub id: Seq<char>,
    pub kind: Seq<char>,
    pub created_at: Seq<char>,
    pub updated_at: Seq<char>,
}

/// What an [`Aggregate`] holds.
pub struct AggregateView {
    pub parents: Seq<RelativeView>,
    pub children: Seq<RelativeView>,
    pub documents: Seq<SourceDocumentView>,
}

impl View for Relative {
    type V = RelativeView;

    open spec fn view(&self) -> RelativeView {
        RelativeView { relation: self.relation@, memory: text_of(self.memory) }
    }
}

impl View for SourceDocument {
    type V = SourceDocumentView;

    open spec fn view(&self) -> SourceDocumentView {
        SourceDocumentView {
            id: self.id@,
            kind: self.kind@,
            created_at: self.created_at@,
            updated_at: self.updated_at@,
        }
    }
}

/// What a list of relatives holds.
pub open spec fn relatives(list: Seq<Relative>) -> Seq<RelativeView> {
    Seq::new(list.len(), |i: int| list[i]@)
}

/// What a list of sources holds.
pub open spec fn documents(list: Seq<SourceDocument>) -> Seq<SourceDocumentView> {
    Seq::new(list.len(), |i: int| list[i]@)
}

impl View for Aggregate {
    type V = AggregateView;

    open spec fn view(&self) -> AggregateView {
        AggregateView {
            parents: relatives(self.parents@),
            children: relatives(self.children@),
            documents: documents(self.documents@),
        }
    }
}

/// The versions before `version`, or those after it, in order, each related by an update.
pub open spec fn updates(list: Seq<MemoryVersion>, version: i32, earlier: bool) -> Seq<RelativeView>
    decreases list.len(),
{
    if list.len() == 0 {
        Seq::empty()
    } else {
        let before = updates(list.drop_last(), version, earlier);
        let last = list.last();
        if if earlier {
            last.version < version
        } else {
            last.version > version
        } {
            before.push(RelativeView { relation: "updates"@, memory: text_of(last.content) })
        } else {
            before
        }
    }
}

/// The neighbours at the outgoing edges, or at the incoming ones, in order.
pub open spec fn neighbours(list: Seq<RelationEdge>, outgoing: bool) -> Seq<RelativeView>
    decreases list.len(),
{
    if list.len() == 0 {
        Seq::empty()
    } else {
        let before = neighbours(list.drop_last(), outgoing);
        let last = list.last();
        if last.outgoing == outgoing {
            before.push(
                RelativeView { relation: last.relation@, memory: text_of(last.neighbour) },
            )
        } else {
            before
        }
    }
}

/// A source as it is shown. A source does not change, so it was updated when it was created.
pub open spec fn source_document(source: SourceRow) -> SourceDocumentView {
    let at = rfc3339(source.ingested_at@.0, source.ingested_at@.1);
    SourceDocumentView {
        id: id_text(source.id),
        kind: source.kind@,
        created_at: at,
        updated_at: at,
    }
}

/// What surrounds a hit, as it is shown: earlier versions and the memories it builds on are its
/// parents, later versions and the memories that build on it its children.
pub open spec fn aggregated(lineage: Lineage) -> AggregateView {
    AggregateView {
        parents: updates(lineage.versions@, lineage.version, true) + neighbours(
            lineage.edges@,
            true,
        ),
        children: updates(lineage.versions@, lineage.version, false) + neighbours(
            lineage.edges@,
            false,
        ),
        documents: Seq::new(
            lineage.sources@.len(),
            |i: int| source_document(lineage.sources@[i]),
        ),
    }
}

/// The memories on one side of a hit.
fn relatives_of(lineage: &Lineage, parents: bool) -> (r: Vec<Relative>)
    ensures
        relatives(r@) == updates(lineage.versions@, lineage.version, parents) + neighbours(
            lineage.edges@,
            parents,
        ),
{
    let mut out: Vec<Relative> = Vec::new();
    let versions: &Vec<MemoryVersion> = &lineage.versions;
    let mut i: usize = 0;
    assert(relatives(out@) =~= updates(versions@.take(0), lineage.version, parents));
    while i < versions.len()
        invariant
            i <= versions@.len(),
            relatives(out@) == updates(versions@.take(i as int), lineage.version, parents),
        decreases versions@.len() - i,
    {
        let ghost before = relatives(out@);
        assert(versions@.take(i + 1).drop_last() =~= versions@.take(i as int));
        let other: &MemoryVersion = &versions[i];
        let related: bool = if parents {
            other.version < lineage.version
        } else {
            other.version > lineage.version
        };
        if related {
            let relative: Relative = Relative {
                relation: "updates".to_owned(),
                memory: copy_opt(&other.content),
            };
            let ghost held = relative@;
            out.push(relative);
            assert(relatives(out@) =~= before.push(held));
        }
        i += 1;
    }
    assert(versions@.take(i as int) =~= versions@);
    let ghost chain = relatives(out@);
    let edges: &Vec<RelationEdge> = &lineage.edges;
    let mut j: usize = 0;
    assert(relatives(out@) =~= chain + neighbours(edges@.take(0), parents));
    while j < edges.len()
        invariant
            j <= edges@.len(),
            relatives(out@) == chain + neighbours(edges@.take(j as int), parents),
        decreases edges@.len() - j,
    {
        let ghost before = relatives(out@);
        assert(edges@.take(j + 1).drop_last() =~= edges@.take(j as int));
        let edge: &RelationEdge = &edges[j];
        if edge.outgoing == parents {
            let relative: Relative = Relative {
                relation: edge.relation.clone(),
                memory: copy_opt(&edge.neighbour),
            };
            let ghost held = relative@;
            out.push(relative);
            assert(relatives(out@) =~= before.push(held));
            assert(relatives(out@) =~= chain + neighbours(edges@.take(j + 1), parents));
        }
        j += 1;
    }
    assert(edges@.take(j as int) =~= edges@);
    out
}

fn show_source(source: &SourceRow) -> (r: SourceDocument)
    ensures
        r@ == source_document(*source),
{
    SourceDocument {
        id: print_id(source.id),
        kind: source.kind.clone(),
        created_at: source.ingested_at.to_rfc3339(),
        updated_at: source.ingested_at.to_rfc3339(),
    }
}

/// What surrounds a hit, as it is shown.
pub fn aggregate(lineage: &Lineage) -> (r: Aggregate)
    ensures
        r@ == aggregated(*lineage),
{
    let mut sources: Vec<SourceDocument> = Vec::new();
    let mut i: usize = 0;
    while i < lineage.sources.len()
        invariant
            i <= lineage.sources@.len(),
            documents(sources@) =~= aggregated(*lineage).documents.take(i as int),
        decreases lineage.sources@.len() - i,
    {
        let ghost before = documents(sources@);
        let shown: SourceDocument = show_source(&lineage.sources[i]);
        let ghost held = shown@;
        sources.push(shown);
        i += 1;
        assert(documents(sources@) =~= before.push(held));
    }
    assert(documents(sources@) =~= aggregated(*lineage).documents);
    Aggregate {
        parents: relatives_of(lineage, true),
        children: relatives_of(lineage, false),
        documents: sources,
    }
}

// ---------------------------------------------------------------------------------------------
// Results
// ---------------------------------------------------------------------------------------------

/// One result of a search: a memory or a chunk of a document.
#[derive(Debug)]
pub struct SearchResult {
    pub id: String,
    /// The memory's text; none for a chunk, or for a row that is encrypted at rest.
    pub memory: Option<String>,
    /// The chunk's text; none for a memory.
    pub chunk: Option<String>,
    pub similarity: Score,
    pub updated_at: Option<String>,
    pub metadata: Json,
    /// What surrounds a memory, where that was asked for.
    pub aggregate: Option<Aggregate>,
}

/// What a [`SearchResult`] holds.
pub struct SearchResultView {
    pub id: Seq<char>,
    pub memory: Option<Seq<char>>,
    pub chunk: Option<Seq<char>>,
    pub similarity: ScoreView,
    pub updated_at: Option<Seq<char>>,
    pub metadata: JsonView,
    pub aggregate: Option<AggregateView>,
}

/// What surrounds an optional hit.
pub open spec fn aggregate_of(aggregate: Option<Aggregate>) -> Option<AggregateView> {
    match aggregate {
        Some(a) => Some(a@),
        None => None,
    }
}

impl View for SearchResult {
    type V = SearchResultView;

    open spec fn view(&self) -> SearchResultView {
        SearchResultView {
            id: self.id@,
            memory: text_of(self.memory),
            chunk: text_of(self.chunk),
            similarity: self.similarity@,
            updated_at: text_of(self.updated_at),
            metadata: self.metadata@,
            aggregate: aggregate_of(self.aggregate),
        }
    }
}

/// What a list of results holds.
pub open spec fn result_views(results: Seq<SearchResult>) -> Seq<SearchResultView> {
    Seq::new(results.len(), |i: int| results[i]@)
}

/// What surrounds a hit where nothing is known to.
pub open spec fn alone() -> AggregateView {
    AggregateView { parents: Seq::empty(), children: Seq::empty(), documents: Seq::empty() }
}

/// What a result shows to surround a hit: all there is to show where that was asked for, and
/// nothing at all where it was not.
pub open spec fn surroundings(hit: RecallHit, asked: bool) -> Option<AggregateView> {
    if asked {
        Some(
            match hit.lineage {
                Some(lineage) => aggregated(lineage),
                None => alone(),
            },
        )
    } else {
        None
    }
}

/// The result for a memory; `asked` says whether what surrounds it was asked for.
pub open spec fn memory_result(hit: RecallHit, asked: bool) -> SearchResultView {
    SearchResultView {
        id: id_text(hit.id),
        memory: text_of(hit.content),
        chunk: None,
        similarity: hit.score@,
        updated_at: rfc3339_of(time_of(hit.recorded_at)),
        metadata: hit.metadata@,
        aggregate: surroundings(hit, asked),
    }
}

/// The result for a chunk of a document.
pub open spec fn chunk_result(hit: ChunkHit) -> SearchResultView {
    SearchResultView {
        id: id_text(hit.id),
        memory: None,
        chunk: Some(hit.content@),
        similarity: hit.score@,
        updated_at: rfc3339_of(time_of(hit.document_created_at)),
        metadata: hit.document_metadata@,
        aggregate: None,
    }
}

/// The results for a list of memories.
pub open spec fn memory_results(hits: Seq<RecallHit>, asked: bool) -> Seq<SearchResultView> {
    Seq::new(hits.len(), |i: int| memory_result(hits[i], asked))
}

/// The results for a list of chunks.
pub open spec fn chunk_results(hits: Seq<ChunkHit>) -> Seq<SearchResultView> {
    Seq::new(hits.len(), |i: int| chunk_result(hits[i]))
}

/// What a result shows to surround a hit.
pub fn surround(hit: &RecallHit, asked: bool) -> (r: Option<Aggregate>)
    ensures
        aggregate_of(r) == surroundings(*hit, asked),
        r is Some <==> asked,
        asked && hit.lineage is Some ==> r->0@ == aggregated(hit.lineage->0),
        asked && hit.lineage is None ==> {
            &&& r->0.parents@.len() == 0
            &&& r->0.children@.len() == 0
            &&& r->0.documents@.len() == 0
        },
{
    if !asked {
        return None;
    }
    match &hit.lineage {
        Some(lineage) => Some(aggregate(lineage)),
        None => {
            let shown: Aggregate = Aggregate {
                parents: Vec::new(),
                children: Vec::new(),
                documents: Vec::new(),
            };
            proof {
                assert(shown@.parents =~= alone().parents);
                assert(shown@.children =~= alone().children);
                assert(shown@.documents =~= alone().documents);
            }
            Some(shown)
        },
    }
}

/// The result for a memory; `asked` says whether what surrounds it was asked for. The identifier
/// it shows reads back as the memory's own.
pub fn to_result(hit: &RecallHit, asked: bool) -> (r: SearchResult)
    ensures
        r@ == memory_result(*hit, asked),
        id_value(r.id@) == Some(hit.id),
        r.metadata@ == hit.metadata@,
        hit.content is Some <==> r.memory is Some,
        hit.content is Some ==> r.memory->0@ == hit.content->0@,
        r.chunk is None,
        r.similarity@ == hit.score@,
        hit.recorded_at is Some <==> r.updated_at is Some,
        hit.recorded_at is Some ==> r.updated_at->0@ == rfc3339(
            hit.recorded_at->0@.0,
            hit.recorded_at->0@.1,
        ),
        r.aggregate is Some <==> asked,
{
    SearchResult {
        id: print_id(hit.id),
        memory: copy_opt(&hit.content),
        chunk: None,
        similarity: hit.score.copy(),
        updated_at: to_rfc3339_opt(&hit.recorded_at),
        metadata: hit.metadata.copy(),
        aggregate: surround(hit, asked),
    }
}

/// The result for a chunk of a document. The identifier it shows reads back as the chunk's own.
pub fn to_doc_result(hit: &ChunkHit) -> (r: SearchResult)
    ensures
        r@ == chunk_result(*hit),
        id_value(r.id@) == Some(hit.id),
        r.metadata@ == hit.document_metadata@,
        r.memory is None,
        r.chunk is Some,
        r.chunk->0@ == hit.content@,
        r.similarity@ == hit.score@,
        hit.document_created_at is Some <==> r.updated_at is Some,
        hit.document_created_at is Some ==> r.updated_at->0@ == rfc3339(
            hit.document_created_at->0@.0,
            hit.document_created_at->0@.1,
        ),
        r.aggregate is None,
{
    SearchResult {
        id: print_id(hit.id),
        memory: None,
        chunk: Some(hit.content.clone()),
        similarity: hit.score.copy(),
        updated_at: to_rfc3339_opt(&hit.document_created_at),
        metadata: hit.document_metadata.copy(),
        aggregate: None,
    }
}

/// The result carries what the memory carries.
pub open spec fn shows_memory(result: SearchResult, hit: RecallHit) -> bool {
    &&& result.metadata@ == hit.metadata@
    &&& text_of(result.memory) == text_of(hit.content)
    &&& result.chunk is None
    &&& result.similarity@ == hit.score@
    &&& text_of(result.updated_at) == rfc3339_of(time_of(hit.recorded_at))
    &&& id_value(result.id@) == Some(hit.id)
}

/// The result carries what the chunk carries.
pub open spec fn shows_chunk(result: SearchResult, hit: ChunkHit) -> bool {
    &&& result.metadata@ == hit.document_metadata@
    &&& result.memory is None
    &&& text_of(result.chunk) == Some(hit.content@)
    &&& result.similarity@ == hit.score@
    &&& text_of(result.updated_at) == rfc3339_of(time_of(hit.document_created_at))
    &&& id_value(result.id@) == Some(hit.id)
    &&& result.aggregate is None
}

/// The results of a search: the memories first and then the chunks, each list in its own order,
/// as the scores of the two are not measured on one scale. The identifiers of the memories read
/// back as their own. What surrounds the memories is shown where `asked` says so, and then with
/// each of them; no result shows it otherwise.
pub fn merge_hits(memories: &Vec<RecallHit>, chunks: &Vec<ChunkHit>, asked: bool) -> (r: Vec<
    SearchResult,
>)
    ensures
        result_views(r@) == memory_results(memories@, asked) + chunk_results(chunks@),
        forall|i: int|
            0 <= i < r@.len() ==> ((#[trigger] r@[i]).aggregate is Some <==> asked && i
                < memories@.len()),
        forall|i: int|
            0 <= i < memories@.len() ==> id_value(#[trigger] r@[i].id@) == Some(memories@[i].id),
        r@.len() == memories@.len() + chunks@.len(),
        forall|i: int|
            0 <= i < memories@.len() ==> (#[trigger] r@[i]).metadata@ == memories@[i].metadata@,
        forall|i: int|
            0 <= i < chunks@.len() ==> r@[memories@.len() + i].metadata@ == (
            #[trigger] chunks@[i]).document_metadata@,
        forall|i: int| 0 <= i < memories@.len() ==> shows_memory(#[trigger] r@[i], memories@[i]),
        forall|i: int|
            0 <= i < chunks@.len() ==> shows_chunk(
                r@[memories@.len() + i],
                #[trigger] chunks@[i],
            ),
{
    let mut out: Vec<SearchResult> = Vec::new();
    let mut i: usize = 0;
    while i < memories.len()
        invariant
            i <= memories@.len(),
            result_views(out@) =~= memory_results(memories@, asked).take(i as int),
            out@.len() == i,
            forall|k: int| 0 <= k < i ==> id_value(#[trigger] out@[k].id@) == Some(memories@[k].id),
            forall|k: int| 0 <= k < i ==> shows_memory(#[trigger] out@[k], memories@[k]),
        decreases memories@.len() - i,
    {
        let ghost before = result_views(out@);
        let result: SearchResult = to_result(&memories[i], asked);
        let ghost held = result@;
        out.push(result);
        i += 1;
        assert(result_views(out@) =~= before.push(held));
    }
    let ghost first = memory_results(memories@, asked);
    assert(result_views(out@) =~= first);
    let mut j: usize = 0;
    while j < chunks.len()
        invariant
            j <= chunks@.len(),
            result_views(out@) =~= first + chunk_results(chunks@).take(j as int),
            out@.len() == memories@.len() + j,
            forall|k: int|
                0 <= k < memories@.len() ==> id_value(#[trigger] out@[k].id@) == Some(
                    memories@[k].id,
                ),
            forall|k: int|
                0 <= k < memories@.len() ==> shows_memory(#[trigger] out@[k], memories@[k]),
            forall|k: int|
                0 <= k < j ==> shows_chunk(out@[memories@.len() + k], #[trigger] chunks@[k]),
        decreases chunks@.len() - j,
    {
        let ghost before = result_views(out@);
        let result: SearchResult = to_doc_result(&chunks[j]);
        let ghost held = result@;
        out.push(result);
        j += 1;
        assert(result_views(out@) =~= before.push(held));
    }
    assert(result_views(out@) =~= first + chunk_results(chunks@));
    assert forall|i: int| 0 <= i < out@.len() implies ((#[trigger] out@[i]).aggregate is Some
        <==> asked && i < memories@.len()) by {
        assert(result_views(out@)[i] == (first + chunk_results(chunks@))[i]);
    }
    out
}

// ---------------------------------------------------------------------------------------------
// Planning a search
// ---------------------------------------------------------------------------------------------

/// What else a search is to find.
#[derive(Debug)]
pub struct Include {
    pub forgotten_memories: Option<bool>,
}

/// A search.
#[derive(Debug)]
pub struct SearchRequest {
    pub q: String,
    pub container_tag: Option<String>,
    pub container_tags: Option<Vec<String>>,
    pub limit: Option<i64>,
    pub filters: Option<FilterNode>,
    /// `documents` or `hybrid`; anything else looks for memories.
    pub search_mode: Option<String>,
    /// The share of the best score that a hit has to reach, as the bits of a floating-point
    /// number.
    pub threshold: Option<u64>,
    pub including: Option<Include>,
    /// Whether to show what surrounds each memory.
    pub aggregate: Option<bool>,
}

/// A query of the engine within a scope.
#[derive(Debug)]
pub struct ScopedQuery {
    pub actor_id: String,
    pub container_tags: Vec<String>,
    pub query: String,
    pub limit: i64,
    pub filter: Option<MetaFilter>,
}

/// A query of the engine for memories.
#[derive(Debug)]
pub struct RecallQuery {
    pub scoped: ScopedQuery,
    pub include_forgotten: bool,
    /// Whether the engine is to rank the hits anew once it has them.
    pub rerank: bool,
}

/// The query asks for just this, within the scope.
pub open spec fn asks_for(
    call: ScopedQuery,
    scope: ScopeView,
    query: Seq<char>,
    limit: int,
    filter: Option<MetaFilterView>,
) -> bool {
    &&& call.actor_id@ == scope.actor_id
    &&& texts(call.container_tags@) == scope.container_tags
    &&& call.query@ == query
    &&& call.limit == limit
    &&& meta_of(call.filter) == filter
}

/// The query within a scope.
pub fn scoped_query(scope: &Scope, query: &str, limit: i64, filters: &Option<FilterNode>) -> (r:
    ScopedQuery)
    ensures
        asks_for(r, scope@, query@, limit as int, meta_filter_of(filter_of(*filters))),
{
    ScopedQuery {
        actor_id: scope.actor_id.clone(),
        container_tags: copy_texts(&scope.container_tags),
        query: query.to_owned(),
        limit,
        filter: to_meta_filter_opt(filters),
    }
}

/// How a search is carried out: what the engine is asked, and what is done with what it finds.
#[derive(Debug)]
pub struct SearchPlan {
    pub container_tag: String,
    pub recall: Option<RecallQuery>,
    pub chunks: Option<ScopedQuery>,
    pub threshold: Option<u64>,
    pub limit: usize,
    pub aggregate: bool,
}

/// Why a search is refused, if it is.
pub open spec fn search_fault(req: SearchRequest) -> Option<ApiErrorView> {
    if is_blank(req.q@) {
        Some(ApiErrorView::BadRequest("q is empty"@))
    } else {
        target_fault(text_of(req.container_tag), texts_of(req.container_tags))
    }
}

/// How many hits the engine is asked for: more than the limit where a cutoff will thin them.
pub open spec fn fetch_limit(limit: Option<i64>, threshold: Option<u64>) -> int {
    if threshold is Some {
        candidate_pool(clamped_limit(limit) as i64)
    } else {
        clamped_limit(limit)
    }
}

/// However large a limit is asked for, and whatever it is, the engine is asked for at least one
/// hit and for no more than two hundred.
pub proof fn fetches_are_bounded(limit: Option<i64>, threshold: Option<u64>)
    ensures
        1 <= clamped_limit(limit) <= 100,
        1 <= fetch_limit(limit, threshold) <= 200,
        clamped_limit(limit) <= fetch_limit(limit, threshold),
        50 <= chunk_budget_for(clamped_limit(limit)) <= 200,
{
}

/// Forgotten memories are asked for.
pub open spec fn wants_forgotten(including: Option<Include>) -> bool {
    including matches Some(i) && i.forgotten_memories == Some(true)
}

/// The plan carries out the search.
pub open spec fn plans_search(plan: SearchPlan, req: SearchRequest) -> bool {
    let tag = text_of(req.container_tag);
    let tags = texts_of(req.container_tags);
    let scope = resolved_scope(tag, tags);
    let limit = fetch_limit(req.limit, req.threshold);
    let filter = meta_filter_of(filter_of(req.filters));
    let mode = text_of(req.search_mode);
    &&& plan.container_tag@ == resolved_tag(tag, tags)->Ok_0
    &&& plan.recall is Some <==> mode != Some("documents"@)
    &&& plan.recall matches Some(call) ==> {
        &&& asks_for(call.scoped, scope, req.q@, limit, filter)
        &&& call.include_forgotten == wants_forgotten(req.including)
        &&& !call.rerank
    }
    &&& plan.chunks is Some <==> mode == Some("documents"@) || mode == Some("hybrid"@)
    &&& plan.chunks matches Some(call) ==> asks_for(call, scope, req.q@, limit, filter)
    &&& plan.threshold == req.threshold
    &&& plan.limit == clamped_limit(req.limit)
    &&& plan.aggregate == (req.aggregate == Some(true))
}

/// Decides how a search is carried out.
pub fn plan_search(req: SearchRequest) -> (r: Result<SearchPlan, ApiError>)
    ensures
        match r {
            Ok(plan) => search_fault(req) is None && plans_search(plan, req),
            Err(e) => search_fault(req) == Some(e@),
        },
{
    if blank(req.q.as_str()) {
        return Err(ApiError::bad_request("q is empty"));
    }
    let target: Target = match resolve_target(req.container_tag, req.container_tags) {
        Ok(target) => target,
        Err(e) => {
            return Err(e);
        },
    };
    let limit: i64 = clamp_limit(req.limit);
    let fetch: i64 = match req.threshold {
        Some(_) => filter_pool(limit),
        None => limit,
    };
    let documents_only: bool = is_text(&req.search_mode, "documents");
    let hybrid: bool = is_text(&req.search_mode, "hybrid");
    let include_forgotten: bool = match &req.including {
        Some(more) => match more.forgotten_memories {
            Some(b) => b,
            None => false,
        },
        None => false,
    };
    proof {
        reveal_strlit("documents");
        reveal_strlit("hybrid");
        assert("documents"@.len() == 9);
        assert("hybrid"@.len() == 6);
    }
    let recall: Option<RecallQuery> = if documents_only {
        None
    } else {
        let scoped: ScopedQuery = scoped_query(&target.scope, req.q.as_str(), fetch, &req.filters);
        Some(RecallQuery { scoped, include_forgotten, rerank: false })
    };
    let chunks: Option<ScopedQuery> = if documents_only || hybrid {
        Some(scoped_query(&target.scope, req.q.as_str(), fetch, &req.filters))
    } else {
        None
    };
    Ok(
        SearchPlan {
            container_tag: target.container_tag,
            recall,
            chunks,
            threshold: req.threshold,
            limit: limit as usize,
            aggregate: match req.aggregate {
                Some(b) => b,
                None => false,
            },
        },
    )
}

// ---------------------------------------------------------------------------------------------
// Finishing a search
// ---------------------------------------------------------------------------------------------

/// The best score among the results, and zero where there is none above it.
pub open spec fn best_score(results: Seq<SearchResultView>) -> u64
    decreases results.len(),
{
    if results.len() == 0 {
        0
    } else {
        larger(best_score(results.drop_last()), results.last().similarity.bits)
    }
}

/// The results whose share reaches the threshold, in order.
pub open spec fn reaching(
    results: Seq<SearchResultView>,
    shares: Seq<u64>,
    threshold: u64,
) -> Seq<SearchResultView>
    decreases results.len(),
{
    if results.len() == 0 {
        Seq::empty()
    } else {
        let before = reaching(results.drop_last(), shares, threshold);
        if is_at_most(threshold, shares[results.len() - 1]) {
            before.push(results.last())
        } else {
            before
        }
    }
}

/// The results that stay: all of them without a threshold, or where no score is above zero;
/// otherwise those whose share of the best score reaches it.
pub open spec fn kept_results(
    results: Seq<SearchResultView>,
    shares: Seq<u64>,
    threshold: Option<u64>,
) -> Seq<SearchResultView> {
    if threshold is Some && is_below(0, best_score(results)) {
        reaching(results, shares, threshold->0)
    } else {
        results
    }
}

/// The first results, at most `limit` of them.
pub open spec fn first_results(
    results: Seq<SearchResultView>,
    limit: int,
) -> Seq<SearchResultView> {
    if results.len() <= limit {
        results
    } else {
        results.take(limit)
    }
}

/// The answer to a search.
#[derive(Debug)]
pub struct SearchResponse {
    pub container_tag: String,
    pub results: Vec<SearchResult>,
    /// How many milliseconds the engine took.
    pub timing: u64,
    pub total: usize,
}

/// The best score among the results, and zero where there is none above it.
pub fn top_score(results: &Vec<SearchResult>) -> (r: u64)
    ensures
        r == best_score(result_views(results@)),
{
    let ghost all = result_views(results@);
    let mut top: u64 = 0;
    let mut i: usize = 0;
    while i < results.len()
        invariant
            all == result_views(results@),
            i <= results@.len(),
            top == best_score(all.take(i as int)),
        decreases results@.len() - i,
    {
        assert(all.take(i + 1).drop_last() =~= all.take(i as int));
        let bits: u64 = results[i].similarity.bits();
        if exceeds(bits, top) {
            top = bits;
        }
        i += 1;
    }
    assert(all.take(i as int) =~= all);
    top
}

/// The results whose share reaches the threshold.
fn retain_reaching(results: Vec<SearchResult>, shares: &Vec<u64>, threshold: u64) -> (r: Vec<
    SearchResult,
>)
    requires
        shares@.len() == results@.len(),
    ensures
        result_views(r@) == reaching(result_views(results@), shares@, threshold),
{
    let ghost all = result_views(results@);
    let mut rest: Vec<SearchResult> = results;
    let mut kept: Vec<SearchResult> = Vec::new();
    let count: usize = rest.len();
    let mut i: usize = 0;
    assert(all.skip(0) =~= all);
    assert(result_views(kept@) =~= reaching(all.take(0), shares@, threshold));
    while i < count
        invariant
            count == all.len(),
            shares@.len() == count,
            i <= count,
            result_views(rest@) == all.skip(i as int),
            result_views(kept@) == reaching(all.take(i as int), shares@, threshold),
        decreases count - i,
    {
        let ghost before = result_views(kept@);
        let ghost left = rest@;
        assert(rest@.len() == result_views(rest@).len());
        let result: SearchResult = rest.remove(0);
        proof {
            assert(result@ == result_views(left)[0]);
            assert forall|k: int| 0 <= k < rest@.len() implies result_views(rest@)[k] == all.skip(
                i + 1,
            )[k] by {
                assert(result_views(left)[k + 1] == all.skip(i as int)[k + 1]);
            }
            assert(result_views(rest@) =~= all.skip(i + 1));
            assert(all.take(i + 1).drop_last() =~= all.take(i as int));
        }
        let ghost held = result@;
        if at_most(threshold, shares[i]) {
            kept.push(result);
            assert(result_views(kept@) =~= before.push(held));
        }
        i += 1;
    }
    assert(all.take(i as int) =~= all);
    kept
}

/// Some result has a score above zero.
pub open spec fn scores_above_zero(results: Seq<SearchResult>) -> bool {
    exists|i: int|
        0 <= i < results.len() && is_below(0, (#[trigger] results[i]).similarity@.bits)
}

/// What is shown is one of the results, and its share reaches the threshold.
pub open spec fn reaches(
    results: Seq<SearchResult>,
    shares: Seq<u64>,
    threshold: u64,
    shown: SearchResultView,
) -> bool {
    exists|j: int|
        0 <= j < results.len() && (#[trigger] results[j])@ == shown && is_at_most(
            threshold,
            shares[j],
        )
}

/// The answer to a search. `shares` gives, for each result, the share of the best score that its
/// own is.
pub fn finish_search(
    container_tag: String,
    results: Vec<SearchResult>,
    shares: &Vec<u64>,
    threshold: Option<u64>,
    limit: usize,
    timing: u64,
) -> (r: SearchResponse)
    requires
        shares@.len() == results@.len(),
    ensures
        r.container_tag@ == container_tag@,
        result_views(r.results@) == first_results(
            kept_results(result_views(results@), shares@, threshold),
            limit as int,
        ),
        r.results@.len() <= limit,
        threshold is None ==> {
            &&& r.results@.len() == limit || r.results@.len() == results@.len()
            &&& forall|i: int|
                0 <= i < r.results@.len() ==> (#[trigger] r.results@[i])@ == results@[i]@
        },
        threshold is Some && scores_above_zero(results@) ==> {
            &&& forall|i: int|
                0 <= i < r.results@.len() ==> reaches(
                    results@,
                    shares@,
                    threshold->0,
                    (#[trigger] r.results@[i])@,
                )
            &&& r.results@.len() < limit ==> forall|j: int|
                0 <= j < results@.len() && is_at_most(threshold->0, shares@[j]) ==> result_views(
                    r.results@,
                ).contains((#[trigger] results@[j])@)
        },
        r.timing == timing,
        r.total == r.results@.len(),
{
    let ghost all = result_views(results@);
    let ghost before = results@;
    let top: u64 = top_score(&results);
    let mut kept: Vec<SearchResult> = match threshold {
        Some(threshold) => if below(0, top) {
            retain_reaching(results, shares, threshold)
        } else {
            results
        },
        None => results,
    };
    let ghost held = result_views(kept@);
    if kept.len() > limit {
        kept.truncate(limit);
        assert(result_views(kept@) =~= held.take(limit as int));
    }
    proof {
        let shown = result_views(kept@);
        assert forall|i: int| 0 <= i < kept@.len() implies (#[trigger] kept@[i])@ == shown[i] by {}
        assert forall|j: int| 0 <= j < before.len() implies (#[trigger] before[j])@ == all[j] by {}
        if threshold is Some && scores_above_zero(before) {
            let best = choose|i: int|
                0 <= i < before.len() && is_below(0, (#[trigger] before[i]).similarity@.bits);
            assert(all[best].similarity.bits == before[best].similarity@.bits);
            assert forall|i: int| 0 <= i < kept@.len() implies reaches(
                before,
                shares@,
                threshold->0,
                (#[trigger] kept@[i])@,
            ) by {
                a_result_stays_where_its_share_suffices(all, shares@, threshold->0, best, best);
                let stay = kept_results(all, shares@, threshold);
                assert(kept@[i]@ == stay[i]);
                let j = choose|j: int|
                    0 <= j < all.len() && #[trigger] all[j] == stay[i] && is_at_most(
                        threshold->0,
                        shares@[j],
                    );
                assert(before[j]@ == kept@[i]@);
            }
            assert forall|j: int|
                0 <= j < before.len() && is_at_most(threshold->0, shares@[j]) && kept@.len()
                    < limit implies shown.contains((#[trigger] before[j])@) by {
                a_result_stays_where_its_share_suffices(all, shares@, threshold->0, best, j);
                assert(shown =~= held);
            }
        }
    }
    let total: usize = kept.len();
    SearchResponse { container_tag, results: kept, timing, total }
}

/// No score is above the best one, which is zero or one of them.
pub proof fn best_score_is_best(results: Seq<SearchResultView>)
    ensures
        !crate::score::is_nan(best_score(results)),
        forall|i: int|
            0 <= i < results.len() ==> !is_below(
                best_score(results),
                (#[trigger] results[i]).similarity.bits,
            ),
        best_score(results) == 0 || exists|i: int|
            0 <= i < results.len() && (#[trigger] results[i]).similarity.bits == best_score(
                results,
            ),
    decreases results.len(),
{
    if results.len() > 0 {
        let before = results.drop_last();
        best_score_is_best(before);
        assert forall|i: int| 0 <= i < results.len() implies !is_below(
            best_score(results),
            (#[trigger] results[i]).similarity.bits,
        ) by {
            if i < before.len() {
                assert(before[i] == results[i]);
            }
        }
        if best_score(results) == best_score(before) && best_score(before) != 0 {
            let i = choose|i: int|
                0 <= i < before.len() && (#[trigger] before[i]).similarity.bits == best_score(
                    before,
                );
            assert(results[i].similarity.bits == best_score(results));
        } else if best_score(results) != 0 {
            assert(results[results.len() - 1].similarity.bits == best_score(results));
        }
    }
}

/// The places of the results that stay, in the list they come from.
pub open spec fn reaching_places(count: nat, shares: Seq<u64>, threshold: u64) -> Seq<int>
    decreases count,
{
    if count == 0 {
        Seq::empty()
    } else {
        let before = reaching_places((count - 1) as nat, shares, threshold);
        if is_at_most(threshold, shares[count - 1]) {
            before.push(count - 1)
        } else {
            before
        }
    }
}

/// A cutoff keeps exactly the results whose share reaches it, each once and in their order.
pub proof fn cutoff_selects(results: Seq<SearchResultView>, shares: Seq<u64>, threshold: u64)
    ensures
        ({
            let places = reaching_places(results.len(), shares, threshold);
            let kept = reaching(results, shares, threshold);
            &&& kept.len() == places.len()
            &&& forall|i: int|
                0 <= i < kept.len() ==> 0 <= #[trigger] places[i] < results.len() && kept[i]
                    == results[places[i]] && is_at_most(threshold, shares[places[i]])
            &&& forall|i: int, j: int|
                0 <= i < j < places.len() ==> #[trigger] places[i] < #[trigger] places[j]
            &&& forall|j: int|
                0 <= j < results.len() && is_at_most(threshold, #[trigger] shares[j])
                    ==> places.contains(j)
        }),
    decreases results.len(),
{
    if results.len() > 0 {
        let before = results.drop_last();
        cutoff_selects(before, shares, threshold);
        let old_places = reaching_places(before.len(), shares, threshold);
        let places = reaching_places(results.len(), shares, threshold);
        let n = results.len() - 1;
        if is_at_most(threshold, shares[n]) {
            assert(places == old_places.push(n));
            assert(places[places.len() - 1] == n);
            assert forall|j: int|
                0 <= j < results.len() && is_at_most(
                    threshold,
                    #[trigger] shares[j],
                ) implies places.contains(j) by {
                if j < n {
                    assert(old_places.contains(j));
                    let k = choose|k: int| 0 <= k < old_places.len() && old_places[k] == j;
                    assert(places[k] == j);
                }
            }
        }
    }
}

/// A higher cutoff never shows a result that a lower one hides.
pub proof fn higher_cutoffs_keep_less(
    results: Seq<SearchResultView>,
    shares: Seq<u64>,
    lower: u64,
    higher: u64,
)
    requires
        is_at_most(lower, higher),
    ensures
        forall|j: int|
            reaching_places(results.len(), shares, higher).contains(j) ==> #[trigger] reaching_places(
                results.len(),
                shares,
                lower,
            ).contains(j),
        reaching(results, shares, higher).len() <= reaching(results, shares, lower).len(),
    decreases results.len(),
{
    cutoff_selects(results, shares, lower);
    cutoff_selects(results, shares, higher);
    let few = reaching_places(results.len(), shares, higher);
    let many = reaching_places(results.len(), shares, lower);
    assert forall|j: int| few.contains(j) implies #[trigger] many.contains(j) by {
        let k = choose|k: int| 0 <= k < few.len() && few[k] == j;
        assert(is_at_most(higher, shares[few[k]]));
        assert(is_at_most(lower, shares[j]));
    }
    if results.len() > 0 {
        higher_cutoffs_keep_less(results.drop_last(), shares, lower, higher);
    }
}

/// Unless what surrounds the memories was asked for, no result that a search shows carries it;
/// where it was, every memory that is shown does, and no chunk.
pub proof fn context_is_shown_where_asked(
    memories: Seq<RecallHit>,
    chunks: Seq<ChunkHit>,
    asked: bool,
    shares: Seq<u64>,
    threshold: Option<u64>,
    limit: int,
)
    requires
        limit >= 0,
    ensures
        ({
            let found = memory_results(memories, asked) + chunk_results(chunks);
            let shown = first_results(kept_results(found, shares, threshold), limit);
            forall|i: int|
                0 <= i < shown.len() ==> ((#[trigger] shown[i]).aggregate is Some <==> asked
                    && shown[i].chunk is None)
        }),
{
    let found = memory_results(memories, asked) + chunk_results(chunks);
    let shown = first_results(kept_results(found, shares, threshold), limit);
    search_shows_what_was_found(found, shares, threshold, limit);
    assert forall|i: int| 0 <= i < shown.len() implies ((#[trigger] shown[i]).aggregate is Some
        <==> asked && shown[i].chunk is None) by {
        assert(found.contains(shown[i]));
        let j = choose|j: int| 0 <= j < found.len() && found[j] == shown[i];
        if j < memories.len() {
            assert(found[j] == memory_result(memories[j], asked));
        } else {
            assert(found[j] == chunk_result(chunks[j - memories.len()]));
        }
    }
}

/// However many hits come back, no more than the limit are shown, and none that was not found.
pub proof fn search_shows_what_was_found(
    results: Seq<SearchResultView>,
    shares: Seq<u64>,
    threshold: Option<u64>,
    limit: int,
)
    requires
        limit >= 0,
    ensures
        first_results(kept_results(results, shares, threshold), limit).len() <= limit,
        forall|i: int|
            0 <= i < first_results(kept_results(results, shares, threshold), limit).len()
                ==> results.contains(
                #[trigger] first_results(kept_results(results, shares, threshold), limit)[i],
            ),
{
    let kept = kept_results(results, shares, threshold);
    if threshold is Some && is_below(0, best_score(results)) {
        cutoff_selects(results, shares, threshold->0);
    }
    let shown = first_results(kept, limit);
    assert forall|i: int| 0 <= i < shown.len() implies results.contains(#[trigger] shown[i]) by {
        assert(shown[i] == kept[i]);
        if threshold is Some && is_below(0, best_score(results)) {
            let places = reaching_places(results.len(), shares, threshold->0);
            assert(kept[i] == results[places[i]]);
        } else {
            assert(kept[i] == results[i]);
        }
    }
}

// ---------------------------------------------------------------------------------------------
// Profiles
// ---------------------------------------------------------------------------------------------

/// What is known of an actor: facts that last, and what came up lately.
#[derive(Debug)]
pub struct Profile {
    pub static_facts: Vec<String>,
    pub dynamic_ctx: Vec<String>,
}

/// A request for an actor's profile.
#[derive(Debug)]
pub struct ProfileRequest {
    pub container_tag: Option<String>,
    pub container_tags: Option<Vec<String>>,
    /// Without a query, or with a blank one, no memories are recalled.
    pub q: Option<String>,
    pub limit: Option<i64>,
    /// Applies to the recalled memories only.
    pub filters: Option<FilterNode>,
}

/// How a request for a profile is carried out.
#[derive(Debug)]
pub struct ProfilePlan {
    pub container_tag: String,
    pub call: ScopedQuery,
    pub has_query: bool,
}

/// A query that asks for something.
pub open spec fn asks(q: Option<Seq<char>>) -> bool {
    q is Some && !is_blank(q->0)
}

/// The plan carries out the request for a profile.
pub open spec fn plans_profile(plan: ProfilePlan, req: ProfileRequest) -> bool {
    let tag = text_of(req.container_tag);
    let tags = texts_of(req.container_tags);
    &&& plan.container_tag@ == resolved_tag(tag, tags)->Ok_0
    &&& asks_for(
        plan.call,
        resolved_scope(tag, tags),
        match req.q {
            Some(q) => q@,
            None => ""@,
        },
        clamped_limit(req.limit),
        meta_filter_of(filter_of(req.filters)),
    )
    &&& plan.has_query == asks(text_of(req.q))
}

/// Decides how a request for a profile is carried out.
pub fn plan_profile(req: ProfileRequest) -> (r: Result<ProfilePlan, ApiError>)
    ensures
        match r {
            Ok(plan) => target_fault(text_of(req.container_tag), texts_of(req.container_tags))
                is None && plans_profile(plan, req),
            Err(e) => target_fault(text_of(req.container_tag), texts_of(req.container_tags))
                == Some(e@),
        },
{
    let target: Target = match resolve_target(req.container_tag, req.container_tags) {
        Ok(target) => target,
        Err(e) => {
            return Err(e);
        },
    };
    let query: &str = match &req.q {
        Some(q) => q.as_str(),
        None => "",
    };
    let has_query: bool = match &req.q {
        Some(q) => !blank(q.as_str()),
        None => false,
    };
    let call: ScopedQuery = scoped_query(
        &target.scope,
        query,
        clamp_limit(req.limit),
        &req.filters,
    );
    Ok(ProfilePlan { container_tag: target.container_tag, call, has_query })
}

/// A profile as it is shown.
#[derive(Debug)]
pub struct ProfileBody {
    pub static_facts: Vec<String>,
    pub dynamic_ctx: Vec<String>,
}

/// The memories shown with a profile.
#[derive(Debug)]
pub struct ProfileSearchResults {
    pub results: Vec<SearchResult>,
    /// How many milliseconds the profile and the recall took.
    pub timing: u64,
    pub total: usize,
}

/// The answer to a request for a profile.
#[derive(Debug)]
pub struct ProfileResponse {
    pub container_tag: String,
    pub profile: ProfileBody,
    /// There where a query was given.
    pub search_results: Option<ProfileSearchResults>,
}

/// The answer to a request for a profile: the profile as it is, and the relevant memories where
/// a query was given.
pub fn profile_response(
    container_tag: String,
    has_query: bool,
    profile: Profile,
    relevant: &Vec<RecallHit>,
    elapsed_ms: u64,
) -> (r: ProfileResponse)
    ensures
        r.container_tag@ == container_tag@,
        texts(r.profile.static_facts@) == texts(profile.static_facts@),
        texts(r.profile.dynamic_ctx@) == texts(profile.dynamic_ctx@),
        r.search_results is Some <==> has_query,
        r.search_results matches Some(found) ==> {
            &&& result_views(found.results@) == memory_results(relevant@, false)
            &&& found.timing == elapsed_ms
            &&& found.total == relevant@.len()
        },
{
    let search_results: Option<ProfileSearchResults> = if has_query {
        let no_chunks: Vec<ChunkHit> = Vec::new();
        let results: Vec<SearchResult> = merge_hits(relevant, &no_chunks, false);
        assert(memory_results(relevant@, false) + chunk_results(no_chunks@) =~= memory_results(
            relevant@,
            false,
        ));
        assert(result_views(results@).len() == results@.len());
        let total: usize = results.len();
        Some(ProfileSearchResults { results, timing: elapsed_ms, total })
    } else {
        None
    };
    ProfileResponse {
        container_tag,
        profile: ProfileBody {
            static_facts: profile.static_facts,
            dynamic_ctx: profile.dynamic_ctx,
        },
        search_results,
    }
}

// ---------------------------------------------------------------------------------------------
// Laws
// ---------------------------------------------------------------------------------------------

/// Each result shows its own hit: the memories one by one, and behind them the chunks one by one,
/// each with the metadata, the text, the score and the time of its hit. Where what surrounds the
/// memories was asked for, each of them shows what surrounds it, and nothing where nothing does.
pub proof fn results_show_their_hits(memories: Seq<RecallHit>, chunks: Seq<ChunkHit>, asked: bool)
    ensures
        ({
            let found = memory_results(memories, asked) + chunk_results(chunks);
            &&& found.len() == memories.len() + chunks.len()
            &&& forall|i: int|
                0 <= i < memories.len() ==> {
                    &&& (#[trigger] found[i]).metadata == memories[i].metadata@
                    &&& found[i].memory == text_of(memories[i].content)
                    &&& found[i].chunk is None
                    &&& found[i].similarity == memories[i].score@
                    &&& found[i].updated_at == rfc3339_of(time_of(memories[i].recorded_at))
                    &&& found[i].id == id_text(memories[i].id)
                    &&& found[i].aggregate is Some <==> asked
                    &&& asked && memories[i].lineage is Some ==> found[i].aggregate == Some(
                        aggregated(memories[i].lineage->0),
                    )
                    &&& asked && memories[i].lineage is None ==> {
                        &&& found[i].aggregate->0.parents.len() == 0
                        &&& found[i].aggregate->0.children.len() == 0
                        &&& found[i].aggregate->0.documents.len() == 0
                    }
                }
            &&& forall|i: int|
                0 <= i < chunks.len() ==> {
                    let shown = found[memories.len() + i];
                    &&& shown.metadata == (#[trigger] chunks[i]).document_metadata@
                    &&& shown.chunk == Some(chunks[i].content@)
                    &&& shown.memory is None
                    &&& shown.similarity == chunks[i].score@
                    &&& shown.updated_at == rfc3339_of(time_of(chunks[i].document_created_at))
                    &&& shown.id == id_text(chunks[i].id)
                    &&& shown.aggregate is None
                }
        }),
{
    let found = memory_results(memories, asked) + chunk_results(chunks);
    assert forall|i: int| 0 <= i < chunks.len() implies found[memories.len() + i] == chunk_result(
        #[trigger] chunks[i],
    ) by {}
}

/// The earlier and the later versions in two lists are those in the one and then those in the
/// other. One version is earlier or later, and its own the memory is neither.
pub proof fn updates_of_two_lists(
    a: Seq<MemoryVersion>,
    b: Seq<MemoryVersion>,
    one: MemoryVersion,
    version: i32,
    earlier: bool,
)
    ensures
        earlier && one.version < version || !earlier && one.version > version ==> updates(
            seq![one],
            version,
            earlier,
        ) == seq![RelativeView { relation: "updates"@, memory: text_of(one.content) }],
        earlier && one.version >= version || !earlier && one.version <= version ==> updates(
            seq![one],
            version,
            earlier,
        ).len() == 0,
        updates(a + b, version, earlier) == updates(a, version, earlier) + updates(
            b,
            version,
            earlier,
        ),
    decreases b.len(),
{
    reveal_with_fuel(updates, 2);
    assert(seq![one].drop_last() =~= Seq::empty());
    assert(seq![one].last() == one);
    let shown = RelativeView { relation: "updates"@, memory: text_of(one.content) };
    assert(Seq::empty().push(shown) =~= seq![shown]);
    if b.len() == 0 {
        assert(a + b =~= a);
        assert(updates(a, version, earlier) + updates(b, version, earlier) =~= updates(
            a,
            version,
            earlier,
        ));
    } else {
        updates_of_two_lists(a, b.drop_last(), one, version, earlier);
        assert((a + b).drop_last() =~= a + b.drop_last());
        assert((a + b).last() == b.last());
        assert(updates(a + b, version, earlier) =~= updates(a, version, earlier) + updates(
            b,
            version,
            earlier,
        ));
    }
}

/// The neighbours at two lists of edges are those at the one and then those at the other. One edge
/// has one, on its own side.
pub proof fn neighbours_of_two_lists(
    a: Seq<RelationEdge>,
    b: Seq<RelationEdge>,
    one: RelationEdge,
    outgoing: bool,
)
    ensures
        one.outgoing == outgoing ==> neighbours(seq![one], outgoing) == seq![
            RelativeView { relation: one.relation@, memory: text_of(one.neighbour) },
        ],
        one.outgoing != outgoing ==> neighbours(seq![one], outgoing).len() == 0,
        neighbours(a + b, outgoing) == neighbours(a, outgoing) + neighbours(b, outgoing),
    decreases b.len(),
{
    reveal_with_fuel(neighbours, 2);
    assert(seq![one].drop_last() =~= Seq::empty());
    assert(seq![one].last() == one);
    let shown = RelativeView { relation: one.relation@, memory: text_of(one.neighbour) };
    assert(Seq::empty().push(shown) =~= seq![shown]);
    if b.len() == 0 {
        assert(a + b =~= a);
        assert(neighbours(a, outgoing) + neighbours(b, outgoing) =~= neighbours(a, outgoing));
    } else {
        neighbours_of_two_lists(a, b.drop_last(), one, outgoing);
        assert((a + b).drop_last() =~= a + b.drop_last());
        assert((a + b).last() == b.last());
        assert(neighbours(a + b, outgoing) =~= neighbours(a, outgoing) + neighbours(b, outgoing));
    }
}

proof fn each_version_is_on_its_side(list: Seq<MemoryVersion>, version: i32)
    ensures
        forall|k: int|
            0 <= k < list.len() && (#[trigger] list[k]).version < version ==> updates(
                list,
                version,
                true,
            ).contains(RelativeView { relation: "updates"@, memory: text_of(list[k].content) }),
        forall|k: int|
            0 <= k < list.len() && (#[trigger] list[k]).version > version ==> updates(
                list,
                version,
                false,
            ).contains(RelativeView { relation: "updates"@, memory: text_of(list[k].content) }),
        (forall|k: int| 0 <= k < list.len() ==> (#[trigger] list[k]).version != version)
            ==> updates(list, version, true).len() + updates(list, version, false).len()
            == list.len(),
        updates(list, version, true).len() + updates(list, version, false).len() <= list.len(),
{
    side_of_versions(list, version, true);
    side_of_versions(list, version, false);
    count_of_versions(list, version);
}

proof fn side_of_versions(list: Seq<MemoryVersion>, version: i32, earlier: bool)
    ensures
        forall|k: int|
            0 <= k < list.len() && (if earlier {
                (#[trigger] list[k]).version < version
            } else {
                list[k].version > version
            }) ==> updates(list, version, earlier).contains(
                RelativeView { relation: "updates"@, memory: text_of(list[k].content) },
            ),
    decreases list.len(),
{
    if list.len() > 0 {
        let before = list.drop_last();
        side_of_versions(before, version, earlier);
        let all = updates(list, version, earlier);
        let some = updates(before, version, earlier);
        assert forall|k: int|
            0 <= k < list.len() && (if earlier {
                (#[trigger] list[k]).version < version
            } else {
                list[k].version > version
            }) implies all.contains(
            RelativeView { relation: "updates"@, memory: text_of(list[k].content) },
        ) by {
            let shown = RelativeView { relation: "updates"@, memory: text_of(list[k].content) };
            if k < before.len() {
                assert(before[k] == list[k]);
                assert(some.contains(shown));
                let p = choose|p: int| 0 <= p < some.len() && some[p] == shown;
                assert(all[p] == shown);
            } else {
                assert(all.last() == shown);
            }
        }
    }
}

proof fn count_of_versions(list: Seq<MemoryVersion>, version: i32)
    ensures
        (forall|k: int| 0 <= k < list.len() ==> (#[trigger] list[k]).version != version)
            ==> updates(list, version, true).len() + updates(list, version, false).len()
            == list.len(),
        updates(list, version, true).len() + updates(list, version, false).len() <= list.len(),
    decreases list.len(),
{
    if list.len() > 0 {
        count_of_versions(list.drop_last(), version);
        assert(list.last() == list[list.len() - 1]);
        if forall|k: int| 0 <= k < list.len() ==> (#[trigger] list[k]).version != version {
            assert forall|k: int| 0 <= k < list.drop_last().len() implies (
            #[trigger] list.drop_last()[k]).version != version by {
                assert(list.drop_last()[k] == list[k]);
            }
        }
    }
}

proof fn each_edge_is_on_its_side(list: Seq<RelationEdge>, outgoing: bool)
    ensures
        forall|k: int|
            0 <= k < list.len() && (#[trigger] list[k]).outgoing == outgoing ==> neighbours(
                list,
                outgoing,
            ).contains(
                RelativeView { relation: list[k].relation@, memory: text_of(list[k].neighbour) },
            ),
        neighbours(list, true).len() + neighbours(list, false).len() == list.len(),
    decreases list.len(),
{
    if list.len() > 0 {
        let before = list.drop_last();
        each_edge_is_on_its_side(before, outgoing);
        let all = neighbours(list, outgoing);
        let some = neighbours(before, outgoing);
        assert forall|k: int|
            0 <= k < list.len() && (#[trigger] list[k]).outgoing == outgoing implies all.contains(
            RelativeView { relation: list[k].relation@, memory: text_of(list[k].neighbour) },
        ) by {
            let shown = RelativeView {
                relation: list[k].relation@,
                memory: text_of(list[k].neighbour),
            };
            if k < before.len() {
                assert(before[k] == list[k]);
                assert(some.contains(shown));
                let p = choose|p: int| 0 <= p < some.len() && some[p] == shown;
                assert(all[p] == shown);
            } else {
                assert(all.last() == shown);
            }
        }
    }
}

/// Every other version of a memory and every neighbour is shown on its side and nothing else is:
/// an earlier version or one that an edge leads to among the parents, a later version or one that
/// an edge comes from among the children. Every source is shown in its place.
pub proof fn lineage_is_shown_whole(lineage: Lineage)
    ensures
        ({
            let shown = aggregated(lineage);
            let versions = lineage.versions@;
            let edges = lineage.edges@;
            let sources = lineage.sources@;
            &&& forall|k: int|
                0 <= k < versions.len() && (#[trigger] versions[k]).version < lineage.version
                    ==> shown.parents.contains(
                    RelativeView { relation: "updates"@, memory: text_of(versions[k].content) },
                )
            &&& forall|k: int|
                0 <= k < versions.len() && (#[trigger] versions[k]).version > lineage.version
                    ==> shown.children.contains(
                    RelativeView { relation: "updates"@, memory: text_of(versions[k].content) },
                )
            &&& forall|k: int|
                0 <= k < edges.len() && (#[trigger] edges[k]).outgoing ==> shown.parents.contains(
                    RelativeView {
                        relation: edges[k].relation@,
                        memory: text_of(edges[k].neighbour),
                    },
                )
            &&& forall|k: int|
                0 <= k < edges.len() && !(#[trigger] edges[k]).outgoing
                    ==> shown.children.contains(
                    RelativeView {
                        relation: edges[k].relation@,
                        memory: text_of(edges[k].neighbour),
                    },
                )
            &&& shown.parents.len() + shown.children.len() <= versions.len() + edges.len()
            &&& edges.len() == 0 ==> shown.parents == updates(versions, lineage.version, true)
                && shown.children == updates(versions, lineage.version, false)
            &&& versions.len() == 0 ==> shown.parents == neighbours(edges, true) && shown.children
                == neighbours(edges, false)
            &&& updates(versions, lineage.version, true).is_prefix_of(shown.parents)
            &&& updates(versions, lineage.version, false).is_prefix_of(shown.children)
            &&& shown.documents.len() == sources.len()
            &&& forall|k: int|
                0 <= k < sources.len() ==> {
                    &&& (#[trigger] shown.documents[k]).id == id_text(sources[k].id)
                    &&& shown.documents[k].kind == sources[k].kind@
                    &&& shown.documents[k].created_at == rfc3339(
                        sources[k].ingested_at@.0,
                        sources[k].ingested_at@.1,
                    )
                    &&& shown.documents[k].updated_at == shown.documents[k].created_at
                }
        }),
{
    let shown = aggregated(lineage);
    let versions = lineage.versions@;
    let edges = lineage.edges@;
    let sources = lineage.sources@;
    each_version_is_on_its_side(versions, lineage.version);
    each_edge_is_on_its_side(edges, true);
    each_edge_is_on_its_side(edges, false);
    let earlier = updates(versions, lineage.version, true);
    let later = updates(versions, lineage.version, false);
    let led_to = neighbours(edges, true);
    let come_from = neighbours(edges, false);
    assert(earlier =~= shown.parents.subrange(0, earlier.len() as int));
    assert(later =~= shown.children.subrange(0, later.len() as int));
    if edges.len() == 0 {
        assert(shown.parents =~= earlier && shown.children =~= later);
    }
    if versions.len() == 0 {
        assert(shown.parents =~= led_to && shown.children =~= come_from);
    }
    assert forall|k: int| 0 <= k < versions.len() && (#[trigger] versions[k]).version
        < lineage.version implies shown.parents.contains(
        RelativeView { relation: "updates"@, memory: text_of(versions[k].content) },
    ) by {
        either_part_holds(
            earlier,
            led_to,
            RelativeView { relation: "updates"@, memory: text_of(versions[k].content) },
        );
    }
    assert forall|k: int| 0 <= k < versions.len() && (#[trigger] versions[k]).version
        > lineage.version implies shown.children.contains(
        RelativeView { relation: "updates"@, memory: text_of(versions[k].content) },
    ) by {
        either_part_holds(
            later,
            come_from,
            RelativeView { relation: "updates"@, memory: text_of(versions[k].content) },
        );
    }
    assert forall|k: int| 0 <= k < edges.len() && (
    #[trigger] edges[k]).outgoing implies shown.parents.contains(
        RelativeView { relation: edges[k].relation@, memory: text_of(edges[k].neighbour) },
    ) by {
        either_part_holds(
            earlier,
            led_to,
            RelativeView { relation: edges[k].relation@, memory: text_of(edges[k].neighbour) },
        );
    }
    assert forall|k: int| 0 <= k < edges.len() && !(
    #[trigger] edges[k]).outgoing implies shown.children.contains(
        RelativeView { relation: edges[k].relation@, memory: text_of(edges[k].neighbour) },
    ) by {
        either_part_holds(
            later,
            come_from,
            RelativeView { relation: edges[k].relation@, memory: text_of(edges[k].neighbour) },
        );
    }
}

proof fn either_part_holds(a: Seq<RelativeView>, b: Seq<RelativeView>, r: RelativeView)
    ensures
        a.contains(r) || b.contains(r) ==> (a + b).contains(r),
{
    if a.contains(r) {
        let p = choose|p: int| 0 <= p < a.len() && a[p] == r;
        assert((a + b)[p] == r);
    } else if b.contains(r) {
        let p = choose|p: int| 0 <= p < b.len() && b[p] == r;
        assert((a + b)[a.len() + p] == r);
    }
}

/// What a search shows is a beginning of what it keeps: as many results as there are or as the
/// limit allows, each in the place it had. Without a threshold, and where no score is above zero,
/// everything is kept.
pub proof fn search_shows_the_first_that_stay(
    results: Seq<SearchResultView>,
    shares: Seq<u64>,
    threshold: Option<u64>,
    limit: int,
)
    requires
        limit >= 0,
    ensures
        ({
            let kept = kept_results(results, shares, threshold);
            let shown = first_results(kept, limit);
            &&& shown.len() == if kept.len() < limit { kept.len() as int } else { limit }
            &&& forall|i: int| 0 <= i < shown.len() ==> #[trigger] shown[i] == kept[i]
            &&& threshold is None ==> kept == results
            &&& (forall|i: int|
                0 <= i < results.len() ==> !is_below(0, (#[trigger] results[i]).similarity.bits))
                ==> kept == results
        }),
{
    best_score_is_best(results);
    if threshold is Some && is_below(0, best_score(results)) {
        let i = choose|i: int|
            0 <= i < results.len() && (#[trigger] results[i]).similarity.bits == best_score(
                results,
            );
        assert(is_below(0, results[i].similarity.bits));
    }
}

/// With a threshold and a score above zero, a result stays exactly where its share of the best
/// score is at least the threshold.
pub proof fn a_result_stays_where_its_share_suffices(
    results: Seq<SearchResultView>,
    shares: Seq<u64>,
    threshold: u64,
    best: int,
    at: int,
)
    requires
        0 <= best < results.len(),
        is_below(0, results[best].similarity.bits),
        0 <= at < results.len(),
    ensures
        ({
            let kept = kept_results(results, shares, Some(threshold));
            &&& is_at_most(threshold, shares[at]) ==> kept.contains(results[at])
            &&& forall|i: int|
                0 <= i < kept.len() ==> exists|j: int|
                    0 <= j < results.len() && #[trigger] results[j] == #[trigger] kept[i]
                        && is_at_most(threshold, shares[j])
        }),
{
    best_score_is_best(results);
    assert(is_below(0, best_score(results)));
    cutoff_selects(results, shares, threshold);
    let kept = kept_results(results, shares, Some(threshold));
    let places = reaching_places(results.len(), shares, threshold);
    if is_at_most(threshold, shares[at]) {
        let k = choose|k: int| 0 <= k < places.len() && places[k] == at;
        assert(kept[k] == results[at]);
    }
    assert forall|i: int| 0 <= i < kept.len() implies exists|j: int|
        0 <= j < results.len() && #[trigger] results[j] == #[trigger] kept[i] && is_at_most(
            threshold,
            shares[j],
        ) by {
        assert(results[places[i]] == kept[i]);
    }
}

/// The scope a query runs in.
pub open spec fn scope_asked(call: ScopedQuery) -> ScopeView {
    ScopeView { actor_id: call.actor_id@, container_tags: texts(call.container_tags@) }
}

/// A filter that was sent, and the filter in a query, let the same metadata through.
pub open spec fn same_filter(sent: Option<FilterView>, asked: Option<MetaFilterView>) -> bool {
    &&& sent is None <==> asked is None
    &&& sent is Some && asked is Some ==> forall|metadata: JsonView|
        #[trigger] meta_matches(asked->0, metadata, 0) == node_matches(sent->0, metadata, 0)
}

/// The store's form of a filter lets the same metadata through.
pub proof fn filters_are_kept(sent: Option<FilterView>)
    ensures
        same_filter(sent, meta_filter_of(sent)),
{
    if sent is Some {
        assert forall|metadata: JsonView| #[trigger] meta_matches(
            meta_filter(sent->0),
            metadata,
            0,
        ) == node_matches(sent->0, metadata, 0) by {
            store_form_agrees(sent->0, metadata, 0);
        }
    }
}

/// A search is carried out in the container that the request names: the tag its queries run under
/// can be put together again from their scope. They ask for what the request asks for, for as many
/// hits as it wants or four times as many where a threshold will thin them, behind a filter that
/// lets the same metadata through.
pub proof fn searches_ask_for_what_was_asked(plan: SearchPlan, req: SearchRequest)
    requires
        search_fault(req) is None,
        plans_search(plan, req),
    ensures
        resolved_tag(text_of(req.container_tag), texts_of(req.container_tags)) == Ok::<
            Seq<char>,
            ApiErrorView,
        >(plan.container_tag@),
        plan.recall matches Some(call) ==> {
            &&& reconstructed_tag(scope_asked(call.scoped)) == plan.container_tag@
            &&& scope_asked(call.scoped) == parsed_scope(plan.container_tag@)
            &&& call.scoped.query@ == req.q@
            &&& same_filter(filter_of(req.filters), meta_of(call.scoped.filter))
            &&& req.threshold is None ==> call.scoped.limit == plan.limit
            &&& req.threshold is Some && plan.limit <= 50 ==> call.scoped.limit == 4 * plan.limit
            &&& req.threshold is Some && plan.limit >= 50 ==> call.scoped.limit == 200
            &&& !call.rerank
            &&& call.include_forgotten <==> req.including is Some
                && req.including->0.forgotten_memories == Some(true)
        },
        plan.chunks matches Some(call) ==> {
            &&& reconstructed_tag(scope_asked(call)) == plan.container_tag@
            &&& scope_asked(call) == parsed_scope(plan.container_tag@)
            &&& call.query@ == req.q@
            &&& same_filter(filter_of(req.filters), meta_of(call.filter))
            &&& req.threshold is None ==> call.limit == plan.limit
            &&& req.threshold is Some && plan.limit <= 50 ==> call.limit == 4 * plan.limit
            &&& req.threshold is Some && plan.limit >= 50 ==> call.limit == 200
        },
        req.limit is None ==> plan.limit == 10,
        req.limit matches Some(n) ==> {
            &&& 1 <= n <= 100 ==> plan.limit == n
            &&& n < 1 ==> plan.limit == 1
            &&& n > 100 ==> plan.limit == 100
        },
        plan.threshold == req.threshold,
        plan.recall is Some || plan.chunks is Some,
        req.search_mode is None ==> plan.recall is Some && plan.chunks is None,
        req.search_mode matches Some(mode) ==> {
            &&& mode@ == "documents"@ ==> plan.recall is None && plan.chunks is Some
            &&& mode@ == "hybrid"@ ==> plan.recall is Some && plan.chunks is Some
            &&& mode@ != "documents"@ && mode@ != "hybrid"@ ==> plan.recall is Some
                && plan.chunks is None
        },
        plan.aggregate <==> req.aggregate == Some(true),
{
    let tag = text_of(req.container_tag);
    let tags = texts_of(req.container_tags);
    scope_gives_the_tag_back(tag, tags);
    filters_are_kept(filter_of(req.filters));
    reveal_strlit("documents");
    reveal_strlit("hybrid");
    assert("documents"@.len() == 9);
    assert("hybrid"@.len() == 6);
    if let Some(call) = plan.recall {
        assert(scope_asked(call.scoped) == resolved_scope(tag, tags));
    }
    if let Some(call) = plan.chunks {
        assert(scope_asked(call) == resolved_scope(tag, tags));
    }
}

/// A search is refused exactly where its query is blank, or its container is not named properly.
pub proof fn searches_are_refused_without_query_or_container(req: SearchRequest)
    ensures
        search_fault(req) is None <==> !is_blank(req.q@) && resolved_tag(
            text_of(req.container_tag),
            texts_of(req.container_tags),
        ) is Ok,
        search_fault(req) matches Some(e) ==> e is BadRequest,
        is_blank(req.q@) ==> search_fault(req) == Some(ApiErrorView::BadRequest("q is empty"@)),
{
    the_tag_used_is_the_tag_sent(text_of(req.container_tag), texts_of(req.container_tags));
}

/// A profile is asked for in the container that the request names, with the request's query,
/// limit and filter; memories are shown with it where the query is there and not blank.
pub proof fn profiles_ask_for_what_was_asked(plan: ProfilePlan, req: ProfileRequest)
    requires
        resolved_tag(text_of(req.container_tag), texts_of(req.container_tags)) is Ok,
        plans_profile(plan, req),
    ensures
        resolved_tag(text_of(req.container_tag), texts_of(req.container_tags)) == Ok::<
            Seq<char>,
            ApiErrorView,
        >(plan.container_tag@),
        reconstructed_tag(scope_asked(plan.call)) == plan.container_tag@,
        scope_asked(plan.call) == parsed_scope(plan.container_tag@),
        req.q matches Some(q) ==> plan.call.query@ == q@ && plan.has_query == !is_blank(q@),
        req.q is None ==> plan.call.query@.len() == 0 && !plan.has_query,
        same_filter(filter_of(req.filters), meta_of(plan.call.filter)),
        req.limit is None ==> plan.call.limit == 10,
        req.limit matches Some(n) ==> {
            &&& 1 <= n <= 100 ==> plan.call.limit == n
            &&& n < 1 ==> plan.call.limit == 1
            &&& n > 100 ==> plan.call.limit == 100
        },
{
    let tag = text_of(req.container_tag);
    let tags = texts_of(req.container_tags);
    scope_gives_the_tag_back(tag, tags);
    filters_are_kept(filter_of(req.filters));
    reveal_strlit("");
    assert(scope_asked(plan.call) == resolved_scope(tag, tags));
}

} // verus!
