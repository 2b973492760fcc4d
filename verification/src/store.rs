//! What the store's rows hold, and how an actor is erased from it.

use vstd::prelude::*;
use crate::number::{decimal, decimal_text};
use crate::text::{
    join, join_of_two_lists, join_texts, join_then_split, quote, quoted, split, texts,
};

verus! {

/// How many components an embedding has.
pub const EMBEDDING_DIM: usize = 1536;

/// What a memory needs to be stored: its content, and what it says of whom where that is known.
#[derive(Debug)]
pub struct NewMemory<'a> {
    pub actor_id: &'a str,
    pub content: &'a str,
    pub subject: Option<&'a str>,
    pub attribute: Option<&'a str>,
    pub value: Option<&'a str>,
    pub single_valued: bool,
}

// ---------------------------------------------------------------------------------------------
// Embeddings
// ---------------------------------------------------------------------------------------------

/// The text of a component: a zero stands for one that is not a finite number.
pub open spec fn component_text(component: Option<Seq<char>>) -> Seq<char> {
    match component {
        Some(text) => text,
        None => "0"@,
    }
}

/// The texts of the components.
pub open spec fn component_texts(components: Seq<Option<String>>) -> Seq<Seq<char>> {
    Seq::new(
        components.len(),
        |i: int| component_text(crate::text::text_of(components[i])),
    )
}

/// An embedding as the database reads it: the components between square brackets, with commas
/// between them.
pub open spec fn vector_text(components: Seq<Option<String>>) -> Seq<char> {
    "["@ + join(component_texts(components), ","@) + "]"@
}

/// An embedding as the database reads it. A component is the text of a finite number, or none
/// for one that is not finite.
pub fn vec_literal(components: &Vec<Option<String>>) -> (r: String)
    ensures
        r@ == vector_text(components@),
{
    let mut parts: Vec<String> = Vec::new();
    let mut i: usize = 0;
    while i < components.len()
        invariant
            i <= components@.len(),
            texts(parts@) =~= component_texts(components@).take(i as int),
        decreases components@.len() - i,
    {
        let ghost before = texts(parts@);
        let part: String = match &components[i] {
            Some(text) => text.clone(),
            None => "0".to_owned(),
        };
        let ghost held = part@;
        parts.push(part);
        i += 1;
        assert(texts(parts@) =~= before.push(held));
    }
    assert(texts(parts@) =~= component_texts(components@));
    let mut out: String = "[".to_owned();
    out.append(join_texts(&parts, ",").as_str());
    out.append("]");
    out
}

/// Between the brackets of an embedding's text stand its components in order, one for each: the
/// text of a finite one as it is, and a zero for any other. Split at the commas, they come back.
pub proof fn components_stand_between_the_brackets(components: Seq<Option<String>>)
    requires
        components.len() > 0,
        forall|i: int|
            0 <= i < components.len() ==> (#[trigger] components[i] matches Some(text)
                ==> !text@.contains(',')),
    ensures
        ({
            let whole = vector_text(components);
            let inner = whole.subrange(1, whole.len() - 1);
            let parts = split(inner, ',');
            &&& whole[0] == '['
            &&& whole.last() == ']'
            &&& parts.len() == components.len()
            &&& forall|i: int|
                0 <= i < components.len() ==> #[trigger] parts[i] == match components[i] {
                    Some(text) => text@,
                    None => seq!['0'],
                }
        }),
{
    reveal_strlit("[");
    reveal_strlit("]");
    reveal_strlit(",");
    reveal_strlit("0");
    let texts = component_texts(components);
    let whole = vector_text(components);
    let inner = whole.subrange(1, whole.len() - 1);
    assert(","@ =~= seq![',']);
    assert("0"@ =~= seq!['0']);
    assert(inner =~= join(texts, ","@));
    assert forall|i: int| 0 <= i < texts.len() implies !(#[trigger] texts[i]).contains(',') by {
        assert(components[i] is Some || components[i] is None);
    }
    join_then_split(texts, ',');
}

/// The setting under which a search walks the index on past its first candidates.
pub open spec fn relaxed_scan() -> Seq<char> {
    "SET LOCAL hnsw.iterative_scan = 'relaxed_order'"@
}

/// The setting a search needs, if any: a filter on container tags is applied to the candidates
/// that the index gives, and can leave too few of them unless the index is walked on.
pub fn scan_setting(container_tags: &[String]) -> (r: Option<&'static str>)
    ensures
        r is Some <==> container_tags@.len() > 0,
        r matches Some(setting) ==> setting@ == relaxed_scan(),
{
    if container_tags.len() > 0 {
        Some("SET LOCAL hnsw.iterative_scan = 'relaxed_order'")
    } else {
        None
    }
}

// ---------------------------------------------------------------------------------------------
// Erasing an actor
// ---------------------------------------------------------------------------------------------

/// The rows that were removed, by table.
#[derive(Debug, Clone, Copy, PartialEq, Eq, Structural)]
pub struct PurgeCounts {
    pub memories: u64,
    pub chunks: u64,
    pub documents: u64,
    pub sources: u64,
    pub profile: u64,
}

/// The tables that hold an actor's rows.
#[derive(Debug, Clone, Copy, PartialEq, Eq, Structural)]
pub enum Table {
    Memory,
    Chunk,
    Document,
    Source,
    Profile,
}

/// A step of an erasure.
#[derive(Debug, Clone, Copy, PartialEq, Eq, Structural)]
pub enum PurgeStep {
    /// Memories stop pointing at the memories they supersede.
    Detach,
    /// The actor's rows in a table are removed.
    Delete(Table),
}

/// The steps of an erasure, in order.
pub open spec fn purge_steps() -> Seq<PurgeStep> {
    seq![
        PurgeStep::Detach,
        PurgeStep::Delete(Table::Memory),
        PurgeStep::Delete(Table::Chunk),
        PurgeStep::Delete(Table::Document),
        PurgeStep::Delete(Table::Source),
        PurgeStep::Delete(Table::Profile),
    ]
}

/// Rows of one table point at rows of another. Memories also point at memories, those that they
/// supersede.
pub open spec fn points_at(from: Table, to: Table) -> bool {
    ||| from == Table::Memory && to == Table::Memory
    ||| from == Table::Memory && to == Table::Source
    ||| from == Table::Chunk && to == Table::Document
    ||| from == Table::Document && to == Table::Source
}

/// Rows are removed before the rows they point at, and memories are detached from each other
/// before any is removed: no removal leaves a row that points nowhere.
pub proof fn referring_rows_go_first(i: int, j: int, from: Table, to: Table)
    requires
        0 <= i < purge_steps().len(),
        0 <= j < purge_steps().len(),
        purge_steps()[i] == PurgeStep::Delete(from),
        purge_steps()[j] == PurgeStep::Delete(to),
        points_at(from, to),
    ensures
        i < j || (from == to && purge_steps()[0] == PurgeStep::Detach && i > 0),
{
}

/// Every table is emptied of the actor's rows, and each once.
pub proof fn every_table_is_emptied_once(table: Table)
    ensures
        exists|i: int|
            0 <= i < purge_steps().len() && #[trigger] purge_steps()[i] == PurgeStep::Delete(table),
        forall|i: int, j: int|
            0 <= i < purge_steps().len() && 0 <= j < purge_steps().len()
                && #[trigger] purge_steps()[i] == PurgeStep::Delete(table)
                && #[trigger] purge_steps()[j] == PurgeStep::Delete(table) ==> i == j,
{
    let steps = purge_steps();
    match table {
        Table::Memory => assert(steps[1] == PurgeStep::Delete(table)),
        Table::Chunk => assert(steps[2] == PurgeStep::Delete(table)),
        Table::Document => assert(steps[3] == PurgeStep::Delete(table)),
        Table::Source => assert(steps[4] == PurgeStep::Delete(table)),
        Table::Profile => assert(steps[5] == PurgeStep::Delete(table)),
    }
}

/// The statement that carries out a step, for a tenant and an actor to be bound to.
pub open spec fn step_statement(step: PurgeStep) -> Seq<char> {
    match step {
        PurgeStep::Detach =>
            "UPDATE mnestic_memory SET supersedes_id = NULL WHERE tenant_id = $1 AND actor_id = $2"@,
        PurgeStep::Delete(Table::Memory) =>
            "DELETE FROM mnestic_memory WHERE tenant_id = $1 AND actor_id = $2"@,
        PurgeStep::Delete(Table::Chunk) =>
            "DELETE FROM mnestic_chunk WHERE tenant_id = $1 AND actor_id = $2"@,
        PurgeStep::Delete(Table::Document) =>
            "DELETE FROM mnestic_document WHERE tenant_id = $1 AND actor_id = $2"@,
        PurgeStep::Delete(Table::Source) =>
            "DELETE FROM mnestic_source WHERE tenant_id = $1 AND actor_id = $2"@,
        PurgeStep::Delete(Table::Profile) =>
            "DELETE FROM mnestic_profile WHERE tenant_id = $1 AND actor_id = $2"@,
    }
}

/// The statement that carries out a step.
pub fn purge_statement(step: PurgeStep) -> (r: &'static str)
    ensures
        r@ == step_statement(step),
        step matches PurgeStep::Delete(table) ==> r@ == delete_from(table_name(table)),
        step == PurgeStep::Delete(Table::Memory) ==> r@
            == "DELETE FROM mnestic_memory WHERE tenant_id = $1 AND actor_id = $2"@,
        step == PurgeStep::Delete(Table::Chunk) ==> r@
            == "DELETE FROM mnestic_chunk WHERE tenant_id = $1 AND actor_id = $2"@,
        step == PurgeStep::Delete(Table::Document) ==> r@
            == "DELETE FROM mnestic_document WHERE tenant_id = $1 AND actor_id = $2"@,
        step == PurgeStep::Delete(Table::Source) ==> r@
            == "DELETE FROM mnestic_source WHERE tenant_id = $1 AND actor_id = $2"@,
        step == PurgeStep::Delete(Table::Profile) ==> r@
            == "DELETE FROM mnestic_profile WHERE tenant_id = $1 AND actor_id = $2"@,
{
    proof {
        if let PurgeStep::Delete(table) = step {
            each_statement_names_its_table(table);
        }
    }
    match step {
        PurgeStep::Detach =>
            "UPDATE mnestic_memory SET supersedes_id = NULL WHERE tenant_id = $1 AND actor_id = $2",
        PurgeStep::Delete(Table::Memory) =>
            "DELETE FROM mnestic_memory WHERE tenant_id = $1 AND actor_id = $2",
        PurgeStep::Delete(Table::Chunk) =>
            "DELETE FROM mnestic_chunk WHERE tenant_id = $1 AND actor_id = $2",
        PurgeStep::Delete(Table::Document) =>
            "DELETE FROM mnestic_document WHERE tenant_id = $1 AND actor_id = $2",
        PurgeStep::Delete(Table::Source) =>
            "DELETE FROM mnestic_source WHERE tenant_id = $1 AND actor_id = $2",
        PurgeStep::Delete(Table::Profile) =>
            "DELETE FROM mnestic_profile WHERE tenant_id = $1 AND actor_id = $2",
    }
}

/// The name of a table in the database.
pub open spec fn table_name(table: Table) -> Seq<char> {
    match table {
        Table::Memory => "mnestic_memory"@,
        Table::Chunk => "mnestic_chunk"@,
        Table::Document => "mnestic_document"@,
        Table::Source => "mnestic_source"@,
        Table::Profile => "mnestic_profile"@,
    }
}

/// The condition that a row belongs to the actor and the tenant that are bound.
pub open spec fn owner_condition() -> Seq<char> {
    " WHERE tenant_id = $1 AND actor_id = $2"@
}

/// The statement that removes an owner's rows from the table of that name.
pub open spec fn delete_from(name: Seq<char>) -> Seq<char> {
    "DELETE FROM "@ + name + owner_condition()
}

/// The tables have different names.
pub proof fn tables_have_names_of_their_own(a: Table, b: Table)
    requires
        table_name(a) == table_name(b),
    ensures
        a == b,
{
    reveal_strlit("mnestic_memory");
    reveal_strlit("mnestic_chunk");
    reveal_strlit("mnestic_document");
    reveal_strlit("mnestic_source");
    reveal_strlit("mnestic_profile");
    assert("mnestic_memory"@.len() == 14);
    assert("mnestic_chunk"@.len() == 13);
    assert("mnestic_document"@.len() == 16);
    assert("mnestic_source"@.len() == 14);
    assert("mnestic_profile"@.len() == 15);
    assert(table_name(a).len() == table_name(b).len());
    assert(table_name(a)[8] == table_name(b)[8]);
    assert("mnestic_memory"@[8] == 'm');
    assert("mnestic_source"@[8] == 's');
}

/// A table is named after what it holds.
pub proof fn tables_are_named_after_what_they_hold()
    ensures
        table_name(Table::Memory) == "mnestic_"@ + seq!['m', 'e', 'm', 'o', 'r', 'y'],
        table_name(Table::Chunk) == "mnestic_"@ + seq!['c', 'h', 'u', 'n', 'k'],
        table_name(Table::Document) == "mnestic_"@ + seq!['d', 'o', 'c', 'u', 'm', 'e', 'n', 't'],
        table_name(Table::Source) == "mnestic_"@ + seq!['s', 'o', 'u', 'r', 'c', 'e'],
        table_name(Table::Profile) == "mnestic_"@ + seq!['p', 'r', 'o', 'f', 'i', 'l', 'e'],
{
    reveal_strlit("mnestic_");
    reveal_strlit("mnestic_memory");
    reveal_strlit("mnestic_chunk");
    reveal_strlit("mnestic_document");
    reveal_strlit("mnestic_source");
    reveal_strlit("mnestic_profile");
    assert("mnestic_memory"@ =~= "mnestic_"@ + seq!['m', 'e', 'm', 'o', 'r', 'y']);
    assert("mnestic_chunk"@ =~= "mnestic_"@ + seq!['c', 'h', 'u', 'n', 'k']);
    assert("mnestic_document"@ =~= "mnestic_"@ + seq!['d', 'o', 'c', 'u', 'm', 'e', 'n', 't']);
    assert("mnestic_source"@ =~= "mnestic_"@ + seq!['s', 'o', 'u', 'r', 'c', 'e']);
    assert("mnestic_profile"@ =~= "mnestic_"@ + seq!['p', 'r', 'o', 'f', 'i', 'l', 'e']);
}

/// The statement of a removal names the table of its step, and asks that a row belong to the
/// tenant and the actor. The statement of a detachment is an update of the memories of the same
/// owner.
pub proof fn each_statement_names_its_table(table: Table)
    ensures
        step_statement(PurgeStep::Delete(table)) == delete_from(table_name(table)),
        step_statement(PurgeStep::Detach) == "UPDATE "@ + table_name(Table::Memory)
            + " SET supersedes_id = NULL"@ + owner_condition(),
{
    reveal_strlit("DELETE FROM ");
    reveal_strlit(" WHERE tenant_id = $1 AND actor_id = $2");
    match table {
        Table::Memory => {
            reveal_strlit("mnestic_memory");
            reveal_strlit("DELETE FROM mnestic_memory WHERE tenant_id = $1 AND actor_id = $2");
        },
        Table::Chunk => {
            reveal_strlit("mnestic_chunk");
            reveal_strlit("DELETE FROM mnestic_chunk WHERE tenant_id = $1 AND actor_id = $2");
        },
        Table::Document => {
            reveal_strlit("mnestic_document");
            reveal_strlit("DELETE FROM mnestic_document WHERE tenant_id = $1 AND actor_id = $2");
        },
        Table::Source => {
            reveal_strlit("mnestic_source");
            reveal_strlit("DELETE FROM mnestic_source WHERE tenant_id = $1 AND actor_id = $2");
        },
        Table::Profile => {
            reveal_strlit("mnestic_profile");
            reveal_strlit("DELETE FROM mnestic_profile WHERE tenant_id = $1 AND actor_id = $2");
        },
    }
    assert(step_statement(PurgeStep::Delete(table)) =~= delete_from(table_name(table)));
    detachment_updates_the_memories();
}

proof fn detachment_updates_the_memories()
    ensures
        step_statement(PurgeStep::Detach) == "UPDATE "@ + table_name(Table::Memory)
            + " SET supersedes_id = NULL"@ + owner_condition(),
{
    reveal_strlit("UPDATE ");
    reveal_strlit("mnestic_memory");
    reveal_strlit(" SET supersedes_id = NULL");
    reveal_strlit(" WHERE tenant_id = $1 AND actor_id = $2");
    reveal_strlit(
        "UPDATE mnestic_memory SET supersedes_id = NULL WHERE tenant_id = $1 AND actor_id = $2",
    );
    assert(step_statement(PurgeStep::Detach) =~= "UPDATE "@ + table_name(Table::Memory)
        + " SET supersedes_id = NULL"@ + owner_condition());
}

/// Statements of different tables differ, as their tables do.
pub proof fn a_statement_names_one_table(a: Seq<char>, b: Seq<char>)
    requires
        delete_from(a) == delete_from(b),
    ensures
        a == b,
{
    let verb = "DELETE FROM "@;
    let n = verb.len() as int;
    let m = owner_condition().len() as int;
    let whole = delete_from(a);
    assert(whole.len() == n + a.len() + m);
    assert(whole.len() == n + b.len() + m);
    assert(a =~= whole.subrange(n, n + a.len()));
    assert(b =~= delete_from(b).subrange(n, n + b.len()));
}

/// Different steps have different statements.
pub proof fn steps_have_statements_of_their_own(a: PurgeStep, b: PurgeStep)
    requires
        step_statement(a) == step_statement(b),
    ensures
        a == b,
{
    reveal_strlit("DELETE FROM ");
    reveal_strlit("UPDATE ");
    match (a, b) {
        (PurgeStep::Delete(x), PurgeStep::Delete(y)) => {
            each_statement_names_its_table(x);
            each_statement_names_its_table(y);
            a_statement_names_one_table(table_name(x), table_name(y));
            tables_have_names_of_their_own(x, y);
        },
        (PurgeStep::Detach, PurgeStep::Detach) => {},
        (PurgeStep::Detach, PurgeStep::Delete(x)) => {
            each_statement_names_its_table(x);
            assert(step_statement(a)[0] == 'U');
            assert(step_statement(b)[0] == 'D');
        },
        (PurgeStep::Delete(x), PurgeStep::Detach) => {
            each_statement_names_its_table(x);
            assert(step_statement(a)[0] == 'D');
            assert(step_statement(b)[0] == 'U');
        },
    }
}

/// An erasure under way: the steps taken, and the rows that they removed.
#[derive(Debug)]
pub struct Purge {
    taken: usize,
    counts: PurgeCounts,
}

/// The counts once a step removed some rows.
pub open spec fn counted(counts: PurgeCounts, step: PurgeStep, rows: u64) -> PurgeCounts {
    match step {
        PurgeStep::Detach => counts,
        PurgeStep::Delete(Table::Memory) => PurgeCounts { memories: rows, ..counts },
        PurgeStep::Delete(Table::Chunk) => PurgeCounts { chunks: rows, ..counts },
        PurgeStep::Delete(Table::Document) => PurgeCounts { documents: rows, ..counts },
        PurgeStep::Delete(Table::Source) => PurgeCounts { sources: rows, ..counts },
        PurgeStep::Delete(Table::Profile) => PurgeCounts { profile: rows, ..counts },
    }
}

impl Purge {
    /// How many steps were taken.
    pub closed spec fn taken(&self) -> nat {
        self.taken as nat
    }

    /// The rows removed so far.
    pub closed spec fn counts(&self) -> PurgeCounts {
        self.counts
    }

    /// An erasure of which no step was taken yet.
    pub fn start() -> (r: Purge)
        ensures
            r.taken() == 0,
            r.counts() == (PurgeCounts {
                memories: 0,
                chunks: 0,
                documents: 0,
                sources: 0,
                profile: 0,
            }),
    {
        Purge {
            taken: 0,
            counts: PurgeCounts { memories: 0, chunks: 0, documents: 0, sources: 0, profile: 0 },
        }
    }

    /// The step to take next, where one is left.
    pub fn next(&self) -> (r: Option<PurgeStep>)
        ensures
            r == if self.taken() < purge_steps().len() {
                Some(purge_steps()[self.taken() as int])
            } else {
                None
            },
    {
        if self.taken == 0 {
            Some(PurgeStep::Detach)
        } else if self.taken == 1 {
            Some(PurgeStep::Delete(Table::Memory))
        } else if self.taken == 2 {
            Some(PurgeStep::Delete(Table::Chunk))
        } else if self.taken == 3 {
            Some(PurgeStep::Delete(Table::Document))
        } else if self.taken == 4 {
            Some(PurgeStep::Delete(Table::Source))
        } else if self.taken == 5 {
            Some(PurgeStep::Delete(Table::Profile))
        } else {
            None
        }
    }

    /// Records that the next step was taken and affected some rows. Past the last step there is
    /// nothing to record.
    pub fn record(&mut self, rows: u64)
        ensures
            old(self).taken() < purge_steps().len() ==> final(self).taken() == old(self).taken() + 1
                && final(self).counts() == counted(
                old(self).counts(),
                purge_steps()[old(self).taken() as int],
                rows,
            ),
            old(self).taken() >= purge_steps().len() ==> *final(self) == *old(self),
            old(self).taken() == 1 ==> final(self).counts().memories == rows,
            old(self).taken() == 2 ==> final(self).counts().chunks == rows,
            old(self).taken() == 3 ==> final(self).counts().documents == rows,
            old(self).taken() == 4 ==> final(self).counts().sources == rows,
            old(self).taken() == 5 ==> final(self).counts().profile == rows,
    {
        let step: PurgeStep = match self.next() {
            Some(step) => step,
            None => {
                return;
            },
        };
        match step {
            PurgeStep::Detach => {},
            PurgeStep::Delete(Table::Memory) => {
                self.counts.memories = rows;
            },
            PurgeStep::Delete(Table::Chunk) => {
                self.counts.chunks = rows;
            },
            PurgeStep::Delete(Table::Document) => {
                self.counts.documents = rows;
            },
            PurgeStep::Delete(Table::Source) => {
                self.counts.sources = rows;
            },
            PurgeStep::Delete(Table::Profile) => {
                self.counts.profile = rows;
            },
        }
        self.taken = self.taken + 1;
    }

    /// The rows that were removed, once every step was taken.
    pub fn finish(self) -> (r: Option<PurgeCounts>)
        ensures
            r == if self.taken() >= purge_steps().len() {
                Some(self.counts())
            } else {
                None
            },
    {
        if self.taken >= 6 {
            Some(self.counts)
        } else {
            None
        }
    }
}

/// The counts after the first steps, given the rows that each affected.
pub open spec fn counts_after(rows: Seq<u64>) -> PurgeCounts
    decreases rows.len(),
{
    if rows.len() == 0 {
        PurgeCounts { memories: 0, chunks: 0, documents: 0, sources: 0, profile: 0 }
    } else {
        counted(counts_after(rows.drop_last()), purge_steps()[rows.len() - 1], rows.last())
    }
}

/// A whole erasure counts, for each table, the rows that its removal affected, and not those
/// that were only detached.
pub proof fn purge_counts_each_table(rows: Seq<u64>)
    requires
        rows.len() == purge_steps().len(),
    ensures
        counts_after(rows) == (PurgeCounts {
            memories: rows[1],
            chunks: rows[2],
            documents: rows[3],
            sources: rows[4],
            profile: rows[5],
        }),
{
    reveal_with_fuel(counts_after, 7);
}

// ---------------------------------------------------------------------------------------------
// What an erasure does to the rows
// ---------------------------------------------------------------------------------------------

/// A row as far as an erasure is concerned with it.
pub struct Row {
    pub table: Table,
    pub tenant_id: u128,
    pub actor_id: Seq<char>,
    pub id: u128,
}

/// The row belongs to the actor within the tenant.
pub open spec fn belongs(row: Row, tenant_id: u128, actor_id: Seq<char>) -> bool {
    row.tenant_id == tenant_id && row.actor_id == actor_id
}

/// A statement removes the row, bound to a tenant and an actor: it removes from the table that it
/// names, and the row stands in that table and belongs to the two.
pub open spec fn statement_removes(
    statement: Seq<char>,
    row: Row,
    tenant_id: u128,
    actor_id: Seq<char>,
) -> bool {
    statement == delete_from(table_name(row.table)) && belongs(row, tenant_id, actor_id)
}

/// The step removes the row: its statement does.
pub open spec fn step_removes(
    step: PurgeStep,
    row: Row,
    tenant_id: u128,
    actor_id: Seq<char>,
) -> bool {
    statement_removes(step_statement(step), row, tenant_id, actor_id)
}

/// By its statement, a removal removes from its own table, and no other, the rows that belong to
/// the actor within the tenant; a detachment removes none.
pub proof fn a_step_removes_from_its_table_alone(
    step: PurgeStep,
    row: Row,
    tenant_id: u128,
    actor_id: Seq<char>,
)
    ensures
        step_removes(step, row, tenant_id, actor_id) <==> step == PurgeStep::Delete(row.table)
            && row.tenant_id == tenant_id && row.actor_id == actor_id,
{
    each_statement_names_its_table(row.table);
    if step_statement(step) == delete_from(table_name(row.table)) {
        steps_have_statements_of_their_own(step, PurgeStep::Delete(row.table));
    }
}

/// None of the first `taken` steps removes the row.
pub open spec fn is_left(row: Row, taken: int, tenant_id: u128, actor_id: Seq<char>) -> bool {
    forall|i: int|
        0 <= i < taken && i < purge_steps().len() ==> !step_removes(
            #[trigger] purge_steps()[i],
            row,
            tenant_id,
            actor_id,
        )
}

/// The rows that are left after the first `taken` steps.
pub open spec fn rows_left(
    rows: Seq<Row>,
    taken: int,
    tenant_id: u128,
    actor_id: Seq<char>,
) -> Seq<Row> {
    rows.filter(|row: Row| is_left(row, taken, tenant_id, actor_id))
}

/// The rows that the step after the first `taken` ones removes.
pub open spec fn rows_removed(
    rows: Seq<Row>,
    taken: int,
    tenant_id: u128,
    actor_id: Seq<char>,
) -> Seq<Row> {
    rows_left(rows, taken, tenant_id, actor_id).filter(
        |row: Row| step_removes(purge_steps()[taken], row, tenant_id, actor_id),
    )
}

/// The actor's rows in a table.
pub open spec fn rows_in(
    rows: Seq<Row>,
    table: Table,
    tenant_id: u128,
    actor_id: Seq<char>,
) -> Seq<Row> {
    rows.filter(|row: Row| row.table == table && belongs(row, tenant_id, actor_id))
}

proof fn filter_twice(rows: Seq<Row>, p: spec_fn(Row) -> bool, q: spec_fn(Row) -> bool)
    ensures
        rows.filter(p).filter(q) == rows.filter(|row: Row| p(row) && q(row)),
    decreases rows.len(),
{
    reveal(Seq::filter);
    if rows.len() > 0 {
        let rest = rows.drop_last();
        filter_twice(rest, p, q);
        if p(rows.last()) {
            assert(rows.filter(p) == rest.filter(p).push(rows.last()));
            assert(rows.filter(p).drop_last() =~= rest.filter(p));
        }
    }
}

/// A whole erasure leaves no row of the actor within the tenant, and every other row as it was.
pub proof fn erasure_removes_the_actor_alone(
    rows: Seq<Row>,
    tenant_id: u128,
    actor_id: Seq<char>,
)
    ensures
        rows_left(rows, purge_steps().len() as int, tenant_id, actor_id) == rows.filter(
            |row: Row| !belongs(row, tenant_id, actor_id),
        ),
{
    let n = purge_steps().len() as int;
    let left = |row: Row| is_left(row, n, tenant_id, actor_id);
    let others = |row: Row| !belongs(row, tenant_id, actor_id);
    assert forall|row: Row| #[trigger] left(row) == others(row) by {
        every_table_is_emptied_once(row.table);
        let i = choose|i: int|
            0 <= i < purge_steps().len() && #[trigger] purge_steps()[i] == PurgeStep::Delete(
                row.table,
            );
        a_step_removes_from_its_table_alone(purge_steps()[i], row, tenant_id, actor_id);
        assert(step_removes(purge_steps()[i], row, tenant_id, actor_id) == belongs(
            row,
            tenant_id,
            actor_id,
        ));
        if others(row) {
            assert forall|k: int| 0 <= k < n implies !step_removes(
                #[trigger] purge_steps()[k],
                row,
                tenant_id,
                actor_id,
            ) by {
                a_step_removes_from_its_table_alone(purge_steps()[k], row, tenant_id, actor_id);
            }
        }
    }
    assert(left =~= others);
}

/// Each removal removes just the actor's rows in its table, as many as there were to begin with.
pub proof fn each_removal_empties_its_table(
    rows: Seq<Row>,
    taken: int,
    table: Table,
    tenant_id: u128,
    actor_id: Seq<char>,
)
    requires
        0 <= taken < purge_steps().len(),
        purge_steps()[taken] == PurgeStep::Delete(table),
    ensures
        rows_removed(rows, taken, tenant_id, actor_id) == rows_in(rows, table, tenant_id, actor_id),
{
    let left = |row: Row| is_left(row, taken, tenant_id, actor_id);
    let goes = |row: Row| step_removes(purge_steps()[taken], row, tenant_id, actor_id);
    let both = |row: Row| left(row) && goes(row);
    let there = |row: Row| row.table == table && belongs(row, tenant_id, actor_id);
    every_table_is_emptied_once(table);
    assert forall|row: Row| #[trigger] both(row) == there(row) by {
        a_step_removes_from_its_table_alone(purge_steps()[taken], row, tenant_id, actor_id);
        if there(row) {
            assert forall|i: int| 0 <= i < taken implies !step_removes(
                #[trigger] purge_steps()[i],
                row,
                tenant_id,
                actor_id,
            ) by {
                assert(purge_steps()[i] != PurgeStep::Delete(table));
                a_step_removes_from_its_table_alone(purge_steps()[i], row, tenant_id, actor_id);
            }
        }
    }
    assert(both =~= there);
    filter_twice(rows, left, goes);
}

/// A whole erasure counts, for each table, the rows of the actor that there were in it.
pub proof fn erasure_counts_the_rows(
    rows: Seq<Row>,
    affected: Seq<u64>,
    tenant_id: u128,
    actor_id: Seq<char>,
)
    requires
        affected.len() == purge_steps().len(),
        forall|i: int|
            0 < i < affected.len() ==> #[trigger] affected[i] == rows_removed(
                rows,
                i,
                tenant_id,
                actor_id,
            ).len(),
    ensures
        counts_after(affected).memories == rows_in(rows, Table::Memory, tenant_id, actor_id).len(),
        counts_after(affected).chunks == rows_in(rows, Table::Chunk, tenant_id, actor_id).len(),
        counts_after(affected).documents == rows_in(
            rows,
            Table::Document,
            tenant_id,
            actor_id,
        ).len(),
        counts_after(affected).sources == rows_in(rows, Table::Source, tenant_id, actor_id).len(),
        counts_after(affected).profile == rows_in(rows, Table::Profile, tenant_id, actor_id).len(),
{
    purge_counts_each_table(affected);
    each_removal_empties_its_table(rows, 1, Table::Memory, tenant_id, actor_id);
    each_removal_empties_its_table(rows, 2, Table::Chunk, tenant_id, actor_id);
    each_removal_empties_its_table(rows, 3, Table::Document, tenant_id, actor_id);
    each_removal_empties_its_table(rows, 4, Table::Source, tenant_id, actor_id);
    each_removal_empties_its_table(rows, 5, Table::Profile, tenant_id, actor_id);
}

/// A further erasure of the same actor finds nothing to remove.
pub proof fn second_erasure_finds_nothing(
    rows: Seq<Row>,
    table: Table,
    tenant_id: u128,
    actor_id: Seq<char>,
)
    ensures
        rows_in(
            rows_left(rows, purge_steps().len() as int, tenant_id, actor_id),
            table,
            tenant_id,
            actor_id,
        ).len() == 0,
{
    let others = |row: Row| !belongs(row, tenant_id, actor_id);
    let there = |row: Row| row.table == table && belongs(row, tenant_id, actor_id);
    erasure_removes_the_actor_alone(rows, tenant_id, actor_id);
    filter_twice(rows, others, there);
    let none = rows.filter(|row: Row| others(row) && there(row));
    assert(none.len() == 0) by {
        nothing_passes(rows, |row: Row| others(row) && there(row));
    }
}

proof fn nothing_passes(rows: Seq<Row>, p: spec_fn(Row) -> bool)
    requires
        forall|row: Row| !#[trigger] p(row),
    ensures
        rows.filter(p).len() == 0,
    decreases rows.len(),
{
    reveal(Seq::filter);
    if rows.len() > 0 {
        nothing_passes(rows.drop_last(), p);
    }
}

// ---------------------------------------------------------------------------------------------
// What operators are told
// ---------------------------------------------------------------------------------------------

/// What an operator is told of an erasure.
pub open spec fn purge_summary(
    actor_id: Seq<char>,
    external_id: Seq<char>,
    counts: PurgeCounts,
) -> Seq<char> {
    "purged actor "@ + actor_id + " (tenant "@ + external_id + "): "@ + decimal(
        counts.memories as nat,
    ) + " memories, "@ + decimal(counts.chunks as nat) + " chunks, "@ + decimal(
        counts.documents as nat,
    ) + " documents, "@ + decimal(counts.sources as nat) + " sources, "@ + decimal(
        counts.profile as nat,
    ) + " profile"@
}

/// What an operator is told of an erasure.
pub fn purge_report(actor_id: &str, external_id: &str, counts: &PurgeCounts) -> (r: String)
    ensures
        r@ == purge_summary(actor_id@, external_id@, *counts),
{
    let mut line: String = "purged actor ".to_owned();
    line.append(actor_id);
    line.append(" (tenant ");
    line.append(external_id);
    line.append("): ");
    line.append(decimal_text(counts.memories).as_str());
    line.append(" memories, ");
    line.append(decimal_text(counts.chunks).as_str());
    line.append(" chunks, ");
    line.append(decimal_text(counts.documents).as_str());
    line.append(" documents, ");
    line.append(decimal_text(counts.sources).as_str());
    line.append(" sources, ");
    line.append(decimal_text(counts.profile).as_str());
    line.append(" profile");
    line
}

/// The container tags in the note stand in their order, each quoted, with a comma between two.
pub proof fn notes_show_every_tag(a: Seq<Seq<char>>, b: Seq<Seq<char>>)
    requires
        a.len() > 0,
        b.len() > 0,
    ensures
        ({
            let inner = join(all_quoted(a), ", "@) + ", "@ + join(all_quoted(b), ", "@);
            shown_tags(all_quoted(a + b)) == "["@ + inner + "]"@
        }),
        all_quoted(a).len() == a.len(),
        forall|i: int| 0 <= i < a.len() ==> #[trigger] all_quoted(a)[i] == quoted(a[i]),
{
    join_of_two_lists(all_quoted(a), all_quoted(b), ", "@);
    assert(all_quoted(a + b) =~= all_quoted(a) + all_quoted(b));
}

/// What an operator is told where there is no such tenant.
pub fn no_tenant_message(external_id: &str) -> (r: String)
    ensures
        r@ == "no tenant with external id "@ + external_id@,
{
    "no tenant with external id ".to_owned().concat(external_id)
}

/// What an operator is told of the actor that a container tag stands for.
pub fn resolution_note(container_tag: &str, actor_id: &str) -> (r: String)
    ensures
        r@ == "resolved containerTag "@ + container_tag@ + " to actor "@ + actor_id@,
{
    let mut line: String = "resolved containerTag ".to_owned();
    line.append(container_tag);
    line.append(" to actor ");
    line.append(actor_id);
    line
}

/// The container tags as they are shown to an operator: each quoted, between square brackets.
pub open spec fn shown_tags(quoted_tags: Seq<Seq<char>>) -> Seq<char> {
    "["@ + join(quoted_tags, ", "@) + "]"@
}

/// The quoted forms of some texts.
pub open spec fn all_quoted(list: Seq<Seq<char>>) -> Seq<Seq<char>> {
    Seq::new(list.len(), |i: int| quoted(list[i]))
}

/// What an operator is told where the tag holds container tags, given as they are quoted: they
/// do not narrow what is done.
pub open spec fn scope_note_text(quoted_tags: Seq<Seq<char>>, erasing: bool) -> Seq<char> {
    "note: container tags "@ + shown_tags(quoted_tags) + if erasing {
        " do not scope erasure; the whole actor is purged"@
    } else {
        " do not scope the export; the whole actor is exported"@
    }
}

/// The note on container tags that do not narrow what is done, from their quoted forms.
pub fn scope_note_from(quoted_tags: &Vec<String>, erasing: bool) -> (r: String)
    ensures
        r@ == scope_note_text(texts(quoted_tags@), erasing),
{
    let mut shown: String = "[".to_owned();
    shown.append(join_texts(quoted_tags, ", ").as_str());
    shown.append("]");
    let mut line: String = "note: container tags ".to_owned();
    line.append(shown.as_str());
    line.append(
        if erasing {
            " do not scope erasure; the whole actor is purged"
        } else {
            " do not scope the export; the whole actor is exported"
        },
    );
    line
}

/// The note on container tags that do not narrow what is done, where there are any.
pub fn scope_note(container_tags: &Vec<String>, erasing: bool) -> (r: Option<String>)
    ensures
        crate::text::text_of(r) == if container_tags@.len() > 0 {
            Some(scope_note_text(all_quoted(texts(container_tags@)), erasing))
        } else {
            None
        },
{
    if container_tags.len() == 0 {
        return None;
    }
    let ghost all = all_quoted(texts(container_tags@));
    let mut list: Vec<String> = Vec::new();
    let mut i: usize = 0;
    while i < container_tags.len()
        invariant
            i <= container_tags@.len(),
            all == all_quoted(texts(container_tags@)),
            texts(list@) =~= all.take(i as int),
        decreases container_tags@.len() - i,
    {
        let ghost before = texts(list@);
        let shown: String = quote(container_tags[i].as_str());
        let ghost held = shown@;
        list.push(shown);
        i += 1;
        assert(texts(list@) =~= before.push(held));
        assert(all[i - 1] == held);
    }
    assert(texts(list@) =~= all);
    Some(scope_note_from(&list, erasing))
}

} // verus!
