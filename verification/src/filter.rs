//! The metadata-filter language: a tree of `OR` and `AND` nodes over predicates on one metadata
//! key each, decided against the metadata a hit carries.

use vstd::prelude::*;
use crate::json::{field_from, json_items, json_of, no_fields, Json, JsonView, NumberView};
use crate::score::{
    at_most, below, equal, float_read, is_at_most, is_below, is_equal, is_finite, rank,
    read_float,
};
use crate::text::{
    a_part_occurs_between_any_two_texts, case_is_all_that_differs, contains_text,
    eq_ignore_ascii_case, is_text, lowercase, occurs_in, same_ignoring_ascii_case, same_text,
    str_of, text_of, to_lowercase, trim, trimmed, what_a_part_occurs_in_holds_it,
};

verus! {

/// One node of a filter tree.
#[derive(Debug)]
pub enum FilterNode {
    Or { or: Vec<FilterNode> },
    And { and: Vec<FilterNode> },
    Leaf(Leaf),
}

/// A predicate over one metadata key. `filter_type` selects the comparison; string equality is
/// the one for an absent or unknown type.
#[derive(Debug)]
pub struct Leaf {
    pub key: String,
    pub value: String,
    pub filter_type: Option<String>,
    pub numeric_operator: Option<String>,
    pub negate: Option<bool>,
    pub ignore_case: Option<bool>,
}

/// What a [`Leaf`] holds.
pub struct LeafView {
    pub key: Seq<char>,
    pub value: Seq<char>,
    pub filter_type: Option<Seq<char>>,
    pub numeric_operator: Option<Seq<char>>,
    pub negate: Option<bool>,
    pub ignore_case: Option<bool>,
}

/// What a [`FilterNode`] holds.
pub enum FilterView {
    Or(Seq<FilterView>),
    And(Seq<FilterView>),
    Leaf(LeafView),
}

impl View for Leaf {
    type V = LeafView;

    open spec fn view(&self) -> LeafView {
        LeafView {
            key: self.key@,
            value: self.value@,
            filter_type: text_of(self.filter_type),
            numeric_operator: text_of(self.numeric_operator),
            negate: self.negate,
            ignore_case: self.ignore_case,
        }
    }
}

impl View for FilterNode {
    type V = FilterView;

    open spec fn view(&self) -> FilterView {
        filter_view(*self)
    }
}

/// What a filter tree holds, with what its children hold.
pub open spec fn filter_view(node: FilterNode) -> FilterView
    decreases node,
{
    match node {
        FilterNode::Or { or } => FilterView::Or(
            Seq::new(
                or@.len(),
                |i: int|
                    if 0 <= i < or@.len() {
                        filter_view(or@[i])
                    } else {
                        FilterView::Or(Seq::empty())
                    },
            ),
        ),
        FilterNode::And { and } => FilterView::And(
            Seq::new(
                and@.len(),
                |i: int|
                    if 0 <= i < and@.len() {
                        filter_view(and@[i])
                    } else {
                        FilterView::Or(Seq::empty())
                    },
            ),
        ),
        FilterNode::Leaf(leaf) => FilterView::Leaf(leaf@),
    }
}

/// What a list of nodes holds.
pub open spec fn filter_views(nodes: Seq<FilterNode>) -> Seq<FilterView> {
    Seq::new(nodes.len(), |i: int| nodes[i]@)
}

proof fn view_of_or(nodes: Vec<FilterNode>)
    ensures
        (FilterNode::Or { or: nodes })@ == FilterView::Or(filter_views(nodes@)),
{
    reveal_with_fuel(filter_view, 2);
    assert((FilterNode::Or { or: nodes })@->Or_0 =~= filter_views(nodes@));
}

proof fn view_of_and(nodes: Vec<FilterNode>)
    ensures
        (FilterNode::And { and: nodes })@ == FilterView::And(filter_views(nodes@)),
{
    reveal_with_fuel(filter_view, 2);
    assert((FilterNode::And { and: nodes })@->And_0 =~= filter_views(nodes@));
}

// ---------------------------------------------------------------------------------------------
// Comparisons
// ---------------------------------------------------------------------------------------------

/// How a leaf compares the metadata value with its own.
#[derive(Debug, Clone, Copy, PartialEq, Eq, Structural)]
pub enum MetaKind {
    Equality,
    Numeric,
    ArrayContains,
    StringContains,
}

/// The operator of a numeric comparison.
#[derive(Debug, Clone, Copy, PartialEq, Eq, Structural)]
pub enum MetaOp {
    Gt,
    Lt,
    Ge,
    Le,
    Eq,
}

/// The comparison a filter type names; equality where it names none.
pub open spec fn kind_of(filter_type: Option<Seq<char>>) -> MetaKind {
    if filter_type == Some("numeric"@) {
        MetaKind::Numeric
    } else if filter_type == Some("array_contains"@) {
        MetaKind::ArrayContains
    } else if filter_type == Some("string_contains"@) {
        MetaKind::StringContains
    } else {
        MetaKind::Equality
    }
}

/// The operator a text names, where it names one.
pub open spec fn op_of(numeric_operator: Option<Seq<char>>) -> Option<MetaOp> {
    if numeric_operator == Some(">"@) {
        Some(MetaOp::Gt)
    } else if numeric_operator == Some("<"@) {
        Some(MetaOp::Lt)
    } else if numeric_operator == Some(">="@) {
        Some(MetaOp::Ge)
    } else if numeric_operator == Some("<="@) {
        Some(MetaOp::Le)
    } else if numeric_operator == Some("="@) {
        Some(MetaOp::Eq)
    } else {
        None
    }
}

/// The text a scalar is compared as. An object, an array or null has none.
pub open spec fn scalar_text(json: JsonView) -> Option<Seq<char>> {
    match json {
        JsonView::Text(text) => Some(text),
        JsonView::Number(n) => Some(n.text()),
        JsonView::Bool(b) => Some(
            if b {
                "true"@
            } else {
                "false"@
            },
        ),
        _ => None,
    }
}

/// The number a JSON value stands for, if it stands for one: a number itself, or a text that holds
/// one. A finite number is given by its bits; the inner `None` is an infinity or a NaN.
pub open spec fn number_read(json: JsonView) -> Option<Option<u64>> {
    match json {
        JsonView::Number(n) => float_read(n.text()),
        JsonView::Text(text) => float_read(trimmed(text)),
        _ => None,
    }
}

/// The bits of a number that was read, where it is finite.
pub open spec fn finite_part(read: Option<Option<u64>>) -> Option<u64> {
    match read {
        Some(Some(bits)) => Some(bits),
        _ => None,
    }
}

/// The two texts are the same, up to the case of ASCII letters where that is asked for.
pub open spec fn texts_equal(a: Seq<char>, b: Seq<char>, ignore_case: bool) -> bool {
    if ignore_case {
        same_ignoring_ascii_case(a, b)
    } else {
        a == b
    }
}

/// The metadata value, as a text, equals the filter value.
pub open spec fn equality_holds(raw: JsonView, value: Seq<char>, ignore_case: bool) -> bool {
    scalar_text(raw) matches Some(text) && texts_equal(text, value, ignore_case)
}

/// The operator relates two numbers, given by their bits. Without two numbers and an operator
/// there is nothing to relate.
pub open spec fn op_holds(lhs: Option<u64>, rhs: Option<u64>, op: Option<MetaOp>) -> bool {
    match (lhs, rhs, op) {
        (Some(a), Some(b), Some(MetaOp::Gt)) => is_below(b, a),
        (Some(a), Some(b), Some(MetaOp::Lt)) => is_below(a, b),
        (Some(a), Some(b), Some(MetaOp::Ge)) => is_at_most(b, a),
        (Some(a), Some(b), Some(MetaOp::Le)) => is_at_most(a, b),
        (Some(a), Some(b), Some(MetaOp::Eq)) => is_equal(a, b),
        _ => false,
    }
}

/// The metadata value and the filter value are finite numbers that the operator relates.
pub open spec fn numeric_holds(raw: JsonView, value: Seq<char>, op: Option<MetaOp>) -> bool {
    op_holds(finite_part(number_read(raw)), finite_part(float_read(trimmed(value))), op)
}

/// The metadata value is an array with an item that, as a text, equals the filter value.
pub open spec fn array_holds(raw: JsonView, value: Seq<char>, ignore_case: bool) -> bool {
    raw matches JsonView::Array(items) && exists|i: int|
        0 <= i < items.len() && equality_holds(#[trigger] items[i], value, ignore_case)
}

/// The metadata value, as a text, has the filter value in it.
pub open spec fn string_holds(raw: JsonView, value: Seq<char>, ignore_case: bool) -> bool {
    scalar_text(raw) matches Some(text) && if ignore_case {
        occurs_in(lowercase(text), lowercase(value))
    } else {
        occurs_in(text, value)
    }
}

/// The comparison of a metadata value with a filter value.
pub open spec fn comparison_holds(
    raw: JsonView,
    value: Seq<char>,
    kind: MetaKind,
    op: Option<MetaOp>,
    ignore_case: bool,
) -> bool {
    match kind {
        MetaKind::Equality => equality_holds(raw, value, ignore_case),
        MetaKind::Numeric => numeric_holds(raw, value, op),
        MetaKind::ArrayContains => array_holds(raw, value, ignore_case),
        MetaKind::StringContains => string_holds(raw, value, ignore_case),
    }
}

/// A flag that is off where it is absent.
pub open spec fn flag(value: Option<bool>) -> bool {
    value == Some(true)
}

/// The metadata satisfies the leaf. An absent key is a miss, and `negate` turns a miss into a
/// match and a match into a miss.
pub open spec fn leaf_matches(leaf: LeafView, metadata: JsonView) -> bool {
    match metadata.get(leaf.key) {
        Some(raw) => comparison_holds(
            raw,
            leaf.value,
            kind_of(leaf.filter_type),
            op_of(leaf.numeric_operator),
            flag(leaf.ignore_case),
        ) != flag(leaf.negate),
        None => flag(leaf.negate),
    }
}

/// How deep a tree is looked into.
pub const MAX_DEPTH: usize = 16;

/// The metadata satisfies the node that stands `depth` levels down. A combiner without children
/// asks for nothing; a node too far down never matches.
pub open spec fn node_matches(node: FilterView, metadata: JsonView, depth: nat) -> bool
    decreases node,
{
    depth < MAX_DEPTH && match node {
        FilterView::Or(children) => children.len() == 0 || exists|i: int|
            0 <= i < children.len() && node_matches(#[trigger] children[i], metadata, depth + 1),
        FilterView::And(children) => forall|i: int|
            0 <= i < children.len() ==> node_matches(#[trigger] children[i], metadata, depth + 1),
        FilterView::Leaf(leaf) => leaf_matches(leaf, metadata),
    }
}

proof fn combiners_unfold(children: Seq<FilterView>, metadata: JsonView, depth: nat)
    ensures
        node_matches(FilterView::Or(children), metadata, depth) == (depth < MAX_DEPTH && (
        children.len() == 0 || exists|i: int|
            0 <= i < children.len() && node_matches(#[trigger] children[i], metadata, depth + 1))),
        node_matches(FilterView::And(children), metadata, depth) == (depth < MAX_DEPTH && forall|
            i: int,
        |
            0 <= i < children.len() ==> node_matches(#[trigger] children[i], metadata, depth + 1)),
{
    let node = FilterView::And(children);
    if node_matches(node, metadata, depth) {
        assert(depth < MAX_DEPTH);
        assert forall|i: int| 0 <= i < children.len() implies node_matches(
            #[trigger] children[i],
            metadata,
            depth + 1,
        ) by {
            assert(node_matches(node->And_0[i], metadata, depth + 1));
        }
    } else if depth < MAX_DEPTH {
        let i = choose|i: int|
            0 <= i < node->And_0.len() && !node_matches(
                #[trigger] node->And_0[i],
                metadata,
                depth + 1,
            );
        assert(!node_matches(children[i], metadata, depth + 1));
    }
}

fn kind(filter_type: &Option<String>) -> (r: MetaKind)
    ensures
        r == kind_of(text_of(*filter_type)),
{
    if is_text(filter_type, "numeric") {
        MetaKind::Numeric
    } else if is_text(filter_type, "array_contains") {
        MetaKind::ArrayContains
    } else if is_text(filter_type, "string_contains") {
        MetaKind::StringContains
    } else {
        MetaKind::Equality
    }
}

fn op(numeric_operator: &Option<String>) -> (r: Option<MetaOp>)
    ensures
        r == op_of(text_of(*numeric_operator)),
{
    if is_text(numeric_operator, ">") {
        Some(MetaOp::Gt)
    } else if is_text(numeric_operator, "<") {
        Some(MetaOp::Lt)
    } else if is_text(numeric_operator, ">=") {
        Some(MetaOp::Ge)
    } else if is_text(numeric_operator, "<=") {
        Some(MetaOp::Le)
    } else if is_text(numeric_operator, "=") {
        Some(MetaOp::Eq)
    } else {
        None
    }
}

/// Whether two texts are the same, up to the case of ASCII letters where that is asked for.
pub fn str_eq(a: &str, b: &str, ignore_case: bool) -> (r: bool)
    ensures
        r == texts_equal(a@, b@, ignore_case),
{
    if ignore_case {
        eq_ignore_ascii_case(a, b)
    } else {
        same_text(a, b)
    }
}

/// The text a scalar is compared as.
pub fn json_scalar_string(v: &Json) -> (r: Option<String>)
    ensures
        text_of(r) == scalar_text(v@),
{
    match v {
        Json::Text(text) => Some(text.clone()),
        Json::Number(n) => Some(n.text()),
        Json::Bool(b) => Some(
            if *b {
                "true".to_owned()
            } else {
                "false".to_owned()
            },
        ),
        _ => None,
    }
}

/// The number a JSON value stands for, if it stands for one: the bits of a finite number, and an
/// inner `None` for an infinity or a NaN.
pub fn json_as_f64(v: &Json) -> (r: Option<Option<u64>>)
    ensures
        r == number_read(v@),
        r matches Some(Some(bits)) ==> is_finite(bits),
{
    match v {
        Json::Number(n) => read_float(n.text().as_str()),
        Json::Text(text) => read_float(trim(text.as_str())),
        _ => None,
    }
}

/// The bits of a number that was read, where it is finite.
pub fn finite_number(read: Option<Option<u64>>) -> (r: Option<u64>)
    ensures
        r == finite_part(read),
{
    match read {
        Some(Some(bits)) => Some(bits),
        _ => None,
    }
}

/// Whether the metadata value, as a text, equals the filter value.
pub fn eval_equality(raw: &Json, value: &str, ignore_case: bool) -> (r: bool)
    ensures
        r == equality_holds(raw@, value@, ignore_case),
{
    match json_scalar_string(raw) {
        Some(text) => str_eq(text.as_str(), value, ignore_case),
        None => false,
    }
}

/// Whether the operator relates two numbers, given by their bits.
pub fn relates(lhs: Option<u64>, rhs: Option<u64>, op: Option<MetaOp>) -> (r: bool)
    ensures
        r == op_holds(lhs, rhs, op),
{
    match (lhs, rhs, op) {
        (Some(a), Some(b), Some(MetaOp::Gt)) => below(b, a),
        (Some(a), Some(b), Some(MetaOp::Lt)) => below(a, b),
        (Some(a), Some(b), Some(MetaOp::Ge)) => at_most(b, a),
        (Some(a), Some(b), Some(MetaOp::Le)) => at_most(a, b),
        (Some(a), Some(b), Some(MetaOp::Eq)) => equal(a, b),
        _ => false,
    }
}

/// Whether the metadata value and the filter value are finite numbers that the operator relates. A
/// value that counts as a number here is a finite one.
pub fn eval_numeric(raw: &Json, value: &str, op: Option<MetaOp>) -> (r: bool)
    ensures
        r == numeric_holds(raw@, value@, op),
        finite_part(number_read(raw@)) matches Some(bits) ==> is_finite(bits),
        finite_part(float_read(trimmed(value@))) matches Some(bits) ==> is_finite(bits),
{
    let lhs: Option<u64> = finite_number(json_as_f64(raw));
    let rhs: Option<u64> = finite_number(read_float(trim(value)));
    relates(lhs, rhs, op)
}

/// Whether the metadata value is an array with an item that, as a text, equals the filter value.
pub fn eval_array_contains(raw: &Json, value: &str, ignore_case: bool) -> (r: bool)
    ensures
        r == array_holds(raw@, value@, ignore_case),
{
    match raw {
        Json::Array(items) => {
            proof {
                Json::view_of_array(*items);
            }
            let ghost all = json_items(items@);
            let mut i: usize = 0;
            while i < items.len()
                invariant
                    all == json_items(items@),
                    raw@ == JsonView::Array(all),
                    i <= items@.len(),
                    forall|j: int|
                        0 <= j < i ==> !equality_holds(#[trigger] all[j], value@, ignore_case),
                decreases items@.len() - i,
            {
                assert(all[i as int] == items@[i as int]@);
                if eval_equality(&items[i], value, ignore_case) {
                    assert(equality_holds(raw@->Array_0[i as int], value@, ignore_case));
                    return true;
                }
                i += 1;
            }
            false
        },
        _ => false,
    }
}

/// Whether the metadata value, as a text, has the filter value in it.
pub fn eval_string_contains(raw: &Json, value: &str, ignore_case: bool) -> (r: bool)
    ensures
        r == string_holds(raw@, value@, ignore_case),
{
    match json_scalar_string(raw) {
        Some(text) => if ignore_case {
            contains_text(to_lowercase(text.as_str()).as_str(), to_lowercase(value).as_str())
        } else {
            contains_text(text.as_str(), value)
        },
        None => false,
    }
}

fn is_set(value: Option<bool>) -> (r: bool)
    ensures
        r == flag(value),
{
    match value {
        Some(b) => b,
        None => false,
    }
}

/// Whether the metadata satisfies the leaf.
pub fn matches_leaf(leaf: &Leaf, metadata: &Json) -> (r: bool)
    ensures
        r == leaf_matches(leaf@, metadata@),
{
    let negate: bool = is_set(leaf.negate);
    let ignore_case: bool = is_set(leaf.ignore_case);
    match metadata.get(leaf.key.as_str()) {
        None => negate,
        Some(raw) => {
            let value: &str = leaf.value.as_str();
            let result: bool = match kind(&leaf.filter_type) {
                MetaKind::Numeric => eval_numeric(raw, value, op(&leaf.numeric_operator)),
                MetaKind::ArrayContains => eval_array_contains(raw, value, ignore_case),
                MetaKind::StringContains => eval_string_contains(raw, value, ignore_case),
                MetaKind::Equality => eval_equality(raw, value, ignore_case),
            };
            result != negate
        },
    }
}

/// Whether the metadata satisfies the node that stands `depth` levels down.
pub fn matches_at(node: &FilterNode, metadata: &Json, depth: usize) -> (r: bool)
    ensures
        r == node_matches(node@, metadata@, depth as nat),
    decreases node,
{
    if depth >= MAX_DEPTH {
        return false;
    }
    match node {
        FilterNode::Or { or } => {
            proof {
                view_of_or(*or);
                combiners_unfold(filter_views(or@), metadata@, depth as nat);
            }
            let ghost all = filter_views(or@);
            let mut i: usize = 0;
            while i < or.len()
                invariant
                    node matches FilterNode::Or { or: children } && children == or,
                    node@ == FilterView::Or(all),
                    node_matches(node@, metadata@, depth as nat) == (all.len() == 0 || exists|j: int|
                        0 <= j < all.len() && node_matches(
                            #[trigger] all[j],
                            metadata@,
                            (depth + 1) as nat,
                        )),
                    all == filter_views(or@),
                    depth < MAX_DEPTH,
                    i <= or@.len(),
                    forall|j: int|
                        0 <= j < i ==> !node_matches(
                            #[trigger] all[j],
                            metadata@,
                            (depth + 1) as nat,
                        ),
                decreases or@.len() - i,
            {
                assert(all[i as int] == or@[i as int]@);
                if matches_at(&or[i], metadata, depth + 1) {
                    return true;
                }
                i += 1;
            }
            or.len() == 0
        },
        FilterNode::And { and } => {
            proof {
                view_of_and(*and);
                combiners_unfold(filter_views(and@), metadata@, depth as nat);
            }
            let ghost all = filter_views(and@);
            let mut i: usize = 0;
            while i < and.len()
                invariant
                    node matches FilterNode::And { and: children } && children == and,
                    node@ == FilterView::And(all),
                    node_matches(node@, metadata@, depth as nat) == (forall|j: int|
                        0 <= j < all.len() ==> node_matches(
                            #[trigger] all[j],
                            metadata@,
                            (depth + 1) as nat,
                        )),
                    all == filter_views(and@),
                    depth < MAX_DEPTH,
                    i <= and@.len(),
                    forall|j: int|
                        0 <= j < i ==> node_matches(
                            #[trigger] all[j],
                            metadata@,
                            (depth + 1) as nat,
                        ),
                decreases and@.len() - i,
            {
                assert(all[i as int] == and@[i as int]@);
                if !matches_at(&and[i], metadata, depth + 1) {
                    return false;
                }
                i += 1;
            }
            true
        },
        FilterNode::Leaf(leaf) => matches_leaf(leaf, metadata),
    }
}

/// Whether the metadata satisfies the filter tree.
pub fn matches(node: &FilterNode, metadata: &Json) -> (r: bool)
    ensures
        r == node_matches(node@, metadata@, 0),
{
    matches_at(node, metadata, 0)
}

// ---------------------------------------------------------------------------------------------
// Reading a filter
// ---------------------------------------------------------------------------------------------

/// The optional text of a field: absent or null for none. The outer `None` is any other value,
/// which the field does not take.
pub open spec fn optional_text(value: Option<JsonView>) -> Option<Option<Seq<char>>> {
    match value {
        None | Some(JsonView::Null) => Some(None),
        Some(JsonView::Text(text)) => Some(Some(text)),
        _ => None,
    }
}

/// A flag written as a truth value or as one of the texts `true` and `false`; any other value
/// reads as unset.
pub open spec fn loose_bool(value: Option<JsonView>) -> Option<bool> {
    match value {
        Some(JsonView::Bool(b)) => Some(b),
        Some(JsonView::Text(text)) => if text == "true"@ {
            Some(true)
        } else if text == "false"@ {
            Some(false)
        } else {
            None
        },
        _ => None,
    }
}

/// How many parts a leaf has.
pub const LEAF_PARTS: usize = 6;

/// A part of a leaf: the field of that name in an object, or the item at that place in an array.
pub open spec fn leaf_part(json: JsonView, place: int, name: Seq<char>) -> Option<JsonView> {
    match json {
        JsonView::Array(items) => if 0 <= place < items.len() {
            Some(items[place])
        } else {
            None
        },
        _ => json.get(name),
    }
}

/// A part of a leaf that is a text.
pub open spec fn leaf_text(json: JsonView, place: int, name: Seq<char>) -> Option<Seq<char>> {
    match leaf_part(json, place, name) {
        Some(part) => part.as_text(),
        None => None,
    }
}

/// The leaf that an object with its parts as fields stands for, or an array with its parts in
/// order, the last ones left out or not. A key and a value are there, both texts, and an array
/// holds nothing more than the parts.
pub open spec fn parsed_leaf(json: JsonView) -> Option<LeafView> {
    if json matches JsonView::Array(items) && items.len() > LEAF_PARTS {
        None
    } else {
        match (
            leaf_text(json, 0, "key"@),
            leaf_text(json, 1, "value"@),
            optional_text(leaf_part(json, 2, "filterType"@)),
            optional_text(leaf_part(json, 3, "numericOperator"@)),
        ) {
            (Some(key), Some(value), Some(filter_type), Some(numeric_operator)) => Some(
                LeafView {
                    key,
                    value,
                    filter_type,
                    numeric_operator,
                    negate: loose_bool(leaf_part(json, 4, "negate"@)),
                    ignore_case: loose_bool(leaf_part(json, 5, "ignoreCase"@)),
                },
            ),
            _ => None,
        }
    }
}

/// The items of the array in the field named `key`, where there is one.
pub open spec fn children_of(json: JsonView, key: Seq<char>) -> Option<Seq<JsonView>> {
    match json.get(key) {
        Some(JsonView::Array(items)) => Some(items),
        _ => None,
    }
}

proof fn field_is_smaller(fields: Seq<(Seq<char>, JsonView)>, key: Seq<char>, from: int)
    requires
        field_from(fields, key, from) is Some,
    ensures
        decreases_to!(JsonView::Object(fields) => field_from(fields, key, from)->0),
    decreases fields.len() - from,
{
    if fields[from].0 != key {
        field_is_smaller(fields, key, from + 1);
    } else {
        let object = JsonView::Object(fields);
        assert(decreases_to!(object => object->Object_0));
        assert(decreases_to!(fields => fields[from]));
        assert(decreases_to!(fields[from] => fields[from].1));
    }
}

proof fn child_is_smaller(json: JsonView, key: Seq<char>, i: int)
    requires
        children_of(json, key) matches Some(items) && 0 <= i < items.len(),
    ensures
        decreases_to!(json => children_of(json, key)->0[i]),
{
    let fields = json->Object_0;
    field_is_smaller(fields, key, 0);
    let items = children_of(json, key)->0;
    assert(json.get(key)->0 == JsonView::Array(items));
    assert(decreases_to!(JsonView::Array(items) => items[i]));
}

/// The trees that the first `count` items in the field named `key` stand for, where each stands
/// for one.
pub open spec fn parsed_children(json: JsonView, key: Seq<char>, count: nat) -> Option<
    Seq<FilterView>,
>
    decreases json, 0nat, count,
    via parsed_children_terminates
{
    match children_of(json, key) {
        Some(items) => if count == 0 {
            Some(Seq::empty())
        } else if count > items.len() {
            None
        } else {
            match (
                parsed_children(json, key, (count - 1) as nat),
                parsed_filter(items[count - 1]),
            ) {
                (Some(before), Some(last)) => Some(before.push(last)),
                _ => None,
            }
        },
        None => None,
    }
}

#[via_fn]
proof fn parsed_children_terminates(json: JsonView, key: Seq<char>, count: nat) {
    if children_of(json, key) matches Some(items) && 0 < count <= items.len() {
        child_is_smaller(json, key, count - 1);
    }
}

/// The trees that all the items in the field named `key` stand for.
pub open spec fn parsed_combiner(json: JsonView, key: Seq<char>) -> Option<Seq<FilterView>>
    decreases json, 1nat, 0nat,
{
    match children_of(json, key) {
        Some(items) => parsed_children(json, key, items.len()),
        None => None,
    }
}

/// The tree a JSON value stands for: an `OR` of trees, an `AND` of trees, or a leaf, whichever
/// comes first.
pub open spec fn parsed_filter(json: JsonView) -> Option<FilterView>
    decreases json, 2nat, 0nat,
{
    match (parsed_combiner(json, "OR"@), parsed_combiner(json, "AND"@), parsed_leaf(json)) {
        (Some(children), _, _) => Some(FilterView::Or(children)),
        (None, Some(children), _) => Some(FilterView::And(children)),
        (None, None, Some(leaf)) => Some(FilterView::Leaf(leaf)),
        (None, None, None) => None,
    }
}

/// The flag a JSON value stands for.
pub fn read_loose_bool(value: Option<&Json>) -> (r: Option<bool>)
    ensures
        r == loose_bool(json_of(value)),
{
    match value {
        Some(Json::Bool(b)) => Some(*b),
        Some(Json::Text(text)) => if same_text(text.as_str(), "true") {
            Some(true)
        } else if same_text(text.as_str(), "false") {
            Some(false)
        } else {
            None
        },
        _ => None,
    }
}

fn read_optional_text(value: Option<&Json>) -> (r: Option<Option<String>>)
    ensures
        match r {
            Some(text) => optional_text(json_of(value)) == Some(text_of(text)),
            None => optional_text(json_of(value)) is None,
        },
{
    match value {
        None | Some(Json::Null) => Some(None),
        Some(Json::Text(text)) => Some(Some(text.clone())),
        _ => None,
    }
}

fn read_part<'a>(json: &'a Json, place: usize, name: &str) -> (r: Option<&'a Json>)
    ensures
        json_of(r) == leaf_part(json@, place as int, name@),
{
    match json {
        Json::Array(items) => {
            proof {
                Json::view_of_array(*items);
            }
            if place < items.len() {
                Some(&items[place])
            } else {
                None
            }
        },
        _ => json.get(name),
    }
}

fn read_part_text<'a>(json: &'a Json, place: usize, name: &str) -> (r: Option<&'a str>)
    ensures
        str_of(r) == leaf_text(json@, place as int, name@),
{
    match read_part(json, place, name) {
        Some(part) => part.as_text(),
        None => None,
    }
}

fn read_leaf(json: &Json) -> (r: Option<Leaf>)
    ensures
        match r {
            Some(leaf) => parsed_leaf(json@) == Some(leaf@),
            None => parsed_leaf(json@) is None,
        },
{
    match json {
        Json::Array(items) => {
            proof {
                Json::view_of_array(*items);
            }
            if items.len() > LEAF_PARTS {
                return None;
            }
        },
        _ => {},
    }
    match (
        read_part_text(json, 0, "key"),
        read_part_text(json, 1, "value"),
        read_optional_text(read_part(json, 2, "filterType")),
        read_optional_text(read_part(json, 3, "numericOperator")),
    ) {
        (Some(key), Some(value), Some(filter_type), Some(numeric_operator)) => Some(
            Leaf {
                key: key.to_owned(),
                value: value.to_owned(),
                filter_type,
                numeric_operator,
                negate: read_loose_bool(read_part(json, 4, "negate")),
                ignore_case: read_loose_bool(read_part(json, 5, "ignoreCase")),
            },
        ),
        _ => None,
    }
}

fn read_combiner(json: &Json, key: &str) -> (r: Option<Vec<FilterNode>>)
    ensures
        match r {
            Some(children) => parsed_combiner(json@, key@) == Some(filter_views(children@)),
            None => parsed_combiner(json@, key@) is None,
        },
    decreases json@, 1nat,
{
    match json.get(key) {
        Some(Json::Array(items)) => {
            proof {
                Json::view_of_array(*items);
            }
            let ghost all = json_items(items@);
            let mut children: Vec<FilterNode> = Vec::new();
            let mut i: usize = 0;
            assert(filter_views(children@) =~= Seq::empty());
            while i < items.len()
                invariant
                    all == json_items(items@),
                    children_of(json@, key@) == Some(all),
                    i <= items@.len(),
                    parsed_children(json@, key@, i as nat) == Some(filter_views(children@)),
                decreases items@.len() - i,
            {
                proof {
                    child_is_smaller(json@, key@, i as int);
                }
                assert(all[i as int] == items@[i as int]@);
                match read_filter(&items[i]) {
                    Some(node) => {
                        let ghost before = children@;
                        let ghost held = node@;
                        children.push(node);
                        assert(filter_views(children@) =~= filter_views(before).push(held));
                    },
                    None => {
                        proof {
                            no_tree_past_a_bad_item(json@, key@, (i + 1) as nat, all.len());
                        }
                        return None;
                    },
                }
                i += 1;
            }
            Some(children)
        },
        _ => None,
    }
}

proof fn no_tree_past_a_bad_item(json: JsonView, key: Seq<char>, bad: nat, count: nat)
    requires
        children_of(json, key) matches Some(items) && 0 < bad <= count <= items.len(),
        parsed_children(json, key, bad) is None,
    ensures
        parsed_children(json, key, count) is None,
    decreases count,
{
    if bad < count {
        no_tree_past_a_bad_item(json, key, bad, (count - 1) as nat);
    }
}

/// Reads a filter tree.
pub fn read_filter(json: &Json) -> (r: Option<FilterNode>)
    ensures
        match r {
            Some(node) => parsed_filter(json@) == Some(node@),
            None => parsed_filter(json@) is None,
        },
    decreases json@, 2nat,
{
    match read_combiner(json, "OR") {
        Some(or) => {
            proof {
                view_of_or(or);
            }
            return Some(FilterNode::Or { or });
        },
        None => {},
    }
    match read_combiner(json, "AND") {
        Some(and) => {
            proof {
                view_of_and(and);
            }
            return Some(FilterNode::And { and });
        },
        None => {},
    }
    match read_leaf(json) {
        Some(leaf) => Some(FilterNode::Leaf(leaf)),
        None => None,
    }
}

// ---------------------------------------------------------------------------------------------
// The store's form of a filter
// ---------------------------------------------------------------------------------------------

/// A filter tree in the form the store turns into a query.
#[derive(Debug)]
pub enum MetaFilter {
    Or(Vec<MetaFilter>),
    And(Vec<MetaFilter>),
    Leaf(MetaLeaf),
}

/// A leaf with its comparison, operator and flags decided.
#[derive(Debug)]
pub struct MetaLeaf {
    pub key: String,
    pub value: String,
    pub kind: MetaKind,
    pub op: Option<MetaOp>,
    pub negate: bool,
    pub ignore_case: bool,
}

/// What a [`MetaLeaf`] holds.
pub struct MetaLeafView {
    pub key: Seq<char>,
    pub value: Seq<char>,
    pub kind: MetaKind,
    pub op: Option<MetaOp>,
    pub negate: bool,
    pub ignore_case: bool,
}

/// What a [`MetaFilter`] holds.
pub enum MetaFilterView {
    Or(Seq<MetaFilterView>),
    And(Seq<MetaFilterView>),
    Leaf(MetaLeafView),
}

impl View for MetaLeaf {
    type V = MetaLeafView;

    open spec fn view(&self) -> MetaLeafView {
        MetaLeafView {
            key: self.key@,
            value: self.value@,
            kind: self.kind,
            op: self.op,
            negate: self.negate,
            ignore_case: self.ignore_case,
        }
    }
}

impl View for MetaFilter {
    type V = MetaFilterView;

    open spec fn view(&self) -> MetaFilterView {
        meta_view(*self)
    }
}

/// What a filter in the store's form holds, with what its children hold.
pub open spec fn meta_view(node: MetaFilter) -> MetaFilterView
    decreases node,
{
    match node {
        MetaFilter::Or(children) => MetaFilterView::Or(
            Seq::new(
                children@.len(),
                |i: int|
                    if 0 <= i < children@.len() {
                        meta_view(children@[i])
                    } else {
                        MetaFilterView::Or(Seq::empty())
                    },
            ),
        ),
        MetaFilter::And(children) => MetaFilterView::And(
            Seq::new(
                children@.len(),
                |i: int|
                    if 0 <= i < children@.len() {
                        meta_view(children@[i])
                    } else {
                        MetaFilterView::Or(Seq::empty())
                    },
            ),
        ),
        MetaFilter::Leaf(leaf) => MetaFilterView::Leaf(leaf@),
    }
}

/// What a list of filters in the store's form holds.
pub open spec fn meta_views(nodes: Seq<MetaFilter>) -> Seq<MetaFilterView> {
    Seq::new(nodes.len(), |i: int| nodes[i]@)
}

proof fn view_of_meta(nodes: Vec<MetaFilter>)
    ensures
        MetaFilter::Or(nodes)@ == MetaFilterView::Or(meta_views(nodes@)),
        MetaFilter::And(nodes)@ == MetaFilterView::And(meta_views(nodes@)),
{
    reveal_with_fuel(meta_view, 2);
    assert(MetaFilter::Or(nodes)@->Or_0 =~= meta_views(nodes@));
    assert(MetaFilter::And(nodes)@->And_0 =~= meta_views(nodes@));
}

/// The store's form of a leaf.
pub open spec fn meta_leaf(leaf: LeafView) -> MetaLeafView {
    MetaLeafView {
        key: leaf.key,
        value: leaf.value,
        kind: kind_of(leaf.filter_type),
        op: op_of(leaf.numeric_operator),
        negate: flag(leaf.negate),
        ignore_case: flag(leaf.ignore_case),
    }
}

/// The store's form of a filter tree: the same tree, with each leaf's comparison decided.
pub open spec fn meta_filter(node: FilterView) -> MetaFilterView
    decreases node,
{
    match node {
        FilterView::Or(children) => MetaFilterView::Or(
            Seq::new(
                children.len(),
                |i: int|
                    if 0 <= i < children.len() {
                        meta_filter(children[i])
                    } else {
                        MetaFilterView::Or(Seq::empty())
                    },
            ),
        ),
        FilterView::And(children) => MetaFilterView::And(
            Seq::new(
                children.len(),
                |i: int|
                    if 0 <= i < children.len() {
                        meta_filter(children[i])
                    } else {
                        MetaFilterView::Or(Seq::empty())
                    },
            ),
        ),
        FilterView::Leaf(leaf) => MetaFilterView::Leaf(meta_leaf(leaf)),
    }
}

/// The store's forms of a list of filter trees.
pub open spec fn meta_filters(nodes: Seq<FilterView>) -> Seq<MetaFilterView> {
    Seq::new(nodes.len(), |i: int| meta_filter(nodes[i]))
}

proof fn meta_of_combiner(nodes: Seq<FilterView>)
    ensures
        meta_filter(FilterView::Or(nodes)) == MetaFilterView::Or(meta_filters(nodes)),
        meta_filter(FilterView::And(nodes)) == MetaFilterView::And(meta_filters(nodes)),
{
    reveal_with_fuel(meta_filter, 2);
    assert(meta_filter(FilterView::Or(nodes))->Or_0 =~= meta_filters(nodes));
    assert(meta_filter(FilterView::And(nodes))->And_0 =~= meta_filters(nodes));
}

/// The metadata satisfies the filter in the store's form, `depth` levels down.
pub open spec fn meta_matches(node: MetaFilterView, metadata: JsonView, depth: nat) -> bool
    decreases node,
{
    depth < MAX_DEPTH && match node {
        MetaFilterView::Or(children) => children.len() == 0 || exists|i: int|
            0 <= i < children.len() && meta_matches(#[trigger] children[i], metadata, depth + 1),
        MetaFilterView::And(children) => forall|i: int|
            0 <= i < children.len() ==> meta_matches(#[trigger] children[i], metadata, depth + 1),
        MetaFilterView::Leaf(leaf) => match metadata.get(leaf.key) {
            Some(raw) => comparison_holds(raw, leaf.value, leaf.kind, leaf.op, leaf.ignore_case)
                != leaf.negate,
            None => leaf.negate,
        },
    }
}

proof fn meta_combiners_unfold(children: Seq<MetaFilterView>, metadata: JsonView, depth: nat)
    ensures
        meta_matches(MetaFilterView::Or(children), metadata, depth) == (depth < MAX_DEPTH && (
        children.len() == 0 || exists|i: int|
            0 <= i < children.len() && meta_matches(#[trigger] children[i], metadata, depth + 1))),
        meta_matches(MetaFilterView::And(children), metadata, depth) == (depth < MAX_DEPTH && forall|
            i: int,
        |
            0 <= i < children.len() ==> meta_matches(#[trigger] children[i], metadata, depth + 1)),
{
    let node = MetaFilterView::And(children);
    if meta_matches(node, metadata, depth) {
        assert(depth < MAX_DEPTH);
        assert forall|i: int| 0 <= i < children.len() implies meta_matches(
            #[trigger] children[i],
            metadata,
            depth + 1,
        ) by {
            assert(meta_matches(node->And_0[i], metadata, depth + 1));
        }
    } else if depth < MAX_DEPTH {
        let i = choose|i: int|
            0 <= i < node->And_0.len() && !meta_matches(
                #[trigger] node->And_0[i],
                metadata,
                depth + 1,
            );
        assert(!meta_matches(children[i], metadata, depth + 1));
    }
}

fn meta_list(nodes: &Vec<FilterNode>) -> (r: Vec<MetaFilter>)
    ensures
        meta_views(r@) == meta_filters(filter_views(nodes@)),
    decreases nodes,
{
    let ghost all = meta_filters(filter_views(nodes@));
    let mut out: Vec<MetaFilter> = Vec::new();
    let mut i: usize = 0;
    while i < nodes.len()
        invariant
            all == meta_filters(filter_views(nodes@)),
            i <= nodes@.len(),
            meta_views(out@) =~= all.take(i as int),
        decreases nodes@.len() - i,
    {
        let ghost before = out@;
        let child: MetaFilter = to_meta_filter(&nodes[i]);
        let ghost held = child@;
        out.push(child);
        i += 1;
        assert(meta_views(out@) =~= meta_views(before).push(held));
        assert(filter_views(nodes@)[i - 1] == nodes@[i - 1]@);
        assert(all.take(i as int) =~= all.take(i - 1).push(all[i - 1]));
    }
    assert(all.take(i as int) =~= all);
    out
}

/// The store's form of a filter tree.
pub fn to_meta_filter(node: &FilterNode) -> (r: MetaFilter)
    ensures
        r@ == meta_filter(node@),
    decreases node,
{
    match node {
        FilterNode::Or { or } => {
            let children: Vec<MetaFilter> = meta_list(or);
            proof {
                view_of_or(*or);
                view_of_meta(children);
                meta_of_combiner(filter_views(or@));
            }
            MetaFilter::Or(children)
        },
        FilterNode::And { and } => {
            let children: Vec<MetaFilter> = meta_list(and);
            proof {
                view_of_and(*and);
                view_of_meta(children);
                meta_of_combiner(filter_views(and@));
            }
            MetaFilter::And(children)
        },
        FilterNode::Leaf(leaf) => MetaFilter::Leaf(
            MetaLeaf {
                key: leaf.key.clone(),
                value: leaf.value.clone(),
                kind: kind(&leaf.filter_type),
                op: op(&leaf.numeric_operator),
                negate: is_set(leaf.negate),
                ignore_case: is_set(leaf.ignore_case),
            },
        ),
    }
}

/// The store's form of an optional filter tree.
pub open spec fn meta_filter_of(filters: Option<FilterView>) -> Option<MetaFilterView> {
    match filters {
        Some(node) => Some(meta_filter(node)),
        None => None,
    }
}

/// What an optional filter tree holds.
pub open spec fn filter_of(filters: Option<FilterNode>) -> Option<FilterView> {
    match filters {
        Some(node) => Some(node@),
        None => None,
    }
}

/// What an optional filter in the store's form holds.
pub open spec fn meta_of(filters: Option<MetaFilter>) -> Option<MetaFilterView> {
    match filters {
        Some(node) => Some(node@),
        None => None,
    }
}

/// The store's form of an optional filter tree.
pub fn to_meta_filter_opt(filters: &Option<FilterNode>) -> (r: Option<MetaFilter>)
    ensures
        meta_of(r) == meta_filter_of(filter_of(*filters)),
{
    match filters {
        Some(node) => Some(to_meta_filter(node)),
        None => None,
    }
}

// ---------------------------------------------------------------------------------------------
// Laws
// ---------------------------------------------------------------------------------------------

/// A filter and its form in the store select the same metadata, at every depth.
pub proof fn store_form_agrees(node: FilterView, metadata: JsonView, depth: nat)
    ensures
        meta_matches(meta_filter(node), metadata, depth) == node_matches(node, metadata, depth),
    decreases node, 1int,
{
    match node {
        FilterView::Or(children) => {
            children_agree(node, children, metadata, depth);
        },
        FilterView::And(children) => {
            children_agree(node, children, metadata, depth);
        },
        FilterView::Leaf(_) => {},
    }
}

proof fn children_agree(
    node: FilterView,
    children: Seq<FilterView>,
    metadata: JsonView,
    depth: nat,
)
    requires
        node == FilterView::Or(children) || node == FilterView::And(children),
    ensures
        meta_matches(meta_filter(node), metadata, depth) == node_matches(node, metadata, depth),
    decreases node, 0int,
{
    let forms = meta_filters(children);
    meta_of_combiner(children);
    combiners_unfold(children, metadata, depth);
    meta_combiners_unfold(forms, metadata, depth);
    assert forall|i: int| 0 <= i < children.len() implies node_matches(
        #[trigger] children[i],
        metadata,
        depth + 1,
    ) == meta_matches(forms[i], metadata, depth + 1) by {
        store_form_agrees(children[i], metadata, depth + 1);
    }
    assert forall|i: int| 0 <= i < forms.len() implies meta_matches(
        #[trigger] forms[i],
        metadata,
        depth + 1,
    ) == node_matches(children[i], metadata, depth + 1) by {}
}

/// Of two finite numbers, exactly one of less, equal and greater holds; at least and at most are
/// greater or equal and less or equal; and what holds of the two holds, turned round, of the two
/// turned round.
pub proof fn operators_order_the_numbers(a: u64, b: u64)
    requires
        is_finite(a),
        is_finite(b),
    ensures
        ({
            let gt = op_holds(Some(a), Some(b), Some(MetaOp::Gt));
            let lt = op_holds(Some(a), Some(b), Some(MetaOp::Lt));
            let eq = op_holds(Some(a), Some(b), Some(MetaOp::Eq));
            &&& gt || lt || eq
            &&& !(gt && lt) && !(gt && eq) && !(lt && eq)
            &&& op_holds(Some(a), Some(b), Some(MetaOp::Ge)) == (gt || eq)
            &&& op_holds(Some(a), Some(b), Some(MetaOp::Le)) == (lt || eq)
            &&& gt == op_holds(Some(b), Some(a), Some(MetaOp::Lt))
            &&& eq == op_holds(Some(b), Some(a), Some(MetaOp::Eq))
        }),
{
}

/// Of two values that are not both finite numbers, no operator holds.
pub proof fn operators_need_numbers(raw: JsonView, value: Seq<char>, op: Option<MetaOp>)
    requires
        finite_part(number_read(raw)) is None || finite_part(float_read(trimmed(value))) is None,
    ensures
        !numeric_holds(raw, value, op),
{
}

/// A combiner without children matches everything.
pub proof fn empty_combiners_match(metadata: JsonView)
    ensures
        node_matches(FilterView::Or(Seq::empty()), metadata, 0),
        node_matches(FilterView::And(Seq::empty()), metadata, 0),
{
}

/// Negating a leaf turns its matches into misses and its misses into matches.
pub proof fn negation_inverts(leaf: LeafView, metadata: JsonView)
    requires
        !flag(leaf.negate),
    ensures
        leaf_matches((LeafView { negate: Some(true), ..leaf }), metadata) == !leaf_matches(
            leaf,
            metadata,
        ),
{
}

/// Where the key is absent, a leaf matches exactly when it is negated.
pub proof fn absent_key_matches_when_negated(leaf: LeafView, metadata: JsonView)
    requires
        metadata.get(leaf.key) is None,
    ensures
        leaf_matches(leaf, metadata) == flag(leaf.negate),
{
}

/// A tree of `levels` nested `AND` nodes around a node.
pub open spec fn nested(node: FilterView, levels: nat) -> FilterView
    decreases levels,
{
    if levels == 0 {
        node
    } else {
        FilterView::And(seq![nested(node, (levels - 1) as nat)])
    }
}

/// A node that stands too deep never matches, and one above the cap is decided by itself.
pub proof fn nesting_is_capped(node: FilterView, metadata: JsonView, levels: nat, depth: nat)
    ensures
        depth + levels >= MAX_DEPTH ==> !node_matches(nested(node, levels), metadata, depth),
        depth + levels < MAX_DEPTH ==> node_matches(nested(node, levels), metadata, depth)
            == node_matches(node, metadata, depth + levels),
    decreases levels,
{
    if levels > 0 {
        let inner = nested(node, (levels - 1) as nat);
        nesting_is_capped(node, metadata, (levels - 1) as nat, depth + 1);
        let children = seq![inner];
        combiners_unfold(children, metadata, depth);
        assert(children[0] == inner);
        assert(nested(node, levels) == FilterView::And(children));
    }
}

/// A text compares as itself, a number as the text it is shown with, a truth value as its word;
/// nothing else compares.
pub proof fn scalars_compare_as_their_texts(text: Seq<char>, n: NumberView, json: JsonView)
    ensures
        scalar_text(JsonView::Text(text)) == Some(text),
        scalar_text(JsonView::Number(n)) == Some(n.text()),
        scalar_text(JsonView::Bool(true)) == Some("true"@),
        scalar_text(JsonView::Bool(false)) == Some("false"@),
        json is Null || json is Array || json is Object ==> scalar_text(json) is None,
{
}

/// A leaf of no special type matches a value exactly where the value, as a text, is its own,
/// letter for letter, or up to the case of ASCII letters where case is ignored. What is no scalar
/// it never matches.
pub proof fn equality_compares_the_whole_text(leaf: LeafView, metadata: JsonView, raw: JsonView)
    requires
        metadata.get(leaf.key) == Some(raw),
        leaf.filter_type != Some("numeric"@),
        leaf.filter_type != Some("array_contains"@),
        leaf.filter_type != Some("string_contains"@),
        leaf.negate != Some(true),
    ensures
        raw is Null || raw is Array || raw is Object ==> !leaf_matches(leaf, metadata),
        raw is Bool || raw is Number || raw is Text ==> {
            let text = scalar_text(raw)->0;
            &&& leaf.ignore_case != Some(true) ==> (leaf_matches(leaf, metadata) <==> text
                == leaf.value)
            &&& leaf.ignore_case == Some(true) ==> (leaf_matches(leaf, metadata) <==> text.len()
                == leaf.value.len() && forall|i: int|
                0 <= i < text.len() ==> {
                    ||| #[trigger] text[i] == leaf.value[i]
                    ||| 65 <= text[i] as int <= 90 && leaf.value[i] as int == text[i] as int + 32
                    ||| 65 <= leaf.value[i] as int <= 90 && text[i] as int == leaf.value[i] as int
                        + 32
                })
        },
{
    types_are_told_apart();
    if raw is Bool || raw is Number || raw is Text {
        case_is_all_that_differs(scalar_text(raw)->0, leaf.value);
    }
}

proof fn types_are_told_apart()
    ensures
        "metadata"@ != "numeric"@,
        "metadata"@ != "array_contains"@,
        "metadata"@ != "string_contains"@,
        "numeric"@ != "array_contains"@,
        "numeric"@ != "string_contains"@,
        "array_contains"@ != "string_contains"@,
{
    reveal_strlit("metadata");
    reveal_strlit("numeric");
    reveal_strlit("array_contains");
    reveal_strlit("string_contains");
    assert("metadata"@.len() == 8);
    assert("numeric"@.len() == 7);
    assert("array_contains"@.len() == 14);
    assert("string_contains"@.len() == 15);
}

/// A leaf that asks whether an array contains its value matches where the item at some place, as
/// a text, equals it, whatever the place; and it does not where none does.
pub proof fn array_items_count_at_every_place(
    leaf: LeafView,
    metadata: JsonView,
    items: Seq<JsonView>,
)
    requires
        metadata.get(leaf.key) == Some(JsonView::Array(items)),
        leaf.filter_type == Some("array_contains"@),
        leaf.negate != Some(true),
    ensures
        forall|k: int|
            0 <= k < items.len() && (scalar_text(#[trigger] items[k]) matches Some(text)
                && texts_equal(text, leaf.value, leaf.ignore_case == Some(true))) ==> leaf_matches(
                leaf,
                metadata,
            ),
        forall|k: int|
            0 <= k < items.len() && scalar_text(#[trigger] items[k]) == Some(leaf.value)
                ==> leaf_matches(leaf, metadata),
        (forall|k: int|
            0 <= k < items.len() ==> !(scalar_text(#[trigger] items[k]) matches Some(text)
                && texts_equal(text, leaf.value, leaf.ignore_case == Some(true))))
            ==> !leaf_matches(leaf, metadata),
{
    types_are_told_apart();
    case_is_all_that_differs(leaf.value, leaf.value);
    let ic = leaf.ignore_case == Some(true);
    assert forall|k: int|
        0 <= k < items.len() && (scalar_text(#[trigger] items[k]) matches Some(text)
            && texts_equal(text, leaf.value, ic)) implies leaf_matches(leaf, metadata) by {
        let raw = JsonView::Array(items);
        assert(equality_holds(raw->Array_0[k], leaf.value, ic));
        assert(array_holds(raw, leaf.value, ic));
    }
}

/// An array contains what either of two arrays that it is made of contains: items put in front or
/// behind hide nothing, and add only what they are.
pub proof fn array_contains_what_its_parts_contain(
    a: Seq<JsonView>,
    b: Seq<JsonView>,
    value: Seq<char>,
    ignore_case: bool,
)
    ensures
        array_holds(JsonView::Array(a + b), value, ignore_case) <==> array_holds(
            JsonView::Array(a),
            value,
            ignore_case,
        ) || array_holds(JsonView::Array(b), value, ignore_case),
        array_holds(JsonView::Array(seq![JsonView::Text(value)]), value, ignore_case),
        !array_holds(JsonView::Array(Seq::empty()), value, ignore_case),
{
    let whole = JsonView::Array(a + b);
    if array_holds(JsonView::Array(a), value, ignore_case) {
        let i = choose|i: int|
            0 <= i < a.len() && equality_holds(#[trigger] a[i], value, ignore_case);
        assert((a + b)[i] == a[i]);
        assert(equality_holds(whole->Array_0[i], value, ignore_case));
    }
    if array_holds(JsonView::Array(b), value, ignore_case) {
        let i = choose|i: int|
            0 <= i < b.len() && equality_holds(#[trigger] b[i], value, ignore_case);
        assert((a + b)[a.len() + i] == b[i]);
        assert(equality_holds(whole->Array_0[a.len() + i], value, ignore_case));
    }
    if array_holds(whole, value, ignore_case) {
        let i = choose|i: int|
            0 <= i < (a + b).len() && equality_holds(#[trigger] (a + b)[i], value, ignore_case);
        if i < a.len() {
            assert(equality_holds(JsonView::Array(a)->Array_0[i], value, ignore_case));
        } else {
            assert(equality_holds(JsonView::Array(b)->Array_0[i - a.len()], value, ignore_case));
        }
    }
    let one = seq![JsonView::Text(value)];
    case_is_all_that_differs(value, value);
    assert(equality_holds(JsonView::Array(one)->Array_0[0], value, ignore_case));
}

/// Only an array contains anything.
pub proof fn only_arrays_contain(raw: JsonView, value: Seq<char>, ignore_case: bool)
    requires
        !(raw is Array),
    ensures
        !array_holds(raw, value, ignore_case),
{
}

/// A leaf that asks whether a value, as a text, contains its own matches wherever its own stands
/// in the text.
pub proof fn contained_values_match(
    leaf: LeafView,
    metadata: JsonView,
    raw: JsonView,
    before: Seq<char>,
    behind: Seq<char>,
)
    requires
        metadata.get(leaf.key) == Some(raw),
        scalar_text(raw) == Some(before + leaf.value + behind),
        leaf.filter_type == Some("string_contains"@),
        leaf.negate != Some(true),
        leaf.ignore_case != Some(true),
    ensures
        leaf_matches(leaf, metadata),
{
    types_are_told_apart();
    a_part_occurs_between_any_two_texts(before, leaf.value, behind);
}

/// What a leaf that asks whether a value contains its own matches is a scalar with the leaf's
/// value in its text.
pub proof fn matches_contain_the_value(leaf: LeafView, metadata: JsonView, raw: JsonView)
    requires
        metadata.get(leaf.key) == Some(raw),
        leaf.filter_type == Some("string_contains"@),
        leaf.negate != Some(true),
        leaf_matches(leaf, metadata),
    ensures
        scalar_text(raw) is Some,
        leaf.ignore_case != Some(true) ==> exists|before: Seq<char>, behind: Seq<char>|
            #[trigger] (before + leaf.value + behind) == scalar_text(raw)->0,
        leaf.ignore_case == Some(true) ==> exists|before: Seq<char>, behind: Seq<char>|
            #[trigger] (before + lowercase(leaf.value) + behind) == lowercase(scalar_text(raw)->0),
{
    types_are_told_apart();
    if leaf.ignore_case == Some(true) {
        what_a_part_occurs_in_holds_it(lowercase(scalar_text(raw)->0), lowercase(leaf.value));
    } else {
        what_a_part_occurs_in_holds_it(scalar_text(raw)->0, leaf.value);
    }
}

/// Where case is ignored, a value contains the leaf's own as its lower-case text contains the
/// lower-case text of that.
pub proof fn ignoring_case_compares_lower_case(
    leaf: LeafView,
    metadata: JsonView,
    raw: JsonView,
    before: Seq<char>,
    behind: Seq<char>,
)
    requires
        metadata.get(leaf.key) == Some(raw),
        scalar_text(raw) is Some,
        leaf.filter_type == Some("string_contains"@),
        leaf.negate != Some(true),
        leaf.ignore_case == Some(true),
        lowercase(scalar_text(raw)->0) == before + lowercase(leaf.value) + behind,
    ensures
        leaf_matches(leaf, metadata),
{
    types_are_told_apart();
    a_part_occurs_between_any_two_texts(before, lowercase(leaf.value), behind);
}

/// A numeric leaf compares the metadata's number, or the number in its text, with the number in
/// its own value, in the order of the numbers.
pub proof fn numeric_leaves_compare_numbers(
    leaf: LeafView,
    metadata: JsonView,
    raw: JsonView,
    a: u64,
    b: u64,
)
    requires
        metadata.get(leaf.key) == Some(raw),
        leaf.filter_type == Some("numeric"@),
        leaf.negate != Some(true),
        raw matches JsonView::Number(n) ==> float_read(n.text()) == Some(Some(a)),
        raw matches JsonView::Text(t) ==> float_read(trimmed(t)) == Some(Some(a)),
        raw is Number || raw is Text,
        float_read(trimmed(leaf.value)) == Some(Some(b)),
        is_finite(a),
        is_finite(b),
    ensures
        leaf.numeric_operator == Some(">"@) ==> (leaf_matches(leaf, metadata) <==> rank(a) > rank(
            b,
        )),
        leaf.numeric_operator == Some("<"@) ==> (leaf_matches(leaf, metadata) <==> rank(a) < rank(
            b,
        )),
        leaf.numeric_operator == Some(">="@) ==> (leaf_matches(leaf, metadata) <==> rank(a)
            >= rank(b)),
        leaf.numeric_operator == Some("<="@) ==> (leaf_matches(leaf, metadata) <==> rank(a)
            <= rank(b)),
        leaf.numeric_operator == Some("="@) ==> (leaf_matches(leaf, metadata) <==> rank(a) == rank(
            b,
        )),
        leaf.numeric_operator is None ==> !leaf_matches(leaf, metadata),
{
    types_are_told_apart();
    reveal_strlit(">");
    reveal_strlit("<");
    reveal_strlit(">=");
    reveal_strlit("<=");
    reveal_strlit("=");
    assert(">"@[0] == '>');
    assert("<"@[0] == '<');
    assert("="@[0] == '=');
    assert(">="@[0] == '>' && ">="@.len() == 2);
    assert("<="@[0] == '<' && "<="@.len() == 2);
    assert(">"@.len() == 1 && "<"@.len() == 1 && "="@.len() == 1);
}

/// An `OR` with children matches exactly where one of them does one level down, whichever it is.
pub proof fn any_child_satisfies_an_or(
    before: Seq<FilterView>,
    child: FilterView,
    behind: Seq<FilterView>,
    metadata: JsonView,
    depth: nat,
)
    requires
        depth < 16,
    ensures
        node_matches(FilterView::Or(before + seq![child] + behind), metadata, depth) <==> {
            ||| node_matches(child, metadata, depth + 1)
            ||| before.len() > 0 && node_matches(FilterView::Or(before), metadata, depth)
            ||| behind.len() > 0 && node_matches(FilterView::Or(behind), metadata, depth)
        },
{
    let all = before + seq![child] + behind;
    let n = before.len() as int;
    combiners_unfold(all, metadata, depth);
    combiners_unfold(before, metadata, depth);
    combiners_unfold(behind, metadata, depth);
    assert(all[n] == child);
    assert forall|i: int| 0 <= i < before.len() implies all[i] == #[trigger] before[i] by {}
    assert forall|i: int| 0 <= i < behind.len() implies all[n + 1 + i] == #[trigger] behind[i] by {}
    if node_matches(FilterView::Or(all), metadata, depth) {
        let i = choose|i: int|
            0 <= i < all.len() && node_matches(#[trigger] all[i], metadata, depth + 1);
        if i < n {
            assert(node_matches(before[i], metadata, depth + 1));
        } else if i > n {
            assert(node_matches(behind[i - n - 1], metadata, depth + 1));
        }
    }
}

/// An `AND` matches exactly where every one of its children does one level down.
pub proof fn every_child_of_an_and_counts(
    before: Seq<FilterView>,
    child: FilterView,
    behind: Seq<FilterView>,
    metadata: JsonView,
    depth: nat,
)
    requires
        depth < 16,
    ensures
        node_matches(FilterView::And(before + seq![child] + behind), metadata, depth) <==> {
            &&& node_matches(child, metadata, depth + 1)
            &&& node_matches(FilterView::And(before), metadata, depth)
            &&& node_matches(FilterView::And(behind), metadata, depth)
        },
{
    let all = before + seq![child] + behind;
    let n = before.len() as int;
    combiners_unfold(all, metadata, depth);
    combiners_unfold(before, metadata, depth);
    combiners_unfold(behind, metadata, depth);
    assert(all[n] == child);
    assert forall|i: int| 0 <= i < before.len() implies all[i] == #[trigger] before[i] by {}
    assert forall|i: int| 0 <= i < behind.len() implies all[n + 1 + i] == #[trigger] behind[i] by {}
    if node_matches(FilterView::And(before), metadata, depth) && node_matches(
        FilterView::And(behind),
        metadata,
        depth,
    ) && node_matches(child, metadata, depth + 1) {
        assert forall|i: int| 0 <= i < all.len() implies node_matches(
            #[trigger] all[i],
            metadata,
            depth + 1,
        ) by {
            if i < n {
                assert(node_matches(before[i], metadata, depth + 1));
            } else if i > n {
                assert(node_matches(behind[i - n - 1], metadata, depth + 1));
            }
        }
    }
}

/// A leaf is looked at down to the fifteenth level below the top, and no further.
pub proof fn sixteen_levels_are_looked_at(leaf: LeafView, metadata: JsonView, depth: nat)
    ensures
        depth <= 15 ==> node_matches(FilterView::Leaf(leaf), metadata, depth) == leaf_matches(
            leaf,
            metadata,
        ),
        depth >= 16 ==> !node_matches(FilterView::Leaf(leaf), metadata, depth),
{
}

// ---------------------------------------------------------------------------------------------
// Writing a filter
// ---------------------------------------------------------------------------------------------

/// An optional text as JSON.
pub open spec fn written_text(text: Option<Seq<char>>) -> JsonView {
    match text {
        Some(text) => JsonView::Text(text),
        None => JsonView::Null,
    }
}

/// An optional flag as JSON.
pub open spec fn written_flag(flag: Option<bool>) -> JsonView {
    match flag {
        Some(b) => JsonView::Bool(b),
        None => JsonView::Null,
    }
}

/// A leaf as clients write it: an object with a field for each of its parts.
pub open spec fn written_leaf(leaf: LeafView) -> JsonView {
    no_fields()
        .with("key"@, JsonView::Text(leaf.key))
        .with("value"@, JsonView::Text(leaf.value))
        .with("filterType"@, written_text(leaf.filter_type))
        .with("numericOperator"@, written_text(leaf.numeric_operator))
        .with("negate"@, written_flag(leaf.negate))
        .with("ignoreCase"@, written_flag(leaf.ignore_case))
}

/// A filter tree as clients write it: a leaf as an object, and a combiner as an object with the
/// array of its children under `OR` or `AND`.
pub open spec fn is_written(json: JsonView, node: FilterView) -> bool
    decreases node,
{
    match node {
        FilterView::Leaf(leaf) => json == written_leaf(leaf),
        FilterView::Or(children) => {
            &&& children_of(json, "OR"@) matches Some(items)
            &&& items.len() == children.len()
            &&& forall|i: int|
                0 <= i < children.len() ==> is_written(#[trigger] items[i], children[i])
            &&& json is Object
        },
        FilterView::And(children) => {
            &&& children_of(json, "AND"@) matches Some(items)
            &&& items.len() == children.len()
            &&& forall|i: int|
                0 <= i < children.len() ==> is_written(#[trigger] items[i], children[i])
            &&& json is Object
            &&& json.get("OR"@) is None
        },
    }
}

proof fn names_of_fields_differ()
    ensures
        "key"@ != "value"@,
        "key"@ != "filterType"@,
        "key"@ != "numericOperator"@,
        "key"@ != "negate"@,
        "key"@ != "ignoreCase"@,
        "value"@ != "filterType"@,
        "value"@ != "numericOperator"@,
        "value"@ != "negate"@,
        "value"@ != "ignoreCase"@,
        "filterType"@ != "numericOperator"@,
        "filterType"@ != "negate"@,
        "filterType"@ != "ignoreCase"@,
        "numericOperator"@ != "negate"@,
        "numericOperator"@ != "ignoreCase"@,
        "negate"@ != "ignoreCase"@,
        "OR"@ != "key"@,
        "OR"@ != "value"@,
        "OR"@ != "filterType"@,
        "OR"@ != "numericOperator"@,
        "OR"@ != "negate"@,
        "OR"@ != "ignoreCase"@,
        "AND"@ != "key"@,
        "AND"@ != "value"@,
        "AND"@ != "filterType"@,
        "AND"@ != "numericOperator"@,
        "AND"@ != "negate"@,
        "AND"@ != "ignoreCase"@,
{
    reveal_strlit("key");
    reveal_strlit("value");
    reveal_strlit("filterType");
    reveal_strlit("numericOperator");
    reveal_strlit("negate");
    reveal_strlit("ignoreCase");
    reveal_strlit("OR");
    reveal_strlit("AND");
    assert("key"@.len() == 3 && "key"@[0] == 'k');
    assert("value"@.len() == 5);
    assert("filterType"@.len() == 10 && "filterType"@[0] == 'f');
    assert("numericOperator"@.len() == 15);
    assert("negate"@.len() == 6);
    assert("ignoreCase"@.len() == 10 && "ignoreCase"@[0] == 'i');
    assert("OR"@.len() == 2);
    assert("AND"@.len() == 3 && "AND"@[0] == 'A');
}

proof fn written_leaf_has_its_parts(leaf: LeafView)
    ensures
        ({
            let json = written_leaf(leaf);
            &&& json is Object
            &&& json.get("key"@) == Some(JsonView::Text(leaf.key))
            &&& json.get("value"@) == Some(JsonView::Text(leaf.value))
            &&& json.get("filterType"@) == Some(written_text(leaf.filter_type))
            &&& json.get("numericOperator"@) == Some(written_text(leaf.numeric_operator))
            &&& json.get("negate"@) == Some(written_flag(leaf.negate))
            &&& json.get("ignoreCase"@) == Some(written_flag(leaf.ignore_case))
            &&& json.get("OR"@) is None
            &&& json.get("AND"@) is None
        }),
{
    names_of_fields_differ();
    reveal_with_fuel(field_from, 8);
}

/// A filter that is written as clients write it reads as the filter that was meant.
pub proof fn written_filters_read_back(json: JsonView, node: FilterView)
    requires
        is_written(json, node),
    ensures
        parsed_filter(json) == Some(node),
    decreases node,
{
    match node {
        FilterView::Leaf(leaf) => {
            written_leaf_has_its_parts(leaf);
        },
        FilterView::Or(children) => {
            let items = children_of(json, "OR"@)->0;
            assert forall|i: int| 0 <= i < children.len() implies #[trigger] parsed_filter(items[i])
                == Some(children[i]) by {
                assert(is_written(items[i], children[i]));
                written_filters_read_back(items[i], children[i]);
            }
            children_read(json, "OR"@, children, children.len());
        },
        FilterView::And(children) => {
            let items = children_of(json, "AND"@)->0;
            assert forall|i: int| 0 <= i < children.len() implies #[trigger] parsed_filter(items[i])
                == Some(children[i]) by {
                assert(is_written(items[i], children[i]));
                written_filters_read_back(items[i], children[i]);
            }
            children_read(json, "AND"@, children, children.len());
        },
    }
}

proof fn children_read(json: JsonView, key: Seq<char>, children: Seq<FilterView>, count: nat)
    requires
        children_of(json, key) matches Some(items) && items.len() == children.len() && count
            <= items.len() && forall|i: int|
            0 <= i < children.len() ==> #[trigger] parsed_filter(items[i]) == Some(children[i]),
    ensures
        parsed_children(json, key, count) == Some(children.take(count as int)),
        count == children.len() ==> parsed_children(json, key, count) == Some(children),
    decreases count,
{
    let items = children_of(json, key)->0;
    if count > 0 {
        children_read(json, key, children, (count - 1) as nat);
        assert(parsed_filter(items[count - 1]) == Some(children[count - 1]));
        assert(children.take(count as int) =~= children.take(count - 1).push(children[count - 1]));
    } else {
        assert(children.take(0) =~= Seq::empty());
    }
    if count == children.len() {
        assert(children.take(count as int) =~= children);
    }
}

/// The store's form of a tree is the same tree: as many children, each the form of its own, and
/// each leaf with its key, its value, its comparison and its flags.
pub proof fn store_form_keeps_the_tree(children: Seq<FilterView>, leaf: LeafView)
    ensures
        meta_filter(FilterView::Or(children)) matches MetaFilterView::Or(forms) && forms.len()
            == children.len() && forall|i: int|
            0 <= i < children.len() ==> #[trigger] forms[i] == meta_filter(children[i]),
        meta_filter(FilterView::And(children)) matches MetaFilterView::And(forms) && forms.len()
            == children.len() && forall|i: int|
            0 <= i < children.len() ==> #[trigger] forms[i] == meta_filter(children[i]),
        meta_filter(FilterView::Leaf(leaf)) matches MetaFilterView::Leaf(form) && {
            &&& form.key == leaf.key
            &&& form.value == leaf.value
            &&& form.negate == (leaf.negate == Some(true))
            &&& form.ignore_case == (leaf.ignore_case == Some(true))
            &&& leaf.filter_type == Some("numeric"@) <==> form.kind is Numeric
            &&& leaf.filter_type == Some("array_contains"@) <==> form.kind is ArrayContains
            &&& leaf.filter_type == Some("string_contains"@) <==> form.kind is StringContains
            &&& leaf.numeric_operator == Some(">"@) <==> form.op == Some(MetaOp::Gt)
            &&& leaf.numeric_operator == Some("<"@) <==> form.op == Some(MetaOp::Lt)
            &&& leaf.numeric_operator == Some(">="@) <==> form.op == Some(MetaOp::Ge)
            &&& leaf.numeric_operator == Some("<="@) <==> form.op == Some(MetaOp::Le)
            &&& leaf.numeric_operator == Some("="@) <==> form.op == Some(MetaOp::Eq)
        },
{
    meta_of_combiner(children);
    types_are_told_apart();
    reveal_strlit(">");
    reveal_strlit("<");
    reveal_strlit(">=");
    reveal_strlit("<=");
    reveal_strlit("=");
    assert(">"@[0] == '>');
    assert("<"@[0] == '<');
    assert("="@[0] == '=');
    assert(">="@[0] == '>' && ">="@.len() == 2);
    assert("<="@[0] == '<' && "<="@.len() == 2);
    assert(">"@.len() == 1 && "<"@.len() == 1 && "="@.len() == 1);
}

/// A flag can be written as a text: the words for the truth values read as these do, and any other
/// text, number, list or object leaves the flag unset.
pub proof fn flags_can_be_written_as_words(text: Seq<char>, other: JsonView, b: bool)
    ensures
        loose_bool(Some(JsonView::Bool(b))) == Some(b),
        loose_bool(Some(JsonView::Text("true"@))) == loose_bool(Some(JsonView::Bool(true))),
        loose_bool(Some(JsonView::Text("false"@))) == loose_bool(Some(JsonView::Bool(false))),
        text != "true"@ && text != "false"@ ==> loose_bool(Some(JsonView::Text(text))) is None,
        !(other is Bool) && !(other is Text) ==> loose_bool(Some(other)) is None,
        loose_bool(None) is None,
{
    reveal_strlit("true");
    reveal_strlit("false");
    assert("true"@.len() == 4);
    assert("false"@.len() == 5);
}

/// An object is a leaf exactly where its key and its value are texts, and its type and operator
/// are texts, null or absent; the leaf has just these.
pub proof fn leaves_are_read_from_their_fields(json: JsonView)
    requires
        json is Object,
    ensures
        ({
            let kind = json.get("filterType"@);
            let op = json.get("numericOperator"@);
            &&& parsed_leaf(json) is Some <==> {
                &&& json.get_text("key"@) is Some
                &&& json.get_text("value"@) is Some
                &&& kind is None || kind->0 is Null || kind->0 is Text
                &&& op is None || op->0 is Null || op->0 is Text
            }
            &&& parsed_leaf(json) matches Some(leaf) ==> {
                &&& Some(leaf.key) == json.get_text("key"@)
                &&& Some(leaf.value) == json.get_text("value"@)
                &&& leaf.filter_type == json.get_text("filterType"@)
                &&& leaf.numeric_operator == json.get_text("numericOperator"@)
                &&& leaf.negate == loose_bool(json.get("negate"@))
                &&& leaf.ignore_case == loose_bool(json.get("ignoreCase"@))
            }
        }),
{
}

/// A leaf can be written as the list of its parts, in order; the last ones can be left out where
/// they are unset, and a list of more parts is no leaf.
pub proof fn leaves_can_be_written_in_order(leaf: LeafView, items: Seq<JsonView>)
    ensures
        ({
            let parts = seq![
                JsonView::Text(leaf.key),
                JsonView::Text(leaf.value),
                written_text(leaf.filter_type),
                written_text(leaf.numeric_operator),
                written_flag(leaf.negate),
                written_flag(leaf.ignore_case),
            ];
            &&& parsed_filter(JsonView::Array(parts)) == Some(FilterView::Leaf(leaf))
            &&& leaf.ignore_case is None ==> parsed_filter(JsonView::Array(parts.take(5))) == Some(
                FilterView::Leaf(leaf),
            )
            &&& leaf.filter_type is None && leaf.numeric_operator is None && leaf.negate is None
                && leaf.ignore_case is None ==> parsed_filter(JsonView::Array(parts.take(2)))
                == Some(FilterView::Leaf(leaf))
            &&& parsed_filter(JsonView::Array(parts.take(1))) is None
        }),
        items.len() > 6 ==> parsed_filter(JsonView::Array(items)) is None,
{
}

/// An object with an item under `OR` or `AND` that is no tree is no such combiner.
pub proof fn every_child_must_be_a_tree(json: JsonView, key: Seq<char>, i: int)
    requires
        children_of(json, key) matches Some(items) && 0 <= i < items.len() && parsed_filter(
            items[i],
        ) is None,
        key == "OR"@ || key == "AND"@,
    ensures
        key == "OR"@ ==> !(parsed_filter(json) matches Some(FilterView::Or(_))),
        key == "AND"@ ==> !(parsed_filter(json) matches Some(FilterView::And(_))),
{
    let items = children_of(json, key)->0;
    assert(parsed_children(json, key, (i + 1) as nat) is None);
    no_tree_past_a_bad_item(json, key, (i + 1) as nat, items.len());
}

/// A numeric leaf never matches where either side is no finite number: a text that does not read as
/// one, an infinity, or a value that is neither a number nor a text.
pub proof fn numeric_leaves_need_finite_numbers(leaf: LeafView, metadata: JsonView, raw: JsonView)
    requires
        metadata.get(leaf.key) == Some(raw),
        leaf.filter_type == Some("numeric"@),
        leaf.negate != Some(true),
    ensures
        leaf_matches(leaf, metadata) ==> {
            &&& raw is Number || raw is Text
            &&& raw matches JsonView::Number(n) ==> (float_read(n.text()) is Some && float_read(
                n.text(),
            )->0 is Some)
            &&& raw matches JsonView::Text(t) ==> (float_read(trimmed(t)) is Some && float_read(
                trimmed(t),
            )->0 is Some)
            &&& float_read(trimmed(leaf.value)) is Some && float_read(trimmed(leaf.value))->0 is Some
        },
{
    types_are_told_apart();
}

} // verus!
