use mnestic::filter::{
    eval_numeric, finite_number, json_as_f64, read_filter, relates, to_meta_filter, FilterNode,
    MetaFilter, MetaKind, MetaOp, MAX_DEPTH,
};
use mnestic::json::{Json, Number};
use serde_json::Value;

fn from_value(v: &Value) -> Json {
    match v {
        Value::Null => Json::Null,
        Value::Bool(b) => Json::Bool(*b),
        Value::Number(n) => Json::Number(match (n.as_u64(), n.as_i64()) {
            (Some(u), _) => Number::Unsigned(u),
            (None, Some(i)) => Number::Negative(i),
            (None, None) => Number::Float(n.to_string()),
        }),
        Value::String(s) => Json::Text(s.clone()),
        Value::Array(items) => Json::Array(items.iter().map(from_value).collect()),
        Value::Object(map) => Json::Object(map.iter().map(|(k, v)| (k.clone(), from_value(v))).collect()),
    }
}

fn json(text: &str) -> Json {
    from_value(&serde_json::from_str(text).expect("JSON"))
}

fn parse(text: &str) -> FilterNode {
    read_filter(&json(text)).expect("filter parses")
}

#[test]
fn equality_match_and_miss() {
    let node = parse(r#"{"key": "team", "value": "infra"}"#);
    assert!(mnestic::filter::matches(&node, &json(r#"{"team": "infra"}"#)));
    assert!(!mnestic::filter::matches(&node, &json(r#"{"team": "sales"}"#)));
    // A missing key is a non-match (before negate).
    assert!(!mnestic::filter::matches(&node, &json(r#"{"other": "infra"}"#)));
}

#[test]
fn ignore_case_equality() {
    let node = parse(r#"{"key": "team", "value": "Infra", "ignoreCase": true}"#);
    assert!(mnestic::filter::matches(&node, &json(r#"{"team": "infra"}"#)));
    let strict = parse(r#"{"key": "team", "value": "Infra"}"#);
    assert!(!mnestic::filter::matches(&strict, &json(r#"{"team": "infra"}"#)));
}

#[test]
fn negate_inverts_and_missing_key_negated_matches() {
    let node = parse(r#"{"key": "team", "value": "infra", "negate": true}"#);
    // Present-and-equal inverts to a non-match.
    assert!(!mnestic::filter::matches(&node, &json(r#"{"team": "infra"}"#)));
    // Present-and-different inverts to a match.
    assert!(mnestic::filter::matches(&node, &json(r#"{"team": "sales"}"#)));
    // Missing key: not-present negated is a match.
    assert!(mnestic::filter::matches(&node, &json(r#"{"other": "x"}"#)));
}

#[test]
fn numeric_each_operator() {
    let gt = parse(r#"{"key": "n", "value": "5", "filterType": "numeric", "numericOperator": ">"}"#);
    assert!(mnestic::filter::matches(&gt, &json(r#"{"n": 6}"#)));
    assert!(!mnestic::filter::matches(&gt, &json(r#"{"n": 5}"#)));
    let lt = parse(r#"{"key": "n", "value": "5", "filterType": "numeric", "numericOperator": "<"}"#);
    assert!(mnestic::filter::matches(&lt, &json(r#"{"n": 4}"#)));
    let ge = parse(r#"{"key": "n", "value": "5", "filterType": "numeric", "numericOperator": ">="}"#);
    assert!(mnestic::filter::matches(&ge, &json(r#"{"n": 5}"#)));
    let le = parse(r#"{"key": "n", "value": "5", "filterType": "numeric", "numericOperator": "<="}"#);
    assert!(mnestic::filter::matches(&le, &json(r#"{"n": 5}"#)));
    let eq = parse(r#"{"key": "n", "value": "5", "filterType": "numeric", "numericOperator": "="}"#);
    assert!(mnestic::filter::matches(&eq, &json(r#"{"n": 5.0}"#)));
    // A numeric value stored as a string still parses.
    assert!(mnestic::filter::matches(&eq, &json(r#"{"n": "5"}"#)));
    // Non-numeric metadata, and an unknown operator, are non-matches, not panics.
    assert!(!mnestic::filter::matches(&eq, &json(r#"{"n": "not a number"}"#)));
    let bad_op = parse(r#"{"key": "n", "value": "5", "filterType": "numeric", "numericOperator": "~"}"#);
    assert!(!mnestic::filter::matches(&bad_op, &json(r#"{"n": 5}"#)));
    // A numeric filter with no operator at all has no defined comparison.
    let no_op = parse(r#"{"key": "n", "value": "5", "filterType": "numeric"}"#);
    assert!(!mnestic::filter::matches(&no_op, &json(r#"{"n": 5}"#)));
}

#[test]
fn array_contains() {
    let node = parse(r#"{"key": "tags", "value": "rust", "filterType": "array_contains"}"#);
    assert!(mnestic::filter::matches(&node, &json(r#"{"tags": ["rust", "go"]}"#)));
    assert!(!mnestic::filter::matches(&node, &json(r#"{"tags": ["python", "go"]}"#)));
    // A non-array value at the key never "contains".
    assert!(!mnestic::filter::matches(&node, &json(r#"{"tags": "rust"}"#)));
    // Numeric element rendered to a string still matches a string filter.
    let num = parse(r#"{"key": "ids", "value": "7", "filterType": "array_contains"}"#);
    assert!(mnestic::filter::matches(&num, &json(r#"{"ids": [7, 8]}"#)));
}

#[test]
fn string_contains() {
    let node = parse(r#"{"key": "note", "value": "power", "filterType": "string_contains"}"#);
    assert!(mnestic::filter::matches(&node, &json(r#"{"note": "the powerhouse note"}"#)));
    assert!(!mnestic::filter::matches(&node, &json(r#"{"note": "unrelated"}"#)));
    let ci = parse(r#"{"key": "note", "value": "POWER", "filterType": "string_contains", "ignoreCase": true}"#);
    assert!(mnestic::filter::matches(&ci, &json(r#"{"note": "the powerhouse"}"#)));
}

#[test]
fn nested_and_within_or() {
    // Match when team is infra, OR (env is prod AND tier is gold).
    let node = parse(
        r#"{"OR": [
            {"key": "team", "value": "infra"},
            {"AND": [
                {"key": "env", "value": "prod"},
                {"key": "tier", "value": "gold"}
            ]}
        ]}"#,
    );
    assert!(mnestic::filter::matches(&node, &json(r#"{"team": "infra"}"#)));
    assert!(mnestic::filter::matches(&node, &json(r#"{"env": "prod", "tier": "gold"}"#)));
    // The AND branch needs both keys; one alone does not satisfy it.
    assert!(!mnestic::filter::matches(&node, &json(r#"{"env": "prod", "tier": "silver"}"#)));
    assert!(!mnestic::filter::matches(&node, &json(r#"{"team": "sales"}"#)));
}

#[test]
fn string_form_booleans() {
    // The SDK allows "true"/"false" strings for negate and ignoreCase.
    let neg = parse(r#"{"key": "team", "value": "infra", "negate": "true"}"#);
    assert!(!mnestic::filter::matches(&neg, &json(r#"{"team": "infra"}"#)), "string negate inverts");
    assert!(mnestic::filter::matches(&neg, &json(r#"{"team": "sales"}"#)), "string negate inverts a miss to a match");
    let ci = parse(r#"{"key": "team", "value": "INFRA", "ignoreCase": "true"}"#);
    assert!(mnestic::filter::matches(&ci, &json(r#"{"team": "infra"}"#)), "string ignoreCase is honored");
    // "false" strings read as false, and bool forms still work.
    let off = parse(r#"{"key": "team", "value": "INFRA", "ignoreCase": "false"}"#);
    assert!(!mnestic::filter::matches(&off, &json(r#"{"team": "infra"}"#)), "ignoreCase=\"false\" stays case-sensitive");
    let bool_form = parse(r#"{"key": "team", "value": "infra", "negate": true}"#);
    assert!(!mnestic::filter::matches(&bool_form, &json(r#"{"team": "infra"}"#)), "bool form still works");
}

#[test]
fn empty_combiner() {
    // No constraint: an empty OR or AND matches anything.
    assert!(mnestic::filter::matches(&parse(r#"{"OR": []}"#), &json(r#"{"team": "infra"}"#)));
    assert!(mnestic::filter::matches(&parse(r#"{"AND": []}"#), &json(r#"{"team": "infra"}"#)));
}

#[test]
fn combiner_variant_ordering() {
    // Combiner objects must deserialize as combiners, not as a leaf (which has required
    // `key`/`value` they lack).
    assert!(matches!(parse(r#"{"OR": []}"#), FilterNode::Or { .. }));
    assert!(matches!(parse(r#"{"AND": []}"#), FilterNode::And { .. }));
    assert!(matches!(parse(r#"{"key": "k", "value": "v"}"#), FilterNode::Leaf(_)));
}

#[test]
fn depth_cap_does_not_overflow() {
    // Build an AND chain deeper than the cap. The innermost leaf would match, but the cap
    // short-circuits to a non-match before the stack can blow.
    let mut node = r#"{"key": "k", "value": "v"}"#.to_string();
    for _ in 0..(MAX_DEPTH + 5) {
        node = format!(r#"{{"AND": [{node}]}}"#);
    }
    let tree = parse(&node);
    assert!(!mnestic::filter::matches(&tree, &json(r#"{"k": "v"}"#)));
    // A chain shallower than the cap still evaluates normally.
    let mut shallow = r#"{"key": "k", "value": "v"}"#.to_string();
    for _ in 0..3 {
        shallow = format!(r#"{{"AND": [{shallow}]}}"#);
    }
    assert!(mnestic::filter::matches(&parse(&shallow), &json(r#"{"k": "v"}"#)));
}

#[test]
fn depth_cap_is_exact() {
    let chain = |levels: usize| {
        let mut node = r#"{"key": "k", "value": "v"}"#.to_string();
        for _ in 0..levels {
            node = format!(r#"{{"OR": [{node}]}}"#);
        }
        parse(&node)
    };
    let metadata = json(r#"{"k": "v"}"#);
    assert!(mnestic::filter::matches(&chain(MAX_DEPTH - 1), &metadata));
    assert!(!mnestic::filter::matches(&chain(MAX_DEPTH), &metadata));
}

#[test]
fn scalars_compare_as_text() {
    let eq = |value: &str| parse(&format!(r#"{{"key": "k", "value": "{value}"}}"#));
    assert!(mnestic::filter::matches(&eq("true"), &json(r#"{"k": true}"#)));
    assert!(mnestic::filter::matches(&eq("-12"), &json(r#"{"k": -12}"#)));
    assert!(mnestic::filter::matches(&eq("1.5"), &json(r#"{"k": 1.5}"#)));
    assert!(mnestic::filter::matches(&eq("18446744073709551615"), &json(r#"{"k": 18446744073709551615}"#)));
    assert!(!mnestic::filter::matches(&eq("null"), &json(r#"{"k": null}"#)));
    assert!(!mnestic::filter::matches(&eq("a"), &json(r#"{"k": ["a"]}"#)));
    assert!(!mnestic::filter::matches(&eq("a"), &json(r#"["k"]"#)));
}

#[test]
fn numbers_have_to_be_finite() {
    assert_eq!(json_as_f64(&json("5")), Some(Some(5.0f64.to_bits())));
    assert_eq!(json_as_f64(&json("-2")), Some(Some((-2.0f64).to_bits())));
    assert_eq!(json_as_f64(&json(r#"" 2.5e1 ""#)), Some(Some(25.0f64.to_bits())));
    assert_eq!(json_as_f64(&json(r#""inf""#)), Some(None));
    assert_eq!(json_as_f64(&json(r#""NaN""#)), Some(None));
    assert_eq!(json_as_f64(&json(r#""1e999""#)), Some(None));
    assert_eq!(json_as_f64(&json("true")), None);
    assert_eq!(json_as_f64(&json(r#""five""#)), None);
    assert_eq!(finite_number(Some(Some(7))), Some(7));
    assert_eq!(finite_number(Some(None)), None);
    assert_eq!(finite_number(None), None);
    for op in [MetaOp::Gt, MetaOp::Lt, MetaOp::Ge, MetaOp::Le, MetaOp::Eq] {
        assert!(!eval_numeric(&json(r#""inf""#), "inf", Some(op)));
    }
    assert!(!eval_numeric(&json("5"), "inf", Some(MetaOp::Lt)));
    assert!(eval_numeric(&json("18446744073709551615"), "18446744073709551616", Some(MetaOp::Eq)));
}

#[test]
fn operators_relate_signed_numbers() {
    let bits = |x: f64| Some(x.to_bits());
    assert!(relates(bits(-1.0), bits(2.0), Some(MetaOp::Lt)));
    assert!(relates(bits(-1.0), bits(-2.0), Some(MetaOp::Gt)));
    assert!(relates(bits(-0.0), bits(0.0), Some(MetaOp::Eq)));
    assert!(relates(bits(0.5), bits(0.5), Some(MetaOp::Ge)));
    assert!(relates(bits(0.5), bits(0.5), Some(MetaOp::Le)));
    assert!(!relates(bits(0.5), bits(0.5), None));
    assert!(!relates(None, bits(0.5), Some(MetaOp::Le)));
    assert!(!relates(bits(f64::NAN), bits(0.5), Some(MetaOp::Le)));
}

#[test]
fn lower_casing_is_unicode_and_equality_is_not() {
    let contains = parse(r#"{"key": "k", "value": "ÜBER", "filterType": "string_contains", "ignoreCase": true}"#);
    assert!(mnestic::filter::matches(&contains, &json(r#"{"k": "gegenüber"}"#)));
    let equal = parse(r#"{"key": "k", "value": "Ü", "ignoreCase": true}"#);
    assert!(!mnestic::filter::matches(&equal, &json(r#"{"k": "ü"}"#)));
}

#[test]
fn filters_that_do_not_read() {
    assert!(read_filter(&json(r#"{}"#)).is_none());
    assert!(read_filter(&json(r#"{"key": "k"}"#)).is_none());
    assert!(read_filter(&json(r#"{"key": "k", "value": 3}"#)).is_none());
    assert!(read_filter(&json(r#"{"key": "k", "value": "v", "filterType": 1}"#)).is_none());
    assert!(read_filter(&json(r#"{"OR": [{"key": "k"}]}"#)).is_none());
    assert!(read_filter(&json(r#"{"OR": 3, "AND": [1]}"#)).is_none());
    assert!(read_filter(&json("null")).is_none());
}

#[test]
fn leaves_written_as_arrays() {
    let node = parse(r#"["team", "infra"]"#);
    assert!(mnestic::filter::matches(&node, &json(r#"{"team": "infra"}"#)));
    assert!(!mnestic::filter::matches(&node, &json(r#"{"team": "sales"}"#)));
    match parse(r#"["n", "5", "numeric", ">", "true", false]"#) {
        FilterNode::Leaf(leaf) => {
            assert_eq!((leaf.key.as_str(), leaf.value.as_str()), ("n", "5"));
            assert_eq!(leaf.filter_type.as_deref(), Some("numeric"));
            assert_eq!(leaf.numeric_operator.as_deref(), Some(">"));
            assert_eq!((leaf.negate, leaf.ignore_case), (Some(true), Some(false)));
        }
        other => panic!("a leaf, got {other:?}"),
    }
    let nested = parse(r#"{"AND": [["k", "V", null, null, null, true]]}"#);
    assert!(mnestic::filter::matches(&nested, &json(r#"{"k": "v"}"#)));
    // A key and a value are needed, nothing may follow the last part, and the types hold.
    for bad in [r#"[]"#, r#"["k"]"#, r#"["k", 5]"#, r#"["k", "v", 1]"#, r#"["k","v",null,null,null,null,null]"#] {
        assert!(read_filter(&json(bad)).is_none(), "{bad}");
    }
}

#[test]
fn unusual_filters_that_read() {
    // The first shape that fits wins.
    assert!(matches!(parse(r#"{"OR": [1], "AND": []}"#), FilterNode::And { .. }));
    assert!(matches!(parse(r#"{"OR": [1], "key": "k", "value": "v"}"#), FilterNode::Leaf(_)));
    // A flag that is neither a boolean nor one of the two texts is unset.
    match parse(r#"{"key": "k", "value": "v", "negate": 1, "ignoreCase": "yes", "filterType": null}"#) {
        FilterNode::Leaf(leaf) => {
            assert_eq!(leaf.negate, None);
            assert_eq!(leaf.ignore_case, None);
            assert_eq!(leaf.filter_type, None);
        }
        other => panic!("a leaf, got {other:?}"),
    }
}

#[test]
fn store_form_decides_each_leaf() {
    let node = parse(
        r#"{"AND": [
            {"key": "n", "value": "5", "filterType": "numeric", "numericOperator": ">=", "negate": true},
            {"key": "t", "value": "x", "filterType": "other", "numericOperator": "~", "ignoreCase": "true"},
            {"OR": []}
        ]}"#,
    );
    let children = match to_meta_filter(&node) {
        MetaFilter::And(children) => children,
        other => panic!("an AND, got {other:?}"),
    };
    assert_eq!(children.len(), 3);
    match &children[0] {
        MetaFilter::Leaf(leaf) => {
            assert_eq!((leaf.key.as_str(), leaf.value.as_str()), ("n", "5"));
            assert_eq!((leaf.kind, leaf.op), (MetaKind::Numeric, Some(MetaOp::Ge)));
            assert_eq!((leaf.negate, leaf.ignore_case), (true, false));
        }
        other => panic!("a leaf, got {other:?}"),
    }
    match &children[1] {
        MetaFilter::Leaf(leaf) => {
            assert_eq!((leaf.kind, leaf.op), (MetaKind::Equality, None));
            assert_eq!((leaf.negate, leaf.ignore_case), (false, true));
        }
        other => panic!("a leaf, got {other:?}"),
    }
    assert!(matches!(&children[2], MetaFilter::Or(list) if list.is_empty()));
}
