use pg_jsonl::json::read_json_object;
use pg_jsonl::value::properties_from;
use pg_jsonl::{PgJsonlError, parse_pg_jsonl};
use property_graph_model::{PgEdge, PgNode};

#[test]
fn display_unknown_type() {
    let err = PgJsonlError::UnknownType {
        line: 3,
        kind: "vertex".to_owned(),
    };
    assert_eq!(
        err.to_string(),
        "PG-JSONL: line 3: unknown record type 'vertex'"
    );
}

#[test]
fn scalars_get_json_type_hints_and_nulls_vanish() {
    let map = read_json_object(
        r#"{"name": "Alice", "age": 30, "score": 1.5, "active": true,
            "tags": ["a", "b"], "gone": null}"#,
    )
    .expect("a JSON object");
    let props = properties_from(&map);
    let hints: Vec<(&str, &str, &str)> = props
        .iter()
        .map(|p| {
            (
                p.name.as_str(),
                p.value.as_str(),
                p.type_hint.as_deref().unwrap(),
            )
        })
        .collect();
    assert_eq!(
        hints,
        vec![
            ("active", "true", "boolean"),
            ("age", "30", "int"),
            ("name", "Alice", "string"),
            ("score", "1.5", "float"),
            ("tags", "[\"a\",\"b\"]", "json"),
        ]
    );
}

#[test]
fn parsed_records_convert_field_for_field() {
    let input = r#"{"type":"node","id":"1","labels":["Person"],"properties":{"age":30}}
{"type":"edge","source":"1","target":"2","label":"KNOWS","properties":{"since":2020}}
"#;
    let (nodes, edges) = parse_pg_jsonl(input).expect("parse");
    let node = PgNode::from(nodes.into_iter().next().expect("one node"));
    assert_eq!(node.source_id, "1");
    assert_eq!(node.labels, vec!["Person"]);
    assert_eq!(node.properties[0].key, "age");
    assert_eq!(node.properties[0].type_hint.as_deref(), Some("int"));

    let edge = PgEdge::from(edges.into_iter().next().expect("one edge"));
    assert_eq!(edge.source_id, "1");
    assert_eq!(edge.target_id, "2");
    assert_eq!(edge.rel_type, "KNOWS");
    assert_eq!(edge.properties[0].value, "2020");
}
