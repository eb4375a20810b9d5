use pg_jsonl::error::{decimal_string, decimal_successor};
use pg_jsonl::json::{JsonAtom, read_json_map, read_json_object};
use pg_jsonl::text::{split_once_char, strip_suffix_char, trim};
use pg_jsonl::{Edge, Node, PgJsonlError, PgJsonlRecord, PgJsonlStreamParser, Property, parse_pg_jsonl, parse_pg_jsonl_with};
use property_graph_model::{PgEdge, PgNode, PgProperty};

fn one_line(line: &str) -> Result<Option<PgJsonlRecord>, PgJsonlError> {
    PgJsonlStreamParser::new().parse_line(line)
}

fn json_detail(line: &str) -> String {
    match one_line(line) {
        Err(PgJsonlError::Json { line: 1, detail }) => detail,
        other => panic!("expected a JSON error on line 1, got {other:?}"),
    }
}

#[test]
fn blank_and_whitespace_lines_yield_nothing_but_count() {
    let mut parser = PgJsonlStreamParser::new();
    assert_eq!(parser.parse_line("").unwrap(), None);
    assert_eq!(parser.parse_line(" \t\r").unwrap(), None);
    assert_eq!(parser.parse_line("\u{3000}\u{a0}").unwrap(), None);
    let error = parser.parse_line("{}").unwrap_err();
    assert_eq!(error, PgJsonlError::Json { line: 4, detail: "missing field `type` at line 1 column 2".to_owned() });
}

#[test]
fn surrounding_whitespace_is_trimmed() {
    let record = one_line("\u{2003} {\"type\":\"node\",\"id\":\"a\"} \r").unwrap().unwrap();
    let PgJsonlRecord::Node(node) = record else { panic!("node expected") };
    assert_eq!(node.id, "a");
}

#[test]
fn unknown_type_is_reported_as_written() {
    assert_eq!(
        one_line(r#"{"type":"Node","id":"a"}"#).unwrap_err(),
        PgJsonlError::UnknownType { line: 1, kind: "Node".to_owned() }
    );
    assert_eq!(
        one_line(r#"{"type":"a`b","id":"a"}"#).unwrap_err(),
        PgJsonlError::UnknownType { line: 1, kind: "a`b".to_owned() }
    );
}

#[test]
fn shape_errors_are_json_errors() {
    assert!(json_detail("not json").starts_with("expected"));
    assert!(json_detail("42").contains("expected a map"));
    assert!(json_detail(r#"["node","a"]"#).contains("expected a map"));
    assert_eq!(json_detail(r#"{"id":"a"}"#), "missing field `type` at line 1 column 10");
    assert_eq!(json_detail("{\"id\":\"é\",\n \"x\":1}"), "missing field `type` at line 2 column 7");
    assert_eq!(json_detail(r#"{"type":3,"id":"a"}"#), "invalid type, expected variant identifier");
    assert_eq!(json_detail(r#"{"type":"node"}"#), "missing field `id`");
    assert_eq!(json_detail(r#"{"type":"node","id":true}"#), "data did not match any variant of untagged enum Id");
    assert_eq!(
        json_detail(r#"{"type":"node","id":"a","labels":null}"#),
        "invalid type: null, expected a sequence"
    );
    assert_eq!(
        json_detail(r#"{"type":"node","id":"a","labels":["x",2.5]}"#),
        "invalid type: floating point `2.5`, expected a string"
    );
    assert_eq!(
        json_detail(r#"{"type":"node","id":"a","properties":[1]}"#),
        "invalid type: sequence, expected a map"
    );
    assert_eq!(json_detail(r#"{"type":"edge","target":"b","label":"L"}"#), "missing field `source`");
    assert_eq!(
        json_detail(r#"{"type":"edge","source":"a","start":"a","target":"b","label":"L"}"#),
        "duplicate field `source`"
    );
    assert_eq!(
        json_detail(r#"{"type":"edge","source":{"name":"a"},"target":"b","label":"L"}"#),
        "data did not match any variant of untagged enum Endpoint"
    );
    assert_eq!(json_detail(r#"{"type":"edge","source":"a","target":"b"}"#), "missing field `label`");
    assert_eq!(
        json_detail(r#"{"type":"edge","source":"a","target":"b","label":7}"#),
        "invalid type: integer `7`, expected a string"
    );
    assert_eq!(
        json_detail(r#"{"type":"edge","label":{"k":1},"target":"b"}"#),
        "invalid type: map, expected a string"
    );
    assert_eq!(json_detail(r#"{"type":"node","labels":3}"#), "invalid type: integer `3`, expected a sequence");
    assert_eq!(
        json_detail(r#"{"type":"edge","id":[1],"source":"a","target":"b","label":"L"}"#),
        "data did not match any variant of untagged enum Id"
    );
}

#[test]
fn empty_identifiers_are_refused_in_field_order() {
    assert_eq!(one_line(r#"{"type":"node","id":""}"#).unwrap_err(), PgJsonlError::EmptyField { line: 1, field: "id" });
    assert_eq!(
        one_line(r#"{"type":"edge","source":"a","target":"","label":""}"#).unwrap_err(),
        PgJsonlError::EmptyField { line: 1, field: "target" }
    );
    assert_eq!(
        one_line(r#"{"type":"edge","source":"a","target":"b","label":""}"#).unwrap_err(),
        PgJsonlError::EmptyField { line: 1, field: "label" }
    );
}

#[test]
fn edge_ids_and_endpoints_take_both_forms() {
    let record = one_line(r#"{"type":"edge","id":null,"start":{"id":5},"end":2.5,"label":"L"}"#).unwrap().unwrap();
    let PgJsonlRecord::Edge(edge) = record else { panic!("edge expected") };
    assert_eq!(edge.id, None);
    assert_eq!(edge.source, "5");
    assert_eq!(edge.target, "2.5");
    let record = one_line(r#"{"type":"relationship","id":7,"source":"a","target":"b","label":"L"}"#).unwrap().unwrap();
    let PgJsonlRecord::Edge(edge) = record else { panic!("edge expected") };
    assert_eq!(edge.id.as_deref(), Some("7"));
}

#[test]
fn property_values_and_hints() {
    let record = one_line(
        r#"{"type":"node","id":"n","properties":{"b":false,"f":-0.5,"i":-3,"n":null,"o":{"k":[1, 2]},"s":"x\"y"}}"#,
    )
    .unwrap()
    .unwrap();
    let PgJsonlRecord::Node(node) = record else { panic!("node expected") };
    let got: Vec<(String, String, String)> = node
        .properties
        .into_iter()
        .map(|p| (p.name, p.value, p.type_hint.unwrap()))
        .collect();
    let want: Vec<(String, String, String)> = [
        ("b", "false", "boolean"),
        ("f", "-0.5", "float"),
        ("i", "-3", "int"),
        ("o", "{\"k\":[1,2]}", "json"),
        ("s", "x\"y", "string"),
    ]
    .iter()
    .map(|(a, b, c)| (a.to_string(), b.to_string(), c.to_string()))
    .collect();
    assert_eq!(got, want);
}

#[test]
fn property_names_are_distinct_and_ascending() {
    let record = one_line(r#"{"type":"node","id":"n","properties":{"b":1,"a":2,"b":3}}"#).unwrap().unwrap();
    let PgJsonlRecord::Node(node) = record else { panic!("node expected") };
    let names: Vec<&str> = node.properties.iter().map(|p| p.name.as_str()).collect();
    assert_eq!(names, ["a", "b"]);
    assert_eq!(node.properties[1].value, "3");
}

#[test]
fn concatenated_documents_parse_as_their_parts() {
    let a = "{\"type\":\"node\",\"id\":\"a\"}\n\n";
    let b = "{\"type\":\"edge\",\"source\":\"a\",\"target\":\"a\",\"label\":\"L\"}\n{\"type\":\"node\",\"id\":\"\"}\n";
    let joined = format!("{a}{b}");
    assert_eq!(parse_pg_jsonl(b).unwrap_err(), PgJsonlError::EmptyField { line: 2, field: "id" });
    assert_eq!(parse_pg_jsonl(&joined).unwrap_err(), PgJsonlError::EmptyField { line: 4, field: "id" });
    let b_ok = "{\"type\":\"node\",\"id\":\"b\"}";
    let (nodes, edges) = parse_pg_jsonl(&format!("{a}{b_ok}")).unwrap();
    assert_eq!(nodes.iter().map(|n| n.id.as_str()).collect::<Vec<_>>(), ["a", "b"]);
    assert!(edges.is_empty());
}

#[test]
fn edge_spellings_give_the_same_edge() {
    let plain = one_line(r#"{"type":"edge","id":3,"source":"a","target":7,"label":"L","properties":{"w":1}}"#);
    let apoc = one_line(r#"{"type":"relationship","id":3,"label":"L","start":{"id":"a"},"end":{"id":7},"properties":{"w":1}}"#);
    assert_eq!(plain, apoc);
    assert!(matches!(plain, Ok(Some(PgJsonlRecord::Edge(_)))));
}

#[test]
fn document_error_is_the_first_failing_line() {
    let input = "{\"type\":\"node\",\"id\":\"a\"}\n\n{\"type\":\"node\",\"id\":\"\"}\n{\"type\":\"vertex\"}\n";
    assert_eq!(parse_pg_jsonl(input).unwrap_err(), PgJsonlError::EmptyField { line: 3, field: "id" });
}

#[test]
fn final_line_ending_is_optional() {
    let without = "{\"type\":\"node\",\"id\":\"a\"}\r\n{\"type\":\"edge\",\"source\":\"a\",\"target\":\"a\",\"label\":\"SELF\"}\r";
    let with = format!("{without}\n");
    assert_eq!(parse_pg_jsonl(without).unwrap(), parse_pg_jsonl(&with).unwrap());
    let (nodes, edges) = parse_pg_jsonl(without).unwrap();
    assert_eq!((nodes.len(), edges.len()), (1, 1));
    assert_eq!(parse_pg_jsonl("").unwrap(), (Vec::new(), Vec::new()));
}

#[test]
fn callbacks_receive_records_in_order() {
    let input = "{\"type\":\"node\",\"id\":\"a\"}\n{\"type\":\"edge\",\"source\":\"a\",\"target\":\"b\",\"label\":\"L\"}\n{\"type\":\"node\",\"id\":\"b\"}";
    let mut nodes: Vec<Node> = Vec::new();
    let mut edges: Vec<Edge> = Vec::new();
    parse_pg_jsonl_with(input, |n| nodes.push(n), |e| edges.push(e)).unwrap();
    assert_eq!(nodes.iter().map(|n| n.id.as_str()).collect::<Vec<_>>(), ["a", "b"]);
    assert_eq!(edges.len(), 1);
    let error = parse_pg_jsonl_with("\n{", |_| {}, |_| {}).unwrap_err();
    assert!(matches!(error, PgJsonlError::Json { line: 2, .. }));
    let mut before: Vec<String> = Vec::new();
    let error = parse_pg_jsonl_with("{\"type\":\"node\",\"id\":\"x\"}\n{\"type\":\"v\"}\n{\"type\":\"node\",\"id\":\"y\"}", |n| before.push(n.id), |_| {}).unwrap_err();
    assert_eq!(error, PgJsonlError::UnknownType { line: 2, kind: "v".to_owned() });
    assert_eq!(before, ["x"]);
}

#[test]
fn error_messages() {
    let json = PgJsonlError::Json { line: 12, detail: "bad".to_owned() };
    assert_eq!(json.to_string(), "PG-JSONL: line 12: bad");
    let empty = PgJsonlError::EmptyField { line: 100, field: "label" };
    assert_eq!(empty.to_string(), "PG-JSONL: line 100: 'label' must not be empty");
    assert_eq!(decimal_string(0), "0");
    assert_eq!(decimal_string(9), "9");
    assert_eq!(decimal_string(1907), "1907");
    assert_eq!(decimal_string(usize::MAX), usize::MAX.to_string());
    assert_eq!(decimal_successor(0), "1");
    assert_eq!(decimal_successor(9), "10");
    assert_eq!(decimal_successor(1899), "1900");
    assert_eq!(decimal_successor(usize::MAX), (usize::MAX as u128 + 1).to_string());
}

#[test]
fn json_reading_hands_on_members_in_key_order() {
    let fields = read_json_object(r#"{"b": [ 1 ], "a": 1e2, "c": "t"}"#).unwrap();
    let keys: Vec<&str> = fields.iter().map(|f| f.key.as_str()).collect();
    assert_eq!(keys, ["a", "b", "c"]);
    assert!(matches!(&fields[0].value, JsonAtom::Number(t, true) if t == "100.0"));
    assert_eq!(fields[0].raw, "1e2");
    assert_eq!(fields[1].raw, "[ 1 ]");
    assert!(matches!(fields[1].value, JsonAtom::Array));
    assert_eq!(fields[1].text, "[1]");
    assert!(matches!(&fields[2].value, JsonAtom::Str(s) if s == "t"));
    assert!(read_json_object("[1]").is_err());
    let map = read_json_map(r#"{"z": 1e2, "y": null}"#).unwrap();
    let keys: Vec<&str> = map.iter().map(|f| f.key.as_str()).collect();
    assert_eq!(keys, ["y", "z"]);
    assert!(matches!(map[0].value, JsonAtom::Null));
    assert_eq!((map[1].raw.as_str(), map[1].text.as_str()), ("100.0", "100.0"));
    assert!(matches!(read_json_map("[1]"), Err(e) if e == "invalid type: sequence, expected a map"));
}

#[test]
fn text_primitives() {
    assert_eq!(trim("\u{85} a b\u{2029}"), "a b");
    assert_eq!(split_once_char("ab\ncd\nef", '\n'), Some(("ab", "cd\nef")));
    assert_eq!(split_once_char("abc", '\n'), None);
    assert_eq!(strip_suffix_char("ab\r", '\r'), Some("ab"));
    assert_eq!(strip_suffix_char("ab", '\r'), None);
}

#[test]
fn conversions_keep_every_field() {
    let bare = PgProperty::from(Property { name: "k".to_owned(), value: "v".to_owned(), type_hint: None });
    assert_eq!((bare.key.as_str(), bare.value.as_str(), bare.type_hint), ("k", "v", None));
    let node = PgNode::from(Node {
        id: "n".to_owned(),
        labels: vec!["A".to_owned(), "B".to_owned()],
        properties: vec![Property { name: "k".to_owned(), value: "1".to_owned(), type_hint: Some("int".to_owned()) }],
    });
    assert_eq!(node.source_id, "n");
    assert_eq!(node.labels, ["A", "B"]);
    assert_eq!(node.properties[0].type_hint.as_deref(), Some("int"));
    let edge = PgEdge::from(Edge {
        id: Some("e".to_owned()),
        source: "s".to_owned(),
        target: "t".to_owned(),
        label: "L".to_owned(),
        properties: Vec::new(),
    });
    assert_eq!((edge.source_id.as_str(), edge.target_id.as_str(), edge.rel_type.as_str()), ("s", "t", "L"));
    assert!(edge.properties.is_empty());
}

#[test]
fn numeric_identifiers_keep_their_token_as_written() {
    match one_line(r#"{"type":"node","id":1.50}"#).unwrap().unwrap() {
        PgJsonlRecord::Node(node) => assert_eq!(node.id, "1.50"),
        other => panic!("expected a node, got {other:?}"),
    }
    match one_line(r#"{"type":"edge","id":1e2,"source":{"id":-0},"target":7.0,"label":"L"}"#).unwrap().unwrap() {
        PgJsonlRecord::Edge(edge) => {
            assert_eq!(edge.id.as_deref(), Some("1e2"));
            assert_eq!(edge.source, "-0");
            assert_eq!(edge.target, "7.0");
        }
        other => panic!("expected an edge, got {other:?}"),
    }
}
