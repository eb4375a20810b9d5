use pg_jsonl::{PgJsonlError, PgJsonlRecord, PgJsonlStreamParser, parse_pg_jsonl};

#[test]
fn readme_quick_start() -> Result<(), PgJsonlError> {
    let input = r#"{"type":"node","id":"alice","labels":["Person"],"properties":{"name":"Alice"}}
{"type":"edge","source":"alice","target":"bob","label":"KNOWS"}
"#;
    let (nodes, edges) = parse_pg_jsonl(input)?;

    assert_eq!(nodes[0].id, "alice");
    assert_eq!(nodes[0].labels, ["Person"]);
    assert_eq!(nodes[0].properties[0].name, "name");
    assert_eq!(edges[0].label, "KNOWS");
    Ok(())
}

#[test]
fn readme_streaming_large_exports() -> Result<(), PgJsonlError> {
    let mut parser = PgJsonlStreamParser::new();
    let mut edges = 0;
    for line in r#"{"type":"node","id":"a"}
{"type":"edge","source":"a","target":"a","label":"SELF"}
"#
    .lines()
    {
        if let Some(PgJsonlRecord::Edge(_)) = parser.parse_line(line)? {
            edges += 1;
        }
    }
    assert_eq!(edges, 1);
    Ok(())
}

#[test]
fn readme_dialects_mix_in_one_file() {
    let input = r#"{"type":"node","id":"alice","labels":["Person"],"properties":{"name":"Alice","age":30}}
{"type":"edge","source":"alice","target":"bob","label":"KNOWS","properties":{"since":2020}}
{"type":"relationship","id":"7","label":"KNOWS","start":{"id":"0","labels":["Person"]},"end":{"id":"1"},"properties":{}}
"#;
    let (nodes, edges) = parse_pg_jsonl(input).expect("both dialects");
    assert_eq!(nodes.len(), 1);
    assert_eq!(nodes[0].properties.len(), 2);
    assert_eq!(edges.len(), 2);
    assert_eq!((edges[0].source.as_str(), edges[0].target.as_str()), ("alice", "bob"));
    assert_eq!((edges[1].source.as_str(), edges[1].target.as_str()), ("0", "1"));
    assert!(edges[1].properties.is_empty());
}
