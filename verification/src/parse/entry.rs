//! Whole-input convenience entry points.
use crate::error::{ErrorView, PgJsonlError};
use crate::parse::record::{PgJsonlRecord, RecordView};
use crate::parse::stream::{
    PgJsonlStreamParser, error_shifted, lemma_error_carries_line_number, lemma_line_result_shift, line_result,
    record_names_ascending,
};
use crate::text::{
    lemma_find_char, lemma_lines_count, lemma_lines_of_append, lemma_lines_of_final_line_ending, lemma_trim_strip_cr, lines_of, split_once_char,
    strip_cr_seq, strip_suffix_char,
};
use crate::types::{Edge, EdgeView, Node, NodeView};
use vstd::prelude::*;

verus! {

/// What feeding `lines` to a fresh [`PgJsonlStreamParser`], one after the
/// other, gives: the records in line order, or the first error.
pub open spec fn parse_lines(lines: Seq<Seq<char>>) -> Result<Seq<RecordView>, ErrorView>
    decreases lines.len(),
{
    if lines.len() == 0 {
        Ok(Seq::empty())
    } else {
        match parse_lines(lines.drop_last()) {
            Err(e) => Err(e),
            Ok(records) => match line_result(lines.len() as nat, lines.last()) {
                Err(e) => Err(e),
                Ok(None) => Ok(records),
                Ok(Some(r)) => Ok(records.push(r)),
            },
        }
    }
}

/// Once a prefix of the lines fails, the whole document fails with the
/// same error: later lines are never reached.
pub proof fn lemma_parse_lines_stops(lines: Seq<Seq<char>>, more: Seq<Seq<char>>, e: ErrorView)
    requires
        parse_lines(lines) == Err::<Seq<RecordView>, ErrorView>(e),
    ensures
        parse_lines(lines + more) == Err::<Seq<RecordView>, ErrorView>(e),
    decreases more.len(),
{
    if more.len() == 0 {
        assert(lines + more =~= lines);
    } else {
        lemma_parse_lines_stops(lines, more.drop_last(), e);
        assert((lines + more).drop_last() =~= lines + more.drop_last());
    }
}

/// A document parses exactly when each of its lines parses on its own,
/// line `i + 1` being the `i`-th.
pub proof fn lemma_document_parses_iff_each_line_parses(lines: Seq<Seq<char>>)
    ensures
        parse_lines(lines) is Ok <==> forall|i: int| 0 <= i < lines.len() ==> (#[trigger] line_result((i + 1) as nat, lines[i])) is Ok,
    decreases lines.len(),
{
    if lines.len() > 0 {
        let init = lines.drop_last();
        lemma_document_parses_iff_each_line_parses(init);
        if parse_lines(lines) is Ok {
            assert forall|i: int| 0 <= i < lines.len() implies (#[trigger] line_result((i + 1) as nat, lines[i])) is Ok by {
                if i < init.len() {
                    assert(lines[i] == init[i]);
                    assert(line_result((i + 1) as nat, init[i]) is Ok);
                }
            }
        }
        if forall|i: int| 0 <= i < lines.len() ==> (#[trigger] line_result((i + 1) as nat, lines[i])) is Ok {
            assert forall|i: int| 0 <= i < init.len() implies (#[trigger] line_result((i + 1) as nat, init[i])) is Ok by {
                assert(lines[i] == init[i]);
                assert(line_result((i + 1) as nat, lines[i]) is Ok);
            }
            let last = lines.len() - 1;
            assert(line_result((last + 1) as nat, lines[last]) is Ok);
            assert((last + 1) as nat == lines.len() as nat);
        }
    }
}

/// A document's error is that of its first failing line: it carries the
/// number of that line, that line alone gives it, and every line before it
/// parses.
pub proof fn lemma_error_is_the_first_failing_line(lines: Seq<Seq<char>>, e: ErrorView)
    requires
        parse_lines(lines) == Err::<Seq<RecordView>, ErrorView>(e),
    ensures
        1 <= e.line() <= lines.len(),
        line_result(e.line(), lines[e.line() - 1]) == Err::<Option<RecordView>, ErrorView>(e),
        forall|i: int| 0 <= i < e.line() - 1 ==> (#[trigger] line_result((i + 1) as nat, lines[i])) is Ok,
    decreases lines.len(),
{
    let init = lines.drop_last();
    if parse_lines(init) is Err {
        lemma_error_is_the_first_failing_line(init, e);
        assert(lines[e.line() - 1] == init[e.line() - 1]);
        assert forall|i: int| 0 <= i < e.line() - 1 implies (#[trigger] line_result((i + 1) as nat, lines[i])) is Ok by {
            assert(lines[i] == init[i]);
            assert(line_result((i + 1) as nat, init[i]) is Ok);
        }
    } else {
        lemma_error_carries_line_number(lines.len() as nat, lines.last());
        lemma_document_parses_iff_each_line_parses(init);
        assert forall|i: int| 0 <= i < e.line() - 1 implies (#[trigger] line_result((i + 1) as nat, lines[i])) is Ok by {
            assert(lines[i] == init[i]);
            assert(line_result((i + 1) as nat, init[i]) is Ok);
        }
    }
}

/// The records of a whole document, or its first error.
pub open spec fn document_records(input: Seq<char>) -> Result<Seq<RecordView>, ErrorView> {
    parse_lines(lines_of(input))
}

/// The final line ending of a document is optional: a document whose last
/// line has no line ending parses exactly as it does with one added.
pub proof fn lemma_final_line_ending_is_optional(input: Seq<char>)
    requires
        input.len() > 0,
        input.last() != '\n',
    ensures
        document_records(input.push('\n')) == document_records(input),
{
    lemma_lines_of_final_line_ending(input);
    let lines = lines_of(input);
    let with_ending = lines_of(input.push('\n'));
    lemma_trim_strip_cr(lines.last());
    assert(with_ending.drop_last() =~= lines.drop_last());
    assert(with_ending.len() == lines.len());
    assert(line_result(lines.len() as nat, with_ending.last()) == line_result(lines.len() as nat, lines.last()));
}

/// The nodes among `records`, in order.
pub open spec fn nodes_of(records: Seq<RecordView>) -> Seq<NodeView>
    decreases records.len(),
{
    if records.len() == 0 {
        Seq::empty()
    } else {
        let rest = nodes_of(records.drop_last());
        match records.last() {
            RecordView::Node(n) => rest.push(n),
            RecordView::Edge(_) => rest,
        }
    }
}

/// The edges among `records`, in order.
pub open spec fn edges_of(records: Seq<RecordView>) -> Seq<EdgeView>
    decreases records.len(),
{
    if records.len() == 0 {
        Seq::empty()
    } else {
        let rest = edges_of(records.drop_last());
        match records.last() {
            RecordView::Edge(e) => rest.push(e),
            RecordView::Node(_) => rest,
        }
    }
}

/// What two parts of a document give together: the first part's error, or
/// else the second part's error with its line number moved past the first
/// part's `offset` lines, or else the records of both in order.
pub open spec fn combined(
    first: Result<Seq<RecordView>, ErrorView>,
    second: Result<Seq<RecordView>, ErrorView>,
    offset: nat,
) -> Result<Seq<RecordView>, ErrorView> {
    match first {
        Err(e) => Err(e),
        Ok(ra) => match second {
            Ok(rb) => Ok(ra + rb),
            Err(e) => Err(error_shifted(e, offset)),
        },
    }
}

/// Lines put one after the other parse as the parts do, combined.
pub proof fn lemma_parse_lines_append(la: Seq<Seq<char>>, lb: Seq<Seq<char>>)
    ensures
        parse_lines(la + lb) == combined(parse_lines(la), parse_lines(lb), la.len()),
    decreases lb.len(),
{
    if lb.len() == 0 {
        assert(la + lb =~= la);
        if let Ok(ra) = parse_lines(la) {
            assert(ra + Seq::<RecordView>::empty() =~= ra);
        }
    } else {
        let init = lb.drop_last();
        let l = lb.last();
        lemma_parse_lines_append(la, init);
        assert((la + lb).drop_last() =~= la + init);
        assert((la + lb).last() == l);
        lemma_line_result_shift(lb.len() as nat, la.len(), l);
        assert(lb.len() as nat + la.len() == (la + lb).len());
        if let Ok(ra) = parse_lines(la) {
            if let Ok(rb) = parse_lines(init) {
                if let Ok(Some(r)) = line_result(lb.len() as nat, l) {
                    assert(ra + rb.push(r) =~= (ra + rb).push(r));
                }
            }
        }
    }
}

/// The nodes of records put one after the other are those of each part.
pub proof fn lemma_nodes_edges_append(ra: Seq<RecordView>, rb: Seq<RecordView>)
    ensures
        nodes_of(ra + rb) == nodes_of(ra) + nodes_of(rb),
        edges_of(ra + rb) == edges_of(ra) + edges_of(rb),
    decreases rb.len(),
{
    if rb.len() == 0 {
        assert(ra + rb =~= ra);
        assert(nodes_of(ra) + nodes_of(rb) =~= nodes_of(ra));
        assert(edges_of(ra) + edges_of(rb) =~= edges_of(ra));
    } else {
        lemma_nodes_edges_append(ra, rb.drop_last());
        assert((ra + rb).drop_last() =~= ra + rb.drop_last());
        assert((ra + rb).last() == rb.last());
        assert(nodes_of(ra + rb) =~= nodes_of(ra) + nodes_of(rb));
        assert(edges_of(ra + rb) =~= edges_of(ra) + edges_of(rb));
    }
}

/// A document made of two documents, the first empty or ending with a line
/// ending, parses as the two do: the first one's error; else the second
/// one's error, its line number moved past the first one's lines; else the
/// nodes and the edges of the first followed by those of the second.
pub proof fn lemma_concatenated_documents(a: Seq<char>, b: Seq<char>)
    requires
        a.len() == 0 || a.last() == '\n',
    ensures
        document_records(a + b) == combined(document_records(a), document_records(b), lines_of(a).len()),
        document_records(a) matches Ok(ra) ==> (document_records(b) matches Ok(rb) ==> nodes_of(ra + rb) == nodes_of(ra)
            + nodes_of(rb) && edges_of(ra + rb) == edges_of(ra) + edges_of(rb)),
{
    lemma_lines_of_append(a, b);
    lemma_parse_lines_append(lines_of(a), lines_of(b));
    if let Ok(ra) = document_records(a) {
        if let Ok(rb) = document_records(b) {
            lemma_nodes_edges_append(ra, rb);
        }
    }
}

/// The views of a sequence of nodes.
pub open spec fn nodes_view(nodes: Seq<Node>) -> Seq<NodeView> {
    nodes.map_values(|n: Node| n@)
}

/// The views of a sequence of edges.
pub open spec fn edges_view(edges: Seq<Edge>) -> Seq<EdgeView> {
    edges.map_values(|e: Edge| e@)
}

/// The first line of a non-empty `rest`, and the text after it.
fn split_first_line(rest: &str) -> (res: (&str, &str))
    requires
        rest@.len() > 0,
    ensures
        lines_of(rest@) == seq![res.0@] + lines_of(res.1@),
        res.1@.len() < rest@.len(),
{
    proof {
        reveal_strlit("");
        lemma_find_char(rest@, '\n');
    }
    match split_once_char(rest, '\n') {
        Some((line, after)) => {
            let line = match strip_suffix_char(line, '\r') {
                Some(stripped) => stripped,
                None => line,
            };
            assert(line@ == strip_cr_seq(rest@.take(crate::text::find_char(rest@, '\n'))));
            (line, after)
        },
        None => {
            assert(lines_of(""@) =~= Seq::<Seq<char>>::empty());
            assert(seq![rest@] + lines_of(""@) =~= seq![rest@]);
            (rest, "")
        },
    }
}

/// Each of `sent` was handed to `callback`, whose postcondition held of
/// the call.
pub open spec fn all_sent<T, F: FnMut(T)>(callback: F, sent: Seq<T>) -> bool {
    forall|i: int| 0 <= i < sent.len() ==> call_ensures(callback, (#[trigger] sent[i],), ())
}

/// The records were handed over: each node to `on_node` and each edge to
/// `on_edge`, in record order, each call meeting its callback's
/// postcondition.
pub open spec fn records_handed_over<N: FnMut(Node), E: FnMut(Edge)>(on_node: N, on_edge: E, records: Seq<RecordView>) -> bool {
    exists|nodes: Seq<Node>, edges: Seq<Edge>|
        nodes_view(nodes) == nodes_of(records) && edges_view(edges) == edges_of(records) && #[trigger] all_sent(on_node, nodes)
            && #[trigger] all_sent(on_edge, edges)
}

/// The lines parse, and their records were handed over.
pub open spec fn prefix_handed_over<N: FnMut(Node), E: FnMut(Edge)>(on_node: N, on_edge: E, lines: Seq<Seq<char>>) -> bool {
    parse_lines(lines) matches Ok(records) && records_handed_over(on_node, on_edge, records)
}

/// Every record's property names are strictly ascending.
pub open spec fn records_names_ascending(records: Seq<RecordView>) -> bool {
    forall|i: int| 0 <= i < records.len() ==> record_names_ascending(#[trigger] records[i])
}

/// Parse a complete PG-JSONL document, invoking `on_node` / `on_edge`
/// for each record as it is parsed. Memory stays bounded by one line.
///
/// # Errors
///
/// Returns the first [`PgJsonlError`] encountered.
pub fn parse_pg_jsonl_with<N: FnMut(Node), E: FnMut(Edge)>(input: &str, on_node: N, on_edge: E) -> (res: Result<(), PgJsonlError>)
    requires
        forall|node: Node| call_requires(on_node, (node,)),
        forall|edge: Edge| call_requires(on_edge, (edge,)),
    ensures
        match res {
            Ok(()) => document_records(input@) matches Ok(records) && records_names_ascending(records)
                && records_handed_over(on_node, on_edge, records),
            Err(e) => document_records(input@) == Err::<Seq<RecordView>, ErrorView>(e@) && 1 <= e@.line()
                && prefix_handed_over(on_node, on_edge, lines_of(input@).take(e@.line() - 1)),
        },
{
    let mut parser = PgJsonlStreamParser::new();
    let mut rest = input;
    let ghost mut done: Seq<Seq<char>> = Seq::empty();
    let ghost mut records: Seq<RecordView> = Seq::empty();
    let ghost mut nodes: Seq<Node> = Seq::empty();
    let ghost mut edges: Seq<Edge> = Seq::empty();
    let mut node_callback = on_node;
    let mut edge_callback = on_edge;
    // The character count bounds the number of lines, so the line counter
    // cannot overflow.
    let _char_count = input.unicode_len();
    proof {
        lemma_lines_count(input@);
        assert(done + lines_of(rest@) =~= lines_of(input@));
        assert(nodes_view(nodes) =~= Seq::<NodeView>::empty());
        assert(edges_view(edges) =~= Seq::<EdgeView>::empty());
    }
    while !rest.is_empty()
        invariant
            lines_of(input@) == done + lines_of(rest@),
            lines_of(input@).len() <= usize::MAX,
            parser@ == done.len(),
            parse_lines(done) == Ok::<Seq<RecordView>, ErrorView>(records),
            nodes_view(nodes) == nodes_of(records),
            edges_view(edges) == edges_of(records),
            node_callback == on_node,
            edge_callback == on_edge,
            all_sent(on_node, nodes),
            all_sent(on_edge, edges),
            records_names_ascending(records),
            forall|node: Node| call_requires(on_node, (node,)),
            forall|edge: Edge| call_requires(on_edge, (edge,)),
        decreases rest@.len(),
    {
        let (line, after) = split_first_line(rest);
        let ghost next = done.push(line@);
        assert(next.drop_last() =~= done);
        assert(lines_of(input@) =~= next + lines_of(after@));
        match parser.parse_line(line) {
            Err(e) => {
                proof {
                    lemma_parse_lines_stops(next, lines_of(after@), e@);
                    lemma_error_carries_line_number(next.len(), line@);
                    assert(lines_of(input@).take(done.len() as int) =~= done);
                    assert(e@.line() == next.len());
                    assert(records_handed_over(on_node, on_edge, records));
                }
                return Err(e);
            },
            Ok(Some(PgJsonlRecord::Node(node))) => {
                let ghost sent = node;
                let ghost r = RecordView::Node(node@);
                node_callback(node);
                proof {
                    assert(records.push(r).drop_last() =~= records);
                    assert(nodes_view(nodes.push(sent)) =~= nodes_of(records).push(r->Node_0));
                    assert(nodes.push(sent).last() == sent);
                    assert(records.push(r).last() == r);
                    records = records.push(r);
                    nodes = nodes.push(sent);
                }
            },
            Ok(Some(PgJsonlRecord::Edge(edge))) => {
                let ghost sent = edge;
                let ghost r = RecordView::Edge(edge@);
                edge_callback(edge);
                proof {
                    assert(records.push(r).drop_last() =~= records);
                    assert(edges_view(edges.push(sent)) =~= edges_of(records).push(r->Edge_0));
                    assert(edges.push(sent).last() == sent);
                    assert(records.push(r).last() == r);
                    records = records.push(r);
                    edges = edges.push(sent);
                }
            },
            Ok(None) => {},
        }
        proof {
            done = next;
        }
        rest = after;
    }
    assert(done =~= lines_of(input@));
    assert(nodes_view(nodes) == nodes_of(records) && edges_view(edges) == edges_of(records) && all_sent(
        node_callback,
        nodes,
    ) && all_sent(edge_callback, edges));
    Ok(())
}

/// Parse a complete PG-JSONL document into its nodes and edges.
///
/// # Errors
///
/// Returns the first [`PgJsonlError`] encountered.
pub fn parse_pg_jsonl(input: &str) -> (res: Result<(Vec<Node>, Vec<Edge>), PgJsonlError>)
    ensures
        match res {
            Ok((nodes, edges)) => document_records(input@) matches Ok(records) && nodes_view(nodes@)
                == nodes_of(records) && edges_view(edges@) == edges_of(records) && records_names_ascending(records),
            Err(e) => document_records(input@) == Err::<Seq<RecordView>, ErrorView>(e@),
        },
{
    let mut nodes: Vec<Node> = Vec::new();
    let mut edges: Vec<Edge> = Vec::new();
    let mut parser = PgJsonlStreamParser::new();
    let mut rest = input;
    let ghost mut done: Seq<Seq<char>> = Seq::empty();
    let ghost mut records: Seq<RecordView> = Seq::empty();
    // The character count bounds the number of lines, so the line counter
    // cannot overflow.
    let _char_count = input.unicode_len();
    proof {
        lemma_lines_count(input@);
        assert(done + lines_of(rest@) =~= lines_of(input@));
        assert(nodes_view(nodes@) =~= Seq::<NodeView>::empty());
        assert(edges_view(edges@) =~= Seq::<EdgeView>::empty());
    }
    while !rest.is_empty()
        invariant
            lines_of(input@) == done + lines_of(rest@),
            lines_of(input@).len() <= usize::MAX,
            parser@ == done.len(),
            parse_lines(done) == Ok::<Seq<RecordView>, ErrorView>(records),
            nodes_view(nodes@) == nodes_of(records),
            edges_view(edges@) == edges_of(records),
            records_names_ascending(records),
        decreases rest@.len(),
    {
        let (line, after) = split_first_line(rest);
        let ghost next = done.push(line@);
        assert(next.drop_last() =~= done);
        assert(lines_of(input@) =~= next + lines_of(after@));
        match parser.parse_line(line) {
            Err(e) => {
                proof {
                    lemma_parse_lines_stops(next, lines_of(after@), e@);
                }
                return Err(e);
            },
            Ok(Some(PgJsonlRecord::Node(node))) => {
                let ghost r = RecordView::Node(node@);
                nodes.push(node);
                proof {
                    assert(records.push(r).drop_last() =~= records);
                    assert(nodes_view(nodes@) =~= nodes_of(records).push(r->Node_0));
                    assert(records.push(r).last() == r);
                    records = records.push(r);
                }
            },
            Ok(Some(PgJsonlRecord::Edge(edge))) => {
                let ghost r = RecordView::Edge(edge@);
                edges.push(edge);
                proof {
                    assert(records.push(r).drop_last() =~= records);
                    assert(edges_view(edges@) =~= edges_of(records).push(r->Edge_0));
                    assert(records.push(r).last() == r);
                    records = records.push(r);
                }
            },
            Ok(None) => {},
        }
        proof {
            done = next;
        }
        rest = after;
    }
    assert(done =~= lines_of(input@));
    Ok((nodes, edges))
}

} // verus!
