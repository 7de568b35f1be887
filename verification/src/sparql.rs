//! SPARQL and RDF text: literal escaping, IRI quoting, `VALUES` clauses, triples,
//! and the per-subject values read back from a graph store.

use vstd::prelude::*;
use crate::domain::{object_type_token, graph_uri_text};
use crate::graph::GraphObjectRef;
use crate::errors::CustomError;
use crate::text::{str_eq, push_char};
use crate::vector::texts;
use crate::ids::hex_digit;

verus! {

/// The escape of one character inside a SPARQL string literal.
pub open spec fn escape_char(c: char) -> Seq<char> {
    if c == '\\' {
        seq!['\\', '\\']
    } else if c == '"' {
        seq!['\\', '"']
    } else if c == '\n' {
        seq!['\\', 'n']
    } else if c == '\r' {
        seq!['\\', 'r']
    } else if c == '\t' {
        seq!['\\', 't']
    } else {
        seq![c]
    }
}

/// A text escaped for a SPARQL string literal: backslash, quote, newline, carriage
/// return and tab become backslash escapes.
pub open spec fn escape_text(s: Seq<char>) -> Seq<char>
    decreases s.len(),
{
    if s.len() == 0 {
        seq![]
    } else {
        escape_text(s.drop_last()) + escape_char(s.last())
    }
}

/// Escapes a text for a SPARQL string literal.
pub fn sparql_escape_literal(value: &str) -> (r: String)
    ensures
        r@ == escape_text(value@),
{
    let mut escaped = String::new();
    let n = value.unicode_len();
    let mut i: usize = 0;
    proof {
        assert(value@.take(0) =~= Seq::<char>::empty());
    }
    while i < n
        invariant
            n == value@.len(),
            i <= n,
            escaped@ == escape_text(value@.take(i as int)),
        decreases n - i,
    {
        let c = value.get_char(i);
        proof {
            assert(value@.take(i + 1).drop_last() =~= value@.take(i as int));
            assert(value@.take(i + 1).last() == c);
        }
        if c == '\\' {
            push_char(&mut escaped, '\\');
            push_char(&mut escaped, '\\');
        } else if c == '"' {
            push_char(&mut escaped, '\\');
            push_char(&mut escaped, '"');
        } else if c == '\n' {
            push_char(&mut escaped, '\\');
            push_char(&mut escaped, 'n');
        } else if c == '\r' {
            push_char(&mut escaped, '\\');
            push_char(&mut escaped, 'r');
        } else if c == '\t' {
            push_char(&mut escaped, '\\');
            push_char(&mut escaped, 't');
        } else {
            push_char(&mut escaped, c);
        }
        proof {
            assert(escaped@ =~= escape_text(value@.take(i + 1)));
        }
        i = i + 1;
    }
    proof {
        assert(value@.take(i as int) =~= value@);
    }
    escaped
}

/// The character a backslash escape stands for.
pub open spec fn unescaped(c: char) -> char {
    if c == 'n' {
        '\n'
    } else if c == 'r' {
        '\r'
    } else if c == 't' {
        '\t'
    } else {
        c
    }
}

/// Reads an escaped literal text back, escape by escape.
pub open spec fn unescape_text(t: Seq<char>) -> Seq<char>
    decreases t.len(),
{
    if t.len() == 0 {
        seq![]
    } else if t[0] == '\\' && t.len() >= 2 {
        seq![unescaped(t[1])] + unescape_text(t.skip(2))
    } else {
        seq![t[0]] + unescape_text(t.drop_first())
    }
}

proof fn lemma_escape_front(c: char, s: Seq<char>)
    ensures
        escape_text(seq![c] + s) == escape_char(c) + escape_text(s),
    decreases s.len(),
{
    if s.len() == 0 {
        assert(seq![c] + s =~= seq![c]);
        assert(seq![c].drop_last() =~= Seq::<char>::empty());
        assert(seq![c].last() == c);
        assert(escape_text(Seq::<char>::empty()) =~= Seq::<char>::empty());
        assert(escape_text(seq![c]) =~= escape_char(c));
        assert(escape_char(c) + escape_text(s) =~= escape_char(c));
    } else {
        lemma_escape_front(c, s.drop_last());
        assert((seq![c] + s).drop_last() =~= seq![c] + s.drop_last());
        assert((seq![c] + s).last() == s.last());
        assert(escape_char(c) + escape_text(s.drop_last()) + escape_char(s.last()) =~= escape_char(c) + (escape_text(
            s.drop_last(),
        ) + escape_char(s.last())));
    }
}

/// Reading an escaped literal back gives the original text.
pub proof fn law_escape_round_trip(s: Seq<char>)
    ensures
        unescape_text(escape_text(s)) == s,
    decreases s.len(),
{
    if s.len() > 0 {
        let c = s[0];
        let rest = s.drop_first();
        assert(s =~= seq![c] + rest);
        lemma_escape_front(c, rest);
        law_escape_round_trip(rest);
        let e = escape_char(c) + escape_text(rest);
        if escape_char(c).len() == 2 {
            assert(e[0] == '\\');
            assert(e.skip(2) =~= escape_text(rest));
            assert(unescaped(e[1]) == c);
        } else {
            assert(e[0] == c);
            assert(e.drop_first() =~= escape_text(rest));
        }
        assert(seq![c] + rest =~= s);
    }
}

/// An IRI quoted for `<...>`: every `>` becomes `%3E`.
pub open spec fn iri_text(s: Seq<char>) -> Seq<char>
    decreases s.len(),
{
    if s.len() == 0 {
        seq![]
    } else {
        iri_text(s.drop_last()) + if s.last() == '>' {
            seq!['%', '3', 'E']
        } else {
            seq![s.last()]
        }
    }
}

/// Quotes an IRI for `<...>`.
pub fn sparql_iri(value: &str) -> (r: String)
    ensures
        r@ == iri_text(value@),
{
    let mut out = String::new();
    let n = value.unicode_len();
    let mut i: usize = 0;
    proof {
        assert(value@.take(0) =~= Seq::<char>::empty());
    }
    while i < n
        invariant
            n == value@.len(),
            i <= n,
            out@ == iri_text(value@.take(i as int)),
        decreases n - i,
    {
        let c = value.get_char(i);
        proof {
            assert(value@.take(i + 1).drop_last() =~= value@.take(i as int));
            assert(value@.take(i + 1).last() == c);
        }
        if c == '>' {
            push_char(&mut out, '%');
            push_char(&mut out, '3');
            push_char(&mut out, 'E');
        } else {
            push_char(&mut out, c);
        }
        proof {
            assert(out@ =~= iri_text(value@.take(i + 1)));
        }
        i = i + 1;
    }
    proof {
        assert(value@.take(i as int) =~= value@);
    }
    out
}

/// Items joined with single spaces.
pub open spec fn spaced(items: Seq<Seq<char>>) -> Seq<char>
    decreases items.len(),
{
    if items.len() == 0 {
        seq![]
    } else if items.len() == 1 {
        items[0]
    } else {
        spaced(items.drop_last()) + " "@ + items.last()
    }
}

/// A `VALUES ?variable { ... }` clause over items, or nothing when there are none.
pub open spec fn values_clause(variable: Seq<char>, items: Seq<Seq<char>>) -> Seq<char> {
    if items.len() == 0 {
        seq![]
    } else {
        "VALUES ?"@ + variable + " { "@ + spaced(items) + " }"@
    }
}

fn append_spaced(out: &mut String, items: &Vec<String>)
    ensures
        final(out)@ == old(out)@ + spaced(texts(items@)),
{
    let ghost ts = texts(items@);
    let mut i: usize = 0;
    proof {
        assert(old(out)@ + spaced(ts.take(0)) =~= old(out)@);
    }
    while i < items.len()
        invariant
            i <= items@.len(),
            ts == texts(items@),
            out@ == old(out)@ + spaced(ts.take(i as int)),
        decreases items@.len() - i,
    {
        if i > 0 {
            out.append(" ");
        }
        out.append(items[i].as_str());
        proof {
            reveal_strlit(" ");
            let t = ts.take(i + 1);
            assert(t.drop_last() =~= ts.take(i as int));
            assert(t.last() == items@[i as int]@);
            assert(out@ =~= old(out)@ + spaced(t));
        }
        i = i + 1;
    }
    proof {
        assert(ts.take(i as int) =~= ts);
    }
}

fn values_text(variable: &str, items: &Vec<String>) -> (r: String)
    ensures
        r@ == values_clause(variable@, texts(items@)),
{
    if items.len() == 0 {
        return String::new();
    }
    let mut out = String::from_str("VALUES ?");
    out.append(variable);
    out.append(" { ");
    let ghost prefix = out@;
    append_spaced(&mut out, items);
    out.append(" }");
    proof {
        reveal_strlit("VALUES ?");
        reveal_strlit(" { ");
        reveal_strlit(" }");
        assert(out@ =~= values_clause(variable@, texts(items@)));
    }
    out
}

/// `<iri>` items of the quoted IRIs.
pub open spec fn iri_items(values: Seq<Seq<char>>) -> Seq<Seq<char>> {
    values.map_values(|v: Seq<char>| "<"@ + iri_text(v) + ">"@)
}

/// A `VALUES` clause binding `variable` to the given IRIs, or nothing when there are none.
pub fn sparql_iri_values(variable: &str, values: &Vec<String>) -> (r: String)
    ensures
        r@ == values_clause(variable@, iri_items(texts(values@))),
{
    let mut items: Vec<String> = Vec::new();
    let mut i: usize = 0;
    while i < values.len()
        invariant
            i <= values@.len(),
            items@.len() == i,
            texts(items@) == iri_items(texts(values@)).take(i as int),
        decreases values@.len() - i,
    {
        let mut item = String::from_str("<");
        let quoted = sparql_iri(values[i].as_str());
        item.append(quoted.as_str());
        item.append(">");
        let ghost before = items@;
        items.push(item);
        proof {
            reveal_strlit("<");
            reveal_strlit(">");
            assert(texts(items@)[i as int] == iri_items(texts(values@))[i as int]);
            assert forall|k: int| 0 <= k < i implies texts(items@)[k] == texts(before)[k] by {}
            assert(texts(items@) =~= iri_items(texts(values@)).take(i + 1));
        }
        i = i + 1;
    }
    proof {
        assert(iri_items(texts(values@)).take(i as int) =~= iri_items(texts(values@)));
    }
    values_text(variable, &items)
}

/// How JSON writes one character inside a string: `"` and `\` behind a
/// backslash, backspace, tab, line feed, form feed and carriage return as
/// `\b \t \n \f \r`, any other character below U+0020 as `\u00` and two
/// lowercase hexadecimal digits, and every other character as itself.
pub open spec fn json_escaped_char(c: char) -> Seq<char> {
    if c == '"' {
        seq!['\\', '"']
    } else if c == '\\' {
        seq!['\\', '\\']
    } else if c == '\u{8}' {
        seq!['\\', 'b']
    } else if c == '\t' {
        seq!['\\', 't']
    } else if c == '\n' {
        seq!['\\', 'n']
    } else if c == '\u{c}' {
        seq!['\\', 'f']
    } else if c == '\r' {
        seq!['\\', 'r']
    } else if (c as int) < 0x20 {
        seq!['\\', 'u', '0', '0', hex_digit((c as int) / 16), hex_digit((c as int) % 16)]
    } else {
        seq![c]
    }
}

/// The escaped characters of a text, in order.
pub open spec fn json_escaped(s: Seq<char>) -> Seq<char>
    decreases s.len(),
{
    if s.len() == 0 {
        seq![]
    } else {
        json_escaped(s.drop_last()) + json_escaped_char(s.last())
    }
}

/// The JSON text of a string: its escaped characters between double quotes.
pub open spec fn json_string(s: Seq<char>) -> Seq<char> {
    seq!['"'] + json_escaped(s) + seq!['"']
}

/// `serde_json::to_string` on a string slice: its JSON string text, the string in
/// double quotes with the escapes of `json_escaped_char`. Serializing a string
/// cannot fail.
#[verifier::external_body]
fn json_string_text(value: &str) -> (r: String)
    ensures
        r@ == json_string(value@),
{
    serde_json::to_string(value).unwrap_or_default()
}

/// The JSON string texts of texts.
pub open spec fn json_items(v: Seq<String>) -> Seq<Seq<char>> {
    v.map_values(|t: String| json_string(t@))
}

/// The graph URIs of nodes.
pub open spec fn ref_uris(refs: Seq<GraphObjectRef>) -> Seq<Seq<char>> {
    refs.map_values(|o: GraphObjectRef| graph_uri_text(o.object_type, o.object_id))
}

/// A SPARQL string literal of a text, written as its JSON string.
pub fn sparql_string_literal(value: &str) -> (r: String)
    ensures
        r@ == json_string(value@),
{
    json_string_text(value)
}

/// A `VALUES` clause binding `variable` to the given string literals, or nothing when
/// there are none.
pub fn sparql_literal_values(variable: &str, values: &Vec<String>) -> (r: String)
    ensures
        r@ == values_clause(variable@, json_items(values@)),
{
    let mut items: Vec<String> = Vec::new();
    let mut i: usize = 0;
    while i < values.len()
        invariant
            i <= values@.len(),
            items@.len() == i,
            texts(items@) == json_items(values@).take(i as int),
        decreases values@.len() - i,
    {
        let item = sparql_string_literal(values[i].as_str());
        let ghost before = items@;
        items.push(item);
        proof {
            assert(texts(items@)[i as int] == json_items(values@)[i as int]);
            assert forall|k: int| 0 <= k < i implies texts(items@)[k] == texts(before)[k] by {}
            assert(texts(items@) =~= json_items(values@).take(i + 1));
        }
        i = i + 1;
    }
    proof {
        assert(json_items(values@).take(i as int) =~= json_items(values@));
    }
    values_text(variable, &items)
}

/// A `VALUES` clause binding `variable` to the graph URIs of the nodes, or nothing.
pub fn sparql_node_iri_values(variable: &str, object_refs: &Vec<GraphObjectRef>) -> (r: String)
    ensures
        r@ == values_clause(
            variable@,
            iri_items(ref_uris(object_refs@)),
        ),
{
    let mut uris: Vec<String> = Vec::new();
    let mut i: usize = 0;
    while i < object_refs.len()
        invariant
            i <= object_refs@.len(),
            uris@.len() == i,
            texts(uris@) == ref_uris(object_refs@).take(i as int),
        decreases object_refs@.len() - i,
    {
        let o = object_refs[i];
        let ghost before = uris@;
        uris.push(crate::domain::graph_uri(o.object_type, o.object_id));
        proof {
            assert(texts(uris@)[i as int] == ref_uris(object_refs@)[i as int]);
            assert forall|k: int| 0 <= k < i implies texts(uris@)[k] == texts(before)[k] by {}
            assert(texts(uris@) =~= ref_uris(object_refs@).take(i + 1));
        }
        i = i + 1;
    }
    proof {
        assert(ref_uris(object_refs@).take(i as int)
            =~= ref_uris(object_refs@));
    }
    sparql_iri_values(variable, &uris)
}

/// The `(id objectType)` row of a node: both as string literals.
pub open spec fn ref_row(o: GraphObjectRef) -> Seq<char> {
    "("@ + json_string(crate::ids::uuid_hyphenated(o.object_id)) + " "@ + json_string(object_type_token(o.object_type)) + ")"@
}

/// The `(id objectType)` rows of nodes.
pub open spec fn ref_rows(refs: Seq<GraphObjectRef>) -> Seq<Seq<char>> {
    refs.map_values(|o: GraphObjectRef| ref_row(o))
}

/// A `VALUES (?id ?objectType)` clause over the nodes, or nothing when there are none.
pub fn sparql_object_ref_values(object_refs: &Vec<GraphObjectRef>) -> (r: String)
    ensures
        r@ == (if object_refs@.len() == 0 {
            Seq::<char>::empty()
        } else {
            "VALUES (?id ?objectType) { "@ + spaced(ref_rows(object_refs@)) + " }"@
        }),
{
    if object_refs.len() == 0 {
        return String::new();
    }
    let mut rows: Vec<String> = Vec::new();
    let mut i: usize = 0;
    while i < object_refs.len()
        invariant
            i <= object_refs@.len(),
            rows@.len() == i,
            texts(rows@) == ref_rows(object_refs@).take(i as int),
        decreases object_refs@.len() - i,
    {
        let o = object_refs[i];
        let id_text = crate::ids::uuid_text(o.object_id);
        let mut row = String::from_str("(");
        let id_literal = sparql_string_literal(id_text.as_str());
        row.append(id_literal.as_str());
        row.append(" ");
        let type_literal = sparql_string_literal(o.object_type.token());
        row.append(type_literal.as_str());
        row.append(")");
        let ghost before = rows@;
        rows.push(row);
        proof {
            reveal_strlit("(");
            reveal_strlit(" ");
            reveal_strlit(")");
            assert(texts(rows@)[i as int] == ref_rows(object_refs@)[i as int]);
            assert forall|k: int| 0 <= k < i implies texts(rows@)[k] == texts(before)[k] by {}
            assert(texts(rows@) =~= ref_rows(object_refs@).take(i + 1));
        }
        i = i + 1;
    }
    proof {
        assert(ref_rows(object_refs@).take(i as int) =~= ref_rows(object_refs@));
    }
    let mut out = String::from_str("VALUES (?id ?objectType) { ");
    append_spaced(&mut out, &rows);
    out.append(" }");
    proof {
        reveal_strlit("VALUES (?id ?objectType) { ");
        reveal_strlit(" }");
        assert(texts(rows@) =~= ref_rows(object_refs@));
    }
    out
}

/// The query reading every quad of the named graphs.
pub open spec fn named_graph_quads_text(graph_values: Seq<char>) -> Seq<char> {
    "\n        SELECT ?g ?s ?p ?o WHERE {\n          "@ + graph_values
        + "\n          GRAPH ?g { ?s ?p ?o }\n        }\n        "@
}

/// The query reading every quad of the named graphs.
pub fn named_graph_quads_query(graph_uris: &Vec<String>) -> (r: String)
    ensures
        r@ == named_graph_quads_text(values_clause("g"@, iri_items(texts(graph_uris@)))),
{
    let graph_values = sparql_iri_values("g", graph_uris);
    let mut out = String::from_str("\n        SELECT ?g ?s ?p ?o WHERE {\n          ");
    out.append(graph_values.as_str());
    out.append("\n          GRAPH ?g { ?s ?p ?o }\n        }\n        ");
    proof {
        reveal_strlit("\n        SELECT ?g ?s ?p ?o WHERE {\n          ");
        reveal_strlit("\n          GRAPH ?g { ?s ?p ?o }\n        }\n        ");
        assert(out@ =~= named_graph_quads_text(graph_values@));
    }
    out
}

/// One bound value of a SPARQL JSON result row.
#[derive(Debug, Clone, PartialEq, Eq)]
pub struct SparqlBinding {
    /// The term kind: `uri`, `literal`, `typed-literal` or `bnode`.
    pub kind: String,
    pub value: String,
}

/// The first binding of `name` in a result row, if any.
pub open spec fn binding_of(row: Seq<(String, SparqlBinding)>, name: Seq<char>) -> Option<SparqlBinding>
    decreases row.len(),
{
    if row.len() == 0 {
        None
    } else if row[0].0@ == name {
        Some(row[0].1)
    } else {
        binding_of(row.drop_first(), name)
    }
}

/// What reading literal `name` from a result row gives: its value, or why not.
pub open spec fn literal_binding_result(row: Seq<(String, SparqlBinding)>, name: Seq<char>) -> Result<Seq<char>, Seq<char>> {
    match binding_of(row, name) {
        None => Err("Oxigraph SPARQL result is missing binding "@ + name),
        Some(b) => if b.kind@ != "literal"@ && b.kind@ != "typed-literal"@ {
            Err("Oxigraph SPARQL binding "@ + name + " must be a literal, got "@ + b.kind@)
        } else {
            Ok(b.value@)
        },
    }
}

/// Reads literal `name` from a result row.
pub fn literal_select_binding(row: &Vec<(String, SparqlBinding)>, name: &str) -> (r: Result<String, CustomError>)
    ensures
        match literal_binding_result(row@, name@) {
            Ok(v) => r matches Ok(s) && s@ == v,
            Err(m) => r matches Err(CustomError::DatabaseError(msg)) && msg@ == m,
        },
{
    let mut i: usize = 0;
    proof {
        assert(row@.skip(0) =~= row@);
    }
    while i < row.len()
        invariant
            i <= row@.len(),
            binding_of(row@, name@) == binding_of(row@.skip(i as int), name@),
        decreases row@.len() - i,
    {
        proof {
            assert(row@.skip(i as int)[0] == row@[i as int]);
            assert(row@.skip(i as int).drop_first() =~= row@.skip(i + 1));
        }
        if str_eq(row[i].0.as_str(), name) {
            let b = &row[i].1;
            proof {
                reveal_strlit("literal");
                reveal_strlit("typed-literal");
            }
            if !str_eq(b.kind.as_str(), "literal") && !str_eq(b.kind.as_str(), "typed-literal") {
                let mut msg = String::from_str("Oxigraph SPARQL binding ");
                msg.append(name);
                msg.append(" must be a literal, got ");
                msg.append(b.kind.as_str());
                proof {
                    reveal_strlit("Oxigraph SPARQL binding ");
                    reveal_strlit(" must be a literal, got ");
                }
                return Err(CustomError::DatabaseError(msg));
            }
            return Ok(b.value.clone());
        }
        i = i + 1;
    }
    proof {
        assert(row@.skip(i as int) =~= Seq::<(String, SparqlBinding)>::empty());
        reveal_strlit("Oxigraph SPARQL result is missing binding ");
    }
    let mut msg = String::from_str("Oxigraph SPARQL result is missing binding ");
    msg.append(name);
    Err(CustomError::DatabaseError(msg))
}

/// The object of an RDF triple: a resource IRI or a literal text.
#[derive(Debug, Clone, PartialEq, Eq)]
pub enum RdfObject {
    Resource(String),
    Literal(String),
}

/// An RDF triple with IRIs and literals as text.
#[derive(Debug, Clone, PartialEq, Eq)]
pub struct RdfTriple {
    pub subject: String,
    pub predicate: String,
    pub object: RdfObject,
}

impl RdfTriple {
    /// A triple whose object is a resource.
    pub fn resource(subject: &str, predicate: &str, object: &str) -> (t: RdfTriple)
        ensures
            t.subject@ == subject@,
            t.predicate@ == predicate@,
            t.object matches RdfObject::Resource(o) && o@ == object@,
    {
        RdfTriple {
            subject: String::from_str(subject),
            predicate: String::from_str(predicate),
            object: RdfObject::Resource(String::from_str(object)),
        }
    }

    /// A triple whose object is a literal.
    pub fn literal(subject: &str, predicate: &str, object: &str) -> (t: RdfTriple)
        ensures
            t.subject@ == subject@,
            t.predicate@ == predicate@,
            t.object matches RdfObject::Literal(o) && o@ == object@,
    {
        RdfTriple {
            subject: String::from_str(subject),
            predicate: String::from_str(predicate),
            object: RdfObject::Literal(String::from_str(object)),
        }
    }
}

/// Adds a literal triple when there is a value.
pub fn push_optional_literal(triples: &mut Vec<RdfTriple>, subject: &str, predicate: &str, value: Option<&str>)
    ensures
        value is None ==> final(triples)@ == old(triples)@,
        value matches Some(v) ==> final(triples)@.len() == old(triples)@.len() + 1
            && final(triples)@.take(old(triples)@.len() as int) == old(triples)@
            && final(triples)@.last().subject@ == subject@ && final(triples)@.last().predicate@ == predicate@
            && (final(triples)@.last().object matches RdfObject::Literal(o) && o@ == v@),
{
    if let Some(v) = value {
        triples.push(RdfTriple::literal(subject, predicate, v));
        proof {
            assert(triples@.take(old(triples)@.len() as int) =~= old(triples)@);
        }
    }
}

/// The literal and resource values of one subject, by predicate, in the order read.
pub struct RdfSubjectValues {
    pub literals: Vec<(String, Vec<String>)>,
    pub resources: Vec<(String, Vec<String>)>,
}

/// The values recorded for a predicate (the first entry for it), if any.
pub open spec fn values_for(entries: Seq<(String, Vec<String>)>, predicate: Seq<char>) -> Option<Seq<String>>
    decreases entries.len(),
{
    if entries.len() == 0 {
        None
    } else if entries[0].0@ == predicate {
        Some(entries[0].1@)
    } else {
        values_for(entries.drop_first(), predicate)
    }
}

fn find_entry(entries: &Vec<(String, Vec<String>)>, predicate: &str) -> (r: Option<usize>)
    ensures
        match r {
            Some(i) => i < entries@.len() && entries@[i as int].0@ == predicate@ && values_for(entries@, predicate@) == Some(
                entries@[i as int].1@,
            ) && forall|j: int| 0 <= j < i ==> (#[trigger] entries@[j]).0@ != predicate@,
            None => values_for(entries@, predicate@) is None,
        },
{
    let mut i: usize = 0;
    proof {
        assert(entries@.skip(0) =~= entries@);
    }
    while i < entries.len()
        invariant
            i <= entries@.len(),
            values_for(entries@, predicate@) == values_for(entries@.skip(i as int), predicate@),
            forall|j: int| 0 <= j < i ==> (#[trigger] entries@[j]).0@ != predicate@,
        decreases entries@.len() - i,
    {
        proof {
            assert(entries@.skip(i as int)[0] == entries@[i as int]);
            assert(entries@.skip(i as int).drop_first() =~= entries@.skip(i + 1));
        }
        if str_eq(entries[i].0.as_str(), predicate) {
            return Some(i);
        }
        i = i + 1;
    }
    proof {
        assert(entries@.skip(i as int) =~= Seq::<(String, Vec<String>)>::empty());
    }
    None
}

fn push_value(entries: &mut Vec<(String, Vec<String>)>, predicate: String, value: String)
    ensures
        values_for(final(entries)@, predicate@) == Some(
            match values_for(old(entries)@, predicate@) {
                Some(vs) => vs.push(value),
                None => seq![value],
            },
        ),
        forall|p: Seq<char>| p != predicate@ ==> values_for(#[trigger] final(entries)@, p)
            == values_for(old(entries)@, p),
{
    let ghost key_text = predicate@;
    match find_entry(entries, predicate.as_str()) {
        Some(i) => {
            let (key, mut vals) = entries.remove(i);
            vals.push(value);
            entries.insert(i, (key, vals));
            proof {
                assert(entries@ =~= old(entries)@.update(i as int, entries@[i as int]));
                assert forall|p: Seq<char>| p != key_text implies values_for(#[trigger] final(entries)@, p) == values_for(old(entries)@, p) by {
                    lemma_values_for_update(old(entries)@, i as int, entries@[i as int], p);
                }
                lemma_values_for_update(old(entries)@, i as int, entries@[i as int], key_text);
            }
        },
        None => {
            let ghost old_entries = entries@;
            entries.push((predicate, vec![value]));
            proof {
                assert(entries@ == old_entries.push(entries@.last()));
                assert forall|p: Seq<char>| p != key_text implies values_for(#[trigger] final(entries)@, p) == values_for(old(entries)@, p) by {
                    lemma_values_for_push(old_entries, entries@.last(), p);
                }
                lemma_values_for_push(old_entries, entries@.last(), key_text);
                assert(entries@.last().1@ =~= seq![value]);
            }
        },
    }
}

proof fn lemma_values_for_update(entries: Seq<(String, Vec<String>)>, i: int, e: (String, Vec<String>), p: Seq<char>)
    requires
        0 <= i < entries.len(),
        e.0@ == entries[i].0@,
        forall|j: int| 0 <= j < i ==> (#[trigger] entries[j]).0@ != e.0@,
    ensures
        p == e.0@ ==> values_for(entries.update(i, e), p) == Some(e.1@),
        p != e.0@ ==> values_for(entries.update(i, e), p) == values_for(entries, p),
    decreases entries.len(),
{
    let u = entries.update(i, e);
    if i == 0 {
        assert(u[0] == e);
        assert(u.drop_first() =~= entries.drop_first());
    } else {
        assert(entries[0].0@ != e.0@);
        assert(u[0] == entries[0]);
        assert(u.drop_first() =~= entries.drop_first().update(i - 1, e));
        assert forall|j: int| 0 <= j < i - 1 implies (#[trigger] entries.drop_first()[j]).0@ != e.0@ by {
            assert(entries.drop_first()[j] == entries[j + 1]);
        }
        lemma_values_for_update(entries.drop_first(), i - 1, e, p);
    }
}

proof fn lemma_values_for_push(entries: Seq<(String, Vec<String>)>, e: (String, Vec<String>), p: Seq<char>)
    requires
        values_for(entries, e.0@) is None,
    ensures
        p == e.0@ ==> values_for(entries.push(e), p) == Some(e.1@),
        p != e.0@ ==> values_for(entries.push(e), p) == values_for(entries, p),
    decreases entries.len(),
{
    if entries.len() == 0 {
        assert(entries.push(e)[0] == e);
        assert(entries.push(e).drop_first() =~= Seq::<(String, Vec<String>)>::empty());
        assert(values_for(Seq::<(String, Vec<String>)>::empty(), p) is None);
    } else {
        assert(entries.push(e)[0] == entries[0]);
        assert(entries.push(e).drop_first() =~= entries.drop_first().push(e));
        lemma_values_for_push(entries.drop_first(), e, p);
    }
}

/// The message of a missing required predicate.
pub open spec fn missing_value_message(subject: Seq<char>, predicate: Seq<char>) -> Seq<char> {
    "Oxigraph RDF object "@ + subject + " is missing required predicate "@ + predicate
}

/// The error of a missing required predicate.
pub fn missing_rdf_value(subject: &str, predicate: &str) -> (e: CustomError)
    ensures
        e matches CustomError::DatabaseError(m) && m@ == missing_value_message(subject@, predicate@),
{
    let mut m = String::from_str("Oxigraph RDF object ");
    m.append(subject);
    m.append(" is missing required predicate ");
    m.append(predicate);
    proof {
        reveal_strlit("Oxigraph RDF object ");
        reveal_strlit(" is missing required predicate ");
    }
    CustomError::DatabaseError(m)
}

fn first_value(entries: &Vec<(String, Vec<String>)>, predicate: &str) -> (r: Option<String>)
    ensures
        match values_for(entries@, predicate@) {
            Some(vs) if vs.len() > 0 => r == Some(vs[0]),
            _ => r is None,
        },
{
    match find_entry(entries, predicate) {
        Some(i) => {
            if entries[i].1.len() > 0 {
                Some(entries[i].1[0].clone())
            } else {
                None
            }
        },
        None => None,
    }
}

fn all_values(entries: &Vec<(String, Vec<String>)>, predicate: &str) -> (r: Vec<String>)
    ensures
        match values_for(entries@, predicate@) {
            Some(vs) => r@ == vs,
            None => r@.len() == 0,
        },
{
    match find_entry(entries, predicate) {
        Some(i) => {
            let vs = &entries[i].1;
            let mut out: Vec<String> = Vec::new();
            let mut j: usize = 0;
            while j < vs.len()
                invariant
                    j <= vs@.len(),
                    out@ == vs@.take(j as int),
                decreases vs@.len() - j,
            {
                out.push(vs[j].clone());
                proof {
                    assert(out@ =~= vs@.take(j + 1));
                }
                j = j + 1;
            }
            proof {
                assert(vs@.take(j as int) =~= vs@);
            }
            out
        },
        None => Vec::new(),
    }
}

impl RdfSubjectValues {
    /// No value read yet.
    pub fn new() -> (v: RdfSubjectValues)
        ensures
            v.literals@.len() == 0,
            v.resources@.len() == 0,
    {
        RdfSubjectValues { literals: Vec::new(), resources: Vec::new() }
    }

    /// Records a literal value of a predicate.
    pub fn push_literal(&mut self, predicate: String, value: String)
        ensures
            values_for(final(self).literals@, predicate@) == Some(
                match values_for(old(self).literals@, predicate@) {
                    Some(vs) => vs.push(value),
                    None => seq![value],
                },
            ),
            forall|p: Seq<char>| p != predicate@ ==> values_for(#[trigger] final(self).literals@, p)
                == values_for(old(self).literals@, p),
            final(self).resources == old(self).resources,
    {
        push_value(&mut self.literals, predicate, value);
    }

    /// Records a resource value of a predicate.
    pub fn push_resource(&mut self, predicate: String, value: String)
        ensures
            values_for(final(self).resources@, predicate@) == Some(
                match values_for(old(self).resources@, predicate@) {
                    Some(vs) => vs.push(value),
                    None => seq![value],
                },
            ),
            forall|p: Seq<char>| p != predicate@ ==> values_for(#[trigger] final(self).resources@, p)
                == values_for(old(self).resources@, p),
            final(self).literals == old(self).literals,
    {
        push_value(&mut self.resources, predicate, value);
    }

    /// The first literal of a required predicate.
    pub fn literal(&self, subject: &str, predicate: &str) -> (r: Result<String, CustomError>)
        ensures
            match values_for(self.literals@, predicate@) {
                Some(vs) if vs.len() > 0 => r == Ok::<String, CustomError>(vs[0]),
                _ => r matches Err(CustomError::DatabaseError(m)) && m@ == missing_value_message(subject@, predicate@),
            },
    {
        match first_value(&self.literals, predicate) {
            Some(v) => Ok(v),
            None => Err(missing_rdf_value(subject, predicate)),
        }
    }

    /// The first literal of an optional predicate.
    pub fn optional_literal(&self, predicate: &str) -> (r: Option<String>)
        ensures
            match values_for(self.literals@, predicate@) {
                Some(vs) if vs.len() > 0 => r == Some(vs[0]),
                _ => r is None,
            },
    {
        first_value(&self.literals, predicate)
    }

    /// Every literal of a predicate, in the order read.
    pub fn literal_values(&self, predicate: &str) -> (r: Vec<String>)
        ensures
            match values_for(self.literals@, predicate@) {
                Some(vs) => r@ == vs,
                None => r@.len() == 0,
            },
    {
        all_values(&self.literals, predicate)
    }

    /// The first resource of a required predicate.
    pub fn resource(&self, subject: &str, predicate: &str) -> (r: Result<String, CustomError>)
        ensures
            match values_for(self.resources@, predicate@) {
                Some(vs) if vs.len() > 0 => r == Ok::<String, CustomError>(vs[0]),
                _ => r matches Err(CustomError::DatabaseError(m)) && m@ == missing_value_message(subject@, predicate@),
            },
    {
        match first_value(&self.resources, predicate) {
            Some(v) => Ok(v),
            None => Err(missing_rdf_value(subject, predicate)),
        }
    }

    /// Every resource of a predicate, in the order read.
    pub fn resource_values(&self, predicate: &str) -> (r: Vec<String>)
        ensures
            match values_for(self.resources@, predicate@) {
                Some(vs) => r@ == vs,
                None => r@.len() == 0,
            },
    {
        all_values(&self.resources, predicate)
    }
}

} // verus!
