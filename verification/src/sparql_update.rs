//! The text of SPARQL updates that replace the content of named graphs.

use vstd::prelude::*;
use crate::sparql::{RdfObject, RdfTriple, escape_text, sparql_escape_literal};

verus! {

/// An RDF term in SPARQL: an IRI in angle brackets, or a quoted, escaped literal.
pub open spec fn term_text(o: RdfObject) -> Seq<char> {
    match o {
        RdfObject::Resource(v) => "<"@ + v@ + ">"@,
        RdfObject::Literal(v) => "\""@ + escape_text(v@) + "\""@,
    }
}

/// One triple in the named graph `graph`: `GRAPH <g> { <s> <p> term . }`.
pub open spec fn quad_text(graph: Seq<char>, t: RdfTriple) -> Seq<char> {
    "GRAPH <"@ + graph + "> { <"@ + t.subject@ + "> <"@ + t.predicate@ + "> "@ + term_text(t.object) + " . }"@
}

fn append_term(out: &mut String, o: &RdfObject)
    ensures
        final(out)@ == old(out)@ + term_text(*o),
{
    proof {
        reveal_strlit("<");
        reveal_strlit(">");
        reveal_strlit("\"");
    }
    match o {
        RdfObject::Resource(v) => {
            out.append("<");
            out.append(v.as_str());
            out.append(">");
        },
        RdfObject::Literal(v) => {
            out.append("\"");
            let escaped = sparql_escape_literal(v.as_str());
            out.append(escaped.as_str());
            out.append("\"");
        },
    }
}

fn append_quad(out: &mut String, graph: &str, t: &RdfTriple)
    ensures
        final(out)@ == old(out)@ + quad_text(graph@, *t),
{
    out.append("GRAPH <");
    out.append(graph);
    out.append("> { <");
    out.append(t.subject.as_str());
    out.append("> <");
    out.append(t.predicate.as_str());
    out.append("> ");
    append_term(out, &t.object);
    out.append(" . }");
    proof {
        reveal_strlit("GRAPH <");
        reveal_strlit("> { <");
        reveal_strlit("> <");
        reveal_strlit("> ");
        reveal_strlit(" . }");
    }
}

/// One triple in the named graph `graph`, as a line of an `INSERT DATA` block.
pub fn sparql_quad(graph: &str, t: &RdfTriple) -> (r: String)
    ensures
        r@ == quad_text(graph@, *t),
{
    let mut out = String::new();
    append_quad(&mut out, graph, t);
    out
}

/// The deletion of everything in the named graph `graph`.
pub open spec fn clear_graph_text(graph: Seq<char>) -> Seq<char> {
    "DELETE { GRAPH <"@ + graph + "> { ?s ?p ?o } } WHERE { GRAPH <"@ + graph + "> { ?s ?p ?o } };\n"@
}

/// The deletions of the owner graphs of `reps`, in order.
pub open spec fn clears_text(reps: Seq<(String, Vec<RdfTriple>)>) -> Seq<char>
    decreases reps.len(),
{
    if reps.len() == 0 {
        seq![]
    } else {
        clears_text(reps.drop_last()) + clear_graph_text(reps.last().0@)
    }
}

/// The lines of the triples `ts` in the named graph `graph`.
pub open spec fn graph_lines_text(graph: Seq<char>, ts: Seq<RdfTriple>) -> Seq<char>
    decreases ts.len(),
{
    if ts.len() == 0 {
        seq![]
    } else {
        graph_lines_text(graph, ts.drop_last()) + quad_text(graph, ts.last()) + "\n"@
    }
}

/// The lines of all replacement triples, graph by graph.
pub open spec fn inserts_text(reps: Seq<(String, Vec<RdfTriple>)>) -> Seq<char>
    decreases reps.len(),
{
    if reps.len() == 0 {
        seq![]
    } else {
        inserts_text(reps.drop_last()) + graph_lines_text(reps.last().0@, reps.last().1@)
    }
}

/// The update that empties each owner graph and then inserts its new triples.
pub open spec fn replace_update_text(reps: Seq<(String, Vec<RdfTriple>)>) -> Seq<char> {
    clears_text(reps) + "INSERT DATA {\n"@ + inserts_text(reps) + "}\n"@
}

/// The update replacing the content of each owner graph by its triples; none when
/// there is nothing to replace.
pub fn replace_triples_update(replacements: &Vec<(String, Vec<RdfTriple>)>) -> (r: Option<String>)
    ensures
        replacements@.len() == 0 ==> r is None,
        replacements@.len() > 0 ==> (r matches Some(u) && u@ == replace_update_text(replacements@)),
{
    if replacements.len() == 0 {
        return None;
    }
    let reps = replacements;
    let mut update = String::new();
    let mut i: usize = 0;
    proof {
        assert(reps@.take(0) =~= Seq::<(String, Vec<RdfTriple>)>::empty());
        assert(update@ =~= clears_text(reps@.take(0)));
    }
    while i < reps.len()
        invariant
            i <= reps@.len(),
            update@ == clears_text(reps@.take(i as int)),
        decreases reps@.len() - i,
    {
        let g = reps[i].0.as_str();
        proof {
            assert(reps@.take(i + 1).drop_last() =~= reps@.take(i as int));
            reveal_strlit("DELETE { GRAPH <");
            reveal_strlit("> { ?s ?p ?o } } WHERE { GRAPH <");
            reveal_strlit("> { ?s ?p ?o } };\n");
        }
        update.append("DELETE { GRAPH <");
        update.append(g);
        update.append("> { ?s ?p ?o } } WHERE { GRAPH <");
        update.append(g);
        update.append("> { ?s ?p ?o } };\n");
        i = i + 1;
    }
    proof {
        assert(reps@.take(i as int) =~= reps@);
        reveal_strlit("INSERT DATA {\n");
    }
    update.append("INSERT DATA {\n");
    let ghost head = update@;
    let mut k: usize = 0;
    proof {
        assert(head + inserts_text(reps@.take(0)) =~= update@);
    }
    while k < reps.len()
        invariant
            k <= reps@.len(),
            update@ == head + inserts_text(reps@.take(k as int)),
        decreases reps@.len() - k,
    {
        let g = reps[k].0.as_str();
        let ts = &reps[k].1;
        let ghost before = update@;
        let mut j: usize = 0;
        proof {
            assert(ts@.take(0) =~= Seq::<RdfTriple>::empty());
            assert(before + graph_lines_text(g@, ts@.take(0)) =~= update@);
        }
        while j < ts.len()
            invariant
                j <= ts@.len(),
                update@ == before + graph_lines_text(g@, ts@.take(j as int)),
            decreases ts@.len() - j,
        {
            proof {
                assert(ts@.take(j + 1).drop_last() =~= ts@.take(j as int));
                reveal_strlit("\n");
            }
            append_quad(&mut update, g, &ts[j]);
            update.append("\n");
            j = j + 1;
        }
        proof {
            assert(ts@.take(j as int) =~= ts@);
            assert(reps@.take(k + 1).drop_last() =~= reps@.take(k as int));
        }
        k = k + 1;
    }
    proof {
        assert(reps@.take(k as int) =~= reps@);
        reveal_strlit("}\n");
    }
    update.append("}\n");
    Some(update)
}

} // verus!
