//! Reading the results of graph-store selections: identities from literal
//! bindings and from graph URIs, and the deduplicated, ordered, limited lists the
//! store hands back.

use vstd::prelude::*;
use crate::domain::MemoryId;
use crate::errors::CustomError;
use crate::frontier::{LinkRef, link_ref_key, stable_link_ref_key};
use crate::graph::{
    GraphObjectQuery, GraphObjectRef, contains_ref, id_key, limited, node_keys, object_matches_query,
    query_selects, sort_graph_object_refs,
};
use crate::ids::{parse_uuid, uuid_parse};
use crate::seqs::contains_id;
use crate::sorting::{SortKey, sort_by_keys, sorted_by_keys};
use crate::sparql::{SparqlBinding, literal_binding_result, literal_select_binding};

verus! {

/// The identity bound to `name` in a result row, or the message refusing it.
pub open spec fn memory_id_binding_result(row: Seq<(String, SparqlBinding)>, name: Seq<char>) -> Result<MemoryId, Seq<char>> {
    match literal_binding_result(row, name) {
        Err(m) => Err(m),
        Ok(v) => match uuid_parse(v) {
            Ok(id) => Ok(id),
            Err(e) => Err("Oxigraph SPARQL invalid MemoryId binding "@ + name + ": "@ + e),
        },
    }
}

/// Reads the identity bound to literal `name` in a result row.
pub fn memory_id_select_binding(row: &Vec<(String, SparqlBinding)>, name: &str) -> (r: Result<MemoryId, CustomError>)
    ensures
        (match memory_id_binding_result(row@, name@) {
            Ok(id) => r == Ok::<MemoryId, CustomError>(id),
            Err(m) => r matches Err(CustomError::DatabaseError(msg)) && msg@ == m,
        }),
{
    let text = match literal_select_binding(row, name) {
        Ok(t) => t,
        Err(e) => {
            return Err(e);
        },
    };
    match parse_uuid(text.as_str()) {
        Ok(id) => Ok(id),
        Err(detail) => {
            let mut msg = String::from_str("Oxigraph SPARQL invalid MemoryId binding ");
            msg.append(name);
            msg.append(": ");
            msg.append(detail.as_str());
            proof {
                reveal_strlit("Oxigraph SPARQL invalid MemoryId binding ");
                reveal_strlit(": ");
            }
            Err(CustomError::DatabaseError(msg))
        },
    }
}

/// Where the last `:`-separated segment of `s[..i]` starts.
pub open spec fn segment_start(s: Seq<char>, i: int) -> int
    decreases i,
{
    if i <= 0 {
        0
    } else if s[i - 1] == ':' {
        i
    } else {
        segment_start(s, i - 1)
    }
}

/// The text after the last `:` (all of it when there is none).
pub open spec fn last_segment(s: Seq<char>) -> Seq<char> {
    s.subrange(segment_start(s, s.len() as int), s.len() as int)
}

proof fn lemma_segment_start_bounds(s: Seq<char>, i: int)
    requires
        0 <= i <= s.len(),
    ensures
        0 <= segment_start(s, i) <= i,
    decreases i,
{
    if i > 0 && s[i - 1] != ':' {
        lemma_segment_start_bounds(s, i - 1);
    }
}

/// The identity in a graph URI, or the message refusing it.
pub open spec fn resource_id_result(value: Seq<char>) -> Result<MemoryId, Seq<char>> {
    match uuid_parse(last_segment(value)) {
        Ok(id) => Ok(id),
        Err(e) => Err("Invalid graph URI MemoryId: "@ + e),
    }
}

/// Reads the identity in a graph URI: the UUID after its last `:`.
pub fn memory_id_from_resource(value: &str) -> (r: Result<MemoryId, CustomError>)
    ensures
        (match resource_id_result(value@) {
            Ok(id) => r == Ok::<MemoryId, CustomError>(id),
            Err(m) => r matches Err(CustomError::DatabaseError(msg)) && msg@ == m,
        }),
{
    let n = value.unicode_len();
    let mut i: usize = n;
    while i > 0 && value.get_char(i - 1) != ':'
        invariant
            i <= n,
            n == value@.len(),
            segment_start(value@, n as int) == segment_start(value@, i as int),
        decreases i,
    {
        i = i - 1;
    }
    proof {
        lemma_segment_start_bounds(value@, i as int);
    }
    let segment = value.substring_char(i, n);
    match parse_uuid(segment) {
        Ok(id) => Ok(id),
        Err(detail) => {
            let mut msg = String::from_str("Invalid graph URI MemoryId: ");
            msg.append(detail.as_str());
            proof {
                reveal_strlit("Invalid graph URI MemoryId: ");
            }
            Err(CustomError::DatabaseError(msg))
        },
    }
}

/// The identities in graph URIs, in order, or the refusal of the first bad one.
pub open spec fn resource_ids_result(values: Seq<Seq<char>>) -> Result<Seq<MemoryId>, Seq<char>>
    decreases values.len(),
{
    if values.len() == 0 {
        Ok(seq![])
    } else {
        match resource_ids_result(values.drop_last()) {
            Err(m) => Err(m),
            Ok(ids) => match resource_id_result(values.last()) {
                Err(m) => Err(m),
                Ok(id) => Ok(ids.push(id)),
            },
        }
    }
}

/// Ordering keys of identities.
pub open spec fn id_keys(ids: Seq<MemoryId>) -> Seq<SortKey> {
    ids.map_values(|id: MemoryId| id_key(id))
}

fn sort_ids(ids: Vec<MemoryId>) -> (r: Vec<MemoryId>)
    ensures
        r@ == sorted_by_keys(ids@, id_keys(ids@)),
{
    let mut keys: Vec<SortKey> = Vec::new();
    let mut i: usize = 0;
    while i < ids.len()
        invariant
            i <= ids@.len(),
            keys@ == id_keys(ids@).take(i as int),
        decreases ids@.len() - i,
    {
        keys.push((ids[i], 0, 0, 0, 0, 0));
        proof {
            assert(keys@ =~= id_keys(ids@).take(i + 1));
        }
        i = i + 1;
    }
    proof {
        assert(id_keys(ids@).take(i as int) =~= id_keys(ids@));
    }
    sort_by_keys(ids, keys)
}

/// Reads the identities in graph URIs and orders them; the first bad URI refuses
/// them all.
pub fn memory_ids_from_resources(values: Vec<String>) -> (r: Result<Vec<MemoryId>, CustomError>)
    ensures
        (match resource_ids_result(values@.map_values(|v: String| v@)) {
            Ok(ids) => r matches Ok(v) && v@ == sorted_by_keys(ids, id_keys(ids)),
            Err(m) => r matches Err(CustomError::DatabaseError(msg)) && msg@ == m,
        }),
{
    let ghost texts = values@.map_values(|v: String| v@);
    let mut ids: Vec<MemoryId> = Vec::new();
    let mut i: usize = 0;
    proof {
        assert(texts.take(0) =~= Seq::<Seq<char>>::empty());
    }
    while i < values.len()
        invariant
            i <= values@.len(),
            texts == values@.map_values(|v: String| v@),
            resource_ids_result(texts.take(i as int)) == Ok::<Seq<MemoryId>, Seq<char>>(ids@),
        decreases values@.len() - i,
    {
        proof {
            assert(texts.take(i + 1).drop_last() =~= texts.take(i as int));
            assert(texts.take(i + 1).last() == values@[i as int]@);
        }
        match memory_id_from_resource(values[i].as_str()) {
            Ok(id) => {
                ids.push(id);
            },
            Err(e) => {
                proof {
                    lemma_resource_ids_err_extends(texts, i + 1);
                }
                return Err(e);
            },
        }
        i = i + 1;
    }
    proof {
        assert(texts.take(i as int) =~= texts);
    }
    Ok(sort_ids(ids))
}

proof fn lemma_resource_ids_err_extends(texts: Seq<Seq<char>>, k: int)
    requires
        0 <= k <= texts.len(),
        resource_ids_result(texts.take(k)) is Err,
    ensures
        resource_ids_result(texts) == resource_ids_result(texts.take(k)),
    decreases texts.len() - k,
{
    if k < texts.len() {
        assert(texts.take(k + 1).drop_last() =~= texts.take(k));
        lemma_resource_ids_err_extends(texts, k + 1);
    } else {
        assert(texts.take(k) =~= texts);
    }
}

/// The items of `s`, each at its first occurrence.
pub open spec fn first_occurrences<T>(s: Seq<T>) -> Seq<T>
    decreases s.len(),
{
    if s.len() == 0 {
        s
    } else {
        let k = first_occurrences(s.drop_last());
        if k.contains(s.last()) {
            k
        } else {
            k.push(s.last())
        }
    }
}

/// The identities a selection returned: each once, in identity order, at most
/// `limit` of them.
pub fn selected_memory_ids(ids: Vec<MemoryId>, limit: Option<usize>) -> (r: Vec<MemoryId>)
    ensures
        ({
            let d = first_occurrences(ids@);
            r@ == limited(sorted_by_keys(d, id_keys(d)), limit)
        }),
{
    let mut distinct: Vec<MemoryId> = Vec::new();
    let mut i: usize = 0;
    proof {
        assert(ids@.take(0) =~= Seq::<MemoryId>::empty());
    }
    while i < ids.len()
        invariant
            i <= ids@.len(),
            distinct@ == first_occurrences(ids@.take(i as int)),
        decreases ids@.len() - i,
    {
        proof {
            assert(ids@.take(i + 1).drop_last() =~= ids@.take(i as int));
        }
        if !contains_id(&distinct, ids[i]) {
            distinct.push(ids[i]);
        }
        i = i + 1;
    }
    proof {
        assert(ids@.take(i as int) =~= ids@);
    }
    let mut sorted = sort_ids(distinct);
    if let Some(n) = limit {
        if n < sorted.len() {
            sorted.truncate(n);
        }
    }
    sorted
}

/// The identities bound to `id` in result rows, as a selection returns them:
/// each once, in identity order, at most `limit`; the first bad row refuses all.
pub open spec fn rows_ids_result(rows: Seq<Vec<(String, SparqlBinding)>>) -> Result<Seq<MemoryId>, Seq<char>>
    decreases rows.len(),
{
    if rows.len() == 0 {
        Ok(seq![])
    } else {
        match rows_ids_result(rows.drop_last()) {
            Err(m) => Err(m),
            Ok(ids) => match memory_id_binding_result(rows.last()@, "id"@) {
                Err(m) => Err(m),
                Ok(id) => Ok(ids.push(id)),
            },
        }
    }
}

proof fn lemma_rows_ids_err_extends(rows: Seq<Vec<(String, SparqlBinding)>>, k: int)
    requires
        0 <= k <= rows.len(),
        rows_ids_result(rows.take(k)) is Err,
    ensures
        rows_ids_result(rows) == rows_ids_result(rows.take(k)),
    decreases rows.len() - k,
{
    if k < rows.len() {
        assert(rows.take(k + 1).drop_last() =~= rows.take(k));
        lemma_rows_ids_err_extends(rows, k + 1);
    } else {
        assert(rows.take(k) =~= rows);
    }
}

/// The identities an identity selection answered with, from its result rows: each
/// once, in identity order, at most `limit`; a row without a readable `id`
/// refuses them all.
pub fn memory_ids_from_rows(rows: &Vec<Vec<(String, SparqlBinding)>>, limit: Option<usize>) -> (r: Result<Vec<MemoryId>, CustomError>)
    ensures
        (match rows_ids_result(rows@) {
            Ok(ids) => r matches Ok(v) && v@ == limited(
                sorted_by_keys(first_occurrences(ids), id_keys(first_occurrences(ids))),
                limit,
            ),
            Err(m) => r matches Err(CustomError::DatabaseError(msg)) && msg@ == m,
        }),
{
    let mut ids: Vec<MemoryId> = Vec::new();
    let mut i: usize = 0;
    proof {
        assert(rows@.take(0) =~= Seq::<Vec<(String, SparqlBinding)>>::empty());
    }
    while i < rows.len()
        invariant
            i <= rows@.len(),
            rows_ids_result(rows@.take(i as int)) == Ok::<Seq<MemoryId>, Seq<char>>(ids@),
        decreases rows@.len() - i,
    {
        proof {
            assert(rows@.take(i + 1).drop_last() =~= rows@.take(i as int));
        }
        match memory_id_select_binding(&rows[i], "id") {
            Ok(id) => {
                proof {
                    reveal_strlit("id");
                }
                ids.push(id);
            },
            Err(e) => {
                proof {
                    reveal_strlit("id");
                    lemma_rows_ids_err_extends(rows@, i + 1);
                }
                return Err(e);
            },
        }
        i = i + 1;
    }
    proof {
        assert(rows@.take(i as int) =~= rows@);
    }
    Ok(selected_memory_ids(ids, limit))
}

/// The nodes `q` selects among `refs`, each once, in their order.
pub open spec fn selected_refs(q: GraphObjectQuery, refs: Seq<GraphObjectRef>) -> Seq<GraphObjectRef>
    decreases refs.len(),
{
    if refs.len() == 0 {
        refs
    } else {
        let k = selected_refs(q, refs.drop_last());
        if query_selects(q, refs.last()) && !k.contains(refs.last()) {
            k.push(refs.last())
        } else {
            k
        }
    }
}

/// The nodes an object selection returned, narrowed to those `q` selects: each
/// once, ordered by identity then type, at most `q.limit`.
pub fn selected_object_refs(refs: Vec<GraphObjectRef>, q: &GraphObjectQuery) -> (r: Vec<GraphObjectRef>)
    ensures
        ({
            let d = selected_refs(*q, refs@);
            r@ == limited(sorted_by_keys(d, node_keys(d)), q.limit)
        }),
{
    let mut kept: Vec<GraphObjectRef> = Vec::new();
    let mut i: usize = 0;
    proof {
        assert(refs@.take(0) =~= Seq::<GraphObjectRef>::empty());
    }
    while i < refs.len()
        invariant
            i <= refs@.len(),
            kept@ == selected_refs(*q, refs@.take(i as int)),
        decreases refs@.len() - i,
    {
        proof {
            assert(refs@.take(i + 1).drop_last() =~= refs@.take(i as int));
        }
        let r = refs[i];
        if object_matches_query(r, q) && !contains_ref(&kept, r) {
            kept.push(r);
        }
        i = i + 1;
    }
    proof {
        assert(refs@.take(i as int) =~= refs@);
    }
    let mut sorted = sort_graph_object_refs(kept);
    if let Some(n) = q.limit {
        if n < sorted.len() {
            sorted.truncate(n);
        }
    }
    sorted
}

fn contains_link_ref(v: &Vec<LinkRef>, x: LinkRef) -> (r: bool)
    ensures
        r == v@.contains(x),
{
    let mut i: usize = 0;
    while i < v.len()
        invariant
            i <= v@.len(),
            forall|j: int| 0 <= j < i ==> v@[j] != x,
        decreases v@.len() - i,
    {
        if v[i] == x {
            assert(v@[i as int] == x);
            return true;
        }
        i = i + 1;
    }
    false
}

/// Ordering keys of link references.
pub open spec fn ref_keys(ls: Seq<LinkRef>) -> Seq<SortKey> {
    ls.map_values(|l: LinkRef| link_ref_key(l))
}

/// The links a touching selection returned: each once, in link order.
pub fn selected_link_refs(refs: Vec<LinkRef>) -> (r: Vec<LinkRef>)
    ensures
        ({
            let d = first_occurrences(refs@);
            r@ == sorted_by_keys(d, ref_keys(d))
        }),
{
    let mut distinct: Vec<LinkRef> = Vec::new();
    let mut keys: Vec<SortKey> = Vec::new();
    let mut i: usize = 0;
    proof {
        assert(refs@.take(0) =~= Seq::<LinkRef>::empty());
    }
    while i < refs.len()
        invariant
            i <= refs@.len(),
            distinct@ == first_occurrences(refs@.take(i as int)),
            keys@ == ref_keys(distinct@),
        decreases refs@.len() - i,
    {
        proof {
            assert(refs@.take(i + 1).drop_last() =~= refs@.take(i as int));
        }
        let l = refs[i];
        if !contains_link_ref(&distinct, l) {
            distinct.push(l);
            keys.push(stable_link_ref_key(l));
            proof {
                assert(keys@ =~= ref_keys(distinct@));
            }
        }
        i = i + 1;
    }
    proof {
        assert(refs@.take(i as int) =~= refs@);
    }
    sort_by_keys(distinct, keys)
}

} // verus!
