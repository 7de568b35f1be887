use cmem::domain::{graph_uri, ObjectType, RelationType};
use cmem::errors::CustomError;
use cmem::frontier::LinkRef;
use cmem::graph::{GraphObjectQuery, GraphObjectRef};
use cmem::sparql::{RdfTriple, SparqlBinding};
use cmem::sparql_update::{replace_triples_update, sparql_quad};
use cmem::sparql_results::{
    memory_id_from_resource, memory_id_select_binding, memory_ids_from_resources, memory_ids_from_rows,
    selected_link_refs, selected_memory_ids, selected_object_refs,
};

const ID_TEXT: &str = "550e8400-e29b-41d4-a716-446655440000";
const ID: u128 = 0x550e8400_e29b_41d4_a716_446655440000;

fn row(name: &str, kind: &str, value: &str) -> Vec<(String, SparqlBinding)> {
    vec![(name.to_owned(), SparqlBinding { kind: kind.to_owned(), value: value.to_owned() })]
}

#[test]
fn identity_bindings_are_parsed_as_uuids() {
    assert_eq!(memory_id_select_binding(&row("id", "literal", ID_TEXT), "id"), Ok(ID));
    match memory_id_select_binding(&row("id", "literal", "not-a-uuid"), "id") {
        Err(CustomError::DatabaseError(message)) => {
            assert!(message.starts_with("Oxigraph SPARQL invalid MemoryId binding id: "), "{message}")
        }
        other => panic!("unexpected {other:?}"),
    }
    assert_eq!(
        memory_id_select_binding(&row("id", "uri", ID_TEXT), "id"),
        Err(CustomError::DatabaseError("Oxigraph SPARQL binding id must be a literal, got uri".to_owned()))
    );
}

#[test]
fn graph_uris_read_back_as_their_identity() {
    for object_type in [ObjectType::Episode, ObjectType::DerivedMemory, ObjectType::MemoryThread] {
        assert_eq!(memory_id_from_resource(&graph_uri(object_type, ID)), Ok(ID));
    }
    assert_eq!(memory_id_from_resource(ID_TEXT), Ok(ID));
    match memory_id_from_resource("urn:cmem:episode:") {
        Err(CustomError::DatabaseError(message)) => assert!(message.starts_with("Invalid graph URI MemoryId: ")),
        other => panic!("unexpected {other:?}"),
    }
}

#[test]
fn resource_lists_are_sorted_and_refused_whole() {
    let low = "00000000-0000-0000-0000-000000000001";
    let uris = vec![format!("urn:cmem:entity:{ID_TEXT}"), format!("urn:cmem:entity:{low}")];
    assert_eq!(memory_ids_from_resources(uris), Ok(vec![1, ID]));
    assert!(memory_ids_from_resources(vec![format!("urn:cmem:entity:{low}"), "urn:cmem:entity:x".to_owned()]).is_err());
    assert_eq!(memory_ids_from_resources(Vec::new()), Ok(Vec::new()));
}

#[test]
fn selected_identities_are_distinct_ordered_and_limited() {
    assert_eq!(selected_memory_ids(vec![9, 3, 9, 1, 3], None), vec![1, 3, 9]);
    assert_eq!(selected_memory_ids(vec![9, 3, 9, 1, 3], Some(2)), vec![1, 3]);
    assert_eq!(selected_memory_ids(vec![9], Some(0)), Vec::<u128>::new());

    let rows = vec![
        row("id", "literal", ID_TEXT),
        row("id", "literal", "00000000-0000-0000-0000-000000000002"),
        row("id", "literal", ID_TEXT),
    ];
    assert_eq!(memory_ids_from_rows(&rows, None), Ok(vec![2, ID]));
    assert_eq!(memory_ids_from_rows(&rows, Some(1)), Ok(vec![2]));
    let broken = vec![row("id", "literal", ID_TEXT), row("other", "literal", ID_TEXT)];
    assert_eq!(
        memory_ids_from_rows(&broken, None),
        Err(CustomError::DatabaseError("Oxigraph SPARQL result is missing binding id".to_owned()))
    );
}

#[test]
fn selected_object_refs_follow_the_query() {
    let a = GraphObjectRef::new(5, ObjectType::Episode);
    let b = GraphObjectRef::new(2, ObjectType::Entity);
    let c = GraphObjectRef::new(2, ObjectType::Episode);
    let query = GraphObjectQuery::by_types(vec![ObjectType::Episode], None);
    assert_eq!(selected_object_refs(vec![a, b, c, a], &query), vec![c, a]);
    let limited = GraphObjectQuery::by_types(Vec::new(), Some(2));
    assert_eq!(selected_object_refs(vec![a, b, c], &limited), vec![c, b]);
}

#[test]
fn selected_link_refs_are_distinct_in_link_order() {
    let x = GraphObjectRef::new(1, ObjectType::Entity);
    let y = GraphObjectRef::new(2, ObjectType::Episode);
    let z = GraphObjectRef::new(3, ObjectType::Observation);
    let to_z = LinkRef { link_id: 7, from: x, to: z, relation: RelationType::Mentions };
    let to_y = LinkRef { link_id: 8, from: x, to: y, relation: RelationType::Involves };
    assert_eq!(selected_link_refs(vec![to_z, to_y, to_z]), vec![to_y, to_z]);
}

#[test]
fn quads_and_replacement_updates_are_written_in_order() {
    let literal = RdfTriple::literal("urn:s", "urn:p", "say \"hi\"\n");
    let resource = RdfTriple::resource("urn:s", "urn:q", "urn:o");
    assert_eq!(sparql_quad("urn:g", &literal), "GRAPH <urn:g> { <urn:s> <urn:p> \"say \\\"hi\\\"\\n\" . }");
    assert_eq!(sparql_quad("urn:g", &resource), "GRAPH <urn:g> { <urn:s> <urn:q> <urn:o> . }");

    assert_eq!(replace_triples_update(&Vec::new()), None);
    let update = replace_triples_update(&vec![
        ("urn:g1".to_owned(), vec![resource.clone()]),
        ("urn:g2".to_owned(), Vec::new()),
    ])
    .unwrap();
    assert_eq!(
        update,
        "DELETE { GRAPH <urn:g1> { ?s ?p ?o } } WHERE { GRAPH <urn:g1> { ?s ?p ?o } };\n\
         DELETE { GRAPH <urn:g2> { ?s ?p ?o } } WHERE { GRAPH <urn:g2> { ?s ?p ?o } };\n\
         INSERT DATA {\n\
         GRAPH <urn:g1> { <urn:s> <urn:q> <urn:o> . }\n\
         }\n"
    );
}
