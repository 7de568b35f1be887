//! Character memory: the domain model of episodic memories and the logic that
//! validates, links, indexes and expands them.

pub mod text;
pub mod domain;
pub mod ids;
pub mod seqs;
pub mod sorting;
pub mod belief;
pub mod objects;
pub mod lifecycle;
pub mod write_validation;
pub mod errors;
pub mod schema;
pub mod retrieval;
pub mod graph;
pub mod frontier;
pub mod visibility;
pub mod store_expansion;
pub mod expansion_order;
pub mod stats;
pub mod selectivity;
pub mod link;
pub mod vector;
pub mod prefilter;
pub mod sparql;
pub mod sparql_results;
pub mod sparql_update;
pub mod rdf_vocabulary;
pub mod timestamps;
pub mod rdf_read;
pub mod rdf_write;
pub mod rdf_round_trip;
pub mod raw_reference;
pub mod settings;
pub mod graph_store;
pub mod remember;
