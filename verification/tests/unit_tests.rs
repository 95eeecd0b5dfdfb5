use std::io::Write;

use rust_search::codec::{doc_to_record, record_to_doc};
use rust_search::document::clone_pairs;
use rust_search::persist::{load_documents, save_documents, split_path};
use rust_search::query::rewrite_query;
use rust_search::schema::{string_eq_literal, SchemaRegistry};
use rust_search::{Document, DocumentStore, EngineError, SchemaError};

fn doc(id: &str, content: &str) -> Document {
    Document { id: id.to_string(), content: content.to_string(), metadata: Vec::new() }
}

#[test]
fn store_insert_and_get() {
    let mut store = DocumentStore::new();
    assert!(store.is_empty());
    store.insert(doc("a", "alpha"));
    store.insert(doc("b", "beta"));
    assert_eq!(store.len(), 2);
    assert_eq!(store.get(&"a".to_string()).unwrap().content, "alpha");
    assert_eq!(store.get(&"b".to_string()).unwrap().content, "beta");
    assert!(store.get(&"c".to_string()).is_none());
}

#[test]
fn store_overwrite_is_last_write_wins() {
    let mut store = DocumentStore::new();
    store.insert(doc("a", "first"));
    store.insert(doc("a", "second"));
    assert_eq!(store.len(), 1);
    assert_eq!(store.get(&"a".to_string()).unwrap().content, "second");
}

#[test]
fn registry_registration_rules() {
    let mut registry = SchemaRegistry::new();
    assert!(!registry.is_registered(&"author".to_string()));

    assert_eq!(registry.register_field(&"author".to_string()), Ok(()));
    assert!(registry.is_registered(&"author".to_string()));

    // idempotent for an existing field
    assert_eq!(registry.register_field(&"author".to_string()), Ok(()));
    assert_eq!(registry.names().len(), 1);

    // reserved fields are never redefined
    assert_eq!(registry.register_field(&"id".to_string()), Err(SchemaError::Conflict));
    assert_eq!(registry.register_field(&"content".to_string()), Err(SchemaError::Conflict));
}

#[test]
fn string_eq_literal_compares_contents() {
    assert!(string_eq_literal(&"id".to_string(), "id"));
    assert!(!string_eq_literal(&"idx".to_string(), "id"));
}

#[test]
fn rewrite_bare_terms() {
    let registry = SchemaRegistry::new();
    let no_fields: Vec<String> = Vec::new();
    assert_eq!(rewrite_query("hello world", &no_fields, &registry), "hello world");
    assert_eq!(rewrite_query("  spaced   out ", &no_fields, &registry), "spaced out");
    assert_eq!(rewrite_query("", &no_fields, &registry), "");
}

#[test]
fn rewrite_field_clauses() {
    let mut registry = SchemaRegistry::new();
    registry.register_field(&"author".to_string()).unwrap();
    let no_fields: Vec<String> = Vec::new();

    // registered fields move under the metadata object
    assert_eq!(rewrite_query("author:Jane", &no_fields, &registry), "meta.author:Jane");
    // reserved fields pass through
    assert_eq!(rewrite_query("id:42", &no_fields, &registry), "id:42");
    assert_eq!(rewrite_query("content:x", &no_fields, &registry), "content:x");
    // unknown fields match nothing and are dropped
    assert_eq!(rewrite_query("tag:x", &no_fields, &registry), "");
    assert_eq!(rewrite_query("common tag:x", &no_fields, &registry), "common");
}

#[test]
fn rewrite_scopes_bare_terms_to_requested_fields() {
    let mut registry = SchemaRegistry::new();
    registry.register_field(&"author".to_string()).unwrap();
    let fields = vec!["author".to_string(), "tag".to_string()];
    // only the registered requested field is scoped
    assert_eq!(rewrite_query("Jane", &fields, &registry), "Jane meta.author:Jane");
}

#[test]
fn record_conversions_preserve_documents() {
    let original = Document {
        id: "r1".to_string(),
        content: "body".to_string(),
        metadata: vec![("k".to_string(), "v".to_string())],
    };
    let record = doc_to_record(&original);
    assert_eq!(record.0, "r1");
    assert_eq!(record.1, "body");
    assert_eq!(record.2, vec![("k".to_string(), "v".to_string())]);
    let back = record_to_doc(&record);
    assert_eq!(back.id, original.id);
    assert_eq!(back.content, original.content);
    assert_eq!(back.metadata, original.metadata);
}

#[test]
fn snapshot_round_trip_keeps_metadata() {
    let dir = tempfile::tempdir().unwrap();
    let path = dir.path().join("snap.db");
    let path_str = path.to_str().unwrap();

    let docs = vec![Document {
        id: "a".to_string(),
        content: "alpha".to_string(),
        metadata: vec![("k".to_string(), "v".to_string())],
    }];
    save_documents(&docs, path_str).unwrap();

    let store = load_documents(path_str);
    // a decoded snapshot carries the documents whole, not the bytes back
    let loaded = store.get(&"a".to_string()).unwrap();
    assert_eq!(loaded.content, "alpha");
    assert_eq!(loaded.metadata, vec![("k".to_string(), "v".to_string())]);
}

#[test]
fn load_documents_undecodable_snapshot_is_empty() {
    let dir = tempfile::tempdir().unwrap();
    let mut file = tempfile::NamedTempFile::new_in(dir.path()).unwrap();
    file.write_all(&[0xff, 0xff, 0xff, 0xff, 0xff, 0xff, 0xff, 0xff, 0x01]).unwrap();
    file.flush().unwrap();

    let store = load_documents(file.path().to_str().unwrap());
    assert!(store.is_empty());
}

#[test]
fn split_path_cases() {
    assert_eq!(split_path("a/b/c.db"), ("a/b".to_string(), "c.db".to_string()));
    assert_eq!(split_path("c.db"), (".".to_string(), "c.db".to_string()));
    assert_eq!(split_path("/c.db"), ("/".to_string(), "c.db".to_string()));
}

#[test]
fn save_and_load_documents_round_trip() {
    let dir = tempfile::tempdir().unwrap();
    let path = dir.path().join("snap.db");
    let path_str = path.to_str().unwrap();

    let docs = vec![doc("a", "alpha"), doc("b", "beta")];
    save_documents(&docs, path_str).unwrap();

    let store = load_documents(path_str);
    assert_eq!(store.len(), 2);
    assert_eq!(store.get(&"a".to_string()).unwrap().content, "alpha");
    assert_eq!(store.get(&"b".to_string()).unwrap().content, "beta");
}

#[test]
fn load_documents_missing_file_is_empty() {
    let dir = tempfile::tempdir().unwrap();
    let path = dir.path().join("absent.db");
    let store = load_documents(path.to_str().unwrap());
    assert!(store.is_empty());
}

#[test]
fn save_documents_unwritable_path_is_io_error() {
    let dir = tempfile::tempdir().unwrap();
    let path = dir.path().join("missing").join("snap.db");
    let result = save_documents(&vec![doc("a", "alpha")], path.to_str().unwrap());
    match result {
        Err(EngineError::Io(_)) => (),
        other => panic!("expected an io error, got {:?}", other),
    }
}

#[test]
fn clone_pairs_copies_all_pairs() {
    let pairs = vec![
        ("a".to_string(), "1".to_string()),
        ("b".to_string(), "2".to_string()),
    ];
    assert_eq!(clone_pairs(&pairs), pairs);
}

#[test]
fn document_clone_is_deep_equal() {
    let original = Document {
        id: "c1".to_string(),
        content: "text".to_string(),
        metadata: vec![("k".to_string(), "v".to_string())],
    };
    let copy = original.clone();
    assert_eq!(copy.id, original.id);
    assert_eq!(copy.content, original.content);
    assert_eq!(copy.metadata, original.metadata);
}

#[test]
fn engine_error_messages() {
    let e = EngineError::InvalidState;
    assert!(!e.message().is_empty());
    let s = EngineError::Schema(SchemaError::Conflict);
    assert!(!s.message().is_empty());
}
