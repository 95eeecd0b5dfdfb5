use rust_search::{Document, EngineError, SearchIndex};

fn doc(id: &str, content: &str, metadata: Vec<(String, String)>) -> Document {
    Document { id: id.to_string(), content: content.to_string(), metadata }
}

#[test]
fn index_add_and_search_ids() {
    let dir = tempfile::tempdir().unwrap();
    let mut index = SearchIndex::new(dir.path().to_str().unwrap()).unwrap();

    index.add_document(&doc("a", "northern lights", Vec::new())).unwrap();
    index.add_document(&doc("b", "southern skies", Vec::new())).unwrap();

    let ids = index.search("northern").unwrap();
    assert_eq!(ids, vec!["a".to_string()]);

    let ids = index.search("skies").unwrap();
    assert_eq!(ids, vec!["b".to_string()]);

    index.close().unwrap();
}

#[test]
fn index_search_by_reserved_id_field() {
    let dir = tempfile::tempdir().unwrap();
    let mut index = SearchIndex::new(dir.path().to_str().unwrap()).unwrap();

    index.add_document(&doc("alpha7", "first body", Vec::new())).unwrap();
    index.add_document(&doc("beta9", "second body", Vec::new())).unwrap();

    let ids = index.search("id:alpha7").unwrap();
    assert_eq!(ids, vec!["alpha7".to_string()]);
}

#[test]
fn index_registration_gates_metadata() {
    let dir = tempfile::tempdir().unwrap();
    let mut index = SearchIndex::new(dir.path().to_str().unwrap()).unwrap();

    let metadata = vec![("topic".to_string(), "storms".to_string())];

    // not registered: the metadata value is not indexed
    index.add_document(&doc("d1", "weather report", metadata.clone())).unwrap();
    let fields = vec!["topic".to_string()];
    assert!(index.search_with_metadata("storms", &fields).unwrap().is_empty());

    // registered and re-added: the value becomes searchable
    index.add_metadata_field(&"topic".to_string()).unwrap();
    index.add_document(&doc("d1", "weather report", metadata)).unwrap();
    let ids = index.search_with_metadata("storms", &fields).unwrap();
    assert!(ids.contains(&"d1".to_string()));

    index.update_schema().unwrap();
}

#[test]
fn index_reserved_field_registration_is_conflict() {
    let dir = tempfile::tempdir().unwrap();
    let mut index = SearchIndex::new(dir.path().to_str().unwrap()).unwrap();
    match index.add_metadata_field(&"content".to_string()) {
        Err(EngineError::Schema(rust_search::SchemaError::Conflict)) => (),
        other => panic!("expected a schema conflict, got {:?}", other),
    }
}

#[test]
fn index_result_cap_is_ten() {
    let dir = tempfile::tempdir().unwrap();
    let mut index = SearchIndex::new(dir.path().to_str().unwrap()).unwrap();

    for i in 0..12 {
        index.add_document(&doc(&format!("n{}", i), "shared capped phrase", Vec::new())).unwrap();
    }

    let ids = index.search("capped").unwrap();
    assert_eq!(ids.len(), 10);
}
