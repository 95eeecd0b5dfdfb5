use rust_search::{Document, SearchEngine, StorageConfig};

struct TestDirs {
    _base: tempfile::TempDir,
    data: tempfile::TempDir,
    index: tempfile::TempDir,
}

fn create_test_dirs() -> TestDirs {
    let base = tempfile::tempdir().unwrap();
    let data = tempfile::tempdir_in(base.path()).unwrap();
    let index = tempfile::tempdir_in(base.path()).unwrap();
    TestDirs { _base: base, data, index }
}

fn config_for(dirs: &TestDirs) -> StorageConfig {
    StorageConfig {
        data_file: dirs.data.path().join("test_data.db").to_str().unwrap().to_string(),
        index_path: dirs.index.path().to_str().unwrap().to_string(),
    }
}

fn create_test_document(id: &str, content: &str) -> Document {
    Document {
        id: id.to_string(),
        content: content.to_string(),
        metadata: vec![
            ("author".to_string(), "Test Author".to_string()),
            ("type".to_string(), "test".to_string()),
        ],
    }
}

#[test]
fn test_add_and_search_document() {
    let dirs = create_test_dirs();
    let config = config_for(&dirs);
    let mut engine = SearchEngine::new(&config).unwrap();

    let doc = create_test_document("1", "Rust is a great programming language");
    engine.add_document(doc.clone()).unwrap();

    let results = engine.search("Rust").unwrap();
    assert_eq!(results.len(), 1);
    assert_eq!(results[0].id, "1");
    assert!(results[0].content.contains("Rust"));
}

#[test]
fn test_search_nonexistent() {
    let dirs = create_test_dirs();
    let config = config_for(&dirs);
    let engine = SearchEngine::new(&config).unwrap();

    let results = engine.search("nonexistent").unwrap();
    assert_eq!(results.len(), 0);
}

#[test]
fn test_multiple_documents() {
    let dirs = create_test_dirs();
    let config = config_for(&dirs);
    let mut engine = SearchEngine::new(&config).unwrap();

    for i in 1..=3 {
        let doc = create_test_document(
            &format!("doc{}", i),
            &format!("Document {} with some common text", i),
        );
        engine.add_document(doc).unwrap();
    }

    let results = engine.search("common").unwrap();
    assert_eq!(results.len(), 3);
}

#[test]
fn test_metadata_search() {
    let dirs = create_test_dirs();
    let config = config_for(&dirs);
    let mut engine = SearchEngine::new(&config).unwrap();

    engine.add_metadata_field(&"category".to_string()).unwrap();

    let mut doc = create_test_document("meta1", "Test document with metadata");
    doc.metadata.push(("category".to_string(), "test_category".to_string()));
    engine.add_document(doc).unwrap();

    let results = engine.search("category:test_category").unwrap();
    assert!(!results.is_empty());
    let category = results[0]
        .metadata
        .iter()
        .find(|pair| pair.0 == "category")
        .map(|pair| pair.1.clone())
        .unwrap();
    assert_eq!(category, "test_category");

    let results = engine.search("metadata category:test_category").unwrap();
    assert!(!results.is_empty());

    let results = engine.search("nonexistent_category:value").unwrap();
    assert!(results.is_empty());
}

#[test]
fn test_metadata_search_with_field_syntax() {
    let dirs = create_test_dirs();
    let config = config_for(&dirs);
    let mut engine = SearchEngine::new(&config).unwrap();

    engine.add_metadata_field(&"author".to_string()).unwrap();

    let doc1 = Document {
        id: "test1".to_string(),
        content: "test content".to_string(),
        metadata: vec![("author".to_string(), "John Doe".to_string())],
    };
    let doc2 = Document {
        id: "test2".to_string(),
        content: "other content".to_string(),
        metadata: vec![("author".to_string(), "Jane Smith".to_string())],
    };
    engine.add_document(doc1).unwrap();
    engine.add_document(doc2).unwrap();

    let fields = vec!["author".to_string()];
    let results = engine.search_with_metadata("John", &fields).unwrap();
    assert_eq!(results.len(), 1);
    assert_eq!(results[0].id, "test1");

    let results = engine.search_with_metadata("Jane", &fields).unwrap();
    assert_eq!(results.len(), 1);
    assert_eq!(results[0].id, "test2");
}

#[test]
fn test_engine_creation() {
    let dirs = create_test_dirs();
    let config = config_for(&dirs);
    let mut engine = SearchEngine::new(&config).unwrap();
    assert!(engine.is_empty());
    engine.close().unwrap();
}

#[test]
fn test_document_persistence() {
    let dirs = create_test_dirs();
    let config = config_for(&dirs);
    {
        let mut engine = SearchEngine::new(&config).unwrap();
        let doc = Document {
            id: "test1".to_string(),
            content: "test content".to_string(),
            metadata: Vec::new(),
        };
        engine.add_document(doc.clone()).unwrap();
        engine.close().unwrap();
    }

    let engine2 = SearchEngine::new(&config).unwrap();
    let doc = engine2.get_document(&"test1".to_string()).unwrap();
    assert_eq!(doc.content, "test content");
}

#[test]
fn test_engine_close_and_reopen() {
    let dirs = create_test_dirs();
    let config = config_for(&dirs);
    {
        let mut engine = SearchEngine::new(&config).unwrap();
        engine.close().unwrap();
    }
    let mut engine2 = SearchEngine::new(&config).unwrap();
    engine2.close().unwrap();
}

#[test]
fn round_trip_added_document_is_found_with_its_content() {
    let dirs = create_test_dirs();
    let config = config_for(&dirs);
    let mut engine = SearchEngine::new(&config).unwrap();

    let doc = Document {
        id: "rt1".to_string(),
        content: "synchronization across replicas".to_string(),
        metadata: Vec::new(),
    };
    engine.add_document(doc.clone()).unwrap();

    let no_fields: Vec<String> = Vec::new();
    let results = engine.search_with_metadata("synchronization", &no_fields).unwrap();
    assert!(results.iter().any(|d| d.id == doc.id && d.content == doc.content));
}

#[test]
fn idempotent_overwrite_keeps_latest_content() {
    let dirs = create_test_dirs();
    let config = config_for(&dirs);
    let mut engine = SearchEngine::new(&config).unwrap();

    let first = Document {
        id: "dup".to_string(),
        content: "first version".to_string(),
        metadata: Vec::new(),
    };
    let second = Document {
        id: "dup".to_string(),
        content: "second version".to_string(),
        metadata: Vec::new(),
    };
    engine.add_document(first).unwrap();
    assert!(!engine.is_empty());
    engine.add_document(second).unwrap();

    let stored = engine.get_document(&"dup".to_string()).unwrap();
    assert_eq!(stored.content, "second version");
}

#[test]
fn empty_query_result_is_success() {
    let dirs = create_test_dirs();
    let config = config_for(&dirs);
    let engine = SearchEngine::new(&config).unwrap();

    let results = engine.search("nonexistent-term-xyz").unwrap();
    assert_eq!(results.len(), 0);
}

#[test]
fn persistence_across_restart() {
    let dirs = create_test_dirs();
    let config = config_for(&dirs);
    {
        let mut engine = SearchEngine::new(&config).unwrap();
        let doc = Document {
            id: "1".to_string(),
            content: "alpha".to_string(),
            metadata: Vec::new(),
        };
        engine.add_document(doc).unwrap();
        engine.close().unwrap();
    }

    let engine2 = SearchEngine::new(&config).unwrap();
    let doc = engine2.get_document(&"1".to_string()).unwrap();
    assert_eq!(doc.id, "1");
    assert_eq!(doc.content, "alpha");
}

#[test]
fn multi_document_count_is_exact() {
    let dirs = create_test_dirs();
    let config = config_for(&dirs);
    let mut engine = SearchEngine::new(&config).unwrap();

    for i in 1..=3 {
        let doc = Document {
            id: format!("m{}", i),
            content: format!("entry {} holds the common marker", i),
            metadata: Vec::new(),
        };
        engine.add_document(doc).unwrap();
    }

    let results = engine.search("common").unwrap();
    assert_eq!(results.len(), 3);
}

#[test]
fn field_scoped_search_requires_registration() {
    let dirs = create_test_dirs();
    let config = config_for(&dirs);
    let mut engine = SearchEngine::new(&config).unwrap();

    let doc = Document {
        id: "fs1".to_string(),
        content: "a plain text body".to_string(),
        metadata: vec![("author".to_string(), "Jane".to_string())],
    };
    engine.add_document(doc.clone()).unwrap();

    let fields = vec!["author".to_string()];
    // content-only search: the metadata value is not in the content
    assert!(engine.search("Jane").unwrap().is_empty());
    // the author field is not registered yet, so it was not indexed
    assert!(engine.search_with_metadata("Jane", &fields).unwrap().is_empty());

    engine.add_metadata_field(&"author".to_string()).unwrap();
    engine.add_document(doc).unwrap();

    assert!(engine.search("Jane").unwrap().is_empty());
    let results = engine.search_with_metadata("Jane", &fields).unwrap();
    assert_eq!(results.len(), 1);
    assert_eq!(results[0].id, "fs1");
}

#[test]
fn operations_after_close_report_invalid_state() {
    let dirs = create_test_dirs();
    let config = config_for(&dirs);
    let mut engine = SearchEngine::new(&config).unwrap();
    engine.close().unwrap();

    let doc = Document {
        id: "late".to_string(),
        content: "too late".to_string(),
        metadata: Vec::new(),
    };
    assert_eq!(engine.add_document(doc), Err(rust_search::EngineError::InvalidState));
    assert_eq!(engine.search("anything").unwrap_err(), rust_search::EngineError::InvalidState);
    assert_eq!(engine.close(), Err(rust_search::EngineError::InvalidState));
}

#[test]
fn index_failure_reports_index_error() {
    let dirs = create_test_dirs();
    let config = StorageConfig {
        data_file: dirs.data.path().join("data.db").to_str().unwrap().to_string(),
        index_path: dirs.index.path().join("missing").join("deeper").to_str().unwrap().to_string(),
    };
    match SearchEngine::new(&config) {
        Err(rust_search::EngineError::Index(_)) => (),
        other => panic!("expected an index error, got {:?}", other.map(|_| ())),
    }
}

#[test]
fn malformed_query_reports_parse_error() {
    let dirs = create_test_dirs();
    let config = config_for(&dirs);
    let mut engine = SearchEngine::new(&config).unwrap();
    engine.add_document(create_test_document("p1", "some text")).unwrap();

    match engine.search("content:\"unbalanced") {
        Err(rust_search::EngineError::Parse(_)) => (),
        other => panic!("expected a parse error, got {:?}", other),
    }
}
