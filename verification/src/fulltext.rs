//! The trusted boundary to the tantivy full-text engine and its on-disk
//! directories.
//!
//! Each function here makes one call (or one fixed pipeline of calls) into
//! tantivy and converts its arguments and result; nothing else stands in
//! the bodies. Field handles never cross this boundary paired with a
//! foreign index: every wrapper resolves the handles it needs from the
//! index (or searcher) it is given, and a search's result addresses stay
//! locked to their searcher inside [`SearchHits`], whose fields no caller
//! can reach. Everything the engine decides — which metadata pairs a
//! document is indexed under, how a query is rewritten, how returned
//! identifiers are joined against the store — is verified code in the
//! other modules.

use vstd::prelude::*;

use tantivy::directory::Directory;

use crate::errors::{EngineError, StorageError};

verus! {

#[verifier::external_type_specification]
#[verifier::external_body]
pub struct ExIndex(tantivy::Index);

#[verifier::external_type_specification]
#[verifier::external_body]
pub struct ExIndexWriter(tantivy::IndexWriter);

#[verifier::external_type_specification]
#[verifier::external_body]
pub struct ExSchema(tantivy::schema::Schema);

#[verifier::external_type_specification]
#[verifier::external_body]
pub struct ExField(tantivy::schema::Field);

#[verifier::external_type_specification]
#[verifier::external_body]
pub struct ExSearcher(tantivy::Searcher);

#[verifier::external_type_specification]
#[verifier::external_body]
pub struct ExDocAddress(tantivy::DocAddress);

#[verifier::external_type_specification]
#[verifier::external_body]
pub struct ExMmapDirectory(tantivy::directory::MmapDirectory);

/// The hits of one evaluated query: the searcher that produced them and
/// the addresses of the matches, in rank order. The fields are private,
/// so an address can never be paired with a foreign searcher.
pub struct SearchHits {
    searcher: tantivy::Searcher,
    addresses: Vec<tantivy::DocAddress>,
}

/// The stored `id` text of each hit, in rank order: a function of the
/// hits value alone (the searcher is a fixed snapshot of the index).
/// `None` stands for a hit that stores no id text.
pub uninterp spec fn hit_ids(hits: SearchHits) -> Seq<Option<Seq<char>>>;

impl SearchHits {
    /// How many hits the query produced.
    pub closed spec fn spec_len(&self) -> nat {
        self.addresses@.len()
    }

    /// How many hits the query produced.
    pub fn len(&self) -> (n: usize)
        ensures
            n == self.spec_len(),
    {
        self.addresses.len()
    }
}

/// Relies on tantivy's `SchemaBuilder`: builds the fixed base schema with
/// the text fields `id` and `content` and the json object field `meta`,
/// all indexed and stored.
#[verifier::external_body]
pub(crate) fn base_schema() -> tantivy::schema::Schema {
    let mut builder = tantivy::schema::Schema::builder();
    builder.add_text_field("id", tantivy::schema::TEXT | tantivy::schema::STORED);
    builder.add_text_field("content", tantivy::schema::TEXT | tantivy::schema::STORED);
    builder.add_json_field("meta", tantivy::schema::TEXT | tantivy::schema::STORED);
    builder.build()
}

/// Relies on `tantivy::Index::open_in_dir`: opens the index stored in an
/// existing directory.
#[verifier::external_body]
pub(crate) fn index_open_dir(path: &str) -> Result<tantivy::Index, EngineError> {
    tantivy::Index::open_in_dir(path).map_err(|e| EngineError::Index(format!("{}", e)))
}

/// Relies on `tantivy::Index::create_in_dir`: creates a fresh index with
/// the given schema in an existing directory, and reports any failure as
/// an index error.
#[verifier::external_body]
pub(crate) fn index_create_dir(path: &str, schema: tantivy::schema::Schema) -> (r: Result<
    tantivy::Index,
    EngineError,
>)
    ensures
        r matches Err(e) ==> e is Index,
{
    tantivy::Index::create_in_dir(path, schema).map_err(|e| EngineError::Index(format!("{}", e)))
}

/// Relies on `tantivy::Index::schema`: the schema the opened index was
/// created with.
#[verifier::external_body]
pub(crate) fn index_schema(index: &tantivy::Index) -> tantivy::schema::Schema {
    index.schema()
}

/// Relies on `tantivy::schema::Schema::get_field`: the handle of the field
/// with the given name, if the schema has one.
#[verifier::external_body]
pub(crate) fn schema_field(schema: &tantivy::schema::Schema, name: &str) -> Option<
    tantivy::schema::Field,
> {
    schema.get_field(name)
}

/// Relies on `tantivy::Index::writer`: the single writer handle, with the
/// memory budget the engine always uses; any failure is an index error.
#[verifier::external_body]
pub(crate) fn index_writer(index: &tantivy::Index) -> (r: Result<tantivy::IndexWriter, EngineError>)
    ensures
        r matches Err(e) ==> e is Index,
{
    index.writer(50_000_000).map_err(|e| EngineError::Index(format!("{}", e)))
}

/// Relies on `tantivy::Document` construction (`new`, `add_text`,
/// `add_json_object`) and `tantivy::IndexWriter::add_document`: builds an
/// index entry holding the given id, content, and the given metadata
/// pairs as a json object, and queues it for the next commit. The field
/// handles are resolved from the writer's own index; the pairs are
/// converted one for one.
#[verifier::external_body]
pub(crate) fn writer_add_entry(
    writer: &tantivy::IndexWriter,
    id: &str,
    content: &str,
    meta_pairs: &Vec<(String, String)>,
) -> (r: Result<u64, EngineError>)
    ensures
        r matches Err(e) ==> e is Index,
{
    let schema = writer.index().schema();
    let field = |name: &str|
        schema.get_field(name).ok_or_else(|| EngineError::Index(format!("missing {} field", name)));
    let object: serde_json::Map<String, serde_json::Value> = meta_pairs
        .iter()
        .map(|pair| (pair.0.clone(), serde_json::Value::String(pair.1.clone())))
        .collect();
    let mut entry = tantivy::Document::new();
    entry.add_text(field("id")?, id);
    entry.add_text(field("content")?, content);
    entry.add_json_object(field("meta")?, object);
    writer.add_document(entry).map_err(|e| EngineError::Index(format!("{}", e)))
}

/// Relies on `tantivy::IndexWriter::commit`: makes all queued documents
/// durable and visible to fresh searchers.
#[verifier::external_body]
pub(crate) fn writer_commit(writer: &mut tantivy::IndexWriter) -> (r: Result<u64, EngineError>)
    ensures
        r matches Err(e) ==> e is Index,
{
    writer.commit().map_err(|e| EngineError::Index(format!("{}", e)))
}

/// Relies on `tantivy::Index::reader`, `IndexReader::searcher`,
/// `QueryParser::parse_query` and `Searcher::search` with a `TopDocs`
/// collector: parses the (already rewritten) query against the index's
/// own content field, evaluates it over a fresh searcher, and hands back
/// that searcher with the addresses of at most `limit` matches, ranked by
/// the engine. A query parser failure comes back as a parse error, any
/// other failure as an index error.
#[verifier::external_body]
pub(crate) fn search_hits(index: &tantivy::Index, text: &str, limit: usize) -> (r: Result<
    SearchHits,
    EngineError,
>)
    requires
        limit > 0,
    ensures
        r matches Ok(hits) ==> hits.spec_len() <= limit && hit_ids(hits).len() == hits.spec_len(),
        r matches Err(e) ==> e is Index || e is Parse,
{
    let field = index
        .schema()
        .get_field("content")
        .ok_or_else(|| EngineError::Index(String::from("missing content field")))?;
    let searcher = index.reader().map_err(|e| EngineError::Index(format!("{}", e)))?.searcher();
    let parser = tantivy::query::QueryParser::for_index(index, vec![field]);
    let query = parser.parse_query(text).map_err(|e| EngineError::Parse(format!("{}", e)))?;
    let top = searcher
        .search(&query, &tantivy::collector::TopDocs::with_limit(limit))
        .map_err(|e| EngineError::Index(format!("{}", e)))?;
    let addresses = top.into_iter().map(|scored| scored.1).collect();
    Ok(SearchHits { searcher, addresses })
}

/// Relies on `tantivy::Searcher::doc`, `Document::get_first` and
/// `Value::as_text`: the stored `id` text of hit `k`, resolved against
/// the searcher's own schema. The address comes from the same searcher by
/// construction, so the lookup cannot go out of bounds.
#[verifier::external_body]
pub(crate) fn hit_stored_id(hits: &SearchHits, k: usize) -> (r: Result<Option<String>, EngineError>)
    requires
        k < hits.spec_len(),
    ensures
        r matches Ok(stored) ==> match stored {
            Some(s) => hit_ids(*hits)[k as int] == Some(s@),
            None => hit_ids(*hits)[k as int] is None,
        },
        r matches Err(e) ==> e is Index,
{
    let field = match hits.searcher.schema().get_field("id") {
        Some(field) => field,
        None => {
            return Ok(None);
        },
    };
    let doc = hits.searcher.doc(hits.addresses[k]).map_err(
        |e| EngineError::Index(format!("{}", e)),
    )?;
    Ok(doc.get_first(field).and_then(|value| value.as_text()).map(|text| text.to_string()))
}

/// Relies on `tantivy::directory::MmapDirectory::open`: a handle on an
/// existing directory.
#[verifier::external_body]
pub(crate) fn dir_open(path: &str) -> Result<tantivy::directory::MmapDirectory, StorageError> {
    tantivy::directory::MmapDirectory::open(path).map_err(
        |e| StorageError { message: format!("{}", e) },
    )
}

/// Relies on `Directory::atomic_read` on an `MmapDirectory`: the full
/// contents of the named file, `None` when the file does not exist.
#[verifier::external_body]
pub(crate) fn dir_read(dir: &tantivy::directory::MmapDirectory, name: &str) -> Result<
    Option<Vec<u8>>,
    StorageError,
> {
    match dir.atomic_read(std::path::Path::new(name)) {
        Ok(bytes) => Ok(Some(bytes)),
        Err(tantivy::directory::error::OpenReadError::FileDoesNotExist(_)) => Ok(None),
        Err(e) => Err(StorageError { message: format!("{}", e) }),
    }
}

/// Relies on `Directory::atomic_write` on an `MmapDirectory`: replaces the
/// named file's contents in one atomic step.
#[verifier::external_body]
pub(crate) fn dir_write(
    dir: &tantivy::directory::MmapDirectory,
    name: &str,
    bytes: &Vec<u8>,
) -> Result<(), StorageError> {
    dir.atomic_write(std::path::Path::new(name), bytes.as_slice()).map_err(
        |e| StorageError { message: format!("{}", e) },
    )
}

} // verus!
