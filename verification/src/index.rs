//! The inverted index adapter: wraps the black-box full-text engine,
//! accepting one document at a time (committed before returning) and
//! answering queries with ordered identifiers.
//!
//! The adapter owns the schema registry and decides, in verified code,
//! which metadata pairs of a document are indexed: exactly those whose key
//! is registered ([`project_metadata`], with an exact contract). The
//! index's own contents are modelled by the ghost sequence of entries
//! added through this adapter instance; what an opened index directory
//! already held is outside that model.

use vstd::prelude::*;

use crate::document::{pair_view, pairs_view, DocView, Document};
use crate::errors::EngineError;
use crate::fulltext;
use crate::fulltext::{hit_ids, SearchHits};
use crate::query;
use crate::query::rewrite_query_spec;
use crate::schema::{contains_name, SchemaRegistry};

verus! {

/// The mathematical value of one index entry: the indexed id, content,
/// and the metadata pairs that were searchable at the time of the add.
#[verifier::ext_equal]
pub struct EntryView {
    pub id: Seq<char>,
    pub content: Seq<char>,
    pub meta: Seq<(Seq<char>, Seq<char>)>,
}

/// The metadata pairs of a document whose keys are registered: the
/// searchable projection.
pub open spec fn project_pairs(
    meta: Seq<(Seq<char>, Seq<char>)>,
    reg: Seq<Seq<char>>,
) -> Seq<(Seq<char>, Seq<char>)>
    decreases meta.len(),
{
    if meta.len() == 0 {
        Seq::empty()
    } else {
        (if contains_name(reg, meta[0].0) {
            seq![meta[0]]
        } else {
            Seq::empty()
        }) + project_pairs(meta.drop_first(), reg)
    }
}

/// The index entry derived from a document under a registry: id and
/// content always, metadata under registered keys only.
pub open spec fn entry_of(d: DocView, reg: Seq<Seq<char>>) -> EntryView {
    EntryView { id: d.id, content: d.content, meta: project_pairs(d.metadata, reg) }
}

/// A pair is searchable exactly when it stands in the document and its key
/// is registered: registration gates what the index sees, and unregistered
/// keys are stored but not indexed.
pub proof fn lemma_projection_gates_search(
    meta: Seq<(Seq<char>, Seq<char>)>,
    reg: Seq<Seq<char>>,
    p: (Seq<char>, Seq<char>),
)
    ensures
        project_pairs(meta, reg).contains(p) <==> (meta.contains(p) && contains_name(reg, p.0)),
    decreases meta.len(),
{
    if meta.len() > 0 {
        lemma_projection_gates_search(meta.drop_first(), reg, p);
        let head: Seq<(Seq<char>, Seq<char>)> = if contains_name(reg, meta[0].0) {
            seq![meta[0]]
        } else {
            Seq::empty()
        };
        let rest = project_pairs(meta.drop_first(), reg);
        assert forall|q: (Seq<char>, Seq<char>)| (head + rest).contains(q) implies head.contains(q)
            || rest.contains(q) by {
            let k = choose|k: int| 0 <= k < (head + rest).len() && (head + rest)[k] == q;
            if k < head.len() {
                assert(head[k] == q);
            } else {
                assert(rest[k - head.len()] == q);
            }
        }
        if meta.contains(p) && contains_name(reg, p.0) {
            let k = choose|k: int| 0 <= k < meta.len() && meta[k] == p;
            if k == 0 {
                assert(head.contains(p)) by {
                    assert(head[0] == p);
                }
            } else {
                assert(meta.drop_first()[k - 1] == p);
                assert(meta.drop_first().contains(p));
            }
            assert((head + rest).contains(p)) by {
                if head.contains(p) {
                    let k2 = choose|k2: int| 0 <= k2 < head.len() && head[k2] == p;
                    assert((head + rest)[k2] == p);
                } else {
                    let k2 = choose|k2: int| 0 <= k2 < rest.len() && rest[k2] == p;
                    assert((head + rest)[head.len() + k2] == p);
                }
            }
        }
        if (head + rest).contains(p) {
            if head.contains(p) {
                assert(meta[0] == p);
                assert(meta.contains(p)) by {
                    assert(meta[0] == p);
                }
            } else if rest.contains(p) {
                let k = choose|k: int| 0 <= k < meta.drop_first().len() && meta.drop_first()[k]
                    == p;
                assert(meta[k + 1] == p);
                assert(meta.contains(p)) by {
                    assert(meta[k + 1] == p);
                }
            }
        }
    }
}

/// The projection over one more metadata pair appends that pair when its
/// key is registered.
proof fn lemma_project_pairs_take(
    meta: Seq<(Seq<char>, Seq<char>)>,
    reg: Seq<Seq<char>>,
    i: int,
)
    requires
        0 <= i < meta.len(),
    ensures
        project_pairs(meta.take(i + 1), reg) == project_pairs(meta.take(i), reg) + (
        if contains_name(reg, meta[i].0) {
            seq![meta[i]]
        } else {
            Seq::<(Seq<char>, Seq<char>)>::empty()
        }),
    decreases i,
{
    if i == 0 {
        assert(meta.take(1)[0] == meta[0]);
        assert(meta.take(1).drop_first() =~= Seq::<(Seq<char>, Seq<char>)>::empty());
        assert(meta.take(0) =~= Seq::<(Seq<char>, Seq<char>)>::empty());
        assert(project_pairs(meta.take(1), reg) =~= project_pairs(meta.take(0), reg) + (
        if contains_name(reg, meta[0].0) {
            seq![meta[0]]
        } else {
            Seq::<(Seq<char>, Seq<char>)>::empty()
        }));
    } else {
        lemma_project_pairs_take(meta.drop_first(), reg, i - 1);
        assert(meta.take(i + 1)[0] == meta[0]);
        assert(meta.take(i + 1).drop_first() =~= meta.drop_first().take(i));
        assert(meta.take(i)[0] == meta[0]);
        assert(meta.take(i).drop_first() =~= meta.drop_first().take(i - 1));
        assert(meta.drop_first()[i - 1] == meta[i]);
        assert(project_pairs(meta.take(i + 1), reg) =~= project_pairs(meta.take(i), reg) + (
        if contains_name(reg, meta[i].0) {
            seq![meta[i]]
        } else {
            Seq::<(Seq<char>, Seq<char>)>::empty()
        }));
    }
}

/// The metadata pairs of `doc` whose keys are registered, in document
/// order: exactly what the index is handed for this document.
pub fn project_metadata(doc: &Document, registry: &SchemaRegistry) -> (r: Vec<(String, String)>)
    ensures
        pairs_view(r@) == project_pairs(doc@.metadata, registry@),
{
    let mut projected: Vec<(String, String)> = Vec::new();
    let mut i: usize = 0;
    while i < doc.metadata.len()
        invariant
            i <= doc.metadata.len(),
            pairs_view(projected@) == project_pairs(doc@.metadata.take(i as int), registry@),
        decreases doc.metadata.len() - i,
    {
        let ghost pre = pairs_view(projected@);
        if registry.is_registered(&doc.metadata[i].0) {
            let pair = (doc.metadata[i].0.clone(), doc.metadata[i].1.clone());
            projected.push(pair);
            proof {
                assert(pairs_view(projected@) =~= pre.push(pair_view(doc.metadata@[i as int])));
            }
        }
        proof {
            lemma_project_pairs_take(doc@.metadata, registry@, i as int);
            assert(pairs_view(projected@) =~= project_pairs(
                doc@.metadata.take(i as int + 1),
                registry@,
            ));
        }
        i = i + 1;
    }
    proof {
        assert(doc@.metadata.take(doc@.metadata.len() as int) =~= doc@.metadata);
    }
    projected
}

/// The identifiers among a query's hits, in rank order: each hit that
/// stores an id keeps it, and hits without one are dropped.
pub open spec fn collect_hits(ids: Seq<Option<Seq<char>>>) -> Seq<Seq<char>>
    decreases ids.len(),
{
    if ids.len() == 0 {
        Seq::empty()
    } else {
        (match ids[0] {
            Some(s) => seq![s],
            None => Seq::<Seq<char>>::empty(),
        }) + collect_hits(ids.drop_first())
    }
}

/// Collecting keeps at most one id per hit.
pub proof fn lemma_collect_hits_len(ids: Seq<Option<Seq<char>>>)
    ensures
        collect_hits(ids).len() <= ids.len(),
    decreases ids.len(),
{
    if ids.len() > 0 {
        lemma_collect_hits_len(ids.drop_first());
    }
}

/// Collecting one more hit appends its id when it has one.
proof fn lemma_collect_hits_take(ids: Seq<Option<Seq<char>>>, i: int)
    requires
        0 <= i < ids.len(),
    ensures
        collect_hits(ids.take(i + 1)) == collect_hits(ids.take(i)) + (match ids[i] {
            Some(s) => seq![s],
            None => Seq::<Seq<char>>::empty(),
        }),
    decreases i,
{
    if i == 0 {
        assert(ids.take(1)[0] == ids[0]);
        assert(ids.take(1).drop_first() =~= Seq::<Option<Seq<char>>>::empty());
        assert(ids.take(0) =~= Seq::<Option<Seq<char>>>::empty());
        assert(collect_hits(ids.take(1)) =~= collect_hits(ids.take(0)) + (match ids[0] {
            Some(s) => seq![s],
            None => Seq::<Seq<char>>::empty(),
        }));
    } else {
        lemma_collect_hits_take(ids.drop_first(), i - 1);
        assert(ids.take(i + 1)[0] == ids[0]);
        assert(ids.take(i + 1).drop_first() =~= ids.drop_first().take(i));
        assert(ids.take(i)[0] == ids[0]);
        assert(ids.take(i).drop_first() =~= ids.drop_first().take(i - 1));
        assert(ids.drop_first()[i - 1] == ids[i]);
        assert(collect_hits(ids.take(i + 1)) =~= collect_hits(ids.take(i)) + (match ids[i] {
            Some(s) => seq![s],
            None => Seq::<Seq<char>>::empty(),
        }));
    }
}

/// Fetches the stored identifiers of a query's hits, in rank order,
/// dropping hits that store none: exactly [`collect_hits`] of the hits'
/// ids.
fn collect_hit_ids(hits: &SearchHits) -> (r: Result<Vec<String>, EngineError>)
    requires
        hit_ids(*hits).len() == hits.spec_len(),
    ensures
        r matches Ok(out) ==> out@.map_values(|s: String| s@) == collect_hits(hit_ids(*hits)),
        r matches Err(e) ==> e is Index,
{
    let n = hits.len();
    let mut out: Vec<String> = Vec::new();
    let mut k: usize = 0;
    while k < n
        invariant
            n == hits.spec_len(),
            hit_ids(*hits).len() == n,
            k <= n,
            out@.map_values(|s: String| s@) == collect_hits(hit_ids(*hits).take(k as int)),
        decreases n - k,
    {
        let ghost pre = out@.map_values(|s: String| s@);
        match fulltext::hit_stored_id(hits, k)? {
            Some(id) => {
                let ghost idv = id@;
                out.push(id);
                proof {
                    assert(out@.map_values(|s: String| s@) =~= pre.push(idv));
                }
            },
            None => (),
        }
        proof {
            lemma_collect_hits_take(hit_ids(*hits), k as int);
            assert(out@.map_values(|s: String| s@) =~= collect_hits(
                hit_ids(*hits).take(k as int + 1),
            ));
        }
        k = k + 1;
    }
    proof {
        assert(hit_ids(*hits).take(hit_ids(*hits).len() as int) =~= hit_ids(*hits));
    }
    Ok(out)
}

/// The adapter over one on-disk index.
pub struct SearchIndex {
    index: tantivy::Index,
    writer: tantivy::IndexWriter,
    registry: SchemaRegistry,
    entries: Ghost<Seq<EntryView>>,
}

impl SearchIndex {
    /// The registered metadata field names.
    pub closed spec fn spec_registry(&self) -> Seq<Seq<char>> {
        self.registry@
    }

    /// The entries added (and committed) through this adapter instance.
    pub closed spec fn spec_entries(&self) -> Seq<EntryView> {
        self.entries@
    }

    /// The adapter invariant: its registry is well formed.
    pub closed spec fn wf(&self) -> bool {
        self.registry.wf()
    }

    /// Opens the index stored at `index_path`, or creates one there with
    /// the base schema (`id`, `content`, and the metadata object). The
    /// directory must already exist, and an index created by an
    /// incompatible schema is refused: both are reported as index errors.
    pub fn new(index_path: &str) -> (r: Result<SearchIndex, EngineError>)
        ensures
            r matches Ok(ix) ==> ix.wf() && ix.spec_registry() =~= Seq::<Seq<char>>::empty()
                && ix.spec_entries() =~= Seq::<EntryView>::empty(),
            r matches Err(e) ==> e is Index,
    {
        let schema = fulltext::base_schema();
        let index = match fulltext::index_open_dir(index_path) {
            Ok(index) => index,
            Err(_) => fulltext::index_create_dir(index_path, schema)?,
        };
        let actual = fulltext::index_schema(&index);
        if fulltext::schema_field(&actual, "id").is_none() {
            return Err(EngineError::Index(String::from_str("index lacks the id field")));
        }
        if fulltext::schema_field(&actual, "content").is_none() {
            return Err(EngineError::Index(String::from_str("index lacks the content field")));
        }
        if fulltext::schema_field(&actual, "meta").is_none() {
            return Err(EngineError::Index(String::from_str("index lacks the meta field")));
        }
        let writer = fulltext::index_writer(&index)?;
        Ok(
            SearchIndex {
                index,
                writer,
                registry: SchemaRegistry::new(),
                entries: Ghost(Seq::empty()),
            },
        )
    }

    /// Indexes one document and commits before returning: the document's
    /// id and content always, and each metadata value whose key is
    /// currently registered; other metadata keys are silently skipped.
    /// On success the document is immediately queryable.
    pub fn add_document(&mut self, doc: &Document) -> (r: Result<(), EngineError>)
        requires
            old(self).wf(),
            doc.wf(),
        ensures
            final(self).wf(),
            final(self).spec_registry() == old(self).spec_registry(),
            r is Ok ==> final(self).spec_entries() == old(self).spec_entries().push(
                entry_of(doc@, old(self).spec_registry()),
            ),
            r is Err ==> final(self).spec_entries() == old(self).spec_entries()
                || final(self).spec_entries() == old(self).spec_entries().push(
                entry_of(doc@, old(self).spec_registry()),
            ),
            r matches Err(e) ==> e is Index,
    {
        let projected = project_metadata(doc, &self.registry);
        fulltext::writer_add_entry(
            &self.writer,
            doc.id.as_str(),
            doc.content.as_str(),
            &projected,
        )?;
        fulltext::writer_commit(&mut self.writer)?;
        proof {
            self.entries@ = self.entries@.push(entry_of(doc@, self.registry@));
        }
        Ok(())
    }

    /// Queries the content field alone: bare terms match content, and
    /// `field:value` clauses match reserved or registered fields. Returns
    /// the stored identifiers of at most ten matches, ranked by the
    /// engine. A query that rewrites to nothing matches nothing, without
    /// consulting the engine.
    pub fn search(&self, query_text: &str) -> (r: Result<Vec<String>, EngineError>)
        requires
            self.wf(),
        ensures
            r matches Ok(ids) ==> ids@.len() <= 10,
            r matches Ok(ids) ==> exists|hits: Seq<Option<Seq<char>>>|
                hits.len() <= 10 && ids@.map_values(|s: String| s@) == collect_hits(hits),
            rewrite_query_spec(query_text@, Seq::empty(), self.spec_registry()).len() == 0 ==> (
            r matches Ok(ids) && ids@.len() == 0),
            r matches Err(e) ==> e is Index || e is Parse,
    {
        let fields: Vec<String> = Vec::new();
        let r = self.search_with_metadata(query_text, &fields);
        proof {
            assert(fields@.map_values(|f: String| f@) =~= Seq::<Seq<char>>::empty());
        }
        r
    }

    /// Queries the content field and the requested registered metadata
    /// fields. The query is rewritten exactly as
    /// [`query::rewrite_query_spec`] describes before the engine sees it;
    /// a rewriting with no clauses left matches nothing without
    /// consulting the engine. On success the result is the in-order
    /// stored-id collection of at most ten ranked hits.
    pub fn search_with_metadata(&self, query_text: &str, fields: &Vec<String>) -> (r: Result<
        Vec<String>,
        EngineError,
    >)
        requires
            self.wf(),
        ensures
            r matches Ok(ids) ==> ids@.len() <= 10,
            r matches Ok(ids) ==> exists|hits: Seq<Option<Seq<char>>>|
                hits.len() <= 10 && ids@.map_values(|s: String| s@) == collect_hits(hits),
            rewrite_query_spec(
                query_text@,
                fields@.map_values(|f: String| f@),
                self.spec_registry(),
            ).len() == 0 ==> (r matches Ok(ids) && ids@.len() == 0),
            r matches Err(e) ==> e is Index || e is Parse,
    {
        let rewritten = query::rewrite_query(query_text, fields, &self.registry);
        if rewritten.as_str().unicode_len() == 0 {
            let empty_ids: Vec<String> = Vec::new();
            proof {
                let ghost w = Seq::<Option<Seq<char>>>::empty();
                assert(empty_ids@.map_values(|s: String| s@) =~= collect_hits(w));
            }
            return Ok(empty_ids);
        }
        let hits = fulltext::search_hits(&self.index, rewritten.as_str(), 10)?;
        let ids = collect_hit_ids(&hits)?;
        proof {
            lemma_collect_hits_len(hit_ids(hits));
        }
        Ok(ids)
    }

    /// Final commit. Adds after a close are not supported at the engine
    /// level; the engine constructs a fresh instance instead.
    pub fn close(&mut self) -> (r: Result<(), EngineError>)
        requires
            old(self).wf(),
        ensures
            final(self).wf(),
            final(self).spec_registry() == old(self).spec_registry(),
            final(self).spec_entries() == old(self).spec_entries(),
            r matches Err(e) ==> e is Index,
    {
        fulltext::writer_commit(&mut self.writer)?;
        Ok(())
    }

    /// Registers a metadata field name, making its values searchable in
    /// documents added afterwards. Idempotent for an existing field; a
    /// reserved name is refused. Nothing already indexed is reindexed.
    pub fn add_metadata_field(&mut self, field_name: &String) -> (r: Result<(), EngineError>)
        requires
            old(self).wf(),
        ensures
            final(self).wf(),
            final(self).spec_entries() == old(self).spec_entries(),
            r matches Err(e) ==> e == EngineError::Schema(crate::errors::SchemaError::Conflict)
                && crate::schema::is_reserved(field_name@)
                && final(self).spec_registry() == old(self).spec_registry(),
            r is Ok <==> !crate::schema::is_reserved(field_name@),
            r is Ok ==> contains_name(final(self).spec_registry(), field_name@),
            r is Ok && contains_name(old(self).spec_registry(), field_name@)
                ==> final(self).spec_registry() == old(self).spec_registry(),
            r is Ok && !contains_name(old(self).spec_registry(), field_name@)
                ==> final(self).spec_registry() =~= old(self).spec_registry().push(field_name@),
    {
        match self.registry.register_field(field_name) {
            Ok(()) => Ok(()),
            Err(e) => Err(EngineError::Schema(e)),
        }
    }

    /// Commits any pending index state; the schema itself is fixed at
    /// creation and registration is handled by the registry alone.
    pub fn update_schema(&mut self) -> (r: Result<(), EngineError>)
        requires
            old(self).wf(),
        ensures
            final(self).wf(),
            final(self).spec_registry() == old(self).spec_registry(),
            final(self).spec_entries() == old(self).spec_entries(),
            r matches Err(e) ==> e is Index,
    {
        fulltext::writer_commit(&mut self.writer)?;
        Ok(())
    }
}

} // verus!
