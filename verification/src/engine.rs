//! The search engine orchestrator: owns the schema registry, the inverted
//! index adapter and the document store, and keeps the two stores in step.
//!
//! Ordering contract of `add_document`: the document is indexed and
//! committed first, then inserted into the store, then the full store is
//! snapshotted. If indexing fails the store is untouched; if indexing
//! succeeds and the snapshot fails, the store holds the document and the
//! error is surfaced. The invariant carried by every operation says that
//! each stored document was either already present when the engine was
//! constructed or has a matching committed index entry: the index covers
//! everything added through this engine.

use vstd::prelude::*;

use crate::config::StorageConfig;
use crate::document::{DocView, Document};
use crate::errors::EngineError;
use crate::index::{entry_of, EntryView, SearchIndex};
use crate::persist;
use crate::query::rewrite_query_spec;
use crate::store::{spec_get, spec_insert, unique_ids, DocumentStore};

verus! {

/// The engine's lifecycle: operations are valid in `Ready` alone, and
/// `Closed` is terminal.
pub enum EngineState {
    Ready,
    Closed,
}

/// The orchestrator over one snapshot file and one index directory.
pub struct SearchEngine {
    state: EngineState,
    store: DocumentStore,
    search_index: SearchIndex,
    data_file: String,
    loaded: Ghost<Seq<DocView>>,
}

impl SearchEngine {
    /// The engine's lifecycle state.
    pub closed spec fn spec_state(&self) -> EngineState {
        self.state
    }

    /// The document store's contents, in insertion order.
    pub closed spec fn spec_store(&self) -> Seq<DocView> {
        self.store@
    }

    /// The registered metadata field names.
    pub closed spec fn spec_registry(&self) -> Seq<Seq<char>> {
        self.search_index.spec_registry()
    }

    /// The index entries committed through this engine instance.
    pub closed spec fn spec_entries(&self) -> Seq<EntryView> {
        self.search_index.spec_entries()
    }

    /// The store contents restored from the snapshot at construction.
    pub closed spec fn spec_loaded(&self) -> Seq<DocView> {
        self.loaded@
    }

    /// The dual-store consistency statement: every stored document was
    /// either loaded from the snapshot at construction, or carries a
    /// committed index entry with its id and content.
    pub open spec fn covered(&self) -> bool {
        forall|i: int|
            0 <= i < self.spec_store().len() ==> spec_get(
                self.spec_loaded(),
                self.spec_store()[i].id,
            ) == Some(self.spec_store()[i]) || exists|j: int|
                0 <= j < self.spec_entries().len() && self.spec_entries()[j].id
                    == self.spec_store()[i].id && self.spec_entries()[j].content
                    == self.spec_store()[i].content
    }

    /// The engine invariant: the store's ids are unique, the registry is
    /// well formed, and the index covers the store.
    pub closed spec fn wf(&self) -> bool {
        &&& self.store.wf()
        &&& self.search_index.wf()
        &&& self.covered()
    }

    /// Constructs an engine against the given storage configuration:
    /// restores the document store from the snapshot (starting empty when
    /// it is missing or unreadable), opens or creates the index, and
    /// enters `Ready`. Fails only if index construction fails.
    pub fn new(config: &StorageConfig) -> (r: Result<SearchEngine, EngineError>)
        ensures
            r matches Ok(e) ==> e.wf() && e.spec_state() is Ready && e.spec_registry()
                =~= Seq::<Seq<char>>::empty() && e.spec_loaded() == e.spec_store() && unique_ids(
                e.spec_store(),
            ),
            r matches Err(e) ==> e is Index,
    {
        let store = persist::load_documents(config.data_file.as_str());
        let search_index = SearchIndex::new(config.index_path.as_str())?;
        let engine = SearchEngine {
            state: EngineState::Ready,
            loaded: Ghost(store@),
            store,
            search_index,
            data_file: config.data_file.clone(),
        };
        proof {
            assert forall|i: int| 0 <= i < engine.spec_store().len() implies spec_get(
                engine.spec_loaded(),
                engine.spec_store()[i].id,
            ) == Some(engine.spec_store()[i]) || exists|j: int|
                0 <= j < engine.spec_entries().len() && engine.spec_entries()[j].id
                    == engine.spec_store()[i].id && engine.spec_entries()[j].content
                    == engine.spec_store()[i].content by {
                crate::store::lemma_spec_get_position(engine.spec_loaded(), engine.spec_store()[i].id);
            }
        }
        Ok(engine)
    }

    /// Whether the store holds no documents.
    pub fn is_empty(&self) -> (r: bool)
        ensures
            r == (self.spec_store().len() == 0),
    {
        self.store.is_empty()
    }

    /// Exact lookup in the document store by identifier.
    pub fn get_document(&self, id: &String) -> (r: Option<&Document>)
        requires
            self.wf(),
        ensures
            match r {
                Some(d) => spec_get(self.spec_store(), id@) == Some(d@),
                None => spec_get(self.spec_store(), id@) is None,
            },
    {
        self.store.get(id)
    }

    /// Adds one document: indexes and commits it first, then inserts it
    /// into the store (replacing any document under the same id), then
    /// snapshots the whole store. An `Index` error leaves the store
    /// untouched; an `Io` error means the index and the in-memory store
    /// hold the document but the snapshot may not.
    pub fn add_document(&mut self, doc: Document) -> (r: Result<(), EngineError>)
        requires
            old(self).wf(),
            doc.wf(),
        ensures
            final(self).wf(),
            final(self).spec_state() == old(self).spec_state(),
            final(self).spec_loaded() == old(self).spec_loaded(),
            final(self).spec_registry() == old(self).spec_registry(),
            old(self).spec_state() is Closed ==> (r matches Err(EngineError::InvalidState))
                && final(self).spec_store() == old(self).spec_store() && final(self).spec_entries()
                == old(self).spec_entries(),
            r is Ok ==> final(self).spec_store() == spec_insert(old(self).spec_store(), doc@)
                && final(self).spec_entries() == old(self).spec_entries().push(
                entry_of(doc@, old(self).spec_registry()),
            ),
            r matches Err(e) ==> e is InvalidState || e is Index || e is Io,
            old(self).spec_state() is Ready ==> !(r matches Err(EngineError::InvalidState)),
            r matches Err(e) && e is Index ==> final(self).spec_store() == old(self).spec_store(),
            r matches Err(e) && e is Io ==> final(self).spec_store() == spec_insert(
                old(self).spec_store(),
                doc@,
            ) && final(self).spec_entries() == old(self).spec_entries().push(
                entry_of(doc@, old(self).spec_registry()),
            ),
    {
        match self.state {
            EngineState::Closed => {
                return Err(EngineError::InvalidState);
            },
            EngineState::Ready => (),
        }
        let ghost pre0 = *self;
        match self.search_index.add_document(&doc) {
            Ok(()) => {
                proof {
                    lemma_covered_entries_grow(pre0, *self);
                }
            },
            Err(e) => {
                proof {
                    lemma_covered_entries_grow(pre0, *self);
                }
                return Err(e);
            },
        }
        let ghost mid = *self;
        self.store.insert(doc);
        proof {
            lemma_covered_after_insert(mid, *self, doc@);
        }
        match persist::save_documents(self.store.snapshot(), self.data_file.as_str()) {
            Ok(()) => Ok(()),
            Err(e) => Err(e),
        }
    }

    /// Searches the content field: resolves at most ten ranked matches
    /// from the index and joins them against the store, silently dropping
    /// identifiers the store cannot resolve. The result is the store-join
    /// of the index's id sequence: every returned document is exactly the
    /// stored document under its id. A query that rewrites to nothing
    /// succeeds with no results.
    pub fn search(&self, query_text: &str) -> (r: Result<Vec<Document>, EngineError>)
        requires
            self.wf(),
        ensures
            self.spec_state() is Closed ==> r matches Err(EngineError::InvalidState),
            self.spec_state() is Ready ==> !(r matches Err(EngineError::InvalidState)),
            r matches Ok(out) ==> out@.len() <= 10 && forall|i: int|
                0 <= i < out@.len() ==> spec_get(self.spec_store(), out@[i]@.id) == Some(out@[i]@),
            r matches Ok(out) ==> exists|ids: Seq<Seq<char>>|
                ids.len() <= 10 && out@.map_values(|d: Document| d@) == join_view(
                    self.spec_store(),
                    ids,
                ),
            self.spec_state() is Ready && rewrite_query_spec(
                query_text@,
                Seq::empty(),
                self.spec_registry(),
            ).len() == 0 ==> (r matches Ok(out) && out@.len() == 0),
            r matches Err(e) ==> e is InvalidState || e is Index || e is Parse,
    {
        match self.state {
            EngineState::Closed => {
                return Err(EngineError::InvalidState);
            },
            EngineState::Ready => (),
        }
        let ids = self.search_index.search(query_text)?;
        let out = join_ids(&self.store, &ids);
        proof {
            let idsv = ids@.map_values(|s: String| s@);
            assert(out@.map_values(|d: Document| d@) == join_view(self.spec_store(), idsv));
        }
        Ok(out)
    }

    /// Like [`SearchEngine::search`], with an explicit set of requested
    /// metadata fields: bare terms also match those of the requested
    /// fields that are registered.
    pub fn search_with_metadata(&self, query_text: &str, fields: &Vec<String>) -> (r: Result<
        Vec<Document>,
        EngineError,
    >)
        requires
            self.wf(),
        ensures
            self.spec_state() is Closed ==> r matches Err(EngineError::InvalidState),
            self.spec_state() is Ready ==> !(r matches Err(EngineError::InvalidState)),
            r matches Ok(out) ==> out@.len() <= 10 && forall|i: int|
                0 <= i < out@.len() ==> spec_get(self.spec_store(), out@[i]@.id) == Some(out@[i]@),
            r matches Ok(out) ==> exists|ids: Seq<Seq<char>>|
                ids.len() <= 10 && out@.map_values(|d: Document| d@) == join_view(
                    self.spec_store(),
                    ids,
                ),
            self.spec_state() is Ready && rewrite_query_spec(
                query_text@,
                fields@.map_values(|f: String| f@),
                self.spec_registry(),
            ).len() == 0 ==> (r matches Ok(out) && out@.len() == 0),
            r matches Err(e) ==> e is InvalidState || e is Index || e is Parse,
    {
        match self.state {
            EngineState::Closed => {
                return Err(EngineError::InvalidState);
            },
            EngineState::Ready => (),
        }
        let ids = self.search_index.search_with_metadata(query_text, fields)?;
        let out = join_ids(&self.store, &ids);
        proof {
            let idsv = ids@.map_values(|s: String| s@);
            assert(out@.map_values(|d: Document| d@) == join_view(self.spec_store(), idsv));
        }
        Ok(out)
    }

    /// Registers a metadata field name, making its values searchable in
    /// documents added afterwards; already-indexed documents are not
    /// reindexed. Idempotent for an existing field; a reserved name
    /// (`id`, `content`) is refused with a schema conflict.
    pub fn add_metadata_field(&mut self, field_name: &String) -> (r: Result<(), EngineError>)
        requires
            old(self).wf(),
        ensures
            final(self).wf(),
            final(self).spec_state() == old(self).spec_state(),
            final(self).spec_store() == old(self).spec_store(),
            final(self).spec_entries() == old(self).spec_entries(),
            final(self).spec_loaded() == old(self).spec_loaded(),
            old(self).spec_state() is Closed ==> (r matches Err(EngineError::InvalidState))
                && final(self).spec_registry() == old(self).spec_registry(),
            old(self).spec_state() is Ready ==> {
                &&& (r is Ok <==> !crate::schema::is_reserved(field_name@))
                &&& (r matches Err(e) ==> e == EngineError::Schema(
                    crate::errors::SchemaError::Conflict,
                ) && final(self).spec_registry() == old(self).spec_registry())
                &&& (r is Ok ==> crate::schema::contains_name(
                    final(self).spec_registry(),
                    field_name@,
                ))
                &&& (r is Ok && crate::schema::contains_name(old(self).spec_registry(), field_name@)
                    ==> final(self).spec_registry() == old(self).spec_registry())
                &&& (r is Ok && !crate::schema::contains_name(
                    old(self).spec_registry(),
                    field_name@,
                ) ==> final(self).spec_registry() =~= old(self).spec_registry().push(field_name@))
            },
    {
        match self.state {
            EngineState::Closed => {
                return Err(EngineError::InvalidState);
            },
            EngineState::Ready => (),
        }
        let ghost pre = *self;
        let outcome = self.search_index.add_metadata_field(field_name);
        proof {
            lemma_covered_same(pre, *self);
        }
        outcome
    }

    /// Commits any pending index state; the registry itself needs no
    /// index-side update.
    pub fn update_index_schema(&mut self) -> (r: Result<(), EngineError>)
        requires
            old(self).wf(),
        ensures
            final(self).wf(),
            final(self).spec_state() == old(self).spec_state(),
            final(self).spec_store() == old(self).spec_store(),
            final(self).spec_entries() == old(self).spec_entries(),
            final(self).spec_registry() == old(self).spec_registry(),
            final(self).spec_loaded() == old(self).spec_loaded(),
            old(self).spec_state() is Closed ==> r matches Err(EngineError::InvalidState),
            old(self).spec_state() is Ready ==> !(r matches Err(EngineError::InvalidState)),
            r matches Err(e) ==> e is InvalidState || e is Index,
    {
        match self.state {
            EngineState::Closed => {
                return Err(EngineError::InvalidState);
            },
            EngineState::Ready => (),
        }
        let ghost pre = *self;
        let outcome = self.search_index.update_schema();
        proof {
            lemma_covered_same(pre, *self);
        }
        outcome
    }

    /// Flushes the index and transitions to `Closed`, which is terminal:
    /// every later operation reports an invalid state. On a commit
    /// failure the engine stays `Ready`.
    pub fn close(&mut self) -> (r: Result<(), EngineError>)
        requires
            old(self).wf(),
        ensures
            final(self).wf(),
            final(self).spec_store() == old(self).spec_store(),
            final(self).spec_entries() == old(self).spec_entries(),
            final(self).spec_registry() == old(self).spec_registry(),
            final(self).spec_loaded() == old(self).spec_loaded(),
            old(self).spec_state() is Closed ==> (r matches Err(EngineError::InvalidState))
                && final(self).spec_state() is Closed,
            old(self).spec_state() is Ready && r is Ok ==> final(self).spec_state() is Closed,
            old(self).spec_state() is Ready && r is Err ==> final(self).spec_state() is Ready,
            old(self).spec_state() is Ready ==> !(r matches Err(EngineError::InvalidState)),
            r matches Err(e) ==> e is InvalidState || e is Index,
    {
        match self.state {
            EngineState::Closed => {
                return Err(EngineError::InvalidState);
            },
            EngineState::Ready => (),
        }
        let ghost pre = *self;
        let outcome = self.search_index.close();
        proof {
            lemma_covered_same(pre, *self);
        }
        match outcome {
            Ok(()) => {
                let ghost mid = *self;
                self.state = EngineState::Closed;
                proof {
                    lemma_covered_same(mid, *self);
                }
                Ok(())
            },
            Err(e) => Err(e),
        }
    }
}

/// The store-join of an identifier sequence: for each id in order, the
/// stored document under that id, with unresolvable ids dropped.
pub open spec fn join_view(store: Seq<DocView>, ids: Seq<Seq<char>>) -> Seq<DocView>
    decreases ids.len(),
{
    if ids.len() == 0 {
        Seq::empty()
    } else {
        (match spec_get(store, ids[0]) {
            Some(d) => seq![d],
            None => Seq::<DocView>::empty(),
        }) + join_view(store, ids.drop_first())
    }
}

/// Joining one more identifier appends its stored document when the store
/// resolves it.
proof fn lemma_join_view_take(store: Seq<DocView>, ids: Seq<Seq<char>>, i: int)
    requires
        0 <= i < ids.len(),
    ensures
        join_view(store, ids.take(i + 1)) == join_view(store, ids.take(i)) + (
        match spec_get(store, ids[i]) {
            Some(d) => seq![d],
            None => Seq::<DocView>::empty(),
        }),
    decreases i,
{
    if i == 0 {
        assert(ids.take(1)[0] == ids[0]);
        assert(ids.take(1).drop_first() =~= Seq::<Seq<char>>::empty());
        assert(ids.take(0) =~= Seq::<Seq<char>>::empty());
        assert(join_view(store, ids.take(1)) =~= join_view(store, ids.take(0)) + (
        match spec_get(store, ids[0]) {
            Some(d) => seq![d],
            None => Seq::<DocView>::empty(),
        }));
    } else {
        lemma_join_view_take(store, ids.drop_first(), i - 1);
        assert(ids.take(i + 1)[0] == ids[0]);
        assert(ids.take(i + 1).drop_first() =~= ids.drop_first().take(i));
        assert(ids.take(i)[0] == ids[0]);
        assert(ids.take(i).drop_first() =~= ids.drop_first().take(i - 1));
        assert(ids.drop_first()[i - 1] == ids[i]);
        assert(join_view(store, ids.take(i + 1)) =~= join_view(store, ids.take(i)) + (
        match spec_get(store, ids[i]) {
            Some(d) => seq![d],
            None => Seq::<DocView>::empty(),
        }));
    }
}

/// Resolves each identifier against the store, dropping those the store
/// cannot resolve: the join step of a search. The result is exactly
/// [`join_view`] of the identifiers over the store.
fn join_ids(store: &DocumentStore, ids: &Vec<String>) -> (out: Vec<Document>)
    requires
        store.wf(),
    ensures
        out@.len() <= ids@.len(),
        out@.map_values(|d: Document| d@) == join_view(store@, ids@.map_values(|s: String| s@)),
        forall|i: int| 0 <= i < out@.len() ==> spec_get(store@, out@[i]@.id) == Some(out@[i]@),
{
    let ghost idsv = ids@.map_values(|s: String| s@);
    let mut out: Vec<Document> = Vec::new();
    let mut k: usize = 0;
    while k < ids.len()
        invariant
            store.wf(),
            idsv == ids@.map_values(|s: String| s@),
            k <= ids@.len(),
            out@.len() <= k,
            out@.map_values(|d: Document| d@) == join_view(store@, idsv.take(k as int)),
            forall|i: int| 0 <= i < out@.len() ==> spec_get(store@, out@[i]@.id) == Some(
                out@[i]@,
            ),
        decreases ids@.len() - k,
    {
        let ghost pre = out@.map_values(|d: Document| d@);
        match store.get(&ids[k]) {
            Some(d) => {
                proof {
                    crate::store::lemma_spec_get_position(store@, ids@[k as int]@);
                }
                out.push(d.clone());
                proof {
                    assert(out@.map_values(|d2: Document| d2@) =~= pre.push(d@));
                }
            },
            None => (),
        }
        proof {
            lemma_join_view_take(store@, idsv, k as int);
            assert(out@.map_values(|d2: Document| d2@) =~= join_view(
                store@,
                idsv.take(k as int + 1),
            ));
        }
        k = k + 1;
    }
    proof {
        assert(idsv.take(idsv.len() as int) =~= idsv);
    }
    out
}

/// Coverage depends only on the store, the loaded snapshot and the
/// entries: it transfers between engine values that agree on those.
proof fn lemma_covered_same(pre: SearchEngine, post: SearchEngine)
    requires
        pre.covered(),
        post.spec_store() == pre.spec_store(),
        post.spec_loaded() == pre.spec_loaded(),
        post.spec_entries() == pre.spec_entries(),
    ensures
        post.covered(),
{
    assert forall|i: int| 0 <= i < post.spec_store().len() implies spec_get(
        post.spec_loaded(),
        post.spec_store()[i].id,
    ) == Some(post.spec_store()[i]) || exists|j: int|
        0 <= j < post.spec_entries().len() && post.spec_entries()[j].id == post.spec_store()[i].id
            && post.spec_entries()[j].content == post.spec_store()[i].content by {
        if spec_get(pre.spec_loaded(), pre.spec_store()[i].id) == Some(pre.spec_store()[i]) {
        } else {
            let j = choose|j: int|
                0 <= j < pre.spec_entries().len() && pre.spec_entries()[j].id
                    == pre.spec_store()[i].id && pre.spec_entries()[j].content
                    == pre.spec_store()[i].content;
            assert(post.spec_entries()[j] == pre.spec_entries()[j]);
        }
    }
}

/// Growing the entry sequence preserves coverage: pushing an entry keeps
/// every witness that stood before.
proof fn lemma_covered_entries_grow(pre: SearchEngine, post: SearchEngine)
    requires
        pre.covered(),
        post.spec_store() == pre.spec_store(),
        post.spec_loaded() == pre.spec_loaded(),
        post.spec_entries() == pre.spec_entries() || post.spec_entries() == pre.spec_entries().push(
            post.spec_entries().last(),
        ),
    ensures
        post.covered(),
{
    assert forall|i: int| 0 <= i < post.spec_store().len() implies spec_get(
        post.spec_loaded(),
        post.spec_store()[i].id,
    ) == Some(post.spec_store()[i]) || exists|j: int|
        0 <= j < post.spec_entries().len() && post.spec_entries()[j].id == post.spec_store()[i].id
            && post.spec_entries()[j].content == post.spec_store()[i].content by {
        if spec_get(pre.spec_loaded(), pre.spec_store()[i].id) == Some(pre.spec_store()[i]) {
        } else {
            let j = choose|j: int|
                0 <= j < pre.spec_entries().len() && pre.spec_entries()[j].id
                    == pre.spec_store()[i].id && pre.spec_entries()[j].content
                    == pre.spec_store()[i].content;
            assert(post.spec_entries()[j] == pre.spec_entries()[j]);
        }
    }
}

/// Inserting a document whose entry was just pushed preserves coverage.
proof fn lemma_covered_after_insert(mid: SearchEngine, post: SearchEngine, doc: DocView)
    requires
        mid.covered(),
        unique_ids(mid.spec_store()),
        post.spec_store() == spec_insert(mid.spec_store(), doc),
        post.spec_loaded() == mid.spec_loaded(),
        post.spec_entries() == mid.spec_entries(),
        post.spec_entries().len() > 0,
        post.spec_entries().last().id == doc.id,
        post.spec_entries().last().content == doc.content,
    ensures
        post.covered(),
{
    assert forall|i: int| 0 <= i < post.spec_store().len() implies spec_get(
        post.spec_loaded(),
        post.spec_store()[i].id,
    ) == Some(post.spec_store()[i]) || exists|j: int|
        0 <= j < post.spec_entries().len() && post.spec_entries()[j].id == post.spec_store()[i].id
            && post.spec_entries()[j].content == post.spec_store()[i].content by {
        crate::store::lemma_insert_members(mid.spec_store(), doc, i);
        if post.spec_store()[i] == doc {
            let last = post.spec_entries().len() - 1;
            assert(post.spec_entries()[last].id == post.spec_store()[i].id);
            assert(post.spec_entries()[last].content == post.spec_store()[i].content);
        } else {
            let k = choose|k: int|
                0 <= k < mid.spec_store().len() && mid.spec_store()[k] == post.spec_store()[i]
                    && mid.spec_store()[k].id != doc.id;
            if spec_get(mid.spec_loaded(), mid.spec_store()[k].id) == Some(mid.spec_store()[k]) {
            } else {
                let j = choose|j: int|
                    0 <= j < mid.spec_entries().len() && mid.spec_entries()[j].id
                        == mid.spec_store()[k].id && mid.spec_entries()[j].content
                        == mid.spec_store()[k].content;
                assert(post.spec_entries()[j] == mid.spec_entries()[j]);
            }
        }
    }
}

/// The engine's dual-store consistency law: in a well-formed engine,
/// every stored document either was already in the store restored at
/// construction, or has a committed index entry carrying its id and its
/// content — nothing reaches the store without first reaching the index.
pub proof fn lemma_store_covered_by_index(e: &SearchEngine)
    requires
        e.wf(),
    ensures
        e.covered(),
{
}

} // verus!
