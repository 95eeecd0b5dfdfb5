//! The document store: a keyed, in-memory mapping from identifier to
//! document, with overwrite (last-write-wins) semantics and no deletion.
//!
//! The store is modelled as the sequence of its documents in insertion
//! order, with pairwise-distinct identifiers; [`spec_get`] is the derived
//! keyed lookup that the engine's contracts are written over.

use vstd::prelude::*;

use crate::document::{Document, DocView};

verus! {

/// The keyed lookup over a store's contents: the document whose id is
/// `id`, if one is present.
pub open spec fn spec_get(docs: Seq<DocView>, id: Seq<char>) -> Option<DocView>
    decreases docs.len(),
{
    if docs.len() == 0 {
        None
    } else if docs[0].id == id {
        Some(docs[0])
    } else {
        spec_get(docs.drop_first(), id)
    }
}

/// Whether the store holds pairwise-distinct identifiers.
pub open spec fn unique_ids(docs: Seq<DocView>) -> bool {
    forall|i: int, j: int| 0 <= i < j < docs.len() ==> docs[i].id != docs[j].id
}

/// The store's contents after inserting `doc` with overwrite semantics:
/// the existing entry under the same id is replaced in place, and a new
/// id is appended.
pub open spec fn spec_insert(docs: Seq<DocView>, doc: DocView) -> Seq<DocView>
    decreases docs.len(),
{
    if docs.len() == 0 {
        seq![doc]
    } else if docs[0].id == doc.id {
        seq![doc] + docs.drop_first()
    } else {
        seq![docs[0]] + spec_insert(docs.drop_first(), doc)
    }
}

/// A durable-by-snapshot mapping from identifier to document.
pub struct DocumentStore {
    docs: Vec<Document>,
}

impl View for DocumentStore {
    type V = Seq<DocView>;

    closed spec fn view(&self) -> Seq<DocView> {
        self.docs@.map_values(|d: Document| d@)
    }
}

impl DocumentStore {
    /// The store invariant: identifiers are pairwise distinct.
    pub open spec fn wf(&self) -> bool {
        unique_ids(self@)
    }

    /// An empty store.
    pub fn new() -> (r: DocumentStore)
        ensures
            r@ =~= Seq::<DocView>::empty(),
            r.wf(),
    {
        DocumentStore { docs: Vec::new() }
    }

    /// How many documents the store holds.
    pub fn len(&self) -> (r: usize)
        ensures
            r == self@.len(),
    {
        self.docs.len()
    }

    /// Whether the store holds no documents.
    pub fn is_empty(&self) -> (r: bool)
        ensures
            r == (self@.len() == 0),
    {
        self.docs.len() == 0
    }

    /// The position of the document whose id is `id`, if one is present.
    fn position_of(&self, id: &String) -> (r: Option<usize>)
        ensures
            match r {
                Some(i) => i < self@.len() && self@[i as int].id == id@,
                None => forall|i: int| 0 <= i < self@.len() ==> self@[i].id != id@,
            },
    {
        let mut i: usize = 0;
        while i < self.docs.len()
            invariant
                i <= self@.len(),
                forall|j: int| 0 <= j < i ==> self@[j].id != id@,
            decreases self@.len() - i,
        {
            if self.docs[i].id == *id {
                return Some(i);
            }
            i = i + 1;
        }
        None
    }

    /// Exact lookup by identifier.
    pub fn get(&self, id: &String) -> (r: Option<&Document>)
        requires
            self.wf(),
        ensures
            match r {
                Some(d) => spec_get(self@, id@) == Some(d@),
                None => spec_get(self@, id@) is None,
            },
    {
        proof {
            lemma_spec_get_position(self@, id@);
        }
        match self.position_of(id) {
            Some(i) => Some(&self.docs[i]),
            None => None,
        }
    }

    /// Inserts `doc`, replacing any existing document under the same id.
    pub fn insert(&mut self, doc: Document)
        requires
            old(self).wf(),
        ensures
            final(self).wf(),
            final(self)@ == spec_insert(old(self)@, doc@),
            spec_get(final(self)@, doc@.id) == Some(doc@),
            forall|other: Seq<char>| other != doc@.id ==> spec_get(final(self)@, other)
                == spec_get(old(self)@, other),
            final(self)@.len() == if spec_get(old(self)@, doc@.id) is Some {
                old(self)@.len()
            } else {
                old(self)@.len() + 1
            },
    {
        proof {
            lemma_spec_get_position(self@, doc@.id);
            lemma_insert_shape(self@, doc@);
            lemma_insert_get(self@, doc@);
        }
        let ghost pre = self@;
        match self.position_of(&doc.id) {
            Some(i) => {
                self.docs.set(i, doc);
                proof {
                    assert(self@ =~= pre.update(i as int, doc@));
                    lemma_insert_at_position(pre, doc@, i as int);
                }
            },
            None => {
                self.docs.push(doc);
                proof {
                    assert(self@ =~= pre.push(doc@));
                    lemma_insert_absent(pre, doc@);
                }
            },
        }
    }

    /// The documents in insertion order, for persistence.
    pub fn snapshot(&self) -> (r: &Vec<Document>)
        ensures
            r@.map_values(|d: Document| d@) == self@,
    {
        &self.docs
    }
}

/// `spec_get` finds an id exactly when some position holds it, and then
/// returns the document at the first such position.
pub proof fn lemma_spec_get_position(docs: Seq<DocView>, id: Seq<char>)
    ensures
        (spec_get(docs, id) is Some) <==> (exists|i: int| 0 <= i < docs.len() && docs[i].id == id),
        spec_get(docs, id) matches Some(d) ==> d.id == id && docs.contains(d),
        unique_ids(docs) ==> forall|i: int|
            0 <= i < docs.len() && docs[i].id == id ==> spec_get(docs, id) == Some(docs[i]),
    decreases docs.len(),
{
    if docs.len() > 0 {
        lemma_spec_get_position(docs.drop_first(), id);
        if docs[0].id == id {
        } else {
            assert forall|i: int|
                0 <= i < docs.len() && docs[i].id == id implies exists|j: int|
                0 <= j < docs.drop_first().len() && docs.drop_first()[j].id == id by {
                assert(docs.drop_first()[i - 1].id == id);
            }
            if unique_ids(docs) {
                assert(unique_ids(docs.drop_first())) by {
                    assert(forall|i: int, j: int|
                        0 <= i < j < docs.drop_first().len() ==> docs.drop_first()[i].id
                            != docs.drop_first()[j].id);
                }
                assert forall|i: int|
                    0 <= i < docs.len() && docs[i].id == id implies spec_get(docs, id) == Some(
                    docs[i],
                ) by {
                    assert(docs.drop_first()[i - 1] == docs[i]);
                }
            }
        }
    }
}

/// Inserting preserves unique ids and changes the length only when the id
/// is new.
proof fn lemma_insert_shape(docs: Seq<DocView>, doc: DocView)
    requires
        unique_ids(docs),
    ensures
        unique_ids(spec_insert(docs, doc)),
        spec_insert(docs, doc).len() == if spec_get(docs, doc.id) is Some {
            docs.len()
        } else {
            docs.len() + 1
        },
    decreases docs.len(),
{
    lemma_spec_get_position(docs, doc.id);
    if docs.len() == 0 {
    } else if docs[0].id == doc.id {
        let r = seq![doc] + docs.drop_first();
        assert forall|i: int, j: int| 0 <= i < j < r.len() implies r[i].id != r[j].id by {
            if i == 0 {
                assert(r[j] == docs[j]);
            } else {
                assert(r[i] == docs[i] && r[j] == docs[j]);
            }
        }
    } else {
        assert(unique_ids(docs.drop_first()));
        lemma_insert_shape(docs.drop_first(), doc);
        lemma_insert_get(docs.drop_first(), doc);
        let rest = spec_insert(docs.drop_first(), doc);
        let r = seq![docs[0]] + rest;
        lemma_spec_get_position(docs.drop_first(), doc.id);
        assert forall|i: int, j: int| 0 <= i < j < r.len() implies r[i].id != r[j].id by {
            if i == 0 {
                assert(rest[j - 1] == r[j]);
                lemma_insert_members(docs.drop_first(), doc, j - 1);
            } else {
                assert(rest[i - 1] == r[i] && rest[j - 1] == r[j]);
            }
        }
        lemma_spec_get_position(docs, doc.id);
    }
}

/// Every document of an inserted store is either the inserted one or one of
/// the old ones whose id differs from the inserted id.
pub proof fn lemma_insert_members(docs: Seq<DocView>, doc: DocView, k: int)
    requires
        unique_ids(docs),
        0 <= k < spec_insert(docs, doc).len(),
    ensures
        spec_insert(docs, doc)[k] == doc || (exists|i: int|
            0 <= i < docs.len() && docs[i] == spec_insert(docs, doc)[k] && docs[i].id != doc.id),
    decreases docs.len(),
{
    if docs.len() == 0 {
    } else if docs[0].id == doc.id {
        if k > 0 {
            assert(spec_insert(docs, doc)[k] == docs[k]);
            assert(docs[k].id != doc.id);
        }
    } else {
        if k == 0 {
            assert(spec_insert(docs, doc)[0] == docs[0]);
        } else {
            assert(unique_ids(docs.drop_first()));
            lemma_insert_members(docs.drop_first(), doc, k - 1);
            assert(spec_insert(docs, doc)[k] == spec_insert(docs.drop_first(), doc)[k - 1]);
            if spec_insert(docs.drop_first(), doc)[k - 1] == doc {
            } else {
                let i = choose|i: int|
                    0 <= i < docs.drop_first().len() && docs.drop_first()[i] == spec_insert(
                        docs.drop_first(),
                        doc,
                    )[k - 1] && docs.drop_first()[i].id != doc.id;
                assert(docs[i + 1] == spec_insert(docs, doc)[k]);
            }
        }
    }
}

/// Inserting makes the new document the result of lookup under its id and
/// leaves every other lookup unchanged.
proof fn lemma_insert_get(docs: Seq<DocView>, doc: DocView)
    ensures
        spec_get(spec_insert(docs, doc), doc.id) == Some(doc),
        forall|other: Seq<char>| other != doc.id ==> spec_get(spec_insert(docs, doc), other)
            == spec_get(docs, other),
    decreases docs.len(),
{
    if docs.len() == 0 {
        let r = spec_insert(docs, doc);
        assert(r =~= seq![doc]);
        assert(r[0] == doc);
        assert forall|other: Seq<char>| other != doc.id implies spec_get(r, other) == spec_get(
            docs,
            other,
        ) by {
            assert(r.drop_first().len() == 0);
            assert(spec_get(r, other) == spec_get(r.drop_first(), other));
        }
    } else if docs[0].id == doc.id {
        let r = seq![doc] + docs.drop_first();
        assert(r[0] == doc);
        assert(r.drop_first() =~= docs.drop_first());
        assert forall|other: Seq<char>| other != doc.id implies spec_get(r, other) == spec_get(
            docs,
            other,
        ) by {
            assert(spec_get(r, other) == spec_get(docs.drop_first(), other));
            assert(spec_get(docs, other) == spec_get(docs.drop_first(), other));
        }
    } else {
        lemma_insert_get(docs.drop_first(), doc);
        let r = seq![docs[0]] + spec_insert(docs.drop_first(), doc);
        assert(r[0] == docs[0]);
        assert(r.drop_first() =~= spec_insert(docs.drop_first(), doc));
        assert(spec_get(r, doc.id) == spec_get(spec_insert(docs.drop_first(), doc), doc.id));
        assert forall|other: Seq<char>| other != doc.id implies spec_get(r, other) == spec_get(
            docs,
            other,
        ) by {
            if docs[0].id == other {
                assert(spec_get(r, other) == Some(r[0]));
                assert(spec_get(docs, other) == Some(docs[0]));
            } else {
                assert(spec_get(r, other) == spec_get(spec_insert(docs.drop_first(), doc), other));
                assert(spec_get(docs, other) == spec_get(docs.drop_first(), other));
            }
        }
    }
}

/// Updating the (unique) position that holds `doc.id` is exactly
/// `spec_insert`.
proof fn lemma_insert_at_position(docs: Seq<DocView>, doc: DocView, i: int)
    requires
        unique_ids(docs),
        0 <= i < docs.len(),
        docs[i].id == doc.id,
    ensures
        docs.update(i, doc) =~= spec_insert(docs, doc),
    decreases docs.len(),
{
    if i == 0 {
        assert(docs.update(0, doc) =~= seq![doc] + docs.drop_first());
    } else {
        assert(unique_ids(docs.drop_first()));
        assert(docs.drop_first()[i - 1].id == doc.id);
        lemma_insert_at_position(docs.drop_first(), doc, i - 1);
        assert(docs[0].id != doc.id);
        assert(docs.update(i, doc) =~= seq![docs[0]] + docs.drop_first().update(i - 1, doc));
    }
}

/// Appending a document whose id is absent is exactly `spec_insert`.
pub proof fn lemma_insert_absent(docs: Seq<DocView>, doc: DocView)
    requires
        forall|i: int| 0 <= i < docs.len() ==> docs[i].id != doc.id,
    ensures
        docs.push(doc) =~= spec_insert(docs, doc),
    decreases docs.len(),
{
    if docs.len() == 0 {
        assert(docs.push(doc) =~= seq![doc]);
    } else {
        lemma_insert_absent(docs.drop_first(), doc);
        assert(docs.push(doc) =~= seq![docs[0]] + docs.drop_first().push(doc));
    }
}

/// Overwrite is idempotent on the key: after adding two documents with the
/// same id, the store holds exactly one entry under that id, with the value
/// of the most recent add, and its length grows at most once.
pub proof fn lemma_overwrite_last_write_wins(docs: Seq<DocView>, d1: DocView, d2: DocView)
    requires
        unique_ids(docs),
        d1.id == d2.id,
    ensures
        spec_get(spec_insert(spec_insert(docs, d1), d2), d1.id) == Some(d2),
        spec_insert(spec_insert(docs, d1), d2).len() == spec_insert(docs, d1).len(),
        spec_insert(spec_insert(docs, d1), d2).len() == if spec_get(docs, d1.id) is Some {
            docs.len()
        } else {
            docs.len() + 1
        },
{
    lemma_insert_shape(docs, d1);
    lemma_insert_get(docs, d1);
    lemma_insert_shape(spec_insert(docs, d1), d2);
    lemma_insert_get(spec_insert(docs, d1), d2);
    lemma_spec_get_position(spec_insert(docs, d1), d2.id);
}

} // verus!
