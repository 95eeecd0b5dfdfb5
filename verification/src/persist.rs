//! The persistence manager: the entire document store serialized to a
//! single snapshot file on every mutation, and restored at startup.
//!
//! A snapshot path is split into its directory and file name; the bytes
//! are the codec's encoding of the store's documents in insertion order.
//! Loading never fails: a missing or undecodable snapshot yields an empty
//! store, trading durability for availability.

use vstd::prelude::*;

use crate::codec;
use crate::codec::{doc_of_record, record_of_doc, DocRecord};
use crate::document::{DocView, Document};
use crate::errors::EngineError;
use crate::fulltext;
use crate::store::{spec_insert, unique_ids, DocumentStore};

verus! {

/// The position of the last `c` in `s`, or `-1` if there is none.
pub open spec fn last_pos(s: Seq<char>, c: char) -> int
    decreases s.len(),
{
    if s.len() == 0 {
        -1
    } else if s.last() == c {
        s.len() - 1
    } else {
        last_pos(s.drop_last(), c)
    }
}

/// Bounds and characterization of [`last_pos`].
pub proof fn lemma_last_pos(s: Seq<char>, c: char)
    ensures
        -1 <= last_pos(s, c) < s.len(),
        last_pos(s, c) >= 0 ==> s[last_pos(s, c)] == c,
        forall|j: int| last_pos(s, c) < j < s.len() ==> s[j] != c,
    decreases s.len(),
{
    if s.len() > 0 && s.last() != c {
        lemma_last_pos(s.drop_last(), c);
        assert forall|j: int| last_pos(s, c) < j < s.len() implies s[j] != c by {
            if j < s.len() - 1 {
                assert(s.drop_last()[j] == s[j]);
            }
        }
    }
}

/// The directory part of a snapshot path: the text before the last slash,
/// `/` for a path in the root, and `.` for a bare file name.
pub open spec fn dir_of_path(p: Seq<char>) -> Seq<char> {
    let k = last_pos(p, '/');
    if k < 0 {
        "."@
    } else if k == 0 {
        "/"@
    } else {
        p.take(k)
    }
}

/// The file-name part of a snapshot path: the text after the last slash.
pub open spec fn name_of_path(p: Seq<char>) -> Seq<char> {
    let k = last_pos(p, '/');
    p.skip(k + 1)
}

/// Splits a snapshot path into its directory and file name.
pub fn split_path(path: &str) -> (r: (String, String))
    ensures
        r.0@ == dir_of_path(path@),
        r.1@ == name_of_path(path@),
{
    let n = path.unicode_len();
    proof {
        lemma_last_pos(path@, '/');
    }
    let ghost p = last_pos(path@, '/');
    let mut k: usize = n;
    let mut found = false;
    while k > 0
        invariant_except_break
            !found,
        invariant
            k <= n,
            n == path@.len(),
            p == last_pos(path@, '/'),
            -1 <= p < n as int,
            p >= 0 ==> path@[p] == '/',
            forall|j: int| p < j < n as int ==> path@[j] != '/',
            found ==> k as int == p + 1 && k >= 1,
            !found ==> p < k as int,
        ensures
            found ==> k as int == p + 1 && k >= 1,
            !found ==> k == 0 && p == -1,
        decreases k,
    {
        if path.get_char(k - 1) == '/' {
            found = true;
            proof {
                assert(path@[k as int - 1] == '/');
                assert(p == k as int - 1);
            }
            break ;
        }
        proof {
            assert(p != k as int - 1);
        }
        k = k - 1;
    }
    if !found {
        let dir = ".".to_owned();
        let name = path.to_owned();
        proof {
            assert(name@ =~= name_of_path(path@));
        }
        (dir, name)
    } else {
        let name = path.substring_char(k, n).to_owned();
        proof {
            assert(name@ =~= name_of_path(path@));
        }
        if k == 1 {
            let dir = "/".to_owned();
            (dir, name)
        } else {
            let dir = path.substring_char(0, k - 1).to_owned();
            proof {
                assert(dir@ =~= dir_of_path(path@));
            }
            (dir, name)
        }
    }
}

/// The record values of a document sequence.
pub open spec fn records_of_docs(docs: Seq<DocView>) -> Seq<
    (Seq<char>, Seq<char>, Seq<(Seq<char>, Seq<char>)>),
> {
    docs.map_values(|d: DocView| record_of_doc(d))
}

/// Serializes the documents and writes them to the snapshot path,
/// replacing any previous snapshot in one atomic step. The written bytes
/// are the codec's encoding of the documents, so a later load decodes
/// them back exactly.
pub fn save_documents(docs: &Vec<Document>, path: &str) -> (r: Result<(), EngineError>)
    ensures
        r is Ok ==> codec::decode_of(
            codec::encode_of(records_of_docs(docs@.map_values(|d: Document| d@))),
        ) == Some(records_of_docs(docs@.map_values(|d: Document| d@))),
        r matches Err(e) ==> e is Io,
{
    let (dir_path, name) = split_path(path);
    let records = codec::docs_to_records(docs);
    let bytes = match codec::encode_records(&records) {
        Ok(bytes) => bytes,
        Err(e) => {
            return Err(EngineError::Io(e));
        },
    };
    let dir = match fulltext::dir_open(dir_path.as_str()) {
        Ok(dir) => dir,
        Err(e) => {
            return Err(EngineError::Io(e));
        },
    };
    match fulltext::dir_write(&dir, name.as_str(), &bytes) {
        Ok(()) => Ok(()),
        Err(e) => Err(EngineError::Io(e)),
    }
}

/// The store contents after inserting a document sequence in order into
/// an empty store, with overwrite semantics.
pub open spec fn spec_rebuild(docs: Seq<DocView>) -> Seq<DocView>
    decreases docs.len(),
{
    if docs.len() == 0 {
        Seq::empty()
    } else {
        spec_insert(spec_rebuild(docs.drop_last()), docs.last())
    }
}

/// Rebuilding a document sequence whose ids are already pairwise distinct
/// restores exactly that sequence: a snapshot written from a store loads
/// back to the same store.
pub proof fn lemma_rebuild_restores(docs: Seq<DocView>)
    requires
        unique_ids(docs),
    ensures
        spec_rebuild(docs) == docs,
    decreases docs.len(),
{
    if docs.len() > 0 {
        assert(unique_ids(docs.drop_last())) by {
            assert(forall|i: int, j: int|
                0 <= i < j < docs.drop_last().len() ==> docs.drop_last()[i].id
                    != docs.drop_last()[j].id);
        }
        lemma_rebuild_restores(docs.drop_last());
        assert(forall|i: int| 0 <= i < docs.drop_last().len() ==> docs.drop_last()[i].id
            != docs.last().id);
        crate::store::lemma_insert_absent(docs.drop_last(), docs.last());
        assert(spec_rebuild(docs) =~= docs.drop_last().push(docs.last()));
        assert(docs.drop_last().push(docs.last()) =~= docs);
    }
}

/// A snapshot round trip restores the store: the records written for a
/// store with pairwise-distinct ids, read back and rebuilt, give exactly
/// the store's documents. Together with the codec's guarantee that
/// decoding inverts encoding, this is the persistence-across-restart
/// property for every store the engine can hold.
pub proof fn lemma_snapshot_restores(docs: Seq<DocView>)
    requires
        unique_ids(docs),
    ensures
        spec_rebuild(
            records_of_docs(docs).map_values(
                |r: (Seq<char>, Seq<char>, Seq<(Seq<char>, Seq<char>)>)| doc_of_record(r),
            ),
        ) == docs,
{
    crate::codec::lemma_record_doc_roundtrip(docs);
    lemma_rebuild_restores(docs);
}

/// Rebuilds a store from decoded snapshot records, inserting in order
/// with overwrite semantics.
pub fn rebuild_store(records: &Vec<DocRecord>) -> (s: DocumentStore)
    ensures
        s.wf(),
        s@ == spec_rebuild(
            codec::records_view(records@).map_values(
                |r: (Seq<char>, Seq<char>, Seq<(Seq<char>, Seq<char>)>)| doc_of_record(r),
            ),
        ),
{
    let ghost target = codec::records_view(records@).map_values(
        |r: (Seq<char>, Seq<char>, Seq<(Seq<char>, Seq<char>)>)| doc_of_record(r),
    );
    let mut s = DocumentStore::new();
    let mut i: usize = 0;
    while i < records.len()
        invariant
            i <= records.len(),
            target.len() == records@.len(),
            forall|j: int| 0 <= j < target.len() ==> target[j] == doc_of_record(
                codec::record_view(records@[j]),
            ),
            s.wf(),
            s@ == spec_rebuild(target.take(i as int)),
        decreases records.len() - i,
    {
        let doc = codec::record_to_doc(&records[i]);
        s.insert(doc);
        proof {
            assert(target.take(i as int + 1).drop_last() =~= target.take(i as int));
            assert(target.take(i as int + 1).last() == target[i as int]);
        }
        i = i + 1;
    }
    proof {
        assert(target.take(target.len() as int) =~= target);
    }
    s
}

/// Loads the document store from the snapshot at `path`. A missing file,
/// an unreadable directory or an undecodable snapshot all yield an empty
/// store rather than an error.
pub fn load_documents(path: &str) -> (r: DocumentStore)
    ensures
        r.wf(),
{
    let (dir_path, name) = split_path(path);
    let dir = match fulltext::dir_open(dir_path.as_str()) {
        Ok(dir) => dir,
        Err(_) => {
            return DocumentStore::new();
        },
    };
    let bytes = match fulltext::dir_read(&dir, name.as_str()) {
        Ok(Some(bytes)) => bytes,
        Ok(None) => {
            return DocumentStore::new();
        },
        Err(_) => {
            return DocumentStore::new();
        },
    };
    match codec::decode_records(&bytes) {
        Ok(records) => rebuild_store(&records),
        Err(_) => DocumentStore::new(),
    }
}

} // verus!
