//! The snapshot codec: the document store serialized as one binary blob.
//!
//! Documents travel through the codec as plain string tuples, so the
//! encoding is bincode's standard encoding of a vector of tuples. The
//! encoder and decoder are trusted at the bincode boundary; everything
//! around them — the conversions between documents and records, and the
//! store rebuild on load — is verified.

use vstd::prelude::*;

use crate::document::{clone_pairs, pairs_view, DocView, Document};
use crate::errors::StorageError;

verus! {

/// The wire shape of one document: id, content, metadata pairs.
pub type DocRecord = (String, String, Vec<(String, String)>);

/// The mathematical value of one record.
pub open spec fn record_view(r: DocRecord) -> (Seq<char>, Seq<char>, Seq<(Seq<char>, Seq<char>)>) {
    (r.0@, r.1@, pairs_view(r.2@))
}

/// The mathematical value of a record list.
pub open spec fn records_view(rs: Seq<DocRecord>) -> Seq<
    (Seq<char>, Seq<char>, Seq<(Seq<char>, Seq<char>)>),
> {
    rs.map_values(|r: DocRecord| record_view(r))
}

/// The record carrying the same data as a document value.
pub open spec fn record_of_doc(d: DocView) -> (Seq<char>, Seq<char>, Seq<(Seq<char>, Seq<char>)>) {
    (d.id, d.content, d.metadata)
}

/// The document value carried by a record value.
pub open spec fn doc_of_record(r: (Seq<char>, Seq<char>, Seq<(Seq<char>, Seq<char>)>)) -> DocView {
    DocView { id: r.0, content: r.1, metadata: r.2 }
}

/// What `bincode::serialize` produces for a record list: a function of the
/// records alone.
pub uninterp spec fn encode_of(
    records: Seq<(Seq<char>, Seq<char>, Seq<(Seq<char>, Seq<char>)>)>,
) -> Seq<u8>;

/// What `bincode::deserialize` recovers from a byte sequence: the record
/// list it decodes to, or nothing when it rejects the bytes.
pub uninterp spec fn decode_of(bytes: Seq<u8>) -> Option<
    Seq<(Seq<char>, Seq<char>, Seq<(Seq<char>, Seq<char>)>)>,
>;

/// Relies on `bincode::serialize` on a vector of string tuples: the
/// encoding is a function of the value alone, and bincode's documentation
/// promises that `deserialize` inverts `serialize` for a matching type.
#[verifier::external_body]
pub(crate) fn encode_records(records: &Vec<DocRecord>) -> (r: Result<Vec<u8>, StorageError>)
    ensures
        r matches Ok(bytes) ==> bytes@ == encode_of(records_view(records@)) && decode_of(bytes@)
            == Some(records_view(records@)),
{
    match bincode::serialize(records) {
        Ok(bytes) => Ok(bytes),
        Err(e) => Err(StorageError { message: format!("snapshot encoding failed: {}", e) }),
    }
}

/// Relies on `bincode::deserialize` on a vector of string tuples: the
/// decoding is a function of the bytes alone, and bytes it rejects decode
/// to nothing.
#[verifier::external_body]
pub(crate) fn decode_records(bytes: &Vec<u8>) -> (r: Result<Vec<DocRecord>, StorageError>)
    ensures
        r matches Ok(records) ==> decode_of(bytes@) == Some(records_view(records@)),
        r is Err ==> decode_of(bytes@) is None,
{
    match bincode::deserialize(bytes.as_slice()) {
        Ok(records) => Ok(records),
        Err(e) => Err(StorageError { message: format!("snapshot decoding failed: {}", e) }),
    }
}

/// Converts a document into its wire record.
pub fn doc_to_record(d: &Document) -> (r: DocRecord)
    ensures
        record_view(r) == record_of_doc(d@),
{
    let copy = d.clone();
    (copy.id, copy.content, copy.metadata)
}

/// Converts a wire record into a document.
pub fn record_to_doc(r: &DocRecord) -> (d: Document)
    ensures
        d@ == doc_of_record(record_view(*r)),
{
    Document { id: r.0.clone(), content: r.1.clone(), metadata: clone_pairs(&r.2) }
}

/// Converts a document list into its wire records.
pub fn docs_to_records(docs: &Vec<Document>) -> (r: Vec<DocRecord>)
    ensures
        records_view(r@) == docs@.map_values(|d: Document| d@).map_values(
            |v: DocView| record_of_doc(v),
        ),
{
    let mut records: Vec<DocRecord> = Vec::new();
    let mut i: usize = 0;
    while i < docs.len()
        invariant
            i <= docs.len(),
            records@.len() == i,
            forall|j: int| 0 <= j < i ==> record_view(records@[j]) == record_of_doc(docs@[j]@),
        decreases docs.len() - i,
    {
        records.push(doc_to_record(&docs[i]));
        i = i + 1;
    }
    proof {
        assert(records_view(records@) =~~= docs@.map_values(|d: Document| d@).map_values(
            |v: DocView| record_of_doc(v),
        ));
    }
    records
}

/// A record's document value carries the record's data unchanged, and a
/// document's record carries the document's data unchanged: the conversion
/// between the two wire shapes loses nothing in either direction.
pub proof fn lemma_record_doc_roundtrip(docs: Seq<DocView>)
    ensures
        docs.map_values(|v: DocView| record_of_doc(v)).map_values(
            |r: (Seq<char>, Seq<char>, Seq<(Seq<char>, Seq<char>)>)| doc_of_record(r),
        ) =~~= docs,
{
}

} // verus!
