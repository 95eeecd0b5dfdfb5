//! The unit of storage and search: an identifier, free-text content, and
//! string metadata.

use vstd::prelude::*;

verus! {

/// The mathematical value of a [`Document`]: its identifier, content and
/// metadata pairs as character sequences.
#[verifier::ext_equal]
pub struct DocView {
    pub id: Seq<char>,
    pub content: Seq<char>,
    pub metadata: Seq<(Seq<char>, Seq<char>)>,
}

/// A document submitted by a caller. Immutable once stored; adding a
/// document under an existing id replaces the prior value (last-write-wins).
#[derive(Debug)]
pub struct Document {
    /// Caller-assigned unique identifier, treated as opaque text.
    pub id: String,
    /// Free text, searched by default.
    pub content: String,
    /// Key/value string pairs; keys are unique within a document. Values are
    /// searchable only under keys that have been registered as schema fields.
    pub metadata: Vec<(String, String)>,
}

/// The view of one metadata pair.
pub open spec fn pair_view(p: (String, String)) -> (Seq<char>, Seq<char>) {
    (p.0@, p.1@)
}

/// The view of a metadata list.
pub open spec fn pairs_view(ps: Seq<(String, String)>) -> Seq<(Seq<char>, Seq<char>)> {
    ps.map_values(|p: (String, String)| pair_view(p))
}

impl View for Document {
    type V = DocView;

    open spec fn view(&self) -> DocView {
        DocView {
            id: self.id@,
            content: self.content@,
            metadata: pairs_view(self.metadata@),
        }
    }
}

/// Whether a sequence of metadata pairs has pairwise-distinct keys.
pub open spec fn unique_keys(ps: Seq<(Seq<char>, Seq<char>)>) -> bool {
    forall|i: int, j: int| 0 <= i < j < ps.len() ==> ps[i].0 != ps[j].0
}

impl Document {
    /// A well-formed document has unique metadata keys.
    pub open spec fn wf(&self) -> bool {
        unique_keys(self@.metadata)
    }
}

/// Copies a metadata list pair by pair.
pub fn clone_pairs(pairs: &Vec<(String, String)>) -> (r: Vec<(String, String)>)
    ensures
        pairs_view(r@) == pairs_view(pairs@),
{
    let mut copy: Vec<(String, String)> = Vec::new();
    let mut i: usize = 0;
    while i < pairs.len()
        invariant
            i <= pairs.len(),
            copy@.len() == i,
            forall|j: int| 0 <= j < i ==> pair_view(copy@[j]) == pair_view(pairs@[j]),
        decreases pairs.len() - i,
    {
        let pair = (pairs[i].0.clone(), pairs[i].1.clone());
        copy.push(pair);
        i = i + 1;
    }
    proof {
        assert(pairs_view(copy@) =~= pairs_view(pairs@));
    }
    copy
}

impl Clone for Document {
    fn clone(&self) -> (r: Self)
        ensures
            r@ == self@,
    {
        Document {
            id: self.id.clone(),
            content: self.content.clone(),
            metadata: clone_pairs(&self.metadata),
        }
    }
}

} // verus!
