//! The schema registry: the set of metadata field names that are
//! searchable, beyond the reserved base fields `id` and `content`.
//!
//! Registration is append-only: fields are never removed, and the reserved
//! fields are never redefined. Registering a name affects only documents
//! added afterwards; nothing is reindexed.

use vstd::prelude::*;

use crate::errors::SchemaError;

verus! {

/// Whether `name` is one of the reserved base field names.
pub open spec fn is_reserved(name: Seq<char>) -> bool {
    name == "id"@ || name == "content"@
}

/// Whether `names` holds `name`.
pub open spec fn contains_name(names: Seq<Seq<char>>, name: Seq<char>) -> bool {
    exists|i: int| 0 <= i < names.len() && names[i] == name
}

/// The registry of dynamically added metadata field names.
pub struct SchemaRegistry {
    names: Vec<String>,
}

impl View for SchemaRegistry {
    type V = Seq<Seq<char>>;

    closed spec fn view(&self) -> Seq<Seq<char>> {
        self.names@.map_values(|s: String| s@)
    }
}

impl SchemaRegistry {
    /// The registry invariant: names are pairwise distinct and none of them
    /// is reserved.
    pub open spec fn wf(&self) -> bool {
        &&& forall|i: int, j: int| 0 <= i < j < self@.len() ==> self@[i] != self@[j]
        &&& forall|i: int| 0 <= i < self@.len() ==> !is_reserved(self@[i])
    }

    /// A registry with no dynamically added fields.
    pub fn new() -> (r: SchemaRegistry)
        ensures
            r@ =~= Seq::<Seq<char>>::empty(),
            r.wf(),
    {
        SchemaRegistry { names: Vec::new() }
    }

    /// Whether `name` has been registered.
    pub fn is_registered(&self, name: &String) -> (r: bool)
        ensures
            r == contains_name(self@, name@),
    {
        let mut i: usize = 0;
        while i < self.names.len()
            invariant
                i <= self@.len(),
                forall|j: int| 0 <= j < i ==> self@[j] != name@,
            decreases self@.len() - i,
        {
            if self.names[i] == *name {
                proof {
                    assert(contains_name(self@, name@)) by {
                        assert(self@[i as int] == name@);
                    }
                }
                return true;
            }
            i = i + 1;
        }
        false
    }

    /// The registered names in registration order.
    pub fn names(&self) -> (r: &Vec<String>)
        ensures
            r@.map_values(|s: String| s@) == self@,
    {
        &self.names
    }

    /// Registers `name` as a searchable metadata field. Idempotent when the
    /// field already exists; fails with [`SchemaError::Conflict`] exactly
    /// when `name` collides with a reserved field, which is never redefined.
    pub fn register_field(&mut self, name: &String) -> (r: Result<(), SchemaError>)
        requires
            old(self).wf(),
        ensures
            final(self).wf(),
            r matches Err(e) ==> e == SchemaError::Conflict && is_reserved(name@) && final(self)@
                == old(self)@,
            r is Ok ==> !is_reserved(name@) && contains_name(final(self)@, name@),
            r is Ok && contains_name(old(self)@, name@) ==> final(self)@ == old(self)@,
            r is Ok && !contains_name(old(self)@, name@) ==> final(self)@ =~= old(self)@.push(
                name@,
            ),
            r is Ok <==> !is_reserved(name@),
    {
        proof {
            reveal_strlit("id");
            reveal_strlit("content");
        }
        if string_eq_literal(name, "id") || string_eq_literal(name, "content") {
            return Err(SchemaError::Conflict);
        }
        if self.is_registered(name) {
            return Ok(());
        }
        self.names.push(name.clone());
        proof {
            assert(self@ =~= old(self)@.push(name@));
            assert(contains_name(self@, name@)) by {
                assert(self@[self@.len() - 1] == name@);
            }
        }
        Ok(())
    }
}

/// Compares a string against a literal by character content.
pub fn string_eq_literal(s: &String, lit: &str) -> (r: bool)
    ensures
        r == (s@ == lit@),
{
    let owned = lit.to_owned();
    *s == owned
}

} // verus!
