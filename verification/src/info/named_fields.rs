use vstd::prelude::*;
use vstd::std_specs::iter::IteratorSpec;

use crate::info::fields::NamedField;
use crate::info::names::{copy_slice, last_index_of, opt_index, spec_last_index, texts};

verus! {

/// The names of a sequence of named fields.
pub open spec fn field_names_of(fields: Seq<NamedField>) -> Seq<Seq<char>> {
    fields.map_values(|f: NamedField| f.spec_name())
}

/// Named fields in order, with their names at hand.
#[derive(Debug)]
pub struct NamedFields {
    fields: Vec<NamedField>,
    names: Vec<&'static str>,
}

impl NamedFields {
    /// The name list agrees with the fields.
    #[verifier::type_invariant]
    spec fn names_agree(&self) -> bool {
        texts(self.names@) == field_names_of(self.fields@)
    }

    pub closed spec fn spec_fields(&self) -> Seq<NamedField> {
        self.fields@
    }

    /// The given fields, in that order.
    pub fn new(fields: &[NamedField]) -> (r: Self)
        ensures
            r.spec_fields() == fields@,
    {
        let mut owned: Vec<NamedField> = Vec::new();
        let mut names: Vec<&'static str> = Vec::new();
        let mut i: usize = 0;
        while i < fields.len()
            invariant
                i <= fields@.len(),
                owned@ == fields@.subrange(0, i as int),
                texts(names@) == field_names_of(owned@),
            decreases fields@.len() - i,
        {
            let f = fields[i];
            let n = f.name();
            let ghost old_names = names@;
            let ghost old_owned = owned@;
            owned.push(f);
            names.push(n);
            proof {
                assert(texts(old_names).len() == old_names.len());
                assert(field_names_of(old_owned).len() == old_owned.len());
                assert forall|k: int| 0 <= k < names@.len() implies #[trigger] texts(names@)[k]
                    == field_names_of(owned@)[k] by {
                    if k < old_names.len() {
                        assert(texts(old_names)[k] == field_names_of(old_owned)[k]);
                        assert(names@[k] == old_names[k]);
                        assert(owned@[k] == old_owned[k]);
                    }
                }
                assert(texts(names@) =~= field_names_of(owned@));
            }
            i = i + 1;
        }
        proof {
            assert(owned@ =~= fields@);
        }
        NamedFields { fields: owned, names }
    }

    /// The names of the fields, in order.
    pub fn names(&self) -> (r: &[&'static str])
        ensures
            texts(r@) == field_names_of(self.spec_fields()),
    {
        proof {
            use_type_invariant(self);
        }
        self.names.as_slice()
    }

    /// The field named `name`; of several, the last.
    pub fn field(&self, name: &str) -> (r: Option<&NamedField>)
        ensures
            match spec_last_index(field_names_of(self.spec_fields()), name@) {
                Some(i) => r == Some(&self.spec_fields()[i]),
                None => r is None,
            },
    {
        match self.index_of(name) {
            Some(i) => Some(&self.fields[i]),
            None => None,
        }
    }

    /// The field at position `index`.
    pub fn field_at(&self, index: usize) -> (r: Option<&NamedField>)
        ensures
            if index < self.spec_fields().len() {
                r == Some(&self.spec_fields()[index as int])
            } else {
                r is None
            },
    {
        if index < self.fields.len() {
            Some(&self.fields[index])
        } else {
            None
        }
    }

    /// The position of the field named `name`; of several, the last.
    pub fn index_of(&self, name: &str) -> (r: Option<usize>)
        ensures
            opt_index(r) == spec_last_index(field_names_of(self.spec_fields()), name@),
            r matches Some(i) ==> i < self.spec_fields().len(),
    {
        proof {
            use_type_invariant(self);
        }
        let names = self.names.as_slice();
        assert(texts(names@) == field_names_of(self.fields@));
        assert(names@.len() == self.fields@.len()) by {
            assert(texts(names@).len() == names@.len());
        }
        last_index_of(names, name)
    }

    /// An iterator over the fields, in order.
    pub fn iter(&self) -> (r: core::slice::Iter<'_, NamedField>)
        ensures
            r.remaining() == self.spec_fields().map_values(|f: NamedField| &f),
    {
        let r = self.fields.as_slice().iter();
        proof {
            assert(r.remaining() =~= self.spec_fields().map_values(|f: NamedField| &f));
        }
        r
    }

    /// The number of fields.
    pub fn len(&self) -> (r: usize)
        ensures
            r == self.spec_fields().len(),
    {
        self.fields.len()
    }
}

impl Clone for NamedFields {
    fn clone(&self) -> (r: Self)
        ensures
            r.spec_fields() == self.spec_fields(),
    {
        proof {
            use_type_invariant(self);
        }
        NamedFields {
            fields: copy_slice(self.fields.as_slice()),
            names: copy_slice(self.names.as_slice()),
        }
    }
}

} // verus!
