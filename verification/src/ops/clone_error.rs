use vstd::prelude::*;

use crate::info::FieldId;

verus! {

/// The ways in which cloning a value through reflection can fail.
#[derive(Clone, Debug, PartialEq, Eq)]
pub enum ReflectCloneError {
    /// The type has no implementation of cloning through reflection.
    NotImplemented { type_path: String },
    /// A field cannot be cloned through reflection.
    FieldNotCloneable { type_path: String, field: FieldId, variant: Option<String> },
}

impl ReflectCloneError {
    /// The displayed form of this error.
    pub open spec fn spec_text(&self) -> Seq<char> {
        match self {
            ReflectCloneError::NotImplemented { type_path } => "`reflect_clone` not implemented for `"@
                + type_path@ + "`"@,
            ReflectCloneError::FieldNotCloneable { type_path, field, variant } => "field `"@ + (
            match variant {
                Some(v) => type_path@ + "::"@ + v@ + "::"@ + field.spec_text(),
                None => type_path@ + "::"@ + field.spec_text(),
            }) + "` cannot be made cloneable for `reflect_clone`"@,
        }
    }

    /// The displayed form of this error.
    pub fn to_string(&self) -> (r: String)
        ensures
            r@ == self.spec_text(),
    {
        let mut s = String::new();
        match self {
            ReflectCloneError::NotImplemented { type_path } => {
                s.append("`reflect_clone` not implemented for `");
                s.append(type_path.as_str());
                s.append("`");
            },
            ReflectCloneError::FieldNotCloneable { type_path, field, variant } => {
                s.append("field `");
                s.append(type_path.as_str());
                s.append("::");
                match variant {
                    Some(v) => {
                        s.append(v.as_str());
                        s.append("::");
                    },
                    None => {},
                }
                field.write_text(&mut s);
                s.append("` cannot be made cloneable for `reflect_clone`");
            },
        }
        proof {
            assert(s@ =~= self.spec_text());
        }
        s
    }
}

} // verus!
