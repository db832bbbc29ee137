use vstd::prelude::*;

verus! {

/// The message for a value that cannot be hashed: a value of the type at path
/// `type_path`, or a dynamic value of that type, standing for the type at path
/// `target` if it stands for one.
pub open spec fn spec_unhashable_message(
    type_path: Seq<char>,
    is_dynamic: bool,
    target: Option<Seq<char>>,
) -> Seq<char> {
    if !is_dynamic {
        "the given value of type `"@ + type_path + "` does not support hashing"@
    } else {
        match target {
            None => "the dynamic type `"@ + type_path + "` does not support hashing"@,
            Some(t) => "the dynamic type `"@ + type_path + "` (target: `"@ + t
                + "`) does not support hashing"@,
        }
    }
}

/// The message for a value that cannot be hashed, as a set or a map reports it: a
/// value of the type at path `type_path`, or a dynamic value of that type, standing
/// for the type at path `target` if it stands for one.
pub fn unhashable_message(type_path: &str, is_dynamic: bool, target: Option<&str>) -> (r: String)
    ensures
        r@ == spec_unhashable_message(
            type_path@,
            is_dynamic,
            match target {
                Some(t) => Some(t@),
                None => None,
            },
        ),
{
    let mut s = String::new();
    if !is_dynamic {
        s.append("the given value of type `");
        s.append(type_path);
        s.append("` does not support hashing");
    } else {
        s.append("the dynamic type `");
        s.append(type_path);
        match target {
            None => {
                s.append("` does not support hashing");
            },
            Some(t) => {
                s.append("` (target: `");
                s.append(t);
                s.append("`) does not support hashing");
            },
        }
    }
    proof {
        let want = spec_unhashable_message(
            type_path@,
            is_dynamic,
            match target {
                Some(t) => Some(t@),
                None => None,
            },
        );
        assert(s@ =~= want);
    }
    s
}

} // verus!
