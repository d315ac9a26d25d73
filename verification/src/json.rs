//! An in-memory JSON document model.
//!
//! The schema-validated reader first parses a file's text into this tree,
//! then validates the tree against a record schema.  The tree keeps exactly
//! what the schemas can speak about: numbers are split into the unsigned
//! integers the schemas accept and everything else.

use vstd::prelude::*;
use vstd::string::*;

verus! {

/// A parsed JSON value.
pub enum Json {
    Null,
    Bool(bool),
    /// A number that is a non-negative integer within `u64` range.
    Nat(u64),
    /// Any other number (negative, fractional, or out of `u64` range).
    /// No schema field accepts such a number, so its value is not kept.
    OtherNum,
    Str(String),
    Arr(Vec<Json>),
    /// An object's fields.  They stand in whatever order the producing
    /// parser delivers them — the trusted parse hands them over sorted by
    /// key, with a repeated key collapsed to its last occurrence — and
    /// `field_lookup` takes the first match, so nothing here depends on
    /// that order.
    Obj(Vec<(String, Json)>),
}

/// The value of the first field called `name`, if any.
pub open spec fn field_lookup(fields: Seq<(String, Json)>, name: Seq<char>) -> Option<Json>
    decreases fields.len(),
{
    if fields.len() == 0 {
        None
    } else if fields[0].0@ == name {
        Some(fields[0].1)
    } else {
        field_lookup(fields.drop_first(), name)
    }
}

/// Whether every field name is one of the allowed names: the strict-schema
/// rule that unknown fields are rejected.
pub open spec fn keys_in(fields: Seq<(String, Json)>, allowed: Seq<Seq<char>>) -> bool {
    forall|i: int| 0 <= i < fields.len() ==> allowed.contains(#[trigger] fields[i].0@)
}

/// The name of the first field whose name is not among the allowed ones.
pub open spec fn first_unknown_key(fields: Seq<(String, Json)>, allowed: Seq<Seq<char>>) -> Option<
    Seq<char>,
>
    decreases fields.len(),
{
    if fields.len() == 0 {
        None
    } else if !allowed.contains(fields[0].0@) {
        Some(fields[0].0@)
    } else {
        first_unknown_key(fields.drop_first(), allowed)
    }
}

/// Decides text equality of two string slices.
pub fn str_eq_exec(a: &str, b: &str) -> (r: bool)
    ensures
        r == (a@ == b@),
{
    let alen = a.unicode_len();
    let blen = b.unicode_len();
    if alen != blen {
        return false;
    }
    let mut i: usize = 0;
    loop
        invariant
            i <= alen,
            alen == a@.len(),
            alen == b@.len(),
            forall|k: int| 0 <= k < i ==> a@[k] == b@[k],
        decreases alen - i,
    {
        if i == alen {
            proof {
                assert(a@ =~= b@);
            }
            return true;
        }
        if a.get_char(i) != b.get_char(i) {
            return false;
        }
        i = i + 1;
    }
}

/// Finds the first field called `name`, the way `field_lookup` specifies.
pub fn find_field<'a>(fields: &'a Vec<(String, Json)>, name: &str) -> (r: Option<&'a Json>)
    ensures
        r matches Some(j) ==> field_lookup(fields@, name@) == Some(*j),
        r is None ==> field_lookup(fields@, name@) is None,
{
    let mut i: usize = 0;
    proof {
        assert(fields@.skip(0) =~= fields@);
    }
    loop
        invariant
            i <= fields@.len(),
            field_lookup(fields@, name@) == field_lookup(fields@.skip(i as int), name@),
        decreases fields@.len() - i,
    {
        if i == fields.len() {
            proof {
                assert(fields@.skip(i as int).len() == 0);
            }
            return None;
        }
        proof {
            assert(fields@.skip(i as int)[0] == fields@[i as int]);
        }
        if str_eq_exec(fields[i].0.as_str(), name) {
            return Some(&fields[i].1);
        }
        proof {
            assert(fields@.skip(i as int).drop_first() =~= fields@.skip(i as int + 1));
        }
        i = i + 1;
    }
}

} // verus!
