//! The project manifest record: the package's namespace identifier and its
//! human-readable display name.  Exactly these two fields, both required;
//! any other field is a hard validation failure.

use vstd::prelude::*;
use vstd::string::*;

use crate::json::{Json, field_lookup, keys_in, find_field, str_eq_exec, first_unknown_key};
use crate::locate::opt_view;

verus! {

/// The manifest record.
#[derive(Debug)]
pub struct ConfigJsonObj {
    /// Namespace identifier for the whole package.
    pub id: String,
    /// Human-readable label.
    pub display_name: String,
}

/// The mathematical content of a manifest record.
pub struct ConfigV {
    pub id: Seq<char>,
    pub display_name: Seq<char>,
}

impl View for ConfigJsonObj {
    type V = ConfigV;

    open spec fn view(&self) -> ConfigV {
        ConfigV { id: self.id@, display_name: self.display_name@ }
    }
}

/// The field names the manifest schema declares.
pub open spec fn config_allowed_keys() -> Seq<Seq<char>> {
    seq!["id"@, "display_name"@]
}

/// The strict manifest schema: a JSON object whose every field is declared,
/// with `id` and `display_name` present and of string type.
pub open spec fn is_valid_config(j: Json) -> bool {
    &&& j is Obj
    &&& keys_in(j->Obj_0@, config_allowed_keys())
    &&& field_lookup(j->Obj_0@, "id"@) matches Some(Json::Str(_))
    &&& field_lookup(j->Obj_0@, "display_name"@) matches Some(Json::Str(_))
}

/// The manifest record a valid manifest document denotes.
pub open spec fn spec_config_of(j: Json) -> ConfigV
    recommends
        is_valid_config(j),
{
    ConfigV {
        id: field_lookup(j->Obj_0@, "id"@)->Some_0->Str_0@,
        display_name: field_lookup(j->Obj_0@, "display_name"@)->Some_0->Str_0@,
    }
}

/// Validates a parsed document against the manifest schema: returns the
/// record exactly when the document is valid, and a detail message when it
/// is not.
pub fn validate_config(j: &Json) -> (r: Result<ConfigJsonObj, String>)
    ensures
        is_valid_config(*j) ==> (r matches Ok(c) && c@ == spec_config_of(*j)),
        !is_valid_config(*j) ==> r is Err,
{
    let fields = match j {
        Json::Obj(fields) => fields,
        _ => {
            return Err(String::from_str("expected a JSON object"));
        },
    };
    assert(j->Obj_0 == *fields);
    let mut i: usize = 0;
    loop
        invariant
            i <= fields@.len(),
            j->Obj_0 == *fields,
            *j is Obj,
            forall|k: int| 0 <= k < i ==> config_allowed_keys().contains(
                #[trigger] fields@[k].0@,
            ),
        ensures
            i == fields@.len(),
            forall|k: int| 0 <= k < fields@.len() ==> config_allowed_keys().contains(
                #[trigger] fields@[k].0@,
            ),
        decreases fields@.len() - i,
    {
        if i == fields.len() {
            break;
        }
        let name = fields[i].0.as_str();
        if str_eq_exec(name, "id") {
            proof {
                assert(config_allowed_keys()[0] == "id"@);
            }
        } else if str_eq_exec(name, "display_name") {
            proof {
                assert(config_allowed_keys()[1] == "display_name"@);
            }
        } else {
            proof {
                assert(!config_allowed_keys().contains(fields@[i as int].0@));
            }
            return Err(String::from_str("unknown field in project configuration"));
        }
        i = i + 1;
    }
    let id = match find_field(fields, "id") {
        Some(Json::Str(s)) => s.clone(),
        Some(_) => {
            return Err(String::from_str("field `id` must be a string"));
        },
        None => {
            return Err(String::from_str("missing field `id`"));
        },
    };
    let display_name = match find_field(fields, "display_name") {
        Some(Json::Str(s)) => s.clone(),
        Some(_) => {
            return Err(String::from_str("field `display_name` must be a string"));
        },
        None => {
            return Err(String::from_str("missing field `display_name`"));
        },
    };
    Ok(ConfigJsonObj { id, display_name })
}

/// Which token a manifest schema violation blames: the first undeclared
/// field, or a declared field whose value has the wrong type.  A missing
/// required field, or a document whose root is not an object, blames the
/// record itself (no field).
pub open spec fn config_blame(j: Json) -> Option<Seq<char>> {
    if !(j is Obj) {
        Option::None
    } else {
        let f = j->Obj_0@;
        match first_unknown_key(f, config_allowed_keys()) {
            Option::Some(k) => Option::Some(k),
            Option::None => {
                if field_lookup(f, "id"@) is None {
                    Option::None
                } else if !(field_lookup(f, "id"@) matches Some(Json::Str(_))) {
                    Option::Some("id"@)
                } else if field_lookup(f, "display_name"@) is None {
                    Option::None
                } else if !(field_lookup(f, "display_name"@) matches Some(Json::Str(_))) {
                    Option::Some("display_name"@)
                } else {
                    Option::None
                }
            },
        }
    }
}

/// Computes `config_blame`, handing the blamed field name out for the
/// location scan.
pub fn config_blame_field(j: &Json) -> (r: Option<String>)
    ensures
        opt_view(r) == config_blame(*j),
{
    let fields = match j {
        Json::Obj(fields) => fields,
        _ => {
            return None;
        },
    };
    assert(j->Obj_0 == *fields);
    let mut i: usize = 0;
    proof {
        assert(fields@.skip(0) =~= fields@);
    }
    loop
        invariant
            i <= fields@.len(),
            j->Obj_0 == *fields,
            *j is Obj,
            first_unknown_key(fields@, config_allowed_keys()) == first_unknown_key(
                fields@.skip(i as int),
                config_allowed_keys(),
            ),
        ensures
            j->Obj_0 == *fields,
            *j is Obj,
            first_unknown_key(fields@, config_allowed_keys()) is None,
        decreases fields@.len() - i,
    {
        if i == fields.len() {
            proof {
                assert(fields@.skip(i as int).len() == 0);
            }
            break;
        }
        proof {
            assert(fields@.skip(i as int)[0] == fields@[i as int]);
        }
        let name = fields[i].0.as_str();
        if str_eq_exec(name, "id") {
            proof {
                assert(config_allowed_keys()[0] == "id"@);
            }
        } else if str_eq_exec(name, "display_name") {
            proof {
                assert(config_allowed_keys()[1] == "display_name"@);
            }
        } else {
            proof {
                assert(!config_allowed_keys().contains(fields@[i as int].0@));
            }
            return Some(fields[i].0.clone());
        }
        proof {
            assert(config_allowed_keys().contains(fields@.skip(i as int)[0].0@));
            assert(fields@.skip(i as int).drop_first() =~= fields@.skip(i as int + 1));
        }
        i = i + 1;
    }
    match find_field(fields, "id") {
        None => {
            return None;
        },
        Some(Json::Str(_)) => {},
        Some(_) => {
            return Some(String::from_str("id"));
        },
    }
    match find_field(fields, "display_name") {
        None => {
            return None;
        },
        Some(Json::Str(_)) => {},
        Some(_) => {
            return Some(String::from_str("display_name"));
        },
    }
    None
}

} // verus!
