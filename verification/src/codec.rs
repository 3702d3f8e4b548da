//! The command codec: a command's wire form is a small JSON object, built and
//! read here. Encoding then decoding any command yields an equal command.

use vstd::prelude::*;
use crate::json::{JsonVal, json_get, json_text_of, render_json};
use crate::types::{Esp32Command, Esp32Error};

verus! {

/// A `setVariable` command read from a tree, where the tree holds one in the
/// exact shape `{"setVariable":{"name":S,"value":U32}}`.
pub open spec fn as_set_variable(v: JsonVal) -> Option<Esp32Command> {
    match json_get(v, "setVariable"@) {
        Some(inner) => match json_get(inner, "name"@) {
            Some(JsonVal::Str(name)) => match json_get(inner, "value"@) {
                Some(JsonVal::UInt(u)) => if u <= u32::MAX {
                    Some(Esp32Command::SetVariable { name, value: u as u32 })
                } else {
                    None
                },
                _ => None,
            },
            _ => None,
        },
        None => None,
    }
}

/// A `startOption` command read from a tree.
pub open spec fn as_start_option(v: JsonVal) -> Option<Esp32Command> {
    match json_get(v, "startOption"@) {
        Some(JsonVal::Str(opt)) => Some(Esp32Command::StartOption { start_option: opt }),
        _ => None,
    }
}

/// The command a tree decodes to. The shapes are tried in a fixed order and a
/// malformed shape falls through to the next, so a tree carrying several keys
/// decodes to the first well-formed one.
pub open spec fn spec_cmd_of_json(v: JsonVal) -> Option<Esp32Command> {
    if as_set_variable(v) is Some {
        as_set_variable(v)
    } else if as_start_option(v) is Some {
        as_start_option(v)
    } else if json_get(v, "reset"@) is Some {
        Some(Esp32Command::Reset { reset: true })
    } else if json_get(v, "getStatus"@) is Some {
        Some(Esp32Command::GetStatus)
    } else {
        None
    }
}

/// A command as decoding returns it: the reset flag reads back as set,
/// whatever was written, every other command unchanged.
pub open spec fn canonical_cmd(c: Esp32Command) -> Esp32Command {
    match c {
        Esp32Command::Reset { .. } => Esp32Command::Reset { reset: true },
        _ => c,
    }
}

impl Esp32Command {
    /// Build the command's wire tree. Decoding the result yields this very
    /// command: the round-trip law. The one exception is a reset whose flag
    /// was cleared by hand, which reads back with the flag set.
    pub fn to_json_val(&self) -> (r: JsonVal)
        ensures
            r is Obj,
            json_get(r, "device_id"@) is None,
            spec_cmd_of_json(r) == Some(canonical_cmd(*self)),
            !(*self matches Esp32Command::Reset { reset: false })
                ==> spec_cmd_of_json(r) == Some(*self),
    {
        proof {
            reveal_strlit("setVariable");
            reveal_strlit("startOption");
            reveal_strlit("reset");
            reveal_strlit("getStatus");
            reveal_strlit("name");
            reveal_strlit("value");
            reveal_strlit("device_id");
            assert("device_id"@ != "getStatus"@) by {
                assert("device_id"@[0] == 'd');
                assert("getStatus"@[0] == 'g');
            }
        }
        match self {
            Esp32Command::SetVariable { name, value } => {
                let mut inner: Vec<(String, JsonVal)> = Vec::new();
                inner.push(("name".to_owned(), JsonVal::Str(name.clone())));
                inner.push(("value".to_owned(), JsonVal::UInt(*value as u64)));
                let ghost inner_view = inner@;
                let inner_val = JsonVal::Obj(inner);
                let mut outer: Vec<(String, JsonVal)> = Vec::new();
                outer.push(("setVariable".to_owned(), inner_val));
                let r = JsonVal::Obj(outer);
                proof {
                    assert(inner_view.len() == 2);
                    assert(inner_view[0].0@ == "name"@);
                    assert("name"@.len() == 4);
                    assert("value"@.len() == 5);
                    assert("name"@ != "value"@);
                    assert(json_get(r, "setVariable"@) == Some(inner_val));
                    assert(json_get(inner_val, "name"@)
                        == Some(inner_view[0].1));
                    assert(crate::json::fields_get(inner_view, "value"@)
                        == crate::json::fields_get(inner_view.drop_first(), "value"@));
                    assert(inner_view.drop_first()[0] == inner_view[1]);
                    assert(json_get(inner_val, "value"@) == Some(inner_view[1].1));
                    assert(outer@[0].0@ == "setVariable"@);
                    assert("setVariable"@.len() == 11);
                    assert("device_id"@.len() == 9);
                    assert(outer@[0].0@ != "device_id"@);
                    assert(crate::json::fields_get(outer@, "device_id"@)
                        == crate::json::fields_get(outer@.drop_first(), "device_id"@));
                    assert(outer@.drop_first() =~= Seq::<(String, JsonVal)>::empty());
                    assert(json_get(r, "device_id"@) is None);
                }
                r
            }
            Esp32Command::StartOption { start_option } => {
                let mut outer: Vec<(String, JsonVal)> = Vec::new();
                outer.push(("startOption".to_owned(), JsonVal::Str(start_option.clone())));
                let r = JsonVal::Obj(outer);
                proof {
                    lemma_singleton_get(r);
                    assert("startOption"@.len() == 11);
                    assert("device_id"@.len() == 9);
                    assert(json_get(r, "device_id"@) is None);
                    assert(spec_cmd_of_json(r) == Some(canonical_cmd(*self)));
                }
                r
            }
            Esp32Command::Reset { reset } => {
                let mut outer: Vec<(String, JsonVal)> = Vec::new();
                outer.push(("reset".to_owned(), JsonVal::Bool(*reset)));
                let r = JsonVal::Obj(outer);
                proof {
                    lemma_singleton_get(r);
                    assert("reset"@.len() == 5);
                    assert("device_id"@.len() == 9);
                    assert(json_get(r, "device_id"@) is None);
                    assert(spec_cmd_of_json(r) == Some(canonical_cmd(*self)));
                }
                r
            }
            Esp32Command::GetStatus => {
                let mut outer: Vec<(String, JsonVal)> = Vec::new();
                outer.push(("getStatus".to_owned(), JsonVal::Bool(true)));
                let r = JsonVal::Obj(outer);
                proof {
                    lemma_singleton_get(r);
                    assert("getStatus"@.len() == 9);
                    assert("setVariable"@.len() == 11);
                    assert("startOption"@.len() == 11);
                    assert("getStatus"@ != "setVariable"@);
                    assert("getStatus"@ != "startOption"@);
                    assert(json_get(r, "setVariable"@) is None);
                    assert(json_get(r, "startOption"@) is None);
                    assert(json_get(r, "reset"@) is None);
                    assert(json_get(r, "getStatus"@) == Some(JsonVal::Bool(true)));
                    assert("device_id"@ != "getStatus"@) by {
                        assert("device_id"@[0] == 'd');
                        assert("getStatus"@[0] == 'g');
                    }
                    assert(json_get(r, "device_id"@) is None);
                    assert(spec_cmd_of_json(r) == Some(canonical_cmd(*self)));
                }
                r
            }
        }
    }

    /// The command's wire text.
    pub fn to_json(&self) -> (r: String)
        ensures
            exists|v: JsonVal| #[trigger] json_text_of(v) == r@
                && spec_cmd_of_json(v) == Some(canonical_cmd(*self)),
    {
        let v = self.to_json_val();
        render_json(&v)
    }
}

/// Lookups into a one-field object: the key resolves to its value, any other
/// key to nothing.
proof fn lemma_singleton_get(v: JsonVal)
    requires
        v matches JsonVal::Obj(fields) && fields@.len() == 1,
    ensures
        forall|k: Seq<char>| #![trigger json_get(v, k)]
            v matches JsonVal::Obj(fields) ==> json_get(v, k) == (
                if fields@[0].0@ == k {
                    Some(fields@[0].1)
                } else {
                    None::<JsonVal>
                }
            ),
{
    let fields = v->Obj_0;
    assert forall|k: Seq<char>| #![trigger json_get(v, k)] json_get(v, k) == (
        if fields@[0].0@ == k { Some(fields@[0].1) } else { None::<JsonVal> }
    ) by {
        if fields@[0].0@ != k {
            assert(fields@.drop_first() =~= Seq::<(String, JsonVal)>::empty());
            assert(crate::json::fields_get(fields@, k)
                == crate::json::fields_get(fields@.drop_first(), k));
        }
    }
}

/// Decode a command tree; the error reports an unrecognised shape.
pub fn cmd_from_json_val(v: &JsonVal) -> (r: Result<Esp32Command, Esp32Error>)
    ensures
        match r {
            Ok(c) => spec_cmd_of_json(*v) == Some(c),
            Err(e) => spec_cmd_of_json(*v) is None && e is InvalidCommand,
        },
{
    match try_set_variable(v) {
        Some(c) => {
            return Ok(c);
        }
        None => {}
    }
    match try_start_option(v) {
        Some(c) => {
            return Ok(c);
        }
        None => {}
    }
    let has_reset = match v {
        JsonVal::Obj(fields) => crate::json::obj_get(fields, "reset").is_some(),
        _ => false,
    };
    if has_reset {
        return Ok(Esp32Command::Reset { reset: true });
    }
    let has_get_status = match v {
        JsonVal::Obj(fields) => crate::json::obj_get(fields, "getStatus").is_some(),
        _ => false,
    };
    if has_get_status {
        return Ok(Esp32Command::GetStatus);
    }
    Err(Esp32Error::InvalidCommand("unknown command shape".to_owned()))
}

/// Read a well-shaped `setVariable` command, if the tree holds one.
fn try_set_variable(v: &JsonVal) -> (r: Option<Esp32Command>)
    ensures
        r == as_set_variable(*v),
{
    let inner = match v {
        JsonVal::Obj(fields) => crate::json::obj_get(fields, "setVariable"),
        _ => {
            return None;
        }
    };
    match inner {
        Some(JsonVal::Obj(inner_fields)) => {
            let name = match crate::json::obj_get(inner_fields, "name") {
                Some(JsonVal::Str(s)) => s,
                _ => {
                    return None;
                }
            };
            match crate::json::obj_get(inner_fields, "value") {
                Some(JsonVal::UInt(u)) => {
                    if *u <= u32::MAX as u64 {
                        Some(Esp32Command::SetVariable { name: name.clone(), value: *u as u32 })
                    } else {
                        None
                    }
                }
                _ => None,
            }
        }
        Some(_) => None,
        None => None,
    }
}

/// Read a well-shaped `startOption` command, if the tree holds one.
fn try_start_option(v: &JsonVal) -> (r: Option<Esp32Command>)
    ensures
        r == as_start_option(*v),
{
    match v {
        JsonVal::Obj(fields) => match crate::json::obj_get(fields, "startOption") {
            Some(JsonVal::Str(s)) => Some(Esp32Command::StartOption { start_option: s.clone() }),
            _ => None,
        },
        _ => None,
    }
}

} // verus!
