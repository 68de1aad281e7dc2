//! The library's own JSON tree: one node per parsed value, with a verified
//! first-match field lookup over object entries.

use vstd::prelude::*;

verus! {

/// One node of a parsed JSON document. Numbers with an exact 64-bit signed
/// integer value are held as `Int`; any other number (too large, or not an
/// integer) is kept as `OtherNumber` so that a whole document stays
/// representable, though the converter never reads such a value.
#[derive(Debug)]
pub enum JsonValue {
    Null,
    Bool(bool),
    Int(i64),
    OtherNumber(serde_json::Number),
    Str(String),
    Arr(Vec<JsonValue>),
    Obj(Vec<(String, JsonValue)>),
}

/// The first value bound to `key` among the entries of an object, if any.
pub open spec fn spec_lookup(fields: Seq<(String, JsonValue)>, key: Seq<char>) -> Option<
    JsonValue,
>
    decreases fields.len(),
{
    if fields.len() == 0 {
        None
    } else if fields[0].0@ == key {
        Some(fields[0].1)
    } else {
        spec_lookup(fields.drop_first(), key)
    }
}

/// The value of field `key` of `v`: defined only when `v` is an object that
/// has the field; absent on every other node, as on an object without it.
pub open spec fn spec_get_field(v: JsonValue, key: Seq<char>) -> Option<JsonValue> {
    match v {
        JsonValue::Obj(fields) => spec_lookup(fields@, key),
        _ => None,
    }
}

/// Looks `key` up in `v`, returning the first matching entry of an object
/// node and nothing on any other node.
pub fn get_field<'a>(v: &'a JsonValue, key: &str) -> (r: Option<&'a JsonValue>)
    ensures
        match r {
            Some(f) => spec_get_field(*v, key@) == Some(*f),
            None => spec_get_field(*v, key@) is None,
        },
{
    match v {
        JsonValue::Obj(fields) => {
            let k: String = key.to_owned();
            let n: usize = fields.len();
            let mut i: usize = 0;
            proof {
                assert(fields@.skip(0) =~= fields@);
            }
            while i < n
                invariant
                    i <= n,
                    n == fields@.len(),
                    k@ == key@,
                    *v is Obj,
                    v->Obj_0 == *fields,
                    spec_lookup(fields@, key@) == spec_lookup(fields@.skip(i as int), key@),
                decreases n - i,
            {
                if fields[i].0 == k {
                    proof {
                        let s = fields@.skip(i as int);
                        assert(s[0] == fields@[i as int]);
                        assert(spec_lookup(s, key@) == Some(fields@[i as int].1));
                        assert(spec_get_field(*v, key@) == spec_lookup(fields@, key@));
                    }
                    return Some(&fields[i].1);
                }
                proof {
                    assert(fields@.skip(i as int)[0] == fields@[i as int]);
                    assert(fields@.skip(i as int).drop_first() =~= fields@.skip(i as int + 1));
                }
                i = i + 1;
            }
            proof {
                assert(fields@.skip(n as int).len() == 0);
            }
            None
        },
        _ => None,
    }
}

} // verus!
