//! Trusted access to JSON parameter values. Each tool receives its
//! parameters as a `serde_json::Value`; the functions here are the only
//! places that touch that opaque type. What each accessor returns is a
//! function of the value alone, so it is given a name, and the verified
//! readers and builders above are proved against those names.

use vstd::prelude::*;

verus! {

#[verifier::external_type_specification]
#[verifier::external_body]
pub struct ExValue(serde_json::Value);

/// What `serde_json::Value::get` returns for a string key: the named field of
/// an object, nothing otherwise.
pub uninterp spec fn field_of(v: serde_json::Value, key: Seq<char>) -> Option<serde_json::Value>;

/// What `serde_json::Value::as_str` returns: the characters of a JSON string,
/// nothing for any other kind of value.
pub uninterp spec fn string_of(v: serde_json::Value) -> Option<Seq<char>>;

/// What `serde_json::Value::as_array` returns: the elements of a JSON array,
/// nothing for any other kind of value.
pub uninterp spec fn elements_of(v: serde_json::Value) -> Option<Seq<serde_json::Value>>;

/// What `serde_json::Value::is_null` returns.
pub uninterp spec fn null_of(v: serde_json::Value) -> bool;

/// Relies on serde_json::Value::get: looks a field up in a JSON object,
/// `None` when the value is no object or has no such field.
#[verifier::external_body]
pub fn json_get<'a>(v: &'a serde_json::Value, key: &str) -> (r: Option<&'a serde_json::Value>)
    ensures
        match r {
            Some(f) => field_of(*v, key@) == Some(*f),
            None => field_of(*v, key@) is None,
        },
{
    v.get(key)
}

/// Relies on serde_json::Value::as_str: the content of a JSON string, `None`
/// for any other kind of value.
#[verifier::external_body]
pub fn json_as_string(v: &serde_json::Value) -> (r: Option<String>)
    ensures
        match r {
            Some(s) => string_of(*v) == Some(s@),
            None => string_of(*v) is None,
        },
{
    v.as_str().map(|s| s.to_string())
}

/// Relies on serde_json::Value::as_array: the elements of a JSON array,
/// `None` for any other kind of value.
#[verifier::external_body]
pub fn json_as_array<'a>(v: &'a serde_json::Value) -> (r: Option<&'a Vec<serde_json::Value>>)
    ensures
        match r {
            Some(a) => elements_of(*v) == Some(a@),
            None => elements_of(*v) is None,
        },
{
    v.as_array()
}

/// Relies on serde_json::Value::is_null.
#[verifier::external_body]
pub fn json_is_null(v: &serde_json::Value) -> (r: bool)
    ensures
        r == null_of(*v),
{
    v.is_null()
}

/// The characters of each string in the list.
pub open spec fn strings_view(l: Seq<String>) -> Seq<Seq<char>> {
    l.map_values(|s: String| s@)
}

/// The string content of the field named `key`: present exactly when the
/// field exists and is a string.
pub open spec fn str_field_of(v: serde_json::Value, key: Seq<char>) -> Option<Seq<char>> {
    match field_of(v, key) {
        Some(f) => string_of(f),
        None => None,
    }
}

/// The string contents of a sequence of JSON values: present exactly when
/// every element is a string.
pub open spec fn strings_of_elems(es: Seq<serde_json::Value>) -> Option<Seq<Seq<char>>>
    decreases es.len(),
{
    if es.len() == 0 {
        Some(Seq::empty())
    } else {
        match strings_of_elems(es.drop_last()) {
            Some(rest) => match string_of(es.last()) {
                Some(s) => Some(rest.push(s)),
                None => None,
            },
            None => None,
        }
    }
}

/// The string contents of a JSON array value: present exactly when the value
/// is an array of strings.
pub open spec fn strings_of(v: serde_json::Value) -> Option<Seq<Seq<char>>> {
    match elements_of(v) {
        Some(es) => strings_of_elems(es),
        None => None,
    }
}

/// The string-list content of the field named `key`: present exactly when the
/// field exists and is an array of strings.
pub open spec fn list_field_of(v: serde_json::Value, key: Seq<char>) -> Option<Seq<Seq<char>>> {
    match field_of(v, key) {
        Some(f) => strings_of(f),
        None => None,
    }
}

/// One element without string content spoils the whole list.
proof fn lemma_strings_of_elems_none(es: Seq<serde_json::Value>, i: int)
    requires
        0 <= i < es.len(),
        string_of(es[i]) is None,
    ensures
        strings_of_elems(es) is None,
    decreases es.len(),
{
    if i < es.len() - 1 {
        lemma_strings_of_elems_none(es.drop_last(), i);
    }
}

/// The string field named `key`, if present and a string.
pub fn read_string_field(v: &serde_json::Value, key: &str) -> (r: Option<String>)
    ensures
        match r {
            Some(s) => str_field_of(*v, key@) == Some(s@),
            None => str_field_of(*v, key@) is None,
        },
{
    match json_get(v, key) {
        Some(f) => json_as_string(f),
        None => None,
    }
}

/// The string-array field named `key`, if present and an array of strings.
pub fn read_string_list_field(v: &serde_json::Value, key: &str) -> (r: Option<Vec<String>>)
    ensures
        match r {
            Some(l) => list_field_of(*v, key@) == Some(strings_view(l@)),
            None => list_field_of(*v, key@) is None,
        },
{
    match json_get(v, key) {
        Some(f) => read_string_list(f),
        None => None,
    }
}

/// The value as a list of strings, if it is an array of strings.
pub fn read_string_list(v: &serde_json::Value) -> (r: Option<Vec<String>>)
    ensures
        match r {
            Some(l) => strings_of(*v) == Some(strings_view(l@)),
            None => strings_of(*v) is None,
        },
{
    match json_as_array(v) {
        Some(arr) => {
            let mut out: Vec<String> = Vec::new();
            let mut i: usize = 0;
            while i < arr.len()
                invariant
                    0 <= i <= arr@.len(),
                    elements_of(*v) == Some(arr@),
                    strings_of_elems(arr@.subrange(0, i as int)) == Some(
                        strings_view(out@),
                    ),
                decreases arr@.len() - i,
            {
                proof {
                    assert(arr@.subrange(0, i + 1).drop_last() =~= arr@.subrange(0, i as int));
                    assert(arr@.subrange(0, i + 1).last() == arr@[i as int]);
                }
                match json_as_string(&arr[i]) {
                    Some(s) => {
                        let ghost prev = strings_view(out@);
                        out.push(s);
                        proof {
                            assert(strings_view(out@) =~= prev.push(out@.last()@));
                        }
                    },
                    None => {
                        proof {
                            lemma_strings_of_elems_none(arr@, i as int);
                        }
                        return None;
                    },
                }
                i = i + 1;
            }
            proof {
                assert(arr@.subrange(0, arr@.len() as int) =~= arr@);
            }
            Some(out)
        },
        None => None,
    }
}

} // verus!
