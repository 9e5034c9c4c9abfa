//! A dynamically typed JSON value tree.
//!
//! Schema documents have no fixed record type: all structural knowledge is
//! carried by convention on well-known keys.  `JsonValue` is the executable
//! tree; its mathematical counterpart is `Json`, reached through `deep_view`.
//! Numbers are carried opaquely as their decimal text: no pass of this crate
//! ever interprets a number.

use vstd::prelude::*;

verus! {

/// Mathematical model of a JSON value: the deep view of `JsonValue`.
///
/// An object is a sequence of key/value pairs in insertion order; well-formed
/// objects have pairwise distinct keys.
pub enum Json {
    Null,
    Bool(bool),
    Num(Seq<char>),
    Str(Seq<char>),
    Arr(Seq<Json>),
    Obj(Seq<(Seq<char>, Json)>),
}

/// A JSON value: null, boolean, number (as decimal text), string, array,
/// or object (key/value pairs in insertion order, keys distinct).
#[derive(Debug, PartialEq, Eq)]
pub enum JsonValue {
    Null,
    Bool(bool),
    Num(String),
    Str(String),
    Arr(Vec<JsonValue>),
    Obj(Vec<(String, JsonValue)>),
}

/// Deep view of a sequence of array elements.
pub open spec fn arr_deep(items: Seq<JsonValue>) -> Seq<Json>
    decreases items, 0int,
{
    Seq::new(
        items.len(),
        |i: int|
            if 0 <= i < items.len() {
                items[i].deep_view()
            } else {
                Json::Null
            },
    )
}

/// Deep view of a sequence of object fields.
pub open spec fn pairs_deep(fields: Seq<(String, JsonValue)>) -> Seq<(Seq<char>, Json)>
    decreases fields, 0int,
{
    Seq::new(
        fields.len(),
        |i: int|
            if 0 <= i < fields.len() {
                (fields[i].0@, fields[i].1.deep_view())
            } else {
                (Seq::empty(), Json::Null)
            },
    )
}

impl DeepView for JsonValue {
    type V = Json;

    open spec fn deep_view(&self) -> Json
        decreases self, 1int,
    {
        match self {
            JsonValue::Null => Json::Null,
            JsonValue::Bool(b) => Json::Bool(*b),
            JsonValue::Num(n) => Json::Num(n@),
            JsonValue::Str(s) => Json::Str(s@),
            JsonValue::Arr(items) => Json::Arr(arr_deep(items@)),
            JsonValue::Obj(fields) => Json::Obj(pairs_deep(fields@)),
        }
    }
}

/// The value bound to the first occurrence of `key` among `fields`, if any.
pub open spec fn obj_get(fields: Seq<(Seq<char>, Json)>, key: Seq<char>) -> Option<Json>
    decreases fields.len(),
{
    if fields.len() == 0 {
        None
    } else if fields[0].0 == key {
        Some(fields[0].1)
    } else {
        obj_get(fields.drop_first(), key)
    }
}

/// Whether some field of `fields` carries `key`.
pub open spec fn obj_has_key(fields: Seq<(Seq<char>, Json)>, key: Seq<char>) -> bool {
    exists|i: int| 0 <= i < fields.len() && fields[i].0 == key
}

/// The value bound to `key` if `j` is an object carrying it.
pub open spec fn get_of(j: Json, key: Seq<char>) -> Option<Json> {
    match j {
        Json::Obj(fields) => obj_get(fields, key),
        _ => None,
    }
}

/// The first occurrence wins: a key found at `i`, with no earlier
/// occurrence, is what lookup returns.
pub proof fn lemma_obj_get_some(fields: Seq<(Seq<char>, Json)>, key: Seq<char>, i: int)
    requires
        0 <= i < fields.len(),
        fields[i].0 == key,
        forall|j: int| 0 <= j < i ==> fields[j].0 != key,
    ensures
        obj_get(fields, key) == Some(fields[i].1),
    decreases fields.len(),
{
    if i > 0 {
        lemma_obj_get_some(fields.drop_first(), key, i - 1);
    }
}

/// Lookup misses exactly when no field carries the key.
pub proof fn lemma_obj_get_none(fields: Seq<(Seq<char>, Json)>, key: Seq<char>)
    requires
        forall|j: int| 0 <= j < fields.len() ==> fields[j].0 != key,
    ensures
        obj_get(fields, key) is None,
    decreases fields.len(),
{
    if fields.len() > 0 {
        lemma_obj_get_none(fields.drop_first(), key);
    }
}

/// Lookup succeeds exactly when some field carries the key.
pub proof fn lemma_obj_get_has_key(fields: Seq<(Seq<char>, Json)>, key: Seq<char>)
    ensures
        obj_get(fields, key) is Some <==> obj_has_key(fields, key),
    decreases fields.len(),
{
    if fields.len() > 0 && fields[0].0 != key {
        lemma_obj_get_has_key(fields.drop_first(), key);
        assert forall|i: int| 0 <= i < fields.len() && fields[i].0 == key implies obj_has_key(
            fields.drop_first(),
            key,
        ) by {
            assert(fields.drop_first()[i - 1].0 == key);
        }
    }
}

/// A first occurrence of `key` in `fields ++ rest` is found in `fields`
/// when `fields` carries the key, in `rest` otherwise.
pub proof fn lemma_obj_get_concat(
    fields: Seq<(Seq<char>, Json)>,
    rest: Seq<(Seq<char>, Json)>,
    key: Seq<char>,
)
    ensures
        obj_get(fields + rest, key) == if obj_get(fields, key) is Some {
            obj_get(fields, key)
        } else {
            obj_get(rest, key)
        },
    decreases fields.len(),
{
    if fields.len() == 0 {
        assert(fields + rest =~= rest);
    } else {
        assert((fields + rest).drop_first() =~= fields.drop_first() + rest);
        lemma_obj_get_concat(fields.drop_first(), rest, key);
    }
}

/// Equality of string slices, stated over their character sequences.
pub fn str_eq(a: &str, b: &str) -> (r: bool)
    ensures
        r == (a@ == b@),
{
    let oa = a.to_owned();
    let ob = b.to_owned();
    oa == ob
}

impl JsonValue {
    /// Whether this value is an object (a structured mapping).
    pub fn is_object(&self) -> (r: bool)
        ensures
            r == (self.deep_view() is Obj),
    {
        match self {
            JsonValue::Obj(_) => true,
            _ => false,
        }
    }

    /// The value bound to the first field carrying `key`; `None` when
    /// `self` is not an object or no field carries `key`.
    pub fn get<'a>(&'a self, key: &str) -> (r: Option<&'a JsonValue>)
        ensures
            match r {
                Some(v) => get_of(self.deep_view(), key@) == Some(v.deep_view()),
                None => get_of(self.deep_view(), key@) is None,
            },
    {
        match self {
            JsonValue::Obj(fields) => obj_lookup(fields, key),
            _ => None,
        }
    }

    /// A structurally equal copy of the tree.
    #[verifier::loop_isolation(false)]
    pub fn deep_copy(&self) -> (r: JsonValue)
        ensures
            r.deep_view() == self.deep_view(),
        decreases self,
    {
        match self {
            JsonValue::Null => JsonValue::Null,
            JsonValue::Bool(b) => JsonValue::Bool(*b),
            JsonValue::Num(n) => JsonValue::Num(n.clone()),
            JsonValue::Str(s) => JsonValue::Str(s.clone()),
            JsonValue::Arr(items) => {
                let mut out: Vec<JsonValue> = Vec::new();
                let mut i: usize = 0;
                while i < items.len()
                    invariant
                        i <= items.len(),
                        out@.len() == i as int,
                        forall|k: int|
                            0 <= k < i ==> out@[k].deep_view() == items@[k].deep_view(),
                    decreases items.len() - i,
                {
                    out.push(items[i].deep_copy());
                    i = i + 1;
                }
                proof {
                    assert(arr_deep(out@) =~= arr_deep(items@));
                }
                JsonValue::Arr(out)
            }
            JsonValue::Obj(fields) => {
                let mut out: Vec<(String, JsonValue)> = Vec::new();
                let mut i: usize = 0;
                while i < fields.len()
                    invariant
                        i <= fields.len(),
                        out@.len() == i as int,
                        forall|k: int|
                            0 <= k < i ==> (#[trigger] out@[k]).0@ == fields@[k].0@
                                && out@[k].1.deep_view() == fields@[k].1.deep_view(),
                    decreases fields.len() - i,
                {
                    let key = fields[i].0.clone();
                    let val = fields[i].1.deep_copy();
                    out.push((key, val));
                    i = i + 1;
                }
                proof {
                    assert(pairs_deep(out@) =~= pairs_deep(fields@));
                }
                JsonValue::Obj(out)
            }
        }
    }
}

/// First field of `fields` bound to `key`, by linear scan.
pub fn obj_lookup<'a>(fields: &'a Vec<(String, JsonValue)>, key: &str) -> (r: Option<
    &'a JsonValue,
>)
    ensures
        match r {
            Some(v) => obj_get(pairs_deep(fields@), key@) == Some(v.deep_view()),
            None => obj_get(pairs_deep(fields@), key@) is None,
        },
{
    let mut i: usize = 0;
    while i < fields.len()
        invariant
            i <= fields.len(),
            forall|j: int| 0 <= j < i ==> pairs_deep(fields@)[j].0 != key@,
        decreases fields.len() - i,
    {
        if str_eq(fields[i].0.as_str(), key) {
            proof {
                lemma_obj_get_some(pairs_deep(fields@), key@, i as int);
            }
            return Some(&fields[i].1);
        }
        i = i + 1;
    }
    proof {
        lemma_obj_get_none(pairs_deep(fields@), key@);
    }
    None
}

} // verus!
