//! Schema normalization: reference inlining, metadata stripping, and
//! nullable-union collapsing, depth-first over the schema tree.
//!
//! The pass never fails: malformed input degrades gracefully (an unresolvable
//! `$ref` survives unchanged, an empty or all-`"null"` union falls back to
//! `"string"`).  A recursion-depth bound guards against reference cycles in
//! the definitions table, which would otherwise not terminate; acyclic
//! documents whose reference chains are shorter than the bound are fully
//! resolved.

use vstd::prelude::*;
use vstd::string::StrSliceExecFns;

use crate::json::{
    arr_deep, get_of, lemma_obj_get_none, obj_get, obj_lookup, pairs_deep, str_eq, Json, JsonValue,
};

verus! {

/// Depth bound on chains of `$ref` resolutions along one path of the tree.
pub const REF_FUEL: u64 = 64;

/// Keys stripped from every visited object: schema metadata the provider
/// dialect rejects.
pub open spec fn is_stripped_key(k: Seq<char>) -> bool {
    ||| k == "$schema"@
    ||| k == "$id"@
    ||| k == "title"@
    ||| k == "$defs"@
}

/// Drop the metadata fields of an object.
pub open spec fn strip_meta(fields: Seq<(Seq<char>, Json)>) -> Seq<(Seq<char>, Json)>
    decreases fields.len(),
{
    if fields.len() == 0 {
        Seq::empty()
    } else if is_stripped_key(fields[0].0) {
        strip_meta(fields.drop_first())
    } else {
        seq![fields[0]] + strip_meta(fields.drop_first())
    }
}

/// Whether a `type` array element counts as a concrete type name: a string
/// other than the literal `"null"`.
pub open spec fn is_non_null_name(e: Json) -> bool {
    match e {
        Json::Str(s) => s != "null"@,
        _ => false,
    }
}

/// The type names of a `type` array, excluding the literal `"null"`;
/// non-string elements are ignored.
pub open spec fn non_null_names(elems: Seq<Json>) -> Seq<Json>
    decreases elems.len(),
{
    if elems.len() == 0 {
        Seq::empty()
    } else if is_non_null_name(elems[0]) {
        seq![elems[0]] + non_null_names(elems.drop_first())
    } else {
        non_null_names(elems.drop_first())
    }
}

/// Appending a field and then stripping keeps it exactly when it is not a
/// metadata field.
pub proof fn lemma_strip_push(s: Seq<(Seq<char>, Json)>, x: (Seq<char>, Json))
    ensures
        strip_meta(s.push(x)) == if is_stripped_key(x.0) {
            strip_meta(s)
        } else {
            strip_meta(s).push(x)
        },
    decreases s.len(),
{
    reveal_with_fuel(strip_meta, 3);
    if s.len() == 0 {
        assert(s.push(x).drop_first() =~= Seq::<(Seq<char>, Json)>::empty());
        if !is_stripped_key(x.0) {
            assert(strip_meta(s.push(x)) =~= strip_meta(s).push(x));
        }
    } else {
        assert(s.push(x).drop_first() =~= s.drop_first().push(x));
        lemma_strip_push(s.drop_first(), x);
        if !is_stripped_key(s[0].0) {
            if is_stripped_key(x.0) {
                assert(strip_meta(s.push(x)) =~= strip_meta(s));
            } else {
                assert(strip_meta(s.push(x)) =~= strip_meta(s).push(x));
            }
        }
    }
}

/// The head of `non_null_names` is the first concrete type name.
pub proof fn lemma_names_first(elems: Seq<Json>, i: int)
    requires
        0 <= i < elems.len(),
        is_non_null_name(elems[i]),
        forall|j: int| 0 <= j < i ==> !is_non_null_name(elems[j]),
    ensures
        non_null_names(elems).len() > 0,
        non_null_names(elems)[0] == elems[i],
    decreases elems.len(),
{
    if i > 0 {
        lemma_names_first(elems.drop_first(), i - 1);
    }
}

/// `non_null_names` is empty when no element is a concrete type name.
pub proof fn lemma_names_none(elems: Seq<Json>)
    requires
        forall|j: int| 0 <= j < elems.len() ==> !is_non_null_name(elems[j]),
    ensures
        non_null_names(elems).len() == 0,
    decreases elems.len(),
{
    if elems.len() > 0 {
        lemma_names_none(elems.drop_first());
    }
}

/// Collapse a union `type` value to a single type name: the first non-null
/// name in original order, or `"string"` when none remains.  Values that are
/// not arrays are left unchanged.
pub open spec fn collapse_type_value(t: Json) -> Json {
    match t {
        Json::Arr(elems) => {
            let names = non_null_names(elems);
            if names.len() == 0 {
                Json::Str("string"@)
            } else {
                names[0]
            }
        }
        _ => t,
    }
}

/// Resolve a local reference of the exact form `#/$defs/<name>` against the
/// captured definitions table, if one was captured and is an object.
pub open spec fn resolve_ref(defs: Option<Json>, r: Seq<char>) -> Option<Json> {
    match defs {
        Some(Json::Obj(dfields)) => {
            if r.len() >= 8 && r.subrange(0, 8) == "#/$defs/"@ {
                obj_get(dfields, r.skip(8))
            } else {
                None
            }
        }
        _ => None,
    }
}

/// The definition an object's `$ref` field points at, if the field is
/// present, holds a string, and resolves.
pub open spec fn ref_target(fields: Seq<(Seq<char>, Json)>, defs: Option<Json>) -> Option<Json> {
    match obj_get(fields, "$ref"@) {
        Some(Json::Str(r)) => resolve_ref(defs, r),
        _ => None,
    }
}

/// One normalization pass over a node, with `fuel` bounding the length of
/// `$ref` chains followed from it.
pub open spec fn norm_node(j: Json, defs: Option<Json>, fuel: nat) -> Json
    decreases fuel, j, 1int,
{
    match j {
        Json::Obj(fields) => {
            if fuel > 0 && ref_target(fields, defs) is Some {
                norm_node(ref_target(fields, defs)->Some_0, defs, (fuel - 1) as nat)
            } else {
                Json::Obj(strip_meta(norm_fields(fields, defs, fuel)))
            }
        }
        _ => j,
    }
}

/// Normalize every field of an object, each according to its key.
pub open spec fn norm_fields(
    fields: Seq<(Seq<char>, Json)>,
    defs: Option<Json>,
    fuel: nat,
) -> Seq<(Seq<char>, Json)>
    decreases fuel, fields, 0int,
{
    Seq::new(
        fields.len(),
        |i: int|
            if 0 <= i < fields.len() {
                norm_pair(fields[i], defs, fuel)
            } else {
                (Seq::empty(), Json::Null)
            },
    )
}

/// Normalize one field: collapse a union under `type`, recurse into the
/// values of `properties`, into `items` (one schema or a sequence of them),
/// and into `additionalProperties`; leave every other field unchanged.
pub open spec fn norm_pair(
    p: (Seq<char>, Json),
    defs: Option<Json>,
    fuel: nat,
) -> (Seq<char>, Json)
    decreases fuel, p, 1int,
{
    if p.0 == "type"@ {
        (p.0, collapse_type_value(p.1))
    } else if p.0 == "properties"@ {
        match p.1 {
            Json::Obj(props) => (
                p.0,
                Json::Obj(
                    Seq::new(
                        props.len(),
                        |i: int|
                            if 0 <= i < props.len() {
                                (props[i].0, norm_node(props[i].1, defs, fuel))
                            } else {
                                (Seq::empty(), Json::Null)
                            },
                    ),
                ),
            ),
            _ => p,
        }
    } else if p.0 == "items"@ {
        match p.1 {
            Json::Arr(elems) => (
                p.0,
                Json::Arr(
                    Seq::new(
                        elems.len(),
                        |i: int|
                            if 0 <= i < elems.len() {
                                norm_node(elems[i], defs, fuel)
                            } else {
                                Json::Null
                            },
                    ),
                ),
            ),
            _ => (p.0, norm_node(p.1, defs, fuel)),
        }
    } else if p.0 == "additionalProperties"@ {
        (p.0, norm_node(p.1, defs, fuel))
    } else {
        p
    }
}

/// Whole-document normalization: the definitions table is the document's own
/// `$defs` value, and the tree is rewritten by `norm_node`.
pub open spec fn norm_doc(j: Json) -> Json {
    norm_node(j, get_of(j, "$defs"@), REF_FUEL as nat)
}

/// Whether the captured definitions table binds no name directly to an
/// array.  A reference that resolves to an array defeats idempotence of the
/// pass when it stands under `items`: the first pass inlines the array
/// verbatim, the second normalizes its elements.
pub open spec fn defs_without_arrays(defs: Option<Json>) -> bool {
    match defs {
        Some(Json::Obj(df)) => forall|i: int|
            0 <= i < df.len() ==> !((#[trigger] df[i]).1 is Arr),
        _ => true,
    }
}

proof fn lemma_obj_get_is_entry(s: Seq<(Seq<char>, Json)>, k: Seq<char>)
    requires
        obj_get(s, k) is Some,
    ensures
        exists|i: int| 0 <= i < s.len() && s[i].1 == obj_get(s, k)->Some_0,
    decreases s.len(),
{
    if s.len() > 0 && s[0].0 != k {
        lemma_obj_get_is_entry(s.drop_first(), k);
        let i = choose|i: int|
            0 <= i < s.drop_first().len() && s.drop_first()[i].1 == obj_get(s, k)->Some_0;
        assert(s[i + 1].1 == obj_get(s, k)->Some_0);
    }
}

/// Normalization never turns a non-array into an array, provided no
/// definition is itself an array.
proof fn lemma_norm_not_arr(j: Json, defs: Option<Json>, fuel: nat)
    requires
        defs_without_arrays(defs),
        !(j is Arr),
    ensures
        !(norm_node(j, defs, fuel) is Arr),
    decreases fuel, j,
{
    match j {
        Json::Obj(fields) => {
            if fuel > 0 && ref_target(fields, defs) is Some {
                let t = ref_target(fields, defs)->Some_0;
                match defs {
                    Some(Json::Obj(df)) => {
                        lemma_obj_get_is_entry(df, obj_get(fields, "$ref"@)->Some_0->Str_0.skip(8));
                        lemma_norm_not_arr(t, defs, (fuel - 1) as nat);
                    }
                    _ => {}
                }
            }
        }
        _ => {}
    }
}

/// Every element of a stripped field list keeps a non-metadata key and
/// comes from the unstripped list.
proof fn lemma_strip_elts(s: Seq<(Seq<char>, Json)>, k: int)
    requires
        0 <= k < strip_meta(s).len(),
    ensures
        !is_stripped_key(strip_meta(s)[k].0),
        exists|i: int| 0 <= i < s.len() && strip_meta(s)[k] == s[i],
    decreases s.len(),
{
    if s.len() > 0 {
        if is_stripped_key(s[0].0) {
            lemma_strip_elts(s.drop_first(), k);
            let i = choose|i: int|
                0 <= i < s.drop_first().len() && strip_meta(s)[k] == s.drop_first()[i];
            assert(strip_meta(s)[k] == s[i + 1]);
        } else {
            if k == 0 {
                assert(strip_meta(s)[0] == s[0]);
            } else {
                lemma_strip_elts(s.drop_first(), k - 1);
                let i = choose|i: int|
                    0 <= i < s.drop_first().len() && strip_meta(s.drop_first())[k - 1]
                        == s.drop_first()[i];
                assert(strip_meta(s)[k] == s[i + 1]);
            }
        }
    }
}

/// Stripping is idempotent.
proof fn lemma_strip_idem(s: Seq<(Seq<char>, Json)>)
    ensures
        strip_meta(strip_meta(s)) == strip_meta(s),
    decreases s.len(),
{
    if s.len() > 0 {
        lemma_strip_idem(s.drop_first());
        if is_stripped_key(s[0].0) {
        } else {
            let t = seq![s[0]] + strip_meta(s.drop_first());
            assert(t.drop_first() =~= strip_meta(s.drop_first()));
            assert(strip_meta(t) =~= seq![s[0]] + strip_meta(strip_meta(s.drop_first())));
            assert(strip_meta(strip_meta(s)) =~= strip_meta(s));
        }
    }
}

/// Every element of `non_null_names` is itself a concrete type name.
proof fn lemma_names_elt(elems: Seq<Json>, k: int)
    requires
        0 <= k < non_null_names(elems).len(),
    ensures
        is_non_null_name(non_null_names(elems)[k]),
    decreases elems.len(),
{
    if elems.len() > 0 {
        if is_non_null_name(elems[0]) {
            if k > 0 {
                lemma_names_elt(elems.drop_first(), k - 1);
            }
        } else {
            lemma_names_elt(elems.drop_first(), k);
        }
    }
}

/// Collapsing a `type` value twice gives the same result as collapsing it
/// once.
pub proof fn lemma_collapse_idem(t: Json)
    ensures
        collapse_type_value(collapse_type_value(t)) == collapse_type_value(t),
{
    match t {
        Json::Arr(elems) => {
            if non_null_names(elems).len() > 0 {
                lemma_names_elt(elems, 0);
            }
        }
        _ => {}
    }
}

/// Normalizing one field is idempotent: a second pass, run without a
/// definitions table, leaves the field unchanged.
proof fn lemma_norm_pair_idem(p: (Seq<char>, Json), defs: Option<Json>, fuel: nat, g: nat)
    requires
        defs_without_arrays(defs),
    ensures
        norm_pair(norm_pair(p, defs, fuel), None, g) == norm_pair(p, defs, fuel),
    decreases fuel, p, 1int,
{
    let q = norm_pair(p, defs, fuel);
    if p.0 == "type"@ {
        lemma_collapse_idem(p.1);
    } else if p.0 == "properties"@ {
        match p.1 {
            Json::Obj(props) => {
                let s1 = q.1->Obj_0;
                assert forall|i: int| 0 <= i < s1.len() implies norm_pair(q, None, g).1->Obj_0[i]
                    == s1[i] by {
                    lemma_norm_idem(props[i].1, defs, fuel, g);
                }
                assert(norm_pair(q, None, g).1->Obj_0 =~= s1);
            }
            _ => {}
        }
    } else if p.0 == "items"@ {
        match p.1 {
            Json::Arr(elems) => {
                let s1 = q.1->Arr_0;
                assert forall|i: int| 0 <= i < s1.len() implies norm_pair(q, None, g).1->Arr_0[i]
                    == s1[i] by {
                    lemma_norm_idem(elems[i], defs, fuel, g);
                }
                assert(norm_pair(q, None, g).1->Arr_0 =~= s1);
            }
            _ => {
                lemma_norm_not_arr(p.1, defs, fuel);
                lemma_norm_idem(p.1, defs, fuel, g);
            }
        }
    } else if p.0 == "additionalProperties"@ {
        lemma_norm_idem(p.1, defs, fuel, g);
    }
}

/// Normalizing a node is idempotent: a second pass, run without a
/// definitions table, leaves the tree unchanged.
pub proof fn lemma_norm_idem(j: Json, defs: Option<Json>, fuel: nat, g: nat)
    requires
        defs_without_arrays(defs),
    ensures
        norm_node(norm_node(j, defs, fuel), None, g) == norm_node(j, defs, fuel),
    decreases fuel, j, 2int,
{
    match j {
        Json::Obj(fields) => {
            if fuel > 0 && ref_target(fields, defs) is Some {
                lemma_norm_idem(ref_target(fields, defs)->Some_0, defs, (fuel - 1) as nat, g);
            } else {
                let kf = norm_fields(fields, defs, fuel);
                let c = strip_meta(kf);
                assert(ref_target(c, None) is None);
                assert forall|k: int| 0 <= k < c.len() implies norm_fields(c, None, g)[k]
                    == c[k] by {
                    lemma_strip_elts(kf, k);
                    let i = choose|i: int| 0 <= i < kf.len() && c[k] == kf[i];
                    assert(kf[i] == norm_pair(fields[i], defs, fuel));
                    lemma_norm_pair_idem(fields[i], defs, fuel, g);
                }
                assert(norm_fields(c, None, g) =~= c);
                lemma_strip_idem(kf);
            }
        }
        _ => {}
    }
}

/// The stripping guarantee: no object the pass visits carries a metadata
/// key afterwards; in particular the root of the output carries none.
pub proof fn lemma_norm_strips_meta(j: Json, defs: Option<Json>, fuel: nat, key: Seq<char>)
    requires
        is_stripped_key(key),
    ensures
        get_of(norm_node(j, defs, fuel), key) is None,
    decreases fuel, j,
{
    match j {
        Json::Obj(fields) => {
            if fuel > 0 && ref_target(fields, defs) is Some {
                lemma_norm_strips_meta(
                    ref_target(fields, defs)->Some_0,
                    defs,
                    (fuel - 1) as nat,
                    key,
                );
            } else {
                let c = strip_meta(norm_fields(fields, defs, fuel));
                assert forall|k: int| 0 <= k < c.len() implies c[k].0 != key by {
                    lemma_strip_elts(norm_fields(fields, defs, fuel), k);
                }
                lemma_obj_get_none(c, key);
            }
        }
        _ => {}
    }
}

/// Normalization is idempotent at the document level: running the pass on
/// its own output is a no-op, provided no definition of the document's own
/// `$defs` table is itself an array.
pub proof fn lemma_normalize_idempotent(j: Json)
    requires
        defs_without_arrays(get_of(j, "$defs"@)),
    ensures
        norm_doc(norm_doc(j)) == norm_doc(j),
{
    let d = get_of(j, "$defs"@);
    lemma_norm_strips_meta(j, d, REF_FUEL as nat, "$defs"@);
    lemma_norm_idem(j, d, REF_FUEL as nat, REF_FUEL as nat);
}

/// A nullable union of one concrete name collapses to that name: a `type`
/// of the form `[t, "null"]` becomes `t`.
pub proof fn lemma_collapse_nullable_union(t: Seq<char>)
    requires
        t != "null"@,
    ensures
        collapse_type_value(Json::Arr(seq![Json::Str(t), Json::Str("null"@)]))
            == Json::Str(t),
{
    reveal_with_fuel(non_null_names, 4);
    let elems = seq![Json::Str(t), Json::Str("null"@)];
    assert(elems.drop_first() =~= seq![Json::Str("null"@)]);
    assert(elems.drop_first().drop_first() =~= Seq::<Json>::empty());
    assert(non_null_names(elems) =~= seq![Json::Str(t)]);
}

/// A `type` of exactly `["string", "null"]` collapses to `"string"`.
pub proof fn lemma_collapse_string_null()
    ensures
        collapse_type_value(Json::Arr(seq![Json::Str("string"@), Json::Str("null"@)]))
            == Json::Str("string"@),
{
    reveal_strlit("string");
    reveal_strlit("null");
    assert("string"@.len() == 6);
    assert("null"@.len() == 4);
    lemma_collapse_nullable_union("string"@);
}

/// A `type` of `["null"]` or `[]` falls back to the safe default
/// `"string"`.
pub proof fn lemma_collapse_null_or_empty()
    ensures
        collapse_type_value(Json::Arr(seq![Json::Str("null"@)])) == Json::Str("string"@),
        collapse_type_value(Json::Arr(Seq::<Json>::empty())) == Json::Str("string"@),
{
    reveal_with_fuel(non_null_names, 3);
    let elems = seq![Json::Str("null"@)];
    assert(elems.drop_first() =~= Seq::<Json>::empty());
    assert(non_null_names(elems) =~= Seq::<Json>::empty());
}

/// Whether `key` is one of the metadata keys the pass removes.
pub fn is_meta_key(key: &str) -> (r: bool)
    ensures
        r == is_stripped_key(key@),
{
    str_eq(key, "$schema") || str_eq(key, "$id") || str_eq(key, "title") || str_eq(key, "$defs")
}

/// Collapse a union `type` value, as `collapse_type_value` describes.
#[verifier::loop_isolation(false)]
pub fn collapse_nullable_type(t: &JsonValue) -> (r: JsonValue)
    ensures
        r.deep_view() == collapse_type_value(t.deep_view()),
{
    match t {
        JsonValue::Arr(elems) => {
            let mut i: usize = 0;
            while i < elems.len()
                invariant
                    i <= elems.len(),
                    forall|j: int| 0 <= j < i ==> !is_non_null_name(arr_deep(elems@)[j]),
                decreases elems.len() - i,
            {
                proof {
                    assert(arr_deep(elems@)[i as int] == elems@[i as int].deep_view());
                }
                match &elems[i] {
                    JsonValue::Str(s) => {
                        if !str_eq(s.as_str(), "null") {
                            proof {
                                assert(arr_deep(elems@)[i as int] == Json::Str(s@));
                                lemma_names_first(arr_deep(elems@), i as int);
                            }
                            return JsonValue::Str(s.clone());
                        }
                        proof {
                            assert(!is_non_null_name(arr_deep(elems@)[i as int]));
                        }
                    }
                    _ => {
                        proof {
                            assert(!(elems@[i as int].deep_view() is Str));
                            assert(!is_non_null_name(arr_deep(elems@)[i as int]));
                        }
                    }
                }
                i = i + 1;
            }
            proof {
                lemma_names_none(arr_deep(elems@));
            }
            JsonValue::Str("string".to_owned())
        }
        _ => t.deep_copy(),
    }
}

/// Resolve a `#/$defs/<name>` pointer against the captured definitions
/// table, returning a copy of the referenced node.
pub fn resolve_local_ref(defs: Option<&JsonValue>, reference: &str) -> (r: Option<JsonValue>)
    ensures
        match r {
            Some(t) => resolve_ref(defs.deep_view(), reference@) == Some(t.deep_view()),
            None => resolve_ref(defs.deep_view(), reference@) is None,
        },
{
    match defs {
        Some(JsonValue::Obj(dfields)) => {
            let n = reference.unicode_len();
            if n < 8 {
                return None;
            }
            let prefix = reference.substring_char(0, 8);
            if !str_eq(prefix, "#/$defs/") {
                return None;
            }
            let name = reference.substring_char(8, n);
            proof {
                assert(name@ =~= reference@.skip(8));
            }
            match obj_lookup(dfields, name) {
                Some(v) => Some(v.deep_copy()),
                None => None,
            }
        }
        _ => None,
    }
}

/// Normalize one field of an object, as `norm_pair` describes.
#[verifier::loop_isolation(false)]
pub fn normalize_field(key: &String, value: &JsonValue, defs: Option<&JsonValue>, fuel: u64) -> (r:
    JsonValue)
    ensures
        (key@, r.deep_view()) == norm_pair(
            (key@, value.deep_view()),
            defs.deep_view(),
            fuel as nat,
        ),
    decreases fuel, value, 1int,
{
    if str_eq(key.as_str(), "type") {
        collapse_nullable_type(value)
    } else if str_eq(key.as_str(), "properties") {
        match value {
            JsonValue::Obj(props) => {
                let mut out: Vec<(String, JsonValue)> = Vec::new();
                let mut i: usize = 0;
                while i < props.len()
                    invariant
                        i <= props.len(),
                        out@.len() == i as int,
                        forall|k: int|
                            0 <= k < i ==> (#[trigger] out@[k]).0@ == props@[k].0@
                                && out@[k].1.deep_view() == norm_node(
                                props@[k].1.deep_view(),
                                defs.deep_view(),
                                fuel as nat,
                            ),
                    decreases props.len() - i,
                {
                    let nv = normalize_schema_node(&props[i].1, defs, fuel);
                    out.push((props[i].0.clone(), nv));
                    i = i + 1;
                }
                proof {
                    let d = defs.deep_view();
                    let fl = fuel as nat;
                    let np = norm_pair((key@, value.deep_view()), d, fl);
                    let sp = np.1->Obj_0;
                    assert(value.deep_view() == Json::Obj(pairs_deep(props@)));
                    assert(sp.len() == props@.len());
                    assert forall|k: int| 0 <= k < props@.len() implies pairs_deep(out@)[k]
                        == sp[k] by {
                        assert(pairs_deep(props@)[k] == (props@[k].0@, props@[k].1.deep_view()));
                        assert(sp[k] == (pairs_deep(props@)[k].0, norm_node(pairs_deep(props@)[k].1, d, fl)));
                        assert(pairs_deep(out@)[k] == (out@[k].0@, out@[k].1.deep_view()));
                        assert(out@[k].0@ == props@[k].0@);
                        assert(out@[k].1.deep_view() == norm_node(props@[k].1.deep_view(), d, fl));
                    };
                    assert(pairs_deep(out@) =~= sp);
                }
                JsonValue::Obj(out)
            }
            _ => value.deep_copy(),
        }
    } else if str_eq(key.as_str(), "items") {
        match value {
            JsonValue::Arr(elems) => {
                let mut out: Vec<JsonValue> = Vec::new();
                let mut i: usize = 0;
                while i < elems.len()
                    invariant
                        i <= elems.len(),
                        out@.len() == i as int,
                        forall|k: int|
                            0 <= k < i ==> (#[trigger] out@[k]).deep_view() == norm_node(
                                elems@[k].deep_view(),
                                defs.deep_view(),
                                fuel as nat,
                            ),
                    decreases elems.len() - i,
                {
                    let nv = normalize_schema_node(&elems[i], defs, fuel);
                    out.push(nv);
                    i = i + 1;
                }
                proof {
                    let np = norm_pair((key@, value.deep_view()), defs.deep_view(), fuel as nat);
                    assert(arr_deep(out@) =~= np.1->Arr_0);
                }
                JsonValue::Arr(out)
            }
            _ => normalize_schema_node(value, defs, fuel),
        }
    } else if str_eq(key.as_str(), "additionalProperties") {
        normalize_schema_node(value, defs, fuel)
    } else {
        value.deep_copy()
    }
}

/// Normalize a schema node, as `norm_node` describes: resolve a leading
/// `$ref` (bounded by `fuel`), then strip metadata keys and rewrite each
/// remaining field.
#[verifier::loop_isolation(false)]
pub fn normalize_schema_node(schema: &JsonValue, defs: Option<&JsonValue>, fuel: u64) -> (r:
    JsonValue)
    ensures
        r.deep_view() == norm_node(schema.deep_view(), defs.deep_view(), fuel as nat),
    decreases fuel, schema, 0int,
{
    let ghost d = defs.deep_view();
    let ghost fl = fuel as nat;
    match schema {
        JsonValue::Obj(fields) => {
            let ghost gf = pairs_deep(fields@);
            if fuel > 0 {
                let mut resolved: Option<JsonValue> = None;
                match obj_lookup(fields, "$ref") {
                    Some(JsonValue::Str(r)) => {
                        resolved = resolve_local_ref(defs, r.as_str());
                    }
                    _ => {}
                }
                match resolved {
                    Some(target) => {
                        proof {
                            assert(ref_target(gf, d) == Some(target.deep_view()));
                        }
                        return normalize_schema_node(&target, defs, fuel - 1);
                    }
                    None => {
                        proof {
                            assert(ref_target(gf, d) is None);
                        }
                    }
                }
            }
            let mut out: Vec<(String, JsonValue)> = Vec::new();
            let mut i: usize = 0;
            while i < fields.len()
                invariant
                    i <= fields.len(),
                    pairs_deep(out@) == strip_meta(norm_fields(gf.take(i as int), d, fl)),
                decreases fields.len() - i,
            {
                proof {
                    assert(norm_fields(gf.take(i as int + 1), d, fl) =~= norm_fields(
                        gf.take(i as int),
                        d,
                        fl,
                    ).push(norm_pair(gf[i as int], d, fl)));
                    lemma_strip_push(
                        norm_fields(gf.take(i as int), d, fl),
                        norm_pair(gf[i as int], d, fl),
                    );
                    assert(norm_pair(gf[i as int], d, fl).0 == gf[i as int].0);
                }
                if !is_meta_key(fields[i].0.as_str()) {
                    let nv = normalize_field(&fields[i].0, &fields[i].1, defs, fuel);
                    let ghost prev = out@;
                    out.push((fields[i].0.clone(), nv));
                    proof {
                        assert(pairs_deep(out@) =~= pairs_deep(prev).push(
                            (fields@[i as int].0@, nv.deep_view()),
                        ));
                    }
                }
                i = i + 1;
            }
            proof {
                assert(gf.take(fields@.len() as int) =~= gf);
            }
            JsonValue::Obj(out)
        }
        _ => schema.deep_copy(),
    }
}

} // verus!
