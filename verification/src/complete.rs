//! Schema completion: every object-typed schema must carry explicit `type`,
//! `properties` and `required` fields, which provider APIs validate strictly.
//!
//! A root schema with an absent (or non-string) `type` counts as an object;
//! a nested property schema is only touched when its `type` is explicitly
//! the string `"object"`.  Callers rely on this asymmetry: scalar, array and
//! union-typed property schemas are left exactly as they came.

use vstd::prelude::*;

use crate::json::{
    lemma_obj_get_has_key, lemma_obj_get_none, obj_get, obj_has_key, obj_lookup, pairs_deep,
    str_eq, Json, JsonValue,
};

verus! {

/// Whether an object counts as object-typed for completion: `type` absent,
/// `type` not a string, or `type` equal to `"object"`.
pub open spec fn is_object_typed(fields: Seq<(Seq<char>, Json)>) -> bool {
    match obj_get(fields, "type"@) {
        Some(Json::Str(s)) => s == "object"@,
        Some(_) => true,
        None => true,
    }
}

/// Whether a property schema is explicitly typed `"object"`; only such
/// properties are descended into.
pub open spec fn explicit_object(v: Json) -> bool {
    match v {
        Json::Obj(pf) => obj_get(pf, "type"@) matches Some(Json::Str(s)) && s == "object"@,
        _ => false,
    }
}

/// Complete one property schema: descend exactly when it is explicitly
/// object-typed.
pub open spec fn complete_prop(v: Json) -> Json
    decreases v, 1int,
{
    if explicit_object(v) {
        complete_node(v)
    } else {
        v
    }
}

/// Complete every property value of a `properties` object.
pub open spec fn complete_props(props: Seq<(Seq<char>, Json)>) -> Seq<(Seq<char>, Json)>
    decreases props, 2int,
{
    Seq::new(
        props.len(),
        |i: int|
            if 0 <= i < props.len() {
                (props[i].0, complete_prop(props[i].1))
            } else {
                (Seq::empty(), Json::Null)
            },
    )
}

/// Complete one field of an object-typed schema: only the value under
/// `properties` is descended into.
pub open spec fn complete_field(p: (Seq<char>, Json)) -> (Seq<char>, Json)
    decreases p, 2int,
{
    if p.0 == "properties"@ {
        match p.1 {
            Json::Obj(props) => (p.0, Json::Obj(complete_props(props))),
            _ => p,
        }
    } else {
        p
    }
}

/// Complete every field of an object-typed schema.
pub open spec fn complete_fields(fields: Seq<(Seq<char>, Json)>) -> Seq<(Seq<char>, Json)>
    decreases fields, 3int,
{
    Seq::new(
        fields.len(),
        |i: int|
            if 0 <= i < fields.len() {
                complete_field(fields[i])
            } else {
                (Seq::empty(), Json::Null)
            },
    )
}

/// Completion of one schema node: descend into properties, then append the
/// missing structural fields (`properties`, `required`, `type`) in that
/// order.  Nothing else is removed or rewritten.
pub open spec fn complete_node(j: Json) -> Json
    decreases j, 0int,
{
    match j {
        Json::Obj(fields) => {
            if is_object_typed(fields) {
                let base = complete_fields(fields);
                let w1 = if obj_has_key(fields, "properties"@) {
                    base
                } else {
                    base.push(("properties"@, Json::Obj(Seq::empty())))
                };
                let w2 = if obj_has_key(fields, "required"@) {
                    w1
                } else {
                    w1.push(("required"@, Json::Arr(Seq::empty())))
                };
                let w3 = if obj_has_key(fields, "type"@) {
                    w2
                } else {
                    w2.push(("type"@, Json::Str("object"@)))
                };
                Json::Obj(w3)
            } else {
                j
            }
        }
        _ => j,
    }
}

/// The keys completion inserts are three distinct literals.
proof fn lemma_structural_keys_distinct()
    ensures
        "type"@ != "properties"@,
        "type"@ != "required"@,
        "required"@ != "properties"@,
{
    reveal_strlit("type");
    reveal_strlit("properties");
    reveal_strlit("required");
    assert("type"@.len() == 4);
    assert("properties"@.len() == 10);
    assert("required"@.len() == 8);
}

/// Completing the fields of an object touches no field bound to a key other
/// than `properties`.
proof fn lemma_cf_get_other(fields: Seq<(Seq<char>, Json)>, k: Seq<char>)
    requires
        k != "properties"@,
    ensures
        obj_get(complete_fields(fields), k) == obj_get(fields, k),
    decreases fields.len(),
{
    if fields.len() > 0 {
        assert(complete_fields(fields).drop_first() =~= complete_fields(fields.drop_first()));
        assert(complete_field(fields[0]).0 == fields[0].0);
        if fields[0].0 == k {
            assert(complete_field(fields[0]) == fields[0]);
        } else {
            lemma_cf_get_other(fields.drop_first(), k);
        }
    }
}

/// Completing the fields of an object keeps every key in place.
proof fn lemma_cf_keys(fields: Seq<(Seq<char>, Json)>, k: Seq<char>)
    ensures
        obj_has_key(complete_fields(fields), k) <==> obj_has_key(fields, k),
{
    let cf = complete_fields(fields);
    assert forall|i: int| 0 <= i < fields.len() implies (#[trigger] cf[i]).0
        == fields[i].0 by {
        assert(complete_field(fields[i]).0 == fields[i].0);
    }
    if obj_has_key(fields, k) {
        let i = choose|i: int| 0 <= i < fields.len() && fields[i].0 == k;
        assert(cf[i].0 == k);
    }
    if obj_has_key(cf, k) {
        let i = choose|i: int| 0 <= i < cf.len() && cf[i].0 == k;
        assert(fields[i].0 == k);
    }
}

/// The first occurrence of `k` in `s.push(x)`.
proof fn lemma_obj_get_push(s: Seq<(Seq<char>, Json)>, x: (Seq<char>, Json), k: Seq<char>)
    ensures
        obj_get(s.push(x), k) == if obj_get(s, k) is Some {
            obj_get(s, k)
        } else if x.0 == k {
            Some(x.1)
        } else {
            None
        },
{
    assert(s.push(x) =~= s + seq![x]);
    crate::json::lemma_obj_get_concat(s, seq![x], k);
    if obj_get(s, k) is None {
        if x.0 != k {
            lemma_obj_get_none(seq![x], k);
        }
    }
}

/// The completion guarantee: a completed object-typed schema carries
/// `properties`, `required` and `type`, and its `type` is the original
/// value where one was present, the inserted `"object"` where none was.
pub proof fn lemma_complete_get_type(fields: Seq<(Seq<char>, Json)>)
    requires
        is_object_typed(fields),
    ensures
        complete_node(Json::Obj(fields)) is Obj,
        obj_get(complete_node(Json::Obj(fields))->Obj_0, "type"@) == if obj_get(fields, "type"@)
            is Some {
            obj_get(fields, "type"@)
        } else {
            Some(Json::Str("object"@))
        },
        obj_has_key(complete_node(Json::Obj(fields))->Obj_0, "properties"@),
        obj_has_key(complete_node(Json::Obj(fields))->Obj_0, "required"@),
        obj_has_key(complete_node(Json::Obj(fields))->Obj_0, "type"@),
{
    lemma_structural_keys_distinct();
    let base = complete_fields(fields);
    lemma_cf_get_other(fields, "type"@);
    lemma_cf_get_other(fields, "required"@);
    lemma_cf_keys(fields, "properties"@);
    lemma_cf_keys(fields, "required"@);
    lemma_cf_keys(fields, "type"@);
    lemma_obj_get_has_key(fields, "properties"@);
    lemma_obj_get_has_key(fields, "required"@);
    lemma_obj_get_has_key(fields, "type"@);
    lemma_obj_get_has_key(base, "type"@);
    let w1 = if obj_has_key(fields, "properties"@) {
        base
    } else {
        base.push(("properties"@, Json::Obj(Seq::empty())))
    };
    let w2 = if obj_has_key(fields, "required"@) {
        w1
    } else {
        w1.push(("required"@, Json::Arr(Seq::empty())))
    };
    let w3 = if obj_has_key(fields, "type"@) {
        w2
    } else {
        w2.push(("type"@, Json::Str("object"@)))
    };
    if !obj_has_key(fields, "properties"@) {
        lemma_obj_get_push(base, ("properties"@, Json::Obj(Seq::empty())), "type"@);
    }
    if !obj_has_key(fields, "required"@) {
        lemma_obj_get_push(w1, ("required"@, Json::Arr(Seq::empty())), "type"@);
    }
    if !obj_has_key(fields, "type"@) {
        lemma_obj_get_push(w2, ("type"@, Json::Str("object"@)), "type"@);
    }
    lemma_obj_get_has_key(w3, "type"@);
    assert(obj_has_key(w3, "properties"@)) by {
        if obj_has_key(fields, "properties"@) {
            let i = choose|i: int| 0 <= i < base.len() && base[i].0 == "properties"@;
            assert(w3[i].0 == "properties"@);
        } else {
            let i = base.len() as int;
            assert(w3[i].0 == "properties"@);
        }
    }
    assert(obj_has_key(w3, "required"@)) by {
        if obj_has_key(fields, "required"@) {
            let i = choose|i: int| 0 <= i < base.len() && base[i].0 == "required"@;
            assert(w3[i].0 == "required"@);
        } else {
            let i = w1.len() as int;
            assert(w3[i].0 == "required"@);
        }
    }
}

/// Completing one property twice gives the same schema as completing it
/// once.
pub proof fn lemma_complete_prop_idem(v: Json)
    ensures
        complete_prop(complete_prop(v)) == complete_prop(v),
    decreases v, 1int,
{
    if explicit_object(v) {
        let fields = v->Obj_0;
        lemma_complete_get_type(fields);
        assert(explicit_object(complete_node(v)));
        lemma_complete_idem(v);
    }
}

proof fn lemma_complete_props_idem(props: Seq<(Seq<char>, Json)>)
    ensures
        complete_props(complete_props(props)) == complete_props(props),
    decreases props, 2int,
{
    assert forall|i: int| 0 <= i < props.len() implies complete_props(complete_props(props))[i]
        == complete_props(props)[i] by {
        lemma_complete_prop_idem(props[i].1);
    }
    assert(complete_props(complete_props(props)) =~= complete_props(props));
}

proof fn lemma_complete_field_idem(p: (Seq<char>, Json))
    ensures
        complete_field(complete_field(p)) == complete_field(p),
    decreases p, 3int,
{
    if p.0 == "properties"@ {
        match p.1 {
            Json::Obj(props) => {
                lemma_complete_props_idem(props);
            }
            _ => {}
        }
    }
}

/// Completion is idempotent: completing a completed schema changes nothing.
pub proof fn lemma_complete_idem(j: Json)
    ensures
        complete_node(complete_node(j)) == complete_node(j),
    decreases j, 0int,
{
    match j {
        Json::Obj(fields) => {
            if is_object_typed(fields) {
                lemma_structural_keys_distinct();
                lemma_complete_get_type(fields);
                let base = complete_fields(fields);
                let w1 = if obj_has_key(fields, "properties"@) {
                    base
                } else {
                    base.push(("properties"@, Json::Obj(Seq::empty())))
                };
                let w2 = if obj_has_key(fields, "required"@) {
                    w1
                } else {
                    w1.push(("required"@, Json::Arr(Seq::empty())))
                };
                let w3 = if obj_has_key(fields, "type"@) {
                    w2
                } else {
                    w2.push(("type"@, Json::Str("object"@)))
                };
                assert(is_object_typed(w3));
                assert forall|i: int| 0 <= i < w3.len() implies complete_fields(w3)[i]
                    == w3[i] by {
                    if i < base.len() {
                        assert(w3[i] == complete_field(fields[i]));
                        lemma_complete_field_idem(fields[i]);
                    } else {
                        assert(w3[i].0 == "properties"@ || w3[i].0 == "required"@ || w3[i].0
                            == "type"@);
                        if w3[i].0 == "properties"@ {
                            assert(w3[i].1 == Json::Obj(Seq::<(Seq<char>, Json)>::empty()));
                            assert(complete_props(Seq::<(Seq<char>, Json)>::empty()) =~= Seq::<(
                                Seq<char>,
                                Json,
                            )>::empty());
                        }
                    }
                }
                assert(complete_fields(w3) =~= w3);
            }
        }
        _ => {}
    }
}

/// Completing an object-typed schema that lacks `properties` and `required`
/// appends exactly `properties: {}` and `required: []`, and no field bound
/// to any other key changes.
pub proof fn lemma_complete_inserts_missing(fields: Seq<(Seq<char>, Json)>, k: Seq<char>)
    requires
        is_object_typed(fields),
        !obj_has_key(fields, "properties"@),
        !obj_has_key(fields, "required"@),
    ensures
        complete_node(Json::Obj(fields)) is Obj,
        obj_get(complete_node(Json::Obj(fields))->Obj_0, "properties"@) == Some(
            Json::Obj(Seq::<(Seq<char>, Json)>::empty()),
        ),
        obj_get(complete_node(Json::Obj(fields))->Obj_0, "required"@) == Some(
            Json::Arr(Seq::<Json>::empty()),
        ),
        k != "properties"@ && k != "required"@ && k != "type"@ ==> obj_get(
            complete_node(Json::Obj(fields))->Obj_0,
            k,
        ) == obj_get(fields, k),
{
    lemma_structural_keys_distinct();
    let base = complete_fields(fields);
    let w1 = base.push(("properties"@, Json::Obj(Seq::empty())));
    let w2 = w1.push(("required"@, Json::Arr(Seq::empty())));
    let w3 = if obj_has_key(fields, "type"@) {
        w2
    } else {
        w2.push(("type"@, Json::Str("object"@)))
    };
    lemma_cf_keys(fields, "properties"@);
    lemma_obj_get_has_key(base, "properties"@);
    lemma_cf_get_other(fields, "required"@);
    lemma_obj_get_has_key(fields, "properties"@);
    lemma_obj_get_has_key(fields, "required"@);
    lemma_obj_get_push(base, ("properties"@, Json::Obj(Seq::empty())), "properties"@);
    lemma_obj_get_push(w1, ("required"@, Json::Arr(Seq::empty())), "properties"@);
    lemma_obj_get_push(base, ("properties"@, Json::Obj(Seq::empty())), "required"@);
    lemma_obj_get_push(w1, ("required"@, Json::Arr(Seq::empty())), "required"@);
    if !obj_has_key(fields, "type"@) {
        lemma_obj_get_push(w2, ("type"@, Json::Str("object"@)), "properties"@);
        lemma_obj_get_push(w2, ("type"@, Json::Str("object"@)), "required"@);
    }
    if k != "properties"@ && k != "required"@ && k != "type"@ {
        lemma_cf_get_other(fields, k);
        lemma_obj_get_push(base, ("properties"@, Json::Obj(Seq::empty())), k);
        lemma_obj_get_push(w1, ("required"@, Json::Arr(Seq::empty())), k);
        if !obj_has_key(fields, "type"@) {
            lemma_obj_get_push(w2, ("type"@, Json::Str("object"@)), k);
        }
    }
}

/// Complete one property schema, as `complete_prop` describes.
pub fn complete_property(v: &JsonValue) -> (r: JsonValue)
    ensures
        r.deep_view() == complete_prop(v.deep_view()),
    decreases v, 1int,
{
    match v {
        JsonValue::Obj(pf) => {
            let explicit = match obj_lookup(pf, "type") {
                Some(JsonValue::Str(s)) => str_eq(s.as_str(), "object"),
                Some(_) => false,
                None => false,
            };
            proof {
                assert(explicit == explicit_object(v.deep_view()));
            }
            if explicit {
                complete_value(v)
            } else {
                v.deep_copy()
            }
        }
        _ => v.deep_copy(),
    }
}

/// Complete one schema node, as `complete_node` describes.
#[verifier::loop_isolation(false)]
pub fn complete_value(v: &JsonValue) -> (r: JsonValue)
    ensures
        r.deep_view() == complete_node(v.deep_view()),
    decreases v, 0int,
{
    match v {
        JsonValue::Obj(fields) => {
            let ghost gf = pairs_deep(fields@);
            let typed = match obj_lookup(fields, "type") {
                Some(JsonValue::Str(s)) => str_eq(s.as_str(), "object"),
                Some(_) => true,
                None => true,
            };
            proof {
                assert(typed == is_object_typed(gf));
            }
            if !typed {
                return v.deep_copy();
            }
            let mut out: Vec<(String, JsonValue)> = Vec::new();
            let mut i: usize = 0;
            while i < fields.len()
                invariant
                    i <= fields.len(),
                    out@.len() == i as int,
                    forall|k: int|
                        0 <= k < i ==> (#[trigger] out@[k]).0@ == complete_field(gf[k]).0
                            && out@[k].1.deep_view() == complete_field(gf[k]).1,
                decreases fields.len() - i,
            {
                let key = &fields[i].0;
                let is_props = str_eq(key.as_str(), "properties");
                let mut handled = false;
                if is_props {
                    match &fields[i].1 {
                        JsonValue::Obj(props) => {
                            let mut inner: Vec<(String, JsonValue)> = Vec::new();
                            let mut k: usize = 0;
                            while k < props.len()
                                invariant
                                    k <= props.len(),
                                    inner@.len() == k as int,
                                    forall|m: int|
                                        0 <= m < k ==> (#[trigger] inner@[m]).0@
                                            == props@[m].0@ && inner@[m].1.deep_view()
                                            == complete_prop(props@[m].1.deep_view()),
                                decreases props.len() - k,
                            {
                                let nv = complete_property(&props[k].1);
                                inner.push((props[k].0.clone(), nv));
                                k = k + 1;
                            }
                            proof {
                                assert(pairs_deep(inner@) =~= complete_props(
                                    pairs_deep(props@),
                                ));
                            }
                            out.push((key.clone(), JsonValue::Obj(inner)));
                            handled = true;
                        }
                        _ => {}
                    }
                }
                if !handled {
                    out.push((key.clone(), fields[i].1.deep_copy()));
                }
                proof {
                    assert(pairs_deep(out@)[i as int] == (
                        complete_field(gf[i as int]).0,
                        complete_field(gf[i as int]).1,
                    ));
                }
                i = i + 1;
            }
            let has_props = obj_lookup(fields, "properties").is_some();
            let has_required = obj_lookup(fields, "required").is_some();
            let has_type = obj_lookup(fields, "type").is_some();
            proof {
                lemma_obj_get_has_key(gf, "properties"@);
                lemma_obj_get_has_key(gf, "required"@);
                lemma_obj_get_has_key(gf, "type"@);
                assert(pairs_deep(out@) =~= complete_fields(gf));
            }
            if !has_props {
                out.push(("properties".to_owned(), JsonValue::Obj(Vec::new())));
                proof {
                    assert(pairs_deep(Seq::<(String, JsonValue)>::empty()) =~= Seq::<(
                        Seq<char>,
                        Json,
                    )>::empty());
                    assert(pairs_deep(out@) =~= complete_fields(gf).push(
                        ("properties"@, Json::Obj(Seq::empty())),
                    ));
                }
            }
            let ghost w1 = pairs_deep(out@);
            if !has_required {
                out.push(("required".to_owned(), JsonValue::Arr(Vec::new())));
                proof {
                    assert(crate::json::arr_deep(Seq::<JsonValue>::empty())
                        =~= Seq::<Json>::empty());
                    assert(pairs_deep(out@) =~= w1.push(("required"@, Json::Arr(Seq::empty()))));
                }
            }
            let ghost w2 = pairs_deep(out@);
            if !has_type {
                out.push(("type".to_owned(), JsonValue::Str("object".to_owned())));
                proof {
                    assert(pairs_deep(out@) =~= w2.push(("type"@, Json::Str("object"@))));
                }
            }
            JsonValue::Obj(out)
        }
        _ => v.deep_copy(),
    }
}

/// Repair a schema in place so that it and every explicitly object-typed
/// property schema below it carry `type`, `properties` and `required`.
pub fn ensure_valid_json_schema(schema: &mut JsonValue)
    ensures
        final(schema).deep_view() == complete_node(old(schema).deep_view()),
{
    let nv = complete_value(schema);
    *schema = nv;
}

} // verus!
