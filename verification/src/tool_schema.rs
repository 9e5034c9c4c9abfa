//! Entry points over batches of tool definitions: each definition carries a
//! parameter schema that is normalized (for dialects that require it) and
//! always completed before the batch is handed to a provider.

use vstd::prelude::*;

use crate::complete::{complete_node, complete_value};
use crate::json::{pairs_deep, str_eq, Json, JsonValue};
use crate::normalize::{norm_doc, normalize_schema_node, REF_FUEL};

verus! {

/// One field of a tool for the responses dialect: an object-shaped
/// `parameters` value is normalized against its own `$defs` and completed.
pub open spec fn responses_field(p: (Seq<char>, Json)) -> (Seq<char>, Json) {
    if p.0 == "parameters"@ && p.1 is Obj {
        (p.0, complete_node(norm_doc(p.1)))
    } else {
        p
    }
}

/// One tool for the responses dialect.
pub open spec fn responses_tool(j: Json) -> Json {
    match j {
        Json::Obj(fields) => Json::Obj(
            Seq::new(
                fields.len(),
                |i: int|
                    if 0 <= i < fields.len() {
                        responses_field(fields[i])
                    } else {
                        (Seq::empty(), Json::Null)
                    },
            ),
        ),
        _ => j,
    }
}

/// One field of a tool's `function` object: an object-shaped `parameters`
/// value is completed (not normalized).
pub open spec fn function_field(p: (Seq<char>, Json)) -> (Seq<char>, Json) {
    if p.0 == "parameters"@ && p.1 is Obj {
        (p.0, complete_node(p.1))
    } else {
        p
    }
}

/// One field of a tool for the chat dialect: only the `function` object is
/// descended into.
pub open spec fn validated_field(p: (Seq<char>, Json)) -> (Seq<char>, Json) {
    if p.0 == "function"@ {
        match p.1 {
            Json::Obj(ff) => (
                p.0,
                Json::Obj(
                    Seq::new(
                        ff.len(),
                        |i: int|
                            if 0 <= i < ff.len() {
                                function_field(ff[i])
                            } else {
                                (Seq::empty(), Json::Null)
                            },
                    ),
                ),
            ),
            _ => p,
        }
    } else {
        p
    }
}

/// One tool for the chat dialect.
pub open spec fn validated_tool(j: Json) -> Json {
    match j {
        Json::Obj(fields) => Json::Obj(
            Seq::new(
                fields.len(),
                |i: int|
                    if 0 <= i < fields.len() {
                        validated_field(fields[i])
                    } else {
                        (Seq::empty(), Json::Null)
                    },
            ),
        ),
        _ => j,
    }
}

/// Normalize a parameter schema in place against its own `$defs` table:
/// afterwards the tree is described exactly by `norm_doc`.
pub fn normalize_schema_for_compatible_provider(schema: &mut JsonValue)
    ensures
        final(schema).deep_view() == norm_doc(old(schema).deep_view()),
{
    let defs: Option<JsonValue> = match schema.get("$defs") {
        Some(d) => Some(d.deep_copy()),
        None => None,
    };
    let nv = normalize_schema_node(schema, defs.as_ref(), REF_FUEL);
    *schema = nv;
}

/// Rewrite one tool of the responses dialect, as `responses_tool` describes.
#[verifier::loop_isolation(false)]
fn rewrite_responses_tool(tool: &JsonValue) -> (r: JsonValue)
    ensures
        r.deep_view() == responses_tool(tool.deep_view()),
{
    match tool {
        JsonValue::Obj(fields) => {
            let ghost gf = pairs_deep(fields@);
            let mut out: Vec<(String, JsonValue)> = Vec::new();
            let mut i: usize = 0;
            while i < fields.len()
                invariant
                    i <= fields.len(),
                    out@.len() == i as int,
                    forall|k: int|
                        0 <= k < i ==> (#[trigger] out@[k]).0@ == responses_field(gf[k]).0
                            && out@[k].1.deep_view() == responses_field(gf[k]).1,
                decreases fields.len() - i,
            {
                let key = &fields[i].0;
                if str_eq(key.as_str(), "parameters") && fields[i].1.is_object() {
                    let mut params = fields[i].1.deep_copy();
                    normalize_schema_for_compatible_provider(&mut params);
                    let completed = complete_value(&params);
                    out.push((key.clone(), completed));
                } else {
                    out.push((key.clone(), fields[i].1.deep_copy()));
                }
                i = i + 1;
            }
            proof {
                let sp = responses_tool(tool.deep_view())->Obj_0;
                assert(pairs_deep(out@) =~= sp);
            }
            JsonValue::Obj(out)
        }
        _ => tool.deep_copy(),
    }
}

/// Rewrite one tool of the chat dialect, as `validated_tool` describes.
#[verifier::loop_isolation(false)]
fn rewrite_validated_tool(tool: &JsonValue) -> (r: JsonValue)
    ensures
        r.deep_view() == validated_tool(tool.deep_view()),
{
    match tool {
        JsonValue::Obj(fields) => {
            let ghost gf = pairs_deep(fields@);
            let mut out: Vec<(String, JsonValue)> = Vec::new();
            let mut i: usize = 0;
            while i < fields.len()
                invariant
                    i <= fields.len(),
                    out@.len() == i as int,
                    forall|k: int|
                        0 <= k < i ==> (#[trigger] out@[k]).0@ == validated_field(gf[k]).0
                            && out@[k].1.deep_view() == validated_field(gf[k]).1,
                decreases fields.len() - i,
            {
                let key = &fields[i].0;
                let mut handled = false;
                if str_eq(key.as_str(), "function") {
                    match &fields[i].1 {
                        JsonValue::Obj(ff) => {
                            let mut inner: Vec<(String, JsonValue)> = Vec::new();
                            let mut k: usize = 0;
                            while k < ff.len()
                                invariant
                                    k <= ff.len(),
                                    inner@.len() == k as int,
                                    forall|m: int|
                                        0 <= m < k ==> (#[trigger] inner@[m]).0@
                                            == function_field(pairs_deep(ff@)[m]).0
                                            && inner@[m].1.deep_view() == function_field(
                                            pairs_deep(ff@)[m],
                                        ).1,
                                decreases ff.len() - k,
                            {
                                let fkey = &ff[k].0;
                                if str_eq(fkey.as_str(), "parameters") && ff[k].1.is_object() {
                                    let completed = complete_value(&ff[k].1);
                                    inner.push((fkey.clone(), completed));
                                } else {
                                    inner.push((fkey.clone(), ff[k].1.deep_copy()));
                                }
                                k = k + 1;
                            }
                            proof {
                                assert(gf[i as int].0 == key@);
                                assert(gf[i as int].1 == Json::Obj(pairs_deep(ff@)));
                                let sp = validated_field(gf[i as int]).1->Obj_0;
                                assert(sp.len() == ff@.len());
                                assert forall|m: int| 0 <= m < ff@.len() implies pairs_deep(
                                    inner@,
                                )[m] == sp[m] by {
                                    assert(sp[m] == function_field(pairs_deep(ff@)[m]));
                                    assert(pairs_deep(inner@)[m] == (
                                        inner@[m].0@,
                                        inner@[m].1.deep_view(),
                                    ));
                                };
                                assert(pairs_deep(inner@) =~= sp);
                            }
                            out.push((key.clone(), JsonValue::Obj(inner)));
                            handled = true;
                        }
                        _ => {}
                    }
                }
                if !handled {
                    out.push((key.clone(), fields[i].1.deep_copy()));
                }
                i = i + 1;
            }
            proof {
                let sp = validated_tool(tool.deep_view())->Obj_0;
                assert(pairs_deep(out@) =~= sp);
            }
            JsonValue::Obj(out)
        }
        _ => tool.deep_copy(),
    }
}

/// Prepare a batch of tools for the responses dialect: each object-shaped
/// `parameters` value is normalized against its own `$defs` and completed.
pub fn normalize_responses_tool_schemas(tools: &mut Vec<JsonValue>)
    ensures
        final(tools)@.len() == old(tools)@.len(),
        forall|i: int|
            0 <= i < old(tools)@.len() ==> (#[trigger] final(tools)@[i]).deep_view()
                == responses_tool(old(tools)@[i].deep_view()),
{
    let mut out: Vec<JsonValue> = Vec::new();
    let mut i: usize = 0;
    while i < tools.len()
        invariant
            i <= tools.len(),
            out@.len() == i as int,
            forall|k: int|
                0 <= k < i ==> (#[trigger] out@[k]).deep_view() == responses_tool(
                    tools@[k].deep_view(),
                ),
        decreases tools.len() - i,
    {
        let nt = rewrite_responses_tool(&tools[i]);
        out.push(nt);
        i = i + 1;
    }
    *tools = out;
}

/// Repair a batch of tools for the chat dialect: each object-shaped
/// `function.parameters` value is completed.
pub fn validate_tool_schemas(tools: &mut Vec<JsonValue>)
    ensures
        final(tools)@.len() == old(tools)@.len(),
        forall|i: int|
            0 <= i < old(tools)@.len() ==> (#[trigger] final(tools)@[i]).deep_view()
                == validated_tool(old(tools)@[i].deep_view()),
{
    let mut out: Vec<JsonValue> = Vec::new();
    let mut i: usize = 0;
    while i < tools.len()
        invariant
            i <= tools.len(),
            out@.len() == i as int,
            forall|k: int|
                0 <= k < i ==> (#[trigger] out@[k]).deep_view() == validated_tool(
                    tools@[k].deep_view(),
                ),
        decreases tools.len() - i,
    {
        let nt = rewrite_validated_tool(&tools[i]);
        out.push(nt);
        i = i + 1;
    }
    *tools = out;
}

} // verus!
