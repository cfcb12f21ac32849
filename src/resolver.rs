use crate::bridge::{jsonpath_first, query_first};
use crate::json::{items_view, members_view, Json, JsonV};
use crate::text::{has_prefix, starts_with, suffix_from};
use vstd::prelude::*;

verus! {

broadcast use vstd::group_vstd_default;

/// `$$.`: a string that begins with it stands for itself, with one `$` less.
pub open spec fn escape_prefix() -> Seq<char> {
    seq!['$', '$', '.']
}

/// `secret:`: marks a value for masking; it is stripped before lookup.
pub open spec fn secret_prefix() -> Seq<char> {
    seq!['s', 'e', 'c', 'r', 'e', 't', ':']
}

/// `$.`: a string that begins with it is a JSONPath expression.
pub open spec fn path_prefix() -> Seq<char> {
    seq!['$', '.']
}

/// The expression that a string leaf stands for, once `secret:` is stripped.
pub open spec fn leaf_expression(s: Seq<char>) -> Seq<char> {
    if starts_with(s, secret_prefix()) {
        s.skip(7)
    } else {
        s
    }
}

/// What one string leaf becomes when it is resolved against `doc`.
pub open spec fn resolve_leaf(s: Seq<char>, doc: JsonV) -> JsonV {
    if starts_with(s, escape_prefix()) {
        JsonV::Str(path_prefix() + s.skip(3))
    } else if starts_with(leaf_expression(s), path_prefix()) {
        match jsonpath_first(doc, leaf_expression(s)) {
            Some(v) => v,
            None => JsonV::Str(s),
        }
    } else {
        JsonV::Str(s)
    }
}

/// A document with every string leaf resolved against `doc`.
pub open spec fn resolved(v: JsonV, doc: JsonV) -> JsonV
    decreases v,
{
    match v {
        JsonV::Str(s) => resolve_leaf(s, doc),
        JsonV::Arr(items) => JsonV::Arr(
            Seq::new(
                items.len(),
                |i: int| if 0 <= i < items.len() { resolved(items[i], doc) } else { JsonV::Null },
            ),
        ),
        JsonV::Obj(es) => JsonV::Obj(
            Seq::new(
                es.len(),
                |i: int|
                    if 0 <= i < es.len() {
                        (es[i].0, resolved(es[i].1, doc))
                    } else {
                        (Seq::empty(), JsonV::Null)
                    },
            ),
        ),
        _ => v,
    }
}

/// A string leaf that resolution leaves as it is.
pub open spec fn inert_leaf(s: Seq<char>, doc: JsonV) -> bool {
    !starts_with(s, escape_prefix()) && (!starts_with(leaf_expression(s), path_prefix())
        || jsonpath_first(doc, leaf_expression(s)) is None)
}

/// Every string leaf of `v` is inert: there is nothing left to resolve.
pub open spec fn settled(v: JsonV, doc: JsonV) -> bool
    decreases v,
{
    match v {
        JsonV::Str(s) => inert_leaf(s, doc),
        JsonV::Arr(items) => Seq::new(
            items.len(),
            |i: int| if 0 <= i < items.len() { settled(items[i], doc) } else { true },
        ) == Seq::new(items.len(), |i: int| true),
        JsonV::Obj(es) => Seq::new(
            es.len(),
            |i: int| if 0 <= i < es.len() { settled(es[i].1, doc) } else { true },
        ) == Seq::new(es.len(), |i: int| true),
        _ => true,
    }
}

/// Resolution leaves a settled document as it is, so resolving a document in
/// which nothing is left to resolve a second time changes nothing.
pub proof fn lemma_settled_is_fixed(v: JsonV, doc: JsonV)
    requires
        settled(v, doc),
    ensures
        resolved(v, doc) == v,
    decreases v,
{
    match v {
        JsonV::Arr(items) => {
            let flags = Seq::new(
                items.len(),
                |i: int| if 0 <= i < items.len() { settled(items[i], doc) } else { true },
            );
            assert forall|i: int| 0 <= i < items.len() implies resolved(items[i], doc) == items[i] by {
                assert(flags[i] == Seq::new(items.len(), |i: int| true)[i]);
                lemma_settled_is_fixed(items[i], doc);
            }
            assert(resolved(v, doc)->Arr_0 =~= items);
        },
        JsonV::Obj(es) => {
            let flags = Seq::new(
                es.len(),
                |i: int| if 0 <= i < es.len() { settled(es[i].1, doc) } else { true },
            );
            assert forall|i: int| 0 <= i < es.len() implies resolved(es[i].1, doc) == es[i].1 by {
                assert(flags[i] == Seq::new(es.len(), |i: int| true)[i]);
                lemma_settled_is_fixed(es[i].1, doc);
            }
            assert(resolved(v, doc)->Obj_0 =~= es);
        },
        _ => {},
    }
}

/// A string that begins with `$$.` resolves to the literal string with `$.` in
/// its place, and no lookup is made for it.
pub proof fn lemma_escape_is_literal(s: Seq<char>, doc: JsonV)
    requires
        starts_with(s, escape_prefix()),
    ensures
        resolved(JsonV::Str(s), doc) == JsonV::Str(path_prefix() + s.skip(3)),
{
}

/// Resolves one string leaf against `doc`.
pub fn resolve_string(s: &String, doc: &Json) -> (r: Json)
    ensures
        r@ == resolve_leaf(s@, doc@),
{
    let text = s.as_str();
    proof {
        reveal_strlit("$$.");
        reveal_strlit("secret:");
        reveal_strlit("$.");
        assert("$$."@ =~= escape_prefix());
        assert("secret:"@ =~= secret_prefix());
        assert("$."@ =~= path_prefix());
    }
    if has_prefix(text, "$$.") {
        let mut out = String::from_str("$.");
        out.append(suffix_from(text, 3));
        assert(out@ =~= path_prefix() + s@.skip(3));
        return Json::Str(out);
    }
    let expr = if has_prefix(text, "secret:") {
        suffix_from(text, 7)
    } else {
        text
    };
    if has_prefix(expr, "$.") {
        match query_first(doc, expr) {
            Some(v) => v,
            None => Json::Str(s.clone()),
        }
    } else {
        Json::Str(s.clone())
    }
}

/// A copy of `value` with every string leaf resolved against `doc`.
pub fn resolve_value(value: &Json, doc: &Json) -> (r: Json)
    ensures
        r@ == resolved(value@, doc@),
    decreases value,
{
    match value {
        Json::Str(s) => resolve_string(s, doc),
        Json::Array(items) => Json::Array(resolve_items(items, doc)),
        Json::Object(members) => Json::Object(resolve_members(members, doc)),
        _ => value.deep_copy(),
    }
}

fn resolve_items(items: &Vec<Json>, doc: &Json) -> (r: Vec<Json>)
    ensures
        JsonV::Arr(items_view(r@)) == resolved(JsonV::Arr(items_view(items@)), doc@),
    decreases items,
{
    let mut out: Vec<Json> = Vec::new();
    let mut i: usize = 0;
    while i < items.len()
        invariant
            i <= items@.len(),
            out@.len() == i,
            forall|k: int| 0 <= k < i ==> (#[trigger] out@[k])@ == resolved(items@[k]@, doc@),
        decreases items.len() - i,
    {
        assert(decreases_to!(items => items@[i as int])) by {
            assert(decreases_to!(items => items@));
        }
        out.push(resolve_value(&items[i], doc));
        i = i + 1;
    }
    assert(items_view(out@) =~= resolved(JsonV::Arr(items_view(items@)), doc@)->Arr_0);
    out
}

fn resolve_members(members: &Vec<(String, Json)>, doc: &Json) -> (r: Vec<(String, Json)>)
    ensures
        JsonV::Obj(members_view(r@)) == resolved(JsonV::Obj(members_view(members@)), doc@),
    decreases members,
{
    let mut out: Vec<(String, Json)> = Vec::new();
    let mut i: usize = 0;
    while i < members.len()
        invariant
            i <= members@.len(),
            out@.len() == i,
            forall|k: int|
                0 <= k < i ==> (#[trigger] out@[k]).0@ == members@[k].0@ && out@[k].1@ == resolved(
                    members@[k].1@,
                    doc@,
                ),
        decreases members.len() - i,
    {
        assert(decreases_to!(members => members@[i as int].1)) by {
            assert(decreases_to!(members => members@));
            assert(decreases_to!(members@ => members@[i as int]));
        }
        out.push((members[i].0.clone(), resolve_value(&members[i].1, doc)));
        i = i + 1;
    }
    assert(members_view(out@) =~= resolved(JsonV::Obj(members_view(members@)), doc@)->Obj_0);
    out
}

/// Resolves every string leaf of `value` in place against the context document.
pub fn resolve_jsonpaths(value: &mut Json, ctx_json: &Json)
    ensures
        final(value)@ == resolved(old(value)@, ctx_json@),
{
    let r = resolve_value(value, ctx_json);
    *value = r;
}

} // verus!
