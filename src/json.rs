use crate::text::same_text;
use vstd::prelude::*;

verus! {

broadcast use vstd::group_vstd_default;

/// A JSON document as the engine sees it.
///
/// Integers are kept exactly; a non-integer number keeps the decimal text that
/// the host produced for it. An object keeps its members in the order they
/// were given. Two documents are equal when their values are (`Json::equals`):
/// objects compare member by member in that order, so hosts hand objects over
/// with their keys in canonical (sorted) order, as `Json::from_text` does.
#[derive(Debug)]
pub enum Json {
    Null,
    Bool(bool),
    Int(i128),
    Float(String),
    Str(String),
    Array(Vec<Json>),
    Object(Vec<(String, Json)>),
}

/// The mathematical value of a `Json` document.
pub enum JsonV {
    Null,
    Bool(bool),
    Int(int),
    Float(Seq<char>),
    Str(Seq<char>),
    Arr(Seq<JsonV>),
    Obj(Seq<(Seq<char>, JsonV)>),
}

impl View for Json {
    type V = JsonV;

    open spec fn view(&self) -> JsonV
        decreases self,
    {
        match self {
            Json::Null => JsonV::Null,
            Json::Bool(b) => JsonV::Bool(*b),
            Json::Int(i) => JsonV::Int(*i as int),
            Json::Float(t) => JsonV::Float(t@),
            Json::Str(s) => JsonV::Str(s@),
            Json::Array(v) => JsonV::Arr(items_view(v@)),
            Json::Object(es) => JsonV::Obj(members_view(es@)),
        }
    }
}

/// The values of an array's items.
pub open spec fn items_view(v: Seq<Json>) -> Seq<JsonV>
    decreases v,
{
    Seq::new(v.len(), |i: int| if 0 <= i < v.len() { v[i].view() } else { JsonV::Null })
}

/// The keys and values of an object's members.
pub open spec fn members_view(es: Seq<(String, Json)>) -> Seq<(Seq<char>, JsonV)>
    decreases es,
{
    Seq::new(
        es.len(),
        |i: int|
            if 0 <= i < es.len() {
                (es[i].0@, es[i].1.view())
            } else {
                (Seq::empty(), JsonV::Null)
            },
    )
}

impl Json {
    /// Equality of the two documents' values (`self@ == other@`).
    pub fn equals(&self, other: &Json) -> (r: bool)
        ensures
            r == (self@ == other@),
        decreases self,
    {
        match self {
            Json::Null => match other {
                Json::Null => true,
                _ => false,
            },
            Json::Bool(a) => match other {
                Json::Bool(b) => *a == *b,
                _ => false,
            },
            Json::Int(a) => match other {
                Json::Int(b) => *a == *b,
                _ => false,
            },
            Json::Float(a) => match other {
                Json::Float(b) => *a == *b,
                _ => false,
            },
            Json::Str(a) => match other {
                Json::Str(b) => *a == *b,
                _ => false,
            },
            Json::Array(xs) => match other {
                Json::Array(ys) => items_equal(xs, ys),
                _ => false,
            },
            Json::Object(xs) => match other {
                Json::Object(ys) => members_equal(xs, ys),
                _ => false,
            },
        }
    }
}

fn items_equal(xs: &Vec<Json>, ys: &Vec<Json>) -> (r: bool)
    ensures
        r == (items_view(xs@) == items_view(ys@)),
    decreases xs,
{
    let ghost xv = items_view(xs@);
    let ghost yv = items_view(ys@);
    if xs.len() != ys.len() {
        assert(xv.len() != yv.len());
        return false;
    }
    let mut i: usize = 0;
    while i < xs.len()
        invariant
            xs@.len() == ys@.len(),
            xv == items_view(xs@),
            yv == items_view(ys@),
            forall|k: int| 0 <= k < i ==> xv[k] == yv[k],
            i <= xs.len(),
        decreases xs.len() - i,
    {
        assert(decreases_to!(xs => xs@[i as int])) by {
            assert(decreases_to!(xs => xs@));
        }
        if !xs[i].equals(&ys[i]) {
            assert(xv[i as int] != yv[i as int]);
            return false;
        }
        i = i + 1;
    }
    assert(xv =~= yv);
    true
}

fn members_equal(xs: &Vec<(String, Json)>, ys: &Vec<(String, Json)>) -> (r: bool)
    ensures
        r == (members_view(xs@) == members_view(ys@)),
    decreases xs,
{
    let ghost xv = members_view(xs@);
    let ghost yv = members_view(ys@);
    if xs.len() != ys.len() {
        assert(xv.len() != yv.len());
        return false;
    }
    let mut i: usize = 0;
    while i < xs.len()
        invariant
            xs@.len() == ys@.len(),
            xv == members_view(xs@),
            yv == members_view(ys@),
            forall|k: int| 0 <= k < i ==> xv[k] == yv[k],
            i <= xs.len(),
        decreases xs.len() - i,
    {
        if xs[i].0 != ys[i].0 {
            assert(xv[i as int].0 != yv[i as int].0);
            return false;
        }
        assert(decreases_to!(xs => xs@[i as int].1)) by {
            assert(decreases_to!(xs => xs@));
            assert(decreases_to!(xs@ => xs@[i as int]));
        }
        if !xs[i].1.equals(&ys[i].1) {
            assert(xv[i as int].1 != yv[i as int].1);
            return false;
        }
        i = i + 1;
    }
    assert(xv =~= yv);
    true
}

impl Json {
    /// A copy of the document, member by member.
    pub fn deep_copy(&self) -> (r: Json)
        ensures
            r@ == self@,
        decreases self,
    {
        match self {
            Json::Null => Json::Null,
            Json::Bool(b) => Json::Bool(*b),
            Json::Int(i) => Json::Int(*i),
            Json::Float(t) => Json::Float(t.clone()),
            Json::Str(s) => Json::Str(s.clone()),
            Json::Array(xs) => Json::Array(copy_items(xs)),
            Json::Object(es) => Json::Object(copy_members(es)),
        }
    }

    /// An object with no members.
    pub fn empty_object() -> (r: Json)
        ensures
            r@ == JsonV::Obj(Seq::empty()),
    {
        let r = Json::Object(Vec::new());
        assert(members_view(Seq::<(String, Json)>::empty()) =~= Seq::empty());
        r
    }
}

fn copy_items(xs: &Vec<Json>) -> (r: Vec<Json>)
    ensures
        items_view(r@) == items_view(xs@),
    decreases xs,
{
    let mut out: Vec<Json> = Vec::new();
    let mut i: usize = 0;
    while i < xs.len()
        invariant
            i <= xs@.len(),
            out@.len() == i,
            forall|k: int| 0 <= k < i ==> (#[trigger] out@[k])@ == xs@[k]@,
        decreases xs.len() - i,
    {
        assert(decreases_to!(xs => xs@[i as int])) by {
            assert(decreases_to!(xs => xs@));
        }
        out.push(xs[i].deep_copy());
        i = i + 1;
    }
    assert(items_view(out@) =~= items_view(xs@));
    out
}

fn copy_members(es: &Vec<(String, Json)>) -> (r: Vec<(String, Json)>)
    ensures
        members_view(r@) == members_view(es@),
    decreases es,
{
    let mut out: Vec<(String, Json)> = Vec::new();
    let mut i: usize = 0;
    while i < es.len()
        invariant
            i <= es@.len(),
            out@.len() == i,
            forall|k: int|
                0 <= k < i ==> (#[trigger] out@[k]).0@ == es@[k].0@ && out@[k].1@ == es@[k].1@,
        decreases es.len() - i,
    {
        assert(decreases_to!(es => es@[i as int].1)) by {
            assert(decreases_to!(es => es@));
            assert(decreases_to!(es@ => es@[i as int]));
        }
        out.push((es[i].0.clone(), es[i].1.deep_copy()));
        i = i + 1;
    }
    assert(members_view(out@) =~= members_view(es@));
    out
}

/// The value of an optional document.
pub open spec fn opt_json(o: Option<Json>) -> Option<JsonV> {
    match o {
        Some(j) => Some(j@),
        None => None,
    }
}

/// The index of the first member with key `k`, if any.
pub open spec fn first_index_of(ms: Seq<(Seq<char>, JsonV)>, k: Seq<char>) -> Option<int> {
    if exists|i: int| 0 <= i < ms.len() && ms[i].0 == k {
        Some(
            choose|i: int|
                0 <= i < ms.len() && ms[i].0 == k && forall|j: int|
                    0 <= j < i ==> (#[trigger] ms[j]).0 != k,
        )
    } else {
        None
    }
}

/// The members with `k` set to `v`: the first member with key `k` takes the
/// new value in place, or a new member is appended.
pub open spec fn upsert_members(ms: Seq<(Seq<char>, JsonV)>, k: Seq<char>, v: JsonV) -> Seq<
    (Seq<char>, JsonV),
> {
    match first_index_of(ms, k) {
        Some(i) => ms.update(i, (k, v)),
        None => ms.push((k, v)),
    }
}

/// The keys of the members are pairwise distinct.
pub open spec fn keys_unique(ms: Seq<(Seq<char>, JsonV)>) -> bool {
    forall|a: int, b: int| 0 <= a < b < ms.len() ==> ms[a].0 != ms[b].0
}

/// Setting a member keeps the keys of the members pairwise distinct.
pub proof fn lemma_upsert_keeps_keys_unique(ms: Seq<(Seq<char>, JsonV)>, k: Seq<char>, v: JsonV)
    requires
        keys_unique(ms),
    ensures
        keys_unique(upsert_members(ms, k, v)),
{
    let r = upsert_members(ms, k, v);
    match first_index_of(ms, k) {
        Some(i) => {
            assert forall|a: int, b: int| 0 <= a < b < r.len() implies r[a].0 != r[b].0 by {
                assert(r[a].0 == ms[a].0);
                assert(r[b].0 == ms[b].0);
            }
        },
        None => {
            assert forall|a: int, b: int| 0 <= a < b < r.len() implies r[a].0 != r[b].0 by {
                if b == ms.len() {
                    assert(ms[a].0 != k);
                }
            }
        },
    }
}

/// The value of the first member with key `k`, if any.
pub open spec fn lookup_member(ms: Seq<(Seq<char>, JsonV)>, k: Seq<char>) -> Option<JsonV> {
    match first_index_of(ms, k) {
        Some(i) => Some(ms[i].1),
        None => None,
    }
}

/// The index of the first member with key `key`, if any.
pub fn find_member(members: &Vec<(String, Json)>, key: &str) -> (r: Option<usize>)
    ensures
        match r {
            Some(i) => first_index_of(members_view(members@), key@) == Some(i as int),
            None => first_index_of(members_view(members@), key@) is None,
        },
        r matches Some(i) ==> i < members@.len(),
{
    let ghost mv = members_view(members@);
    let mut i: usize = 0;
    while i < members.len()
        invariant
            i <= members@.len(),
            mv == members_view(members@),
            mv.len() == members@.len(),
            forall|j: int| 0 <= j < i ==> (#[trigger] mv[j]).0 != key@,
        decreases members.len() - i,
    {
        if same_text(members[i].0.as_str(), key) {
            proof {
                assert(mv[i as int].0 == key@);
                let i2 = choose|i2: int|
                    0 <= i2 < mv.len() && mv[i2].0 == key@ && forall|j: int|
                        0 <= j < i2 ==> (#[trigger] mv[j]).0 != key@;
                assert(i2 == i) by {
                    if i2 > i {
                        assert(mv[i as int].0 != key@);
                    }
                }
            }
            return Some(i);
        }
        i = i + 1;
    }
    None
}

/// The value of the first member with key `key`, if any.
pub fn get_member<'a>(members: &'a Vec<(String, Json)>, key: &str) -> (r: Option<&'a Json>)
    ensures
        match r {
            Some(v) => lookup_member(members_view(members@), key@) == Some(v@),
            None => lookup_member(members_view(members@), key@) is None,
        },
{
    match find_member(members, key) {
        Some(i) => Some(&members[i].1),
        None => None,
    }
}

/// Sets member `key` to `value`, in place where the key is present and at the
/// end where it is not.
pub fn upsert_member(members: &mut Vec<(String, Json)>, key: String, value: Json)
    ensures
        members_view(final(members)@) == upsert_members(members_view(old(members)@), key@, value@),
{
    let ghost k = key@;
    let ghost v = value@;
    match find_member(members, key.as_str()) {
        Some(i) => {
            members.set(i, (key, value));
            assert(members_view(members@) =~= members_view(old(members)@).update(i as int, (k, v)));
        },
        None => {
            members.push((key, value));
            assert(members_view(members@) =~= members_view(old(members)@).push((k, v)));
        },
    }
}

impl Json {
    /// The document that a JSON text denotes, or `None` where it is not JSON.
    pub fn from_text(text: &str) -> (r: Option<Json>)
        ensures
            match r {
                Some(j) => crate::bridge::json_of_text(text@) == Some(j@),
                None => crate::bridge::json_of_text(text@) is None,
            },
    {
        crate::bridge::parse_json(text)
    }

    /// The compact JSON text of the document.
    pub fn to_text(&self) -> (r: String)
        ensures
            r@ == crate::bridge::text_of_json(self@),
    {
        crate::bridge::json_to_text(self)
    }
}

impl Clone for Json {
    fn clone(&self) -> (r: Json)
        ensures
            r@ == self@,
    {
        self.deep_copy()
    }
}

impl PartialEq for Json {
    fn eq(&self, other: &Json) -> (r: bool) {
        self.equals(other)
    }
}

impl vstd::std_specs::cmp::PartialEqSpecImpl for Json {
    open spec fn obeys_eq_spec() -> bool {
        true
    }

    open spec fn eq_spec(&self, other: &Json) -> bool {
        self@ == other@
    }
}

} // verus!
