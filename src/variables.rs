use crate::bridge::parse_json;
use crate::definition::{PipelineDefinition, StepDefinition};
use crate::json::{items_view, members_view, Json, JsonV};
use crate::pipeline::opt_view;
use crate::predicate::{trim_by, trim_class, CharClass};
use crate::text::{has_prefix, same_text, starts_with, suffix_from};
use vstd::prelude::*;

verus! {

broadcast use vstd::group_vstd_default;

/// A source of variable values for pipeline definitions.
pub trait VariableResolver {
    /// The value of variable `key`, if the source has one.
    spec fn lookup(&self, key: Seq<char>) -> Option<Seq<char>>;

    /// Whether variable `key` is marked secret.
    spec fn secret(&self, key: Seq<char>) -> bool;

    /// The names of the secret variables.
    spec fn secret_names(&self) -> Seq<Seq<char>>;

    fn resolve(&self, key: &str) -> (r: Option<String>)
        ensures
            opt_view(r) == self.lookup(key@),
    ;

    fn is_secret(&self, key: &str) -> (r: bool)
        ensures
            r == self.secret(key@),
    ;

    fn secret_keys(&self) -> (r: Vec<String>)
        ensures
            r@.map_values(|s: String| s@) == self.secret_names(),
    ;
}

/// Variables read from a JSON object of string members; member `_secrets`
/// lists the names of the secret ones.
pub struct FileResolver {
    pub values: Vec<(String, String)>,
    pub secrets: Vec<String>,
}

/// The secret names that a `_secrets` member lists: its string items, each
/// kept once, in first-listed order.
pub open spec fn listed_secrets(v: JsonV) -> Seq<Seq<char>> {
    match v {
        JsonV::Arr(items) => distinct_strings(items),
        _ => Seq::empty(),
    }
}

/// The string items of `items`, each kept once, in first-listed order.
pub open spec fn distinct_strings(items: Seq<JsonV>) -> Seq<Seq<char>>
    decreases items.len(),
{
    if items.len() == 0 {
        Seq::empty()
    } else {
        let prev = distinct_strings(items.drop_last());
        match items.last() {
            JsonV::Str(s) => if prev.contains(s) {
                prev
            } else {
                prev.push(s)
            },
            _ => prev,
        }
    }
}

/// The variables that the members of a JSON object define: each string
/// member but `_secrets`, a later member with the same key replacing the
/// value of an earlier one.
pub open spec fn file_values(ms: Seq<(Seq<char>, JsonV)>) -> Map<Seq<char>, Seq<char>>
    decreases ms.len(),
{
    if ms.len() == 0 {
        Map::empty()
    } else {
        let prev = file_values(ms.drop_last());
        let (k, v) = ms.last();
        if k == "_secrets"@ {
            prev
        } else {
            match v {
                JsonV::Str(s) => prev.insert(k, s),
                _ => prev,
            }
        }
    }
}

/// The secret names that the `_secrets` members of a JSON object list, each
/// kept once, in first-listed order.
pub open spec fn file_secrets(ms: Seq<(Seq<char>, JsonV)>) -> Seq<Seq<char>>
    decreases ms.len(),
{
    if ms.len() == 0 {
        Seq::empty()
    } else {
        let prev = file_secrets(ms.drop_last());
        let (k, v) = ms.last();
        if k == "_secrets"@ {
            merge_distinct(prev, listed_secrets(v))
        } else {
            prev
        }
    }
}

/// `a` followed by the items of `b` that are not yet in it, each once.
pub open spec fn merge_distinct(a: Seq<Seq<char>>, b: Seq<Seq<char>>) -> Seq<Seq<char>>
    decreases b.len(),
{
    if b.len() == 0 {
        a
    } else {
        let prev = merge_distinct(a, b.drop_last());
        if prev.contains(b.last()) {
            prev
        } else {
            prev.push(b.last())
        }
    }
}

proof fn lemma_merge_contains(a: Seq<Seq<char>>, b: Seq<Seq<char>>, x: Seq<char>)
    requires
        b.contains(x),
    ensures
        merge_distinct(a, b).contains(x),
    decreases b.len(),
{
    let prev = merge_distinct(a, b.drop_last());
    if b.last() == x {
        if !prev.contains(x) {
            assert(prev.push(x)[prev.len() as int] == x);
        }
    } else {
        let k = choose|k: int| 0 <= k < b.len() && b[k] == x;
        assert(b.drop_last()[k] == x);
        lemma_merge_contains(a, b.drop_last(), x);
        if !prev.contains(b.last()) {
            let m = choose|m: int| 0 <= m < prev.len() && prev[m] == x;
            assert(prev.push(b.last())[m] == x);
        }
    }
}

proof fn lemma_merge_step(before: Seq<Seq<char>>, iv: Seq<JsonV>, j: int)
    requires
        0 <= j < iv.len(),
    ensures
        merge_distinct(before, distinct_strings(iv.subrange(0, j + 1))) == match iv[j] {
            JsonV::Str(s) => if merge_distinct(before, distinct_strings(iv.subrange(0, j))).contains(
                s,
            ) {
                merge_distinct(before, distinct_strings(iv.subrange(0, j)))
            } else {
                merge_distinct(before, distinct_strings(iv.subrange(0, j))).push(s)
            },
            _ => merge_distinct(before, distinct_strings(iv.subrange(0, j))),
        },
{
    let pre = iv.subrange(0, j);
    let cur = iv.subrange(0, j + 1);
    assert(cur.drop_last() =~= pre);
    assert(cur.last() == iv[j]);
    let d = distinct_strings(pre);
    match iv[j] {
        JsonV::Str(s) => {
            if d.contains(s) {
                lemma_merge_contains(before, d, s);
            } else {
                assert(d.push(s).drop_last() =~= d);
            }
        },
        _ => {},
    }
}

fn contains_text(v: &Vec<String>, s: &str) -> (r: bool)
    ensures
        r == v@.map_values(|x: String| x@).contains(s@),
{
    let ghost names = v@.map_values(|x: String| x@);
    let mut i: usize = 0;
    while i < v.len()
        invariant
            i <= v@.len(),
            names == v@.map_values(|x: String| x@),
            forall|j: int| 0 <= j < i ==> v@[j]@ != s@,
        decreases v.len() - i,
    {
        if same_text(v[i].as_str(), s) {
            assert(names[i as int] == s@);
            return true;
        }
        i = i + 1;
    }
    proof {
        if names.contains(s@) {
            let j = choose|j: int| 0 <= j < names.len() && names[j] == s@;
            assert(v@[j]@ == s@);
        }
    }
    false
}

fn push_distinct(v: &mut Vec<String>, s: &str)
    ensures
        final(v)@.map_values(|x: String| x@) == if old(v)@.map_values(|x: String| x@).contains(s@) {
            old(v)@.map_values(|x: String| x@)
        } else {
            old(v)@.map_values(|x: String| x@).push(s@)
        },
{
    if !contains_text(v, s) {
        v.push(String::from_str(s));
        assert(v@.map_values(|x: String| x@) =~= old(v)@.map_values(|x: String| x@).push(s@));
    }
}

/// The variables as a map from name to value.
pub open spec fn pairs_map(ps: Seq<(String, String)>) -> Map<Seq<char>, Seq<char>>
    decreases ps.len(),
{
    if ps.len() == 0 {
        Map::empty()
    } else {
        pairs_map(ps.drop_last()).insert(ps.last().0@, ps.last().1@)
    }
}

fn find_pair(ps: &Vec<(String, String)>, key: &str) -> (r: Option<usize>)
    ensures
        match r {
            Some(i) => i < ps@.len() && ps@[i as int].0@ == key@ && forall|j: int|
                i < j < ps@.len() ==> (#[trigger] ps@[j]).0@ != key@,
            None => forall|j: int| 0 <= j < ps@.len() ==> (#[trigger] ps@[j]).0@ != key@,
        },
{
    let mut i: usize = ps.len();
    while i > 0
        invariant
            i <= ps@.len(),
            forall|j: int| i <= j < ps@.len() ==> (#[trigger] ps@[j]).0@ != key@,
        decreases i,
    {
        i = i - 1;
        if same_text(ps[i].0.as_str(), key) {
            return Some(i);
        }
    }
    None
}

proof fn lemma_pairs_map_lookup(ps: Seq<(String, String)>, key: Seq<char>)
    ensures
        (forall|j: int| 0 <= j < ps.len() ==> (#[trigger] ps[j]).0@ != key) ==> !pairs_map(
            ps,
        ).contains_key(key),
        forall|i: int|
            0 <= i < ps.len() && ps[i].0@ == key && (forall|j: int|
                i < j < ps.len() ==> (#[trigger] ps[j]).0@ != key) ==> pairs_map(ps).contains_key(key)
                && pairs_map(ps)[key] == ps[i].1@,
    decreases ps.len(),
{
    if ps.len() > 0 {
        lemma_pairs_map_lookup(ps.drop_last(), key);
        assert forall|i: int|
            0 <= i < ps.len() && ps[i].0@ == key && (forall|j: int|
                i < j < ps.len() ==> (#[trigger] ps[j]).0@ != key) implies pairs_map(ps).contains_key(key)
            && pairs_map(ps)[key] == ps[i].1@ by {
            if i < ps.len() - 1 {
                assert(ps.last().0@ != key);
                assert(ps.drop_last()[i] == ps[i]);
                assert forall|j: int| i < j < ps.drop_last().len() implies (#[trigger] ps.drop_last()[j]).0@ != key by {
                    assert(ps.drop_last()[j] == ps[j]);
                }
            }
        }
        if forall|j: int| 0 <= j < ps.len() ==> (#[trigger] ps[j]).0@ != key {
            assert forall|j: int| 0 <= j < ps.drop_last().len() implies (#[trigger] ps.drop_last()[j]).0@ != key by {
                assert(ps.drop_last()[j] == ps[j]);
            }
            assert(ps[ps.len() - 1].0@ != key);
        }
    }
}

impl FileResolver {
    /// The variables that a JSON text defines: the string members of its
    /// top-level object, and under `_secrets` the names of the secret ones.
    /// Text that is not a JSON object defines none.
    pub fn from_text(content: &str) -> (r: FileResolver)
        ensures
            match crate::bridge::json_of_text(content@) {
                Some(JsonV::Obj(ms)) => pairs_map(r.values@) == file_values(ms)
                    && r.secrets@.map_values(|x: String| x@) == file_secrets(ms),
                _ => r.values@.len() == 0 && r.secrets@.len() == 0,
            },
    {
        match parse_json(content) {
            Some(j) => FileResolver::from_json(&j),
            None => FileResolver { values: Vec::new(), secrets: Vec::new() },
        }
    }

    /// The variables that a JSON document defines (see `from_text`).
    pub fn from_json(json: &Json) -> (r: FileResolver)
        ensures
            match json@ {
                JsonV::Obj(ms) => pairs_map(r.values@) == file_values(ms)
                    && r.secrets@.map_values(|x: String| x@) == file_secrets(ms),
                _ => r.values@.len() == 0 && r.secrets@.len() == 0,
            },
    {
        let mut values: Vec<(String, String)> = Vec::new();
        let mut secrets: Vec<String> = Vec::new();
        proof {
            reveal_strlit("_secrets");
        }
        match json {
            Json::Object(members) => {
                let ghost ms = members_view(members@);
                let mut i: usize = 0;
                assert(ms.subrange(0, 0) =~= Seq::<(Seq<char>, JsonV)>::empty());
                assert(secrets@.map_values(|x: String| x@) =~= Seq::<Seq<char>>::empty());
                while i < members.len()
                    invariant
                        i <= members@.len(),
                        ms == members_view(members@),
                        ms.len() == members@.len(),
                        pairs_map(values@) == file_values(ms.subrange(0, i as int)),
                        secrets@.map_values(|x: String| x@) == file_secrets(ms.subrange(0, i as int)),
                    decreases members.len() - i,
                {
                    assert(ms.subrange(0, i as int + 1).drop_last() =~= ms.subrange(0, i as int));
                    assert(ms.subrange(0, i as int + 1).last() == ms[i as int]);
                    proof {
                        reveal_strlit("_secrets");
                    }
                    let (k, v) = (&members[i].0, &members[i].1);
                    if same_text(k.as_str(), "_secrets") {
                        match v {
                            Json::Array(items) => {
                                let ghost before = secrets@.map_values(|x: String| x@);
                                let ghost iv = items_view(items@);
                                let mut j: usize = 0;
                                assert(iv.subrange(0, 0) =~= Seq::<JsonV>::empty());
                                assert(distinct_strings(iv.subrange(0, 0)) =~= Seq::<Seq<char>>::empty());
                                while j < items.len()
                                    invariant
                                        j <= items@.len(),
                                        iv == items_view(items@),
                                        iv.len() == items@.len(),
                                        secrets@.map_values(|x: String| x@) == merge_distinct(
                                            before,
                                            distinct_strings(iv.subrange(0, j as int)),
                                        ),
                                    decreases items.len() - j,
                                {
                                    proof {
                                        lemma_merge_step(before, iv, j as int);
                                    }
                                    match &items[j] {
                                        Json::Str(s) => {
                                            push_distinct(&mut secrets, s.as_str());
                                        },
                                        _ => {},
                                    }
                                    j = j + 1;
                                }
                                assert(iv.subrange(0, j as int) =~= iv);
                            },
                            _ => {
                                assert(merge_distinct(secrets@.map_values(|x: String| x@), Seq::empty())
                                    == secrets@.map_values(|x: String| x@));
                            },
                        }
                    } else {
                        match v {
                            Json::Str(s) => {
                                let ghost before = values@;
                                values.push((k.clone(), s.clone()));
                                assert(values@.drop_last() =~= before);
                            },
                            _ => {},
                        }
                    }
                    i = i + 1;
                }
                assert(ms.subrange(0, i as int) =~= ms);
            },
            _ => {},
        }
        FileResolver { values, secrets }
    }
}

impl VariableResolver for FileResolver {
    open spec fn lookup(&self, key: Seq<char>) -> Option<Seq<char>> {
        if pairs_map(self.values@).contains_key(key) {
            Some(pairs_map(self.values@)[key])
        } else {
            None
        }
    }

    open spec fn secret(&self, key: Seq<char>) -> bool {
        self.secrets@.map_values(|x: String| x@).contains(key)
    }

    open spec fn secret_names(&self) -> Seq<Seq<char>> {
        self.secrets@.map_values(|x: String| x@)
    }

    fn resolve(&self, key: &str) -> (r: Option<String>) {
        proof {
            lemma_pairs_map_lookup(self.values@, key@);
        }
        match find_pair(&self.values, key) {
            Some(i) => Some(self.values[i].1.clone()),
            None => None,
        }
    }

    fn is_secret(&self, key: &str) -> (r: bool) {
        contains_text(&self.secrets, key)
    }

    fn secret_keys(&self) -> (r: Vec<String>) {
        let mut out: Vec<String> = Vec::new();
        let mut i: usize = 0;
        while i < self.secrets.len()
            invariant
                i <= self.secrets@.len(),
                out@.len() == i,
                forall|j: int| 0 <= j < i ==> (#[trigger] out@[j])@ == self.secrets@[j]@,
            decreases self.secrets.len() - i,
        {
            out.push(self.secrets[i].clone());
            i = i + 1;
        }
        assert(out@.map_values(|x: String| x@) =~= self.secrets@.map_values(|x: String| x@));
        out
    }
}

/// The value of `key` in the first source that has one.
pub open spec fn chain_lookup<R: VariableResolver>(sources: Seq<R>, key: Seq<char>) -> Option<
    Seq<char>,
>
    decreases sources.len(),
{
    if sources.len() == 0 {
        None
    } else {
        match sources[0].lookup(key) {
            Some(v) => Some(v),
            None => chain_lookup(sources.skip(1), key),
        }
    }
}

/// The secret names of all sources, source by source.
pub open spec fn chain_secrets<R: VariableResolver>(sources: Seq<R>) -> Seq<Seq<char>>
    decreases sources.len(),
{
    if sources.len() == 0 {
        Seq::empty()
    } else {
        chain_secrets(sources.drop_last()) + sources.last().secret_names()
    }
}

/// Variables looked up in several sources, in order.
pub struct ChainedResolver<R: VariableResolver> {
    pub sources: Vec<R>,
}

impl<R: VariableResolver> ChainedResolver<R> {
    pub fn new(sources: Vec<R>) -> (r: ChainedResolver<R>)
        ensures
            r.sources == sources,
    {
        ChainedResolver { sources }
    }
}

impl<R: VariableResolver> VariableResolver for ChainedResolver<R> {
    open spec fn lookup(&self, key: Seq<char>) -> Option<Seq<char>> {
        chain_lookup(self.sources@, key)
    }

    open spec fn secret(&self, key: Seq<char>) -> bool {
        exists|i: int| 0 <= i < self.sources@.len() && (#[trigger] self.sources@[i]).secret(key)
    }

    open spec fn secret_names(&self) -> Seq<Seq<char>> {
        chain_secrets(self.sources@)
    }

    fn resolve(&self, key: &str) -> (r: Option<String>) {
        let mut i: usize = 0;
        assert(self.sources@.skip(0) =~= self.sources@);
        while i < self.sources.len()
            invariant
                i <= self.sources@.len(),
                chain_lookup(self.sources@, key@) == chain_lookup(self.sources@.skip(i as int), key@),
            decreases self.sources.len() - i,
        {
            assert(self.sources@.skip(i as int)[0] == self.sources@[i as int]);
            assert(self.sources@.skip(i as int).skip(1) =~= self.sources@.skip(i as int + 1));
            match self.sources[i].resolve(key) {
                Some(v) => {
                    return Some(v);
                },
                None => {},
            }
            i = i + 1;
        }
        None
    }

    fn is_secret(&self, key: &str) -> (r: bool) {
        let mut i: usize = 0;
        while i < self.sources.len()
            invariant
                i <= self.sources@.len(),
                forall|j: int| 0 <= j < i ==> !(#[trigger] self.sources@[j]).secret(key@),
            decreases self.sources.len() - i,
        {
            if self.sources[i].is_secret(key) {
                return true;
            }
            i = i + 1;
        }
        false
    }

    fn secret_keys(&self) -> (r: Vec<String>) {
        let mut out: Vec<String> = Vec::new();
        let mut i: usize = 0;
        assert(self.sources@.subrange(0, 0) =~= Seq::<R>::empty());
        assert(out@.map_values(|x: String| x@) =~= Seq::<Seq<char>>::empty());
        while i < self.sources.len()
            invariant
                i <= self.sources@.len(),
                out@.map_values(|x: String| x@) == chain_secrets(self.sources@.subrange(0, i as int)),
            decreases self.sources.len() - i,
        {
            assert(self.sources@.subrange(0, i as int + 1).drop_last() =~= self.sources@.subrange(
                0,
                i as int,
            ));
            let mut keys = self.sources[i].secret_keys();
            let ghost before = out@;
            let ghost added = keys@;
            out.append(&mut keys);
            assert(out@.map_values(|x: String| x@) =~= before.map_values(|x: String| x@)
                + added.map_values(|x: String| x@));
            i = i + 1;
        }
        assert(self.sources@.subrange(0, i as int) =~= self.sources@);
        out
    }
}

/// `secret:$`: a variable whose value is to be masked.
pub open spec fn secret_var_prefix() -> Seq<char> {
    seq!['s', 'e', 'c', 'r', 'e', 't', ':', '$']
}

/// What a string leaf becomes: `secret:$NAME` and `$NAME` take the value of
/// variable `NAME` (trimmed) where the resolver has one.
pub open spec fn substituted_leaf<R: VariableResolver>(s: Seq<char>, r: R) -> Seq<char> {
    if starts_with(s, secret_var_prefix()) {
        match r.lookup(trim_by(s.skip(8), CharClass::Whitespace)) {
            Some(v) => v,
            None => s,
        }
    } else if starts_with(s, seq!['$']) {
        match r.lookup(trim_by(s.skip(1), CharClass::Whitespace)) {
            Some(v) => v,
            None => s,
        }
    } else {
        s
    }
}

/// The secret values that substituting a string leaf reveals.
pub open spec fn leaf_secrets<R: VariableResolver>(s: Seq<char>, r: R) -> Seq<Seq<char>> {
    if starts_with(s, secret_var_prefix()) {
        match r.lookup(trim_by(s.skip(8), CharClass::Whitespace)) {
            Some(v) => seq![v],
            None => Seq::empty(),
        }
    } else {
        Seq::empty()
    }
}

/// A document with every string leaf substituted.
pub open spec fn substituted<R: VariableResolver>(v: JsonV, r: R) -> JsonV
    decreases v,
{
    match v {
        JsonV::Str(s) => JsonV::Str(substituted_leaf(s, r)),
        JsonV::Arr(items) => JsonV::Arr(
            Seq::new(
                items.len(),
                |i: int| if 0 <= i < items.len() { substituted(items[i], r) } else { JsonV::Null },
            ),
        ),
        JsonV::Obj(es) => JsonV::Obj(
            Seq::new(
                es.len(),
                |i: int|
                    if 0 <= i < es.len() {
                        (es[i].0, substituted(es[i].1, r))
                    } else {
                        (Seq::empty(), JsonV::Null)
                    },
            ),
        ),
        _ => v,
    }
}

/// The secret values revealed while substituting a document, leaf by leaf in
/// document order.
pub open spec fn secrets_in<R: VariableResolver>(v: JsonV, r: R) -> Seq<Seq<char>>
    decreases v,
{
    match v {
        JsonV::Str(s) => leaf_secrets(s, r),
        JsonV::Arr(items) => items_secrets(items, r),
        JsonV::Obj(es) => members_secrets(es, r),
        _ => Seq::empty(),
    }
}

pub open spec fn items_secrets<R: VariableResolver>(items: Seq<JsonV>, r: R) -> Seq<Seq<char>>
    decreases items,
{
    if items.len() == 0 {
        Seq::empty()
    } else {
        items_secrets(items.drop_last(), r) + secrets_in(items.last(), r)
    }
}

pub open spec fn members_secrets<R: VariableResolver>(es: Seq<(Seq<char>, JsonV)>, r: R) -> Seq<
    Seq<char>,
>
    decreases es,
{
    if es.len() == 0 {
        Seq::empty()
    } else {
        members_secrets(es.drop_last(), r) + secrets_in(es.last().1, r)
    }
}

/// Substitutes one string leaf, appending any secret value it reveals.
fn substitute_string<R: VariableResolver>(s: &String, r: &R, secrets: &mut Vec<String>) -> (out: String)
    ensures
        out@ == substituted_leaf(s@, *r),
        final(secrets)@.map_values(|x: String| x@) == old(secrets)@.map_values(|x: String| x@)
            + leaf_secrets(s@, *r),
{
    let text = s.as_str();
    proof {
        reveal_strlit("secret:$");
        reveal_strlit("$");
        assert("secret:$"@ =~= secret_var_prefix());
        assert("$"@ =~= seq!['$']);
    }
    if has_prefix(text, "secret:$") {
        let name = trim_class(suffix_from(text, 8), &CharClass::Whitespace);
        match r.resolve(name) {
            Some(v) => {
                let ghost before = secrets@;
                secrets.push(v.clone());
                assert(secrets@.map_values(|x: String| x@) =~= before.map_values(|x: String| x@)
                    + seq![v@]);
                v
            },
            None => {
                assert(secrets@.map_values(|x: String| x@) =~= old(secrets)@.map_values(|x: String| x@)
                    + Seq::<Seq<char>>::empty());
                s.clone()
            },
        }
    } else {
        assert(secrets@.map_values(|x: String| x@) =~= old(secrets)@.map_values(|x: String| x@)
            + Seq::<Seq<char>>::empty());
        if has_prefix(text, "$") {
            let name = trim_class(suffix_from(text, 1), &CharClass::Whitespace);
            match r.resolve(name) {
                Some(v) => v,
                None => s.clone(),
            }
        } else {
            s.clone()
        }
    }
}

/// A copy of `value` with every string leaf substituted; the secret values
/// revealed are appended to `secrets` in document order.
pub fn substitute_value<R: VariableResolver>(value: &Json, r: &R, secrets: &mut Vec<String>) -> (out: Json)
    ensures
        out@ == substituted(value@, *r),
        final(secrets)@.map_values(|x: String| x@) == old(secrets)@.map_values(|x: String| x@)
            + secrets_in(value@, *r),
    decreases value,
{
    match value {
        Json::Str(s) => Json::Str(substitute_string(s, r, secrets)),
        Json::Array(items) => Json::Array(substitute_items(items, r, secrets)),
        Json::Object(members) => Json::Object(substitute_members(members, r, secrets)),
        _ => {
            assert(secrets@.map_values(|x: String| x@) =~= old(secrets)@.map_values(|x: String| x@)
                + Seq::<Seq<char>>::empty());
            value.deep_copy()
        },
    }
}

fn substitute_items<R: VariableResolver>(items: &Vec<Json>, r: &R, secrets: &mut Vec<String>) -> (out: Vec<Json>)
    ensures
        JsonV::Arr(items_view(out@)) == substituted(JsonV::Arr(items_view(items@)), *r),
        final(secrets)@.map_values(|x: String| x@) == old(secrets)@.map_values(|x: String| x@)
            + items_secrets(items_view(items@), *r),
    decreases items,
{
    let ghost iv = items_view(items@);
    let mut out: Vec<Json> = Vec::new();
    let mut i: usize = 0;
    assert(iv.subrange(0, 0) =~= Seq::<JsonV>::empty());
    assert(secrets@.map_values(|x: String| x@) =~= old(secrets)@.map_values(|x: String| x@)
        + items_secrets(iv.subrange(0, 0), *r));
    while i < items.len()
        invariant
            i <= items@.len(),
            iv == items_view(items@),
            iv.len() == items@.len(),
            out@.len() == i,
            forall|k: int| 0 <= k < i ==> (#[trigger] out@[k])@ == substituted(items@[k]@, *r),
            secrets@.map_values(|x: String| x@) == old(secrets)@.map_values(|x: String| x@)
                + items_secrets(iv.subrange(0, i as int), *r),
        decreases items.len() - i,
    {
        assert(decreases_to!(items => items@[i as int])) by {
            assert(decreases_to!(items => items@));
        }
        assert(iv.subrange(0, i as int + 1).drop_last() =~= iv.subrange(0, i as int));
        assert(iv.subrange(0, i as int + 1).last() == items@[i as int]@);
        let v = substitute_value(&items[i], r, secrets);
        out.push(v);
        i = i + 1;
    }
    assert(iv.subrange(0, i as int) =~= iv);
    assert(items_view(out@) =~= substituted(JsonV::Arr(iv), *r)->Arr_0);
    out
}

fn substitute_members<R: VariableResolver>(
    members: &Vec<(String, Json)>,
    r: &R,
    secrets: &mut Vec<String>,
) -> (out: Vec<(String, Json)>)
    ensures
        JsonV::Obj(members_view(out@)) == substituted(JsonV::Obj(members_view(members@)), *r),
        final(secrets)@.map_values(|x: String| x@) == old(secrets)@.map_values(|x: String| x@)
            + members_secrets(members_view(members@), *r),
    decreases members,
{
    let ghost mv = members_view(members@);
    let mut out: Vec<(String, Json)> = Vec::new();
    let mut i: usize = 0;
    assert(mv.subrange(0, 0) =~= Seq::<(Seq<char>, JsonV)>::empty());
    assert(secrets@.map_values(|x: String| x@) =~= old(secrets)@.map_values(|x: String| x@)
        + members_secrets(mv.subrange(0, 0), *r));
    while i < members.len()
        invariant
            i <= members@.len(),
            mv == members_view(members@),
            mv.len() == members@.len(),
            out@.len() == i,
            forall|k: int|
                0 <= k < i ==> (#[trigger] out@[k]).0@ == members@[k].0@ && out@[k].1@
                    == substituted(members@[k].1@, *r),
            secrets@.map_values(|x: String| x@) == old(secrets)@.map_values(|x: String| x@)
                + members_secrets(mv.subrange(0, i as int), *r),
        decreases members.len() - i,
    {
        assert(decreases_to!(members => members@[i as int].1)) by {
            assert(decreases_to!(members => members@));
            assert(decreases_to!(members@ => members@[i as int]));
        }
        assert(mv.subrange(0, i as int + 1).drop_last() =~= mv.subrange(0, i as int));
        assert(mv.subrange(0, i as int + 1).last().1 == members@[i as int].1@);
        let v = substitute_value(&members[i].1, r, secrets);
        out.push((members[i].0.clone(), v));
        i = i + 1;
    }
    assert(mv.subrange(0, i as int) =~= mv);
    assert(members_view(out@) =~= substituted(JsonV::Obj(mv), *r)->Obj_0);
    out
}

/// The secret values revealed while substituting the configuration, then the
/// parameters, of each step in order.
pub open spec fn steps_secrets<R: VariableResolver>(steps: Seq<StepDefinition>, r: R) -> Seq<
    Seq<char>,
>
    decreases steps.len(),
{
    if steps.len() == 0 {
        Seq::empty()
    } else {
        steps_secrets(steps.drop_last(), r) + secrets_in(steps.last().config@, r) + secrets_in(
            steps.last().params@,
            r,
        )
    }
}

/// `after` is `before` with its configuration and parameters substituted.
pub open spec fn step_substituted<R: VariableResolver>(
    before: StepDefinition,
    after: StepDefinition,
    r: R,
) -> bool {
    &&& after.config@ == substituted(before.config@, r)
    &&& after.params@ == substituted(before.params@, r)
    &&& after.key == before.key
    &&& after.action == before.action
    &&& after.retry == before.retry
    &&& after.hooks == before.hooks
    &&& after.next == before.next
    &&& after.next_when == before.next_when
    &&& after.otherwise == before.otherwise
    &&& after.on_error == before.on_error
}

/// Replaces `$NAME` and `secret:$NAME` placeholders in every step's
/// configuration and parameters, and returns the secret values that were
/// substituted, for masking.
pub fn resolve_config<R: VariableResolver>(pipeline: &mut PipelineDefinition, resolver: &R) -> (r: Vec<String>)
    ensures
        final(pipeline).key == old(pipeline).key,
        final(pipeline).description == old(pipeline).description,
        final(pipeline).version == old(pipeline).version,
        final(pipeline).pipeline_hooks == old(pipeline).pipeline_hooks,
        final(pipeline).steps@.len() == old(pipeline).steps@.len(),
        forall|i: int|
            0 <= i < old(pipeline).steps@.len() ==> step_substituted(
                old(pipeline).steps@[i],
                #[trigger] final(pipeline).steps@[i],
                *resolver,
            ),
        r@.map_values(|x: String| x@) == steps_secrets(old(pipeline).steps@, *resolver),
{
    let ghost orig = pipeline.steps@;
    let mut remaining: Vec<StepDefinition> = Vec::new();
    std::mem::swap(&mut remaining, &mut pipeline.steps);
    let mut done: Vec<StepDefinition> = Vec::new();
    let mut secrets: Vec<String> = Vec::new();
    let n = remaining.len();
    let mut i: usize = 0;
    assert(orig.subrange(0, 0) =~= Seq::<StepDefinition>::empty());
    assert(secrets@.map_values(|x: String| x@) =~= Seq::<Seq<char>>::empty());
    assert(remaining@ =~= orig.skip(0));
    while i < n
        invariant
            n == orig.len(),
            i <= n,
            remaining@ == orig.skip(i as int),
            done@.len() == i,
            forall|k: int| 0 <= k < i ==> step_substituted(orig[k], #[trigger] done@[k], *resolver),
            secrets@.map_values(|x: String| x@) == steps_secrets(orig.subrange(0, i as int), *resolver),
            pipeline.key == old(pipeline).key,
            pipeline.description == old(pipeline).description,
            pipeline.version == old(pipeline).version,
            pipeline.pipeline_hooks == old(pipeline).pipeline_hooks,
            orig == old(pipeline).steps@,
        decreases n - i,
    {
        let mut step = remaining.remove(0);
        assert(step == orig[i as int]);
        assert(remaining@ =~= orig.skip(i as int + 1));
        assert(orig.subrange(0, i as int + 1).drop_last() =~= orig.subrange(0, i as int));
        assert(orig.subrange(0, i as int + 1).last() == orig[i as int]);
        let ghost s0 = secrets@.map_values(|x: String| x@);
        let config = substitute_value(&step.config, resolver, &mut secrets);
        let ghost s1 = secrets@.map_values(|x: String| x@);
        let params = substitute_value(&step.params, resolver, &mut secrets);
        assert(secrets@.map_values(|x: String| x@) =~= s0 + secrets_in(orig[i as int].config@, *resolver)
            + secrets_in(orig[i as int].params@, *resolver));
        step.config = config;
        step.params = params;
        done.push(step);
        i = i + 1;
    }
    assert(orig.subrange(0, n as int) =~= orig);
    pipeline.steps = done;
    secrets
}

} // verus!
