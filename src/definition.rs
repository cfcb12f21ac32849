use crate::error::join;
use crate::json::Json;
use crate::pipeline::{opt_view, step_keys, ConditionalNext, Pipeline, PipelineStep};
use vstd::prelude::*;

verus! {

broadcast use vstd::group_vstd_default;

/// A conditional branch as a host writes it.
#[derive(Clone, Debug)]
pub struct ConditionalNextDef {
    pub when: String,
    pub next: String,
}

/// Retry settings (reserved; the engine does not act on them).
#[derive(Clone, Copy, Debug)]
pub struct RetryConfig {
    pub max_attempts: u32,
    pub delay: u64,
}

/// A hook as a host writes it (reserved).
#[derive(Clone, Debug)]
pub struct HookDefinition {
    pub hook_type: String,
    pub params: Json,
}

/// A step as a host writes it.
#[derive(Clone, Debug)]
pub struct StepDefinition {
    pub key: String,
    pub action: String,
    pub params: Json,
    pub config: Json,
    pub retry: Option<RetryConfig>,
    pub hooks: Vec<HookDefinition>,
    pub next: Option<String>,
    pub next_when: Vec<ConditionalNextDef>,
    pub otherwise: Option<String>,
    pub on_error: Option<String>,
}

/// A pipeline as a host writes it.
#[derive(Clone, Debug)]
pub struct PipelineDefinition {
    pub key: String,
    pub description: Option<String>,
    pub version: Option<String>,
    pub steps: Vec<StepDefinition>,
    pub pipeline_hooks: Vec<HookDefinition>,
}

/// A character that `char::is_whitespace` accepts (Unicode `White_Space`).
pub open spec fn is_whitespace(c: char) -> bool {
    c == '\t' || c == '\n' || c == '\u{0B}' || c == '\u{0C}' || c == '\r' || c == ' ' || c
        == '\u{85}' || c == '\u{A0}' || c == '\u{1680}' || ('\u{2000}' <= c && c <= '\u{200A}')
        || c == '\u{2028}' || c == '\u{2029}' || c == '\u{202F}' || c == '\u{205F}' || c
        == '\u{3000}'
}

/// Nothing but whitespace: the string trims to the empty string.
pub open spec fn is_blank(s: Seq<char>) -> bool {
    forall|i: int| 0 <= i < s.len() ==> is_whitespace(#[trigger] s[i])
}

pub(crate) fn whitespace_char(c: char) -> (r: bool)
    ensures
        r == is_whitespace(c),
{
    c == '\t' || c == '\n' || c == '\u{0B}' || c == '\u{0C}' || c == '\r' || c == ' ' || c
        == '\u{85}' || c == '\u{A0}' || c == '\u{1680}' || ('\u{2000}' <= c && c <= '\u{200A}')
        || c == '\u{2028}' || c == '\u{2029}' || c == '\u{202F}' || c == '\u{205F}' || c
        == '\u{3000}'
}

/// Whether `s` holds nothing but whitespace.
pub fn blank(s: &str) -> (r: bool)
    ensures
        r == is_blank(s@),
{
    let n = s.unicode_len();
    let mut i: usize = 0;
    while i < n
        invariant
            n == s@.len(),
            i <= n,
            forall|k: int| 0 <= k < i ==> is_whitespace(#[trigger] s@[k]),
        decreases n - i,
    {
        if !whitespace_char(s.get_char(i)) {
            return false;
        }
        i = i + 1;
    }
    true
}

/// The keys of the defined steps, in order.
pub open spec fn def_keys(steps: Seq<StepDefinition>) -> Seq<Seq<char>> {
    steps.map_values(|s: StepDefinition| s.key@)
}

/// An optional reference that, where present, names a key of `keys`.
pub open spec fn opt_ref_ok(r: Option<String>, keys: Seq<Seq<char>>) -> bool {
    match r {
        Some(k) => keys.contains(k@),
        None => true,
    }
}

/// Every reference of a step definition names a key of `keys`.
pub open spec fn def_refs_ok(s: StepDefinition, keys: Seq<Seq<char>>) -> bool {
    &&& forall|c: int| 0 <= c < s.next_when@.len() ==> keys.contains(#[trigger] s.next_when@[c].next@)
    &&& opt_ref_ok(s.next, keys)
    &&& opt_ref_ok(s.otherwise, keys)
    &&& opt_ref_ok(s.on_error, keys)
}

pub open spec fn no_steps_text(key: Seq<char>) -> Seq<char> {
    "Pipeline '"@ + key + "' has no steps"@
}

pub open spec fn missing_action_text(key: Seq<char>) -> Seq<char> {
    "Step '"@ + key + "' is missing an action"@
}

pub open spec fn undefined_when_text(key: Seq<char>, target: Seq<char>) -> Seq<char> {
    "Step '"@ + key + "' references undefined step '"@ + target + "' in 'when' condition"@
}

pub open spec fn undefined_next_text(key: Seq<char>, target: Seq<char>) -> Seq<char> {
    "Step '"@ + key + "' references undefined 'next' step '"@ + target + "'"@
}

pub open spec fn undefined_otherwise_text(key: Seq<char>, target: Seq<char>) -> Seq<char> {
    "Step '"@ + key + "' references undefined 'otherwise' step '"@ + target + "'"@
}

pub open spec fn undefined_on_error_text(key: Seq<char>, target: Seq<char>) -> Seq<char> {
    "Step '"@ + key + "' references undefined 'on_error' step '"@ + target + "'"@
}

/// Conditional branch `c` of `s` names no key of `keys`.
pub open spec fn bad_when(s: StepDefinition, keys: Seq<Seq<char>>, c: int) -> bool {
    0 <= c < s.next_when@.len() && !keys.contains(s.next_when@[c].next@)
}

/// The message for the first reference of `s` that names no key of `keys`:
/// conditional branches in order, then `next`, `otherwise`, `on_error`.
pub open spec fn first_ref_error(s: StepDefinition, keys: Seq<Seq<char>>) -> Seq<char> {
    if exists|c: int| #[trigger] bad_when(s, keys, c) {
        let c = choose|c: int|
            bad_when(s, keys, c) && forall|d: int| 0 <= d < c ==> !#[trigger] bad_when(s, keys, d);
        undefined_when_text(s.key@, s.next_when@[c].next@)
    } else if !opt_ref_ok(s.next, keys) {
        undefined_next_text(s.key@, s.next->0@)
    } else if !opt_ref_ok(s.otherwise, keys) {
        undefined_otherwise_text(s.key@, s.otherwise->0@)
    } else {
        undefined_on_error_text(s.key@, s.on_error->0@)
    }
}

/// Why a definition cannot become a pipeline, or `None` where it can: no
/// steps; else the first step with a blank action; else the first step with a
/// reference to a key that no step has.
pub open spec fn definition_error(def: PipelineDefinition) -> Option<Seq<char>> {
    let steps = def.steps@;
    let keys = def_keys(steps);
    if steps.len() == 0 {
        Some(no_steps_text(def.key@))
    } else if exists|i: int| 0 <= i < steps.len() && is_blank(steps[i].action@) {
        let i = choose|i: int|
            0 <= i < steps.len() && is_blank(steps[i].action@) && forall|j: int|
                0 <= j < i ==> !is_blank(steps[j].action@);
        Some(missing_action_text(steps[i].key@))
    } else if exists|i: int| 0 <= i < steps.len() && !def_refs_ok(steps[i], keys) {
        let i = choose|i: int|
            0 <= i < steps.len() && !def_refs_ok(steps[i], keys) && forall|j: int|
                0 <= j < i ==> def_refs_ok(steps[j], keys);
        Some(first_ref_error(steps[i], keys))
    } else {
        None
    }
}

/// Every key that a pipeline's routing edges name is the key of one of its steps.
pub open spec fn refs_defined(p: Pipeline) -> bool {
    let keys = step_keys(p.steps@);
    forall|i: int|
        0 <= i < p.steps@.len() ==> {
            let s = #[trigger] p.steps@[i];
            &&& forall|c: int|
                0 <= c < s.next_when@.len() ==> keys.contains(#[trigger] s.next_when@[c].next@)
            &&& opt_ref_ok(s.next, keys)
            &&& opt_ref_ok(s.otherwise, keys)
            &&& opt_ref_ok(s.on_error, keys)
        }
}

/// `p` is the step that definition `d` describes.
pub open spec fn step_of_definition(d: StepDefinition, p: PipelineStep) -> bool {
    &&& p.key@ == d.key@
    &&& p.action@ == d.action@
    &&& p.config@ == d.config@
    &&& p.params@ == d.params@
    &&& p.next_when@.len() == d.next_when@.len()
    &&& forall|c: int|
        0 <= c < d.next_when@.len() ==> (#[trigger] p.next_when@[c]).when@ == d.next_when@[c].when@
            && p.next_when@[c].next@ == d.next_when@[c].next@
    &&& opt_view(p.next) == opt_view(d.next)
    &&& opt_view(p.otherwise) == opt_view(d.otherwise)
    &&& opt_view(p.on_error) == opt_view(d.on_error)
}

fn has_step(steps: &Vec<StepDefinition>, key: &String) -> (r: bool)
    ensures
        r == def_keys(steps@).contains(key@),
{
    let mut i: usize = 0;
    while i < steps.len()
        invariant
            i <= steps@.len(),
            forall|k: int| 0 <= k < i ==> steps@[k].key@ != key@,
        decreases steps.len() - i,
    {
        if steps[i].key == *key {
            assert(def_keys(steps@)[i as int] == key@);
            return true;
        }
        i = i + 1;
    }
    proof {
        if def_keys(steps@).contains(key@) {
            let k = choose|k: int| 0 <= k < def_keys(steps@).len() && def_keys(steps@)[k] == key@;
            assert(steps@[k].key@ == key@);
        }
    }
    false
}

fn opt_has_step(steps: &Vec<StepDefinition>, r: &Option<String>) -> (ok: bool)
    ensures
        ok == opt_ref_ok(*r, def_keys(steps@)),
{
    match r {
        Some(k) => has_step(steps, k),
        None => true,
    }
}

fn message3(a: &str, b: &str, c: &str) -> (r: String)
    ensures
        r@ == a@ + b@ + c@,
{
    let mut out = join(a, b);
    out.append(c);
    out
}

fn message5(a: &str, b: &str, c: &str, d: &str, e: &str) -> (r: String)
    ensures
        r@ == a@ + b@ + c@ + d@ + e@,
{
    let mut out = message3(a, b, c);
    out.append(d);
    out.append(e);
    out
}

/// The first unknown reference of one step, or `None` where all are known.
fn check_step_refs(steps: &Vec<StepDefinition>, s: &StepDefinition) -> (r: Option<String>)
    ensures
        r is None <==> def_refs_ok(*s, def_keys(steps@)),
        r matches Some(m) ==> m@ == first_ref_error(*s, def_keys(steps@)),
{
    let ghost keys = def_keys(steps@);
    let mut c: usize = 0;
    while c < s.next_when.len()
        invariant
            c <= s.next_when@.len(),
            keys == def_keys(steps@),
            forall|d: int| 0 <= d < c ==> keys.contains(#[trigger] s.next_when@[d].next@),
        decreases s.next_when.len() - c,
    {
        if !has_step(steps, &s.next_when[c].next) {
            proof {
                assert(bad_when(*s, keys, c as int));
                let c2 = choose|c2: int|
                    bad_when(*s, keys, c2) && forall|d: int|
                        0 <= d < c2 ==> !#[trigger] bad_when(*s, keys, d);
                assert(c2 == c) by {
                    if c2 < c {
                        assert(keys.contains(s.next_when@[c2].next@));
                    } else if c2 > c {
                        assert(!bad_when(*s, keys, c as int));
                    }
                }
            }
            return Some(
                message5(
                    "Step '",
                    s.key.as_str(),
                    "' references undefined step '",
                    s.next_when[c].next.as_str(),
                    "' in 'when' condition",
                ),
            );
        }
        c = c + 1;
    }
    assert(!exists|c: int| #[trigger] bad_when(*s, keys, c));
    if !opt_has_step(steps, &s.next) {
        let t = s.next.as_ref().unwrap();
        return Some(
            message5(
                "Step '",
                s.key.as_str(),
                "' references undefined 'next' step '",
                t.as_str(),
                "'",
            ),
        );
    }
    if !opt_has_step(steps, &s.otherwise) {
        let t = s.otherwise.as_ref().unwrap();
        return Some(
            message5(
                "Step '",
                s.key.as_str(),
                "' references undefined 'otherwise' step '",
                t.as_str(),
                "'",
            ),
        );
    }
    if !opt_has_step(steps, &s.on_error) {
        let t = s.on_error.as_ref().unwrap();
        return Some(
            message5(
                "Step '",
                s.key.as_str(),
                "' references undefined 'on_error' step '",
                t.as_str(),
                "'",
            ),
        );
    }
    None
}

fn convert_step(d: &StepDefinition) -> (r: PipelineStep)
    ensures
        step_of_definition(*d, r),
{
    let mut conds: Vec<ConditionalNext> = Vec::new();
    let mut c: usize = 0;
    while c < d.next_when.len()
        invariant
            c <= d.next_when@.len(),
            conds@.len() == c,
            forall|k: int|
                0 <= k < c ==> (#[trigger] conds@[k]).when@ == d.next_when@[k].when@
                    && conds@[k].next@ == d.next_when@[k].next@,
        decreases d.next_when.len() - c,
    {
        conds.push(
            ConditionalNext { when: d.next_when[c].when.clone(), next: d.next_when[c].next.clone() },
        );
        c = c + 1;
    }
    PipelineStep {
        key: d.key.clone(),
        action: d.action.clone(),
        config: d.config.clone(),
        params: d.params.clone(),
        next_when: conds,
        otherwise: clone_opt(&d.otherwise),
        on_error: clone_opt(&d.on_error),
        next: clone_opt(&d.next),
    }
}

pub(crate) fn clone_opt(o: &Option<String>) -> (r: Option<String>)
    ensures
        opt_view(r) == opt_view(*o),
{
    match o {
        Some(s) => Some(s.clone()),
        None => None,
    }
}

proof fn lemma_opt_ref_transfer(a: Option<String>, b: Option<String>, k1: Seq<Seq<char>>, k2: Seq<Seq<char>>)
    requires
        opt_view(a) == opt_view(b),
        k1 == k2,
        opt_ref_ok(a, k1),
    ensures
        opt_ref_ok(b, k2),
{
    if b is Some {
        assert(opt_view(a) == Some(a->0@));
    }
}

impl Pipeline {
    /// The pipeline that a definition describes, after checking it: the
    /// definition needs at least one step, an action on every step that is
    /// not blank, and a step for every key that a routing edge names.
    pub fn try_from(def: PipelineDefinition) -> (r: Result<Pipeline, String>)
        ensures
            r is Ok <==> definition_error(def) is None,
            r matches Err(m) ==> definition_error(def) == Some(m@),
            r matches Ok(p) ==> {
                &&& p.key@ == def.key@
                &&& p.steps@.len() == def.steps@.len()
                &&& forall|i: int|
                    0 <= i < def.steps@.len() ==> step_of_definition(
                        def.steps@[i],
                        #[trigger] p.steps@[i],
                    )
                &&& refs_defined(p)
            },
    {
        let ghost steps = def.steps@;
        let ghost keys = def_keys(steps);
        if def.steps.len() == 0 {
            return Err(message3("Pipeline '", def.key.as_str(), "' has no steps"));
        }
        let mut i: usize = 0;
        while i < def.steps.len()
            invariant
                i <= steps.len(),
                steps == def.steps@,
                forall|j: int| 0 <= j < i ==> !is_blank(#[trigger] steps[j].action@),
            decreases def.steps.len() - i,
        {
            if blank(def.steps[i].action.as_str()) {
                proof {
                    let i2 = choose|i2: int|
                        0 <= i2 < steps.len() && is_blank(steps[i2].action@) && forall|j: int|
                            0 <= j < i2 ==> !is_blank(#[trigger] steps[j].action@);
                    assert(i2 == i) by {
                        if i2 < i {
                            assert(!is_blank(steps[i2].action@));
                        } else if i2 > i {
                            assert(!is_blank(steps[i as int].action@));
                        }
                    }
                }
                return Err(
                    message3("Step '", def.steps[i].key.as_str(), "' is missing an action"),
                );
            }
            i = i + 1;
        }
        assert(!exists|i: int| 0 <= i < steps.len() && is_blank(#[trigger] steps[i].action@));
        let mut i: usize = 0;
        while i < def.steps.len()
            invariant
                i <= steps.len(),
                steps == def.steps@,
                keys == def_keys(steps),
                !exists|i: int| 0 <= i < steps.len() && is_blank(#[trigger] steps[i].action@),
                forall|j: int| 0 <= j < i ==> def_refs_ok(#[trigger] steps[j], keys),
            decreases def.steps.len() - i,
        {
            match check_step_refs(&def.steps, &def.steps[i]) {
                Some(m) => {
                    proof {
                        let i2 = choose|i2: int|
                            0 <= i2 < steps.len() && !def_refs_ok(steps[i2], keys) && forall|j: int|
                                0 <= j < i2 ==> def_refs_ok(#[trigger] steps[j], keys);
                        assert(i2 == i) by {
                            if i2 < i {
                                assert(def_refs_ok(steps[i2], keys));
                            } else if i2 > i {
                                assert(!def_refs_ok(steps[i as int], keys));
                            }
                        }
                    }
                    return Err(m);
                },
                None => {},
            }
            i = i + 1;
        }
        assert(!exists|i: int| 0 <= i < steps.len() && !def_refs_ok(#[trigger] steps[i], keys));
        let mut out: Vec<PipelineStep> = Vec::new();
        let mut i: usize = 0;
        while i < def.steps.len()
            invariant
                i <= steps.len(),
                steps == def.steps@,
                out@.len() == i,
                forall|j: int| 0 <= j < i ==> step_of_definition(steps[j], #[trigger] out@[j]),
            decreases def.steps.len() - i,
        {
            out.push(convert_step(&def.steps[i]));
            i = i + 1;
        }
        let p = Pipeline { key: def.key, steps: out };
        proof {
            assert(step_keys(p.steps@) =~= keys);
            assert forall|i: int| 0 <= i < p.steps@.len() implies {
                let s = #[trigger] p.steps@[i];
                &&& forall|c: int|
                    0 <= c < s.next_when@.len() ==> step_keys(p.steps@).contains(
                        #[trigger] s.next_when@[c].next@,
                    )
                &&& opt_ref_ok(s.next, step_keys(p.steps@))
                &&& opt_ref_ok(s.otherwise, step_keys(p.steps@))
                &&& opt_ref_ok(s.on_error, step_keys(p.steps@))
            } by {
                let s = p.steps@[i];
                let d = steps[i];
                assert(def_refs_ok(d, keys));
                assert forall|c: int| 0 <= c < s.next_when@.len() implies step_keys(
                    p.steps@,
                ).contains(#[trigger] s.next_when@[c].next@) by {
                    assert(keys.contains(d.next_when@[c].next@));
                }
                lemma_opt_ref_transfer(d.next, s.next, keys, step_keys(p.steps@));
                lemma_opt_ref_transfer(d.otherwise, s.otherwise, keys, step_keys(p.steps@));
                lemma_opt_ref_transfer(d.on_error, s.on_error, keys, step_keys(p.steps@));
            }
        }
        Ok(p)
    }
}

} // verus!
