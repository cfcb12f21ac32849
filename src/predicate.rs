use crate::bridge::{compare_numbers, json_of_text, numeric_order, parse_json};
use crate::context::ExecutionContext;
use crate::definition::is_whitespace;
use crate::error::{join, EngineError};
use crate::json::{Json, JsonV};
use crate::mapper::build_jsonpath_context;
use crate::resolver::{resolve_leaf, resolve_string};
use crate::text::{has_prefix, starts_with, suffix_from};
use vstd::prelude::*;

verus! {

broadcast use vstd::group_vstd_default;

/// The comparison operators, in the order they are looked for: compound
/// operators before their one-character prefixes.
pub open spec fn operators() -> Seq<Seq<char>> {
    seq![seq!['=', '='], seq!['!', '='], seq!['>', '='], seq!['<', '='], seq!['>'], seq!['<']]
}

/// `p` occurs in `s` at position `i`.
pub open spec fn occurs_at(s: Seq<char>, p: Seq<char>, i: int) -> bool {
    0 <= i <= s.len() && starts_with(s.skip(i), p)
}

/// The position of the first occurrence of `p` in `s`, if any.
#[verifier::opaque]
pub open spec fn first_occurrence(s: Seq<char>, p: Seq<char>) -> Option<int> {
    if exists|i: int| occurs_at(s, p, i) {
        Some(choose|i: int| occurs_at(s, p, i) && forall|j: int| 0 <= j < i ==> !occurs_at(s, p, j))
    } else {
        None
    }
}

/// The index (into `operators()`) of the operator an expression splits on:
/// the first of the list that occurs anywhere in it.
#[verifier::opaque]
pub open spec fn chosen_operator(expr: Seq<char>) -> Option<int> {
    if exists|k: int| 0 <= k < 6 && first_occurrence(expr, operators()[k]) is Some {
        Some(
            choose|k: int|
                0 <= k < 6 && first_occurrence(expr, operators()[k]) is Some && forall|m: int|
                    0 <= m < k ==> first_occurrence(expr, #[trigger] operators()[m]) is None,
        )
    } else {
        None
    }
}

/// A predicate on characters used for trimming.
pub enum CharClass {
    Whitespace,
    Is(char),
}

pub open spec fn in_class(c: char, k: CharClass) -> bool {
    match k {
        CharClass::Whitespace => is_whitespace(c),
        CharClass::Is(d) => c == d,
    }
}

/// `s` without its leading characters of class `k`.
pub open spec fn trim_start_by(s: Seq<char>, k: CharClass) -> Seq<char>
    decreases s.len(),
{
    if s.len() > 0 && in_class(s[0], k) {
        trim_start_by(s.skip(1), k)
    } else {
        s
    }
}

/// `s` without its trailing characters of class `k`.
pub open spec fn trim_end_by(s: Seq<char>, k: CharClass) -> Seq<char>
    decreases s.len(),
{
    if s.len() > 0 && in_class(s.last(), k) {
        trim_end_by(s.drop_last(), k)
    } else {
        s
    }
}

/// `s` without leading and trailing characters of class `k`.
pub open spec fn trim_by(s: Seq<char>, k: CharClass) -> Seq<char> {
    trim_end_by(trim_start_by(s, k), k)
}

/// The right operand: the JSON value the text denotes, else the text with
/// surrounding double quotes, then single quotes, stripped.
pub open spec fn rhs_value(raw: Seq<char>) -> JsonV {
    match json_of_text(raw) {
        Some(v) => v,
        None => JsonV::Str(trim_by(trim_by(raw, CharClass::Is('"')), CharClass::Is('\''))),
    }
}

/// A JSON number.
pub open spec fn is_number(v: JsonV) -> bool {
    v is Int || v is Float
}

/// Whether operands `l` and `r` satisfy operator `k` of `operators()`: the
/// ordering operators hold only between numbers.
pub open spec fn compare_holds(k: int, l: JsonV, r: JsonV) -> bool {
    if k == 0 {
        l == r
    } else if k == 1 {
        l != r
    } else if !is_number(l) || !is_number(r) {
        false
    } else {
        match numeric_order(l, r) {
            Some(o) => if k == 2 {
                o >= 0
            } else if k == 3 {
                o <= 0
            } else if k == 4 {
                o > 0
            } else {
                o < 0
            },
            None => false,
        }
    }
}

/// Whether `expr` holds against `doc`, or `None` where it has no operator.
pub open spec fn condition_value(expr: Seq<char>, doc: JsonV) -> Option<bool> {
    match chosen_operator(expr) {
        Some(k) => {
            let i = first_occurrence(expr, operators()[k])->0;
            let left = trim_by(expr.subrange(0, i), CharClass::Whitespace);
            let right = trim_by(expr.skip(i + operators()[k].len()), CharClass::Whitespace);
            Some(compare_holds(k, resolve_leaf(left, doc), rhs_value(right)))
        },
        None => None,
    }
}

fn class_member(c: char, k: &CharClass) -> (r: bool)
    ensures
        r == in_class(c, *k),
{
    match k {
        CharClass::Whitespace => crate::definition::whitespace_char(c),
        CharClass::Is(d) => c == *d,
    }
}

/// `s` without leading and trailing characters of class `k`.
pub fn trim_class<'a>(s: &'a str, k: &CharClass) -> (r: &'a str)
    ensures
        r@ == trim_by(s@, *k),
{
    let n = s.unicode_len();
    let mut start: usize = 0;
    assert(s@.skip(0) =~= s@);
    while start < n && class_member(s.get_char(start), k)
        invariant
            n == s@.len(),
            start <= n,
            trim_start_by(s@, *k) == trim_start_by(s@.skip(start as int), *k),
        decreases n - start,
    {
        assert(s@.skip(start as int).skip(1) =~= s@.skip(start as int + 1));
        start = start + 1;
    }
    let mut end: usize = n;
    let ghost t = s@.skip(start as int);
    assert(trim_start_by(s@, *k) == t);
    while end > start && class_member(s.get_char(end - 1), k)
        invariant
            n == s@.len(),
            start <= end <= n,
            t == s@.skip(start as int),
            trim_end_by(t, *k) == trim_end_by(s@.subrange(start as int, end as int), *k),
        decreases end - start,
    {
        assert(s@.subrange(start as int, end as int).drop_last() =~= s@.subrange(
            start as int,
            end as int - 1,
        ));
        end = end - 1;
    }
    assert(t =~= s@.subrange(start as int, n as int));
    s.substring_char(start, end)
}

/// The position of the first occurrence of `p` in `s`, if any.
pub fn find_text(s: &str, p: &str) -> (r: Option<usize>)
    ensures
        match r {
            Some(i) => first_occurrence(s@, p@) == Some(i as int),
            None => first_occurrence(s@, p@) is None,
        },
        r matches Some(i) ==> i + p@.len() <= s@.len(),
{
    let n = s.unicode_len();
    let mut i: usize = 0;
    while i < n
        invariant
            n == s@.len(),
            i <= n,
            forall|j: int| 0 <= j < i ==> !occurs_at(s@, p@, j),
        decreases n - i,
    {
        if has_prefix(suffix_from(s, i), p) {
            proof {
                lemma_first_occurrence_at(s@, p@, i as int);
            }
            return Some(i);
        }
        i = i + 1;
    }
    if has_prefix(suffix_from(s, n), p) {
        proof {
            lemma_first_occurrence_at(s@, p@, n as int);
        }
        return Some(n);
    }
    reveal(first_occurrence);
    assert forall|j: int| !occurs_at(s@, p@, j) by {
        if 0 <= j < n {
        } else if j == n {
        }
    }
    None
}

proof fn lemma_first_occurrence_at(s: Seq<char>, p: Seq<char>, i: int)
    requires
        occurs_at(s, p, i),
        forall|j: int| 0 <= j < i ==> !occurs_at(s, p, j),
    ensures
        first_occurrence(s, p) == Some(i),
        i + p.len() <= s.len(),
{
    reveal(first_occurrence);
    let i2 = choose|i2: int| occurs_at(s, p, i2) && forall|j: int| 0 <= j < i2 ==> !occurs_at(s, p, j);
    assert(i2 == i) by {
        if i2 > i {
            assert(!occurs_at(s, p, i));
        }
    }
}

fn operator_text(k: usize) -> (r: &'static str)
    requires
        k < 6,
    ensures
        r@ == operators()[k as int],
{
    proof {
        reveal_strlit("==");
        reveal_strlit("!=");
        reveal_strlit(">=");
        reveal_strlit("<=");
        reveal_strlit(">");
        reveal_strlit("<");
    }
    let r = if k == 0 {
        "=="
    } else if k == 1 {
        "!="
    } else if k == 2 {
        ">="
    } else if k == 3 {
        "<="
    } else if k == 4 {
        ">"
    } else {
        "<"
    };
    assert(r@ =~= operators()[k as int]);
    r
}

/// A left side that is a path with no match stays the literal string, so it
/// equals a string operand exactly when the two strings are the same.
pub proof fn lemma_unresolved_path_compares_literally(left: Seq<char>, doc: JsonV, s: Seq<char>)
    requires
        !starts_with(left, crate::resolver::escape_prefix()),
        crate::resolver::inert_leaf(left, doc),
    ensures
        compare_holds(0, resolve_leaf(left, doc), JsonV::Str(s)) == (left == s),
        compare_holds(1, resolve_leaf(left, doc), JsonV::Str(s)) == (left != s),
{
}

/// An ordering comparison against a value that is not a number is false,
/// and evaluating it is no error: only an expression without an operator is.
pub proof fn lemma_ordering_needs_numbers(expr: Seq<char>, doc: JsonV, k: int, l: JsonV, r: JsonV)
    requires
        2 <= k < 6,
        !is_number(l) || !is_number(r),
    ensures
        !compare_holds(k, l, r),
        chosen_operator(expr) is Some ==> condition_value(expr, doc) is Some,
{
}

/// The right operand of a comparison.
pub fn rhs_operand(raw: &str) -> (r: Json)
    ensures
        r@ == rhs_value(raw@),
{
    match parse_json(raw) {
        Some(v) => v,
        None => {
            let once = trim_class(raw, &CharClass::Is('"'));
            let twice = trim_class(once, &CharClass::Is('\''));
            Json::Str(String::from_str(twice))
        },
    }
}

/// Whether operands `l` and `r` satisfy operator `k`.
pub fn compare_operands(k: usize, l: &Json, r: &Json) -> (b: bool)
    requires
        k < 6,
    ensures
        b == compare_holds(k as int, l@, r@),
        k >= 2 && !(l@ is Int || l@ is Float) ==> !b,
        k >= 2 && !(r@ is Int || r@ is Float) ==> !b,
{
    if k == 0 {
        l.equals(r)
    } else if k == 1 {
        !l.equals(r)
    } else {
        match compare_numbers(l, r) {
            Some(o) => if k == 2 {
                o >= 0
            } else if k == 3 {
                o <= 0
            } else if k == 4 {
                o > 0
            } else {
                o < 0
            },
            None => false,
        }
    }
}

/// The operator an expression splits on, with the position of its first
/// occurrence.
fn find_operator(expr: &str) -> (r: Option<(usize, usize)>)
    ensures
        match r {
            Some((k, i)) => chosen_operator(expr@) == Some(k as int) && k < 6 && first_occurrence(
                expr@,
                operators()[k as int],
            ) == Some(i as int) && i + operators()[k as int].len() <= expr@.len(),
            None => chosen_operator(expr@) is None,
        },
{
    reveal(chosen_operator);
    reveal(first_occurrence);
    let mut k: usize = 0;
    while k < 6
        invariant
            k <= 6,
            forall|m: int| 0 <= m < k ==> first_occurrence(expr@, #[trigger] operators()[m]) is None,
        decreases 6 - k,
    {
        let op = operator_text(k);
        match find_text(expr, op) {
            Some(i) => {
                proof {
                    reveal(chosen_operator);
                    reveal(first_occurrence);
                    assert(op@ == operators()[k as int]);
                    assert(first_occurrence(expr@, operators()[k as int]) is Some);
                    assert(0 <= k < 6 && first_occurrence(expr@, operators()[k as int]) is Some
                        && forall|m: int|
                        0 <= m < k ==> first_occurrence(expr@, #[trigger] operators()[m]) is None);
                    let k2 = choose|k2: int|
                        0 <= k2 < 6 && first_occurrence(expr@, operators()[k2]) is Some && forall|
                            m: int,
                        | 0 <= m < k2 ==> first_occurrence(expr@, #[trigger] operators()[m]) is None;
                    assert(k2 == k) by {
                        if k2 > k {
                            assert(first_occurrence(expr@, operators()[k as int]) is None);
                        }
                    }
                }
                return Some((k, i));
            },
            None => {},
        }
        k = k + 1;
    }
    None
}

/// Evaluates a routing predicate `LHS OP RHS` against a context document.
/// The left side is resolved as a string leaf; the right side is parsed as
/// JSON where it can be. An expression with no operator is an error.
pub fn evaluate_against(expr: &str, doc: &Json) -> (r: Result<bool, EngineError>)
    ensures
        r matches Ok(b) ==> condition_value(expr@, doc@) == Some(b),
        r matches Err(e) ==> (condition_value(expr@, doc@) is None && (e matches EngineError::Other(
            m,
        ) && m@ == "Invalid condition syntax: "@ + expr@)),
        r is Ok <==> condition_value(expr@, doc@) is Some,
{
    match find_operator(expr) {
        Some((k, i)) => {
            let op = operator_text(k);
            let _len = expr.unicode_len();
            let left_raw = trim_class(expr.substring_char(0, i), &CharClass::Whitespace);
            let right_raw = trim_class(
                suffix_from(expr, i + op.unicode_len()),
                &CharClass::Whitespace,
            );
            let right = rhs_operand(right_raw);
            let left = resolve_string(&String::from_str(left_raw), doc);
            let holds = compare_operands(k, &left, &right);
            assert(expr@.skip(i + operators()[k as int].len()) == expr@.skip(
                i + op@.len(),
            ));
            assert(condition_value(expr@, doc@) == Some(holds));
            Ok(holds)
        },
        None => Err(EngineError::Other(join("Invalid condition syntax: ", expr))),
    }
}

/// Evaluates a routing predicate against the run's context document.
pub fn evaluate_condition(expr: &str, ctx: &ExecutionContext) -> (r: Result<bool, EngineError>)
    ensures
        r matches Ok(b) ==> condition_value(expr@, ctx.document()) == Some(b),
        r matches Err(e) ==> (condition_value(expr@, ctx.document()) is None && (e matches EngineError::Other(
            m,
        ) && m@ == "Invalid condition syntax: "@ + expr@)),
        r is Ok <==> condition_value(expr@, ctx.document()) is Some,
{
    let doc = build_jsonpath_context(ctx);
    evaluate_against(expr, &doc)
}

} // verus!
