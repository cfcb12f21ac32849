use vstd::prelude::*;

verus! {

broadcast use vstd::group_vstd_default;

/// `s` begins with `p`.
pub open spec fn starts_with(s: Seq<char>, p: Seq<char>) -> bool {
    p.len() <= s.len() && s.subrange(0, p.len() as int) == p
}

/// Whether `s` begins with `p`.
pub fn has_prefix(s: &str, p: &str) -> (r: bool)
    ensures
        r == starts_with(s@, p@),
{
    let n = s.unicode_len();
    let m = p.unicode_len();
    if m > n {
        return false;
    }
    let mut i: usize = 0;
    while i < m
        invariant
            m == p@.len(),
            n == s@.len(),
            m <= n,
            i <= m,
            forall|k: int| 0 <= k < i ==> s@[k] == p@[k],
        decreases m - i,
    {
        if s.get_char(i) != p.get_char(i) {
            assert(s@.subrange(0, m as int)[i as int] != p@[i as int]);
            return false;
        }
        i = i + 1;
    }
    assert(s@.subrange(0, m as int) =~= p@);
    true
}

/// Whether `a` and `b` hold the same characters.
pub fn same_text(a: &str, b: &str) -> (r: bool)
    ensures
        r == (a@ == b@),
{
    let n = a.unicode_len();
    if n != b.unicode_len() {
        return false;
    }
    let mut i: usize = 0;
    while i < n
        invariant
            n == a@.len(),
            n == b@.len(),
            i <= n,
            forall|k: int| 0 <= k < i ==> a@[k] == b@[k],
        decreases n - i,
    {
        if a.get_char(i) != b.get_char(i) {
            return false;
        }
        i = i + 1;
    }
    assert(a@ =~= b@);
    true
}

/// `t` with every occurrence of the non-empty `p`, found from left to right
/// without overlap, replaced by `w`.
pub open spec fn replaced(t: Seq<char>, p: Seq<char>, w: Seq<char>) -> Seq<char>
    decreases t.len(),
{
    if p.len() == 0 || t.len() == 0 {
        t
    } else if starts_with(t, p) {
        w + replaced(t.skip(p.len() as int), p, w)
    } else {
        seq![t[0]] + replaced(t.skip(1), p, w)
    }
}

/// `text` with every occurrence of `pattern`, from left to right and without
/// overlap, replaced by `with`.
pub fn replace_all(text: &str, pattern: &str, with: &str) -> (r: String)
    requires
        pattern@.len() > 0,
    ensures
        r@ == replaced(text@, pattern@, with@),
{
    let n = text.unicode_len();
    let m = pattern.unicode_len();
    let mut out = String::new();
    let mut i: usize = 0;
    assert(text@.skip(0) =~= text@);
    assert(out@ + text@ =~= text@);
    while i < n
        invariant
            n == text@.len(),
            m == pattern@.len(),
            m > 0,
            i <= n,
            out@ + replaced(text@.skip(i as int), pattern@, with@) == replaced(
                text@,
                pattern@,
                with@,
            ),
        decreases n - i,
    {
        let rest = suffix_from(text, i);
        if has_prefix(rest, pattern) {
            let ghost before = out@;
            out.append(with);
            assert(rest@.skip(m as int) =~= text@.skip(i as int + m as int));
            assert(out@ + replaced(text@.skip(i as int + m as int), pattern@, with@) =~= before
                + replaced(rest@, pattern@, with@));
            i = i + m;
        } else {
            let ghost before = out@;
            let one = text.substring_char(i, i + 1);
            out.append(one);
            assert(rest@.skip(1) =~= text@.skip(i as int + 1));
            assert(one@ =~= seq![rest@[0]]);
            assert(out@ + replaced(text@.skip(i as int + 1), pattern@, with@) =~= before
                + replaced(rest@, pattern@, with@));
            i = i + 1;
        }
    }
    assert(text@.skip(n as int) =~= Seq::<char>::empty());
    assert(out@ + replaced(text@.skip(n as int), pattern@, with@) =~= out@);
    out
}

/// The characters of `s` from position `start` on.
pub fn suffix_from(s: &str, start: usize) -> (r: &str)
    requires
        start <= s@.len(),
    ensures
        r@ == s@.skip(start as int),
{
    let n = s.unicode_len();
    let r = s.substring_char(start, n);
    assert(r@ =~= s@.skip(start as int));
    r
}

} // verus!
