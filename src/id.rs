use rand::Rng;
use vstd::prelude::*;

verus! {

broadcast use vstd::group_vstd_default;

/// An ASCII letter or digit.
pub open spec fn is_alphanumeric(c: char) -> bool {
    ('a' <= c && c <= 'z') || ('A' <= c && c <= 'Z') || ('0' <= c && c <= '9')
}

/// `id` is `prefix`, an underscore, and eight ASCII letters or digits.
pub open spec fn is_id_with_prefix(id: Seq<char>, prefix: Seq<char>) -> bool {
    &&& id.len() == prefix.len() + 9
    &&& id.subrange(0, prefix.len() as int) == prefix
    &&& id[prefix.len() as int] == '_'
    &&& forall|i: int| prefix.len() < i < id.len() ==> is_alphanumeric(#[trigger] id[i])
}

/// Relies on rand's `Alphanumeric` distribution, which draws ASCII letters and
/// digits, and on `Iterator::take`, which keeps `n` draws.
#[verifier::external_body]
fn random_alphanumeric(n: usize) -> (r: String)
    ensures
        r@.len() == n,
        forall|i: int| 0 <= i < n ==> is_alphanumeric(#[trigger] r@[i]),
{
    rand::rng().sample_iter(&rand::distr::Alphanumeric).take(n).map(char::from).collect()
}

/// A fresh identifier of the form `<prefix>_<8 letters or digits>`.
pub fn generate_id(prefix: &str) -> (r: String)
    ensures
        is_id_with_prefix(r@, prefix@),
{
    let suffix = random_alphanumeric(8);
    let mut id = String::from_str(prefix);
    proof {
        reveal_strlit("_");
    }
    id.append("_");
    id.append(suffix.as_str());
    assert(id@.subrange(0, prefix@.len() as int) =~= prefix@);
    assert forall|i: int| prefix@.len() < i < id@.len() implies is_alphanumeric(#[trigger] id@[i]) by {
        assert(id@[i] == suffix@[i - prefix@.len() - 1]);
    }
    id
}

} // verus!
