use crate::bridge::{json_of_text, json_to_text, parse_json, text_of_json};
use crate::text::{replace_all, replaced};
use crate::json::{Json, JsonV};
use vstd::prelude::*;

verus! {

broadcast use vstd::group_vstd_default;

/// What a secret is replaced by.
pub open spec fn mask() -> Seq<char> {
    seq!['*', '*', '*', '*']
}

/// `text` with every non-empty secret, in order, replaced by the mask.
pub open spec fn masked_with(text: Seq<char>, secrets: Seq<Seq<char>>) -> Seq<char>
    decreases secrets.len(),
{
    if secrets.len() == 0 {
        text
    } else {
        let prev = masked_with(text, secrets.drop_last());
        if secrets.last().len() == 0 {
            prev
        } else {
            replaced(prev, secrets.last(), mask())
        }
    }
}

/// Masks known secret values in text or in JSON documents.
pub struct SensitiveMasker {
    secrets: Vec<String>,
}

impl SensitiveMasker {
    /// The secrets this masker hides.
    pub closed spec fn secrets(&self) -> Seq<Seq<char>> {
        self.secrets@.map_values(|s: String| s@)
    }

    pub fn new(secrets: Vec<String>) -> (r: SensitiveMasker)
        ensures
            r.secrets() == secrets@.map_values(|s: String| s@),
    {
        SensitiveMasker { secrets }
    }

    /// `text` with each non-empty secret replaced by `****`.
    pub fn mask_text(&self, text: &str) -> (r: String)
        ensures
            r@ == masked_with(text@, self.secrets()),
    {
        let ghost all = self.secrets();
        let mut masked = String::from_str(text);
        let mut i: usize = 0;
        proof {
            reveal_strlit("****");
            assert("****"@ =~= mask());
        }
        assert(all.subrange(0, 0) =~= Seq::<Seq<char>>::empty());
        while i < self.secrets.len()
            invariant
                i <= self.secrets@.len(),
                all == self.secrets(),
                all == self.secrets@.map_values(|s: String| s@),
                "****"@ == mask(),
                masked@ == masked_with(text@, all.subrange(0, i as int)),
            decreases self.secrets.len() - i,
        {
            assert(all.subrange(0, i as int + 1).drop_last() =~= all.subrange(0, i as int));
            assert(all.subrange(0, i as int + 1).last() == self.secrets@[i as int]@);
            let secret = self.secrets[i].as_str();
            if secret.unicode_len() > 0 {
                masked = replace_all(masked.as_str(), secret, "****");
            }
            i = i + 1;
        }
        assert(all.subrange(0, i as int) =~= all);
        masked
    }

    /// `value` with each secret masked in its JSON text; where the masked text
    /// is no longer JSON, `null`.
    pub fn mask_value(&self, value: &Json) -> (r: Json)
        ensures
            r@ == match json_of_text(masked_with(text_of_json(value@), self.secrets())) {
                Some(v) => v,
                None => JsonV::Null,
            },
    {
        let text = json_to_text(value);
        let masked = self.mask_text(text.as_str());
        match parse_json(masked.as_str()) {
            Some(v) => v,
            None => Json::Null,
        }
    }
}

} // verus!
