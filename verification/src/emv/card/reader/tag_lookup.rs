use vstd::prelude::*;
use crate::emv::card::image::{EmvTag, EmvTagModel, tags_model};

verus! {

/// The value of the first tag of `s`, from index `from` on, numbered `n`.
pub open spec fn spec_find_emv_tag_from(s: Seq<EmvTagModel>, n: u32, from: int) -> Option<Seq<u8>>
    decreases s.len() - from,
{
    if from < 0 || from >= s.len() {
        None
    } else if s[from].number == n {
        Some(s[from].value)
    } else {
        spec_find_emv_tag_from(s, n, from + 1)
    }
}

/// The value of the first tag of `s` numbered `n`.
pub open spec fn spec_find_emv_tag(s: Seq<EmvTagModel>, n: u32) -> Option<Seq<u8>> {
    spec_find_emv_tag_from(s, n, 0)
}

pub trait EmvTagLookup {
    /// The value of the first tag with the given number.
    fn find_tag(&self, tag_number: u32) -> Option<&Vec<u8>>;
}

impl EmvTagLookup for Vec<EmvTag> {
    fn find_tag(&self, tag_number: u32) -> (r: Option<&Vec<u8>>)
        ensures
            r matches Some(v) ==> spec_find_emv_tag(tags_model(self@), tag_number) == Some(v@),
            r is None ==> spec_find_emv_tag(tags_model(self@), tag_number) is None,
    {
        let mut i: usize = 0;
        while i < self.len()
            invariant
                0 <= i <= self@.len(),
                spec_find_emv_tag(tags_model(self@), tag_number) == spec_find_emv_tag_from(
                    tags_model(self@),
                    tag_number,
                    i as int,
                ),
            decreases self@.len() - i,
        {
            if self[i].number == tag_number {
                return Some(&self[i].value);
            }
            i += 1;
        }
        None
    }
}

} // verus!
