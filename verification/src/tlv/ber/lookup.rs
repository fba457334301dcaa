use vstd::prelude::*;
use crate::tlv::ber::{BerTlv, TlvModel, TlvValueModel, tlv_model, tlv_seq_model};

verus! {

/// The first data object of `s`, from index `from` on, whose tag is `tag`.
pub open spec fn spec_find_from(s: Seq<TlvModel>, tag: u32, from: int) -> Option<TlvModel>
    decreases s.len() - from,
{
    if from < 0 || from >= s.len() {
        None
    } else if s[from].tag == tag {
        Some(s[from])
    } else {
        spec_find_from(s, tag, from + 1)
    }
}

/// The first data object of `s` whose tag is `tag`.
pub open spec fn spec_find_in(s: Seq<TlvModel>, tag: u32) -> Option<TlvModel> {
    spec_find_from(s, tag, 0)
}

/// The first child of `t` whose tag is `tag`; `None` if `t` is primitive.
pub open spec fn spec_find_child(t: TlvModel, tag: u32) -> Option<TlvModel> {
    match t.value {
        TlvValueModel::Constructed(c) => spec_find_in(c, tag),
        TlvValueModel::Primitive(_) => None,
    }
}

/// Follows `path` down from `t`, one child lookup per tag; `t` itself for the
/// empty path.
pub open spec fn spec_walk_from(t: TlvModel, path: Seq<u32>) -> Option<TlvModel>
    decreases path.len(),
{
    if path.len() == 0 {
        Some(t)
    } else {
        match spec_find_child(t, path[0]) {
            None => None,
            Some(c) => spec_walk_from(c, path.drop_first()),
        }
    }
}

/// What `walk` returns: the object found at the end of a non-empty `path`.
pub open spec fn spec_walk(t: TlvModel, path: Seq<u32>) -> Option<TlvModel> {
    if path.len() == 0 {
        None
    } else {
        spec_walk_from(t, path)
    }
}

/// The model of the object that an optional reference points to.
pub open spec fn option_model(r: Option<&BerTlv>) -> Option<TlvModel> {
    match r {
        Some(t) => Some(tlv_model(*t)),
        None => None,
    }
}

/// The model of a sequence has one element per object, each its model.
pub proof fn lemma_seq_model_index(s: Seq<BerTlv>)
    ensures
        tlv_seq_model(s).len() == s.len(),
        forall|i: int| 0 <= i < s.len() ==> #[trigger] tlv_seq_model(s)[i] == tlv_model(s[i]),
    decreases s.len(),
{
    if s.len() > 0 {
        lemma_seq_model_index(s.drop_last());
    }
}

proof fn lemma_walk_from_concat(t: TlvModel, p: Seq<u32>, q: Seq<u32>)
    ensures
        spec_walk_from(t, p + q) == match spec_walk_from(t, p) {
            None => None,
            Some(u) => spec_walk_from(u, q),
        },
    decreases p.len(),
{
    if p.len() == 0 {
        assert(p + q =~= q);
    } else {
        assert((p + q)[0] == p[0]);
        assert((p + q).drop_first() =~= p.drop_first() + q);
        if let Some(c) = spec_find_child(t, p[0]) {
            lemma_walk_from_concat(c, p.drop_first(), q);
        }
    }
}

/// Law: walking a path made of two non-empty parts is walking the first
/// part, then walking the second from the object where the first ends.
pub proof fn law_walk_concat(t: TlvModel, p: Seq<u32>, q: Seq<u32>)
    requires
        p.len() > 0,
        q.len() > 0,
    ensures
        spec_walk(t, p + q) == match spec_walk(t, p) {
            None => None,
            Some(u) => spec_walk(u, q),
        },
{
    lemma_walk_from_concat(t, p, q);
}

/// Law: a walk along a one-tag path is a lookup among the children.
pub proof fn law_walk_single(t: TlvModel, tag: u32)
    ensures
        spec_walk(t, seq![tag]) == spec_find_child(t, tag),
{
    assert(seq![tag].drop_first() =~= Seq::<u32>::empty());
    if let Some(c) = spec_find_child(t, tag) {
        assert(spec_walk_from(c, Seq::<u32>::empty()) == Some(c));
    }
}

proof fn lemma_find_from(s: Seq<TlvModel>, tag: u32, from: int)
    requires
        0 <= from,
    ensures
        spec_find_from(s, tag, from) matches Some(u) ==> exists|i: int|
            from <= i < s.len() && s[i] == u && u.tag == tag && forall|j: int|
                from <= j < i ==> #[trigger] s[j].tag != tag,
        spec_find_from(s, tag, from) is None ==> forall|j: int|
            from <= j < s.len() ==> #[trigger] s[j].tag != tag,
    decreases s.len() - from,
{
    if from < s.len() && s[from].tag != tag {
        lemma_find_from(s, tag, from + 1);
        if let Some(u) = spec_find_from(s, tag, from) {
            let i = choose|i: int|
                from + 1 <= i < s.len() && s[i] == u && u.tag == tag && forall|j: int|
                    from + 1 <= j < i ==> #[trigger] s[j].tag != tag;
            assert(forall|j: int| from <= j < i ==> #[trigger] s[j].tag != tag);
        }
    }
}

/// Law: a lookup by tag finds the first object with that tag, and finds
/// nothing only when no object has it.
pub proof fn law_find_first(s: Seq<TlvModel>, tag: u32)
    ensures
        spec_find_in(s, tag) matches Some(u) ==> exists|i: int|
            0 <= i < s.len() && s[i] == u && u.tag == tag && forall|j: int|
                0 <= j < i ==> #[trigger] s[j].tag != tag,
        spec_find_in(s, tag) is None ==> forall|j: int| 0 <= j < s.len() ==> #[trigger] s[j].tag != tag,
{
    lemma_find_from(s, tag, 0);
}

pub trait BerTlvWalker {
    /// Walks through a BerTlv tree using the given `path`.
    ///
    /// Will return `Some(ber_tlv)` in the case that a tlv is found in the exact path, in all other
    /// cases will return `None`.
    ///
    /// In the case of an empty `path`, returns `None`.
    fn walk(&self, path: &Vec<u32>) -> Option<&BerTlv>;
}

pub trait BerTlvLookup {
    /// The first data object with the given tag number.
    fn find_tag(&self, tag_number: u32) -> Option<&BerTlv>;
}

impl BerTlvWalker for BerTlv {
    fn walk(&self, path: &Vec<u32>) -> (r: Option<&BerTlv>)
        ensures
            option_model(r) == spec_walk(self@, path@),
    {
        if path.len() == 0 {
            return None;
        }
        let mut current = self;
        let mut i: usize = 0;
        assert(path@.skip(0) =~= path@);
        while i < path.len()
            invariant
                0 <= i <= path@.len(),
                spec_walk_from(self@, path@) == spec_walk_from(current@, path@.skip(i as int)),
            decreases path@.len() - i,
        {
            assert(path@.skip(i as int).drop_first() =~= path@.skip(i + 1));
            match current.optional_constructed_value() {
                None => {
                    return None;
                },
                Some(children) => match children.find_tag(path[i]) {
                    None => {
                        return None;
                    },
                    Some(child) => {
                        current = child;
                    },
                },
            }
            i += 1;
        }
        assert(path@.skip(i as int).len() == 0);
        Some(current)
    }
}

impl BerTlvLookup for BerTlv {
    fn find_tag(&self, tag_number: u32) -> (r: Option<&BerTlv>)
        ensures
            option_model(r) == spec_find_child(self@, tag_number),
    {
        match self.optional_constructed_value() {
            None => None,
            Some(children) => children.find_tag(tag_number),
        }
    }
}

impl BerTlvLookup for Vec<BerTlv> {
    fn find_tag(&self, tag_number: u32) -> (r: Option<&BerTlv>)
        ensures
            option_model(r) == spec_find_in(tlv_seq_model(self@), tag_number),
    {
        let mut i: usize = 0;
        while i < self.len()
            invariant
                0 <= i <= self@.len(),
                spec_find_in(tlv_seq_model(self@), tag_number) == spec_find_from(
                    tlv_seq_model(self@),
                    tag_number,
                    i as int,
                ),
            decreases self@.len() - i,
        {
            proof {
                lemma_seq_model_index(self@);
            }
            if self[i].tag == tag_number {
                return Some(&self[i]);
            }
            i += 1;
        }
        proof {
            lemma_seq_model_index(self@);
        }
        None
    }
}

} // verus!
