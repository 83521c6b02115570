//! A semi-structured value, the shape of a parsed metadata sidecar document.
//! Unknown sidecar keys are carried through the pipeline in this form so that
//! render templates can use custom data without a fixed schema.
use vstd::prelude::*;
use crate::text::str_eq;

verus! {

/// A value of a structured, human-editable key/value document.
#[derive(Debug)]
pub enum MetaValue {
    Null,
    Bool(bool),
    /// A number, kept as the text that renders it.
    Number(String),
    Str(String),
    List(Vec<MetaValue>),
    /// An ordered map; keys may themselves be any value.
    Mapping(Vec<(MetaValue, MetaValue)>),
}

/// `k` is a string key equal to `key`.
pub open spec fn is_str_key(k: MetaValue, key: Seq<char>) -> bool {
    k matches MetaValue::Str(s) && s@ == key
}

/// The value under the first string key equal to `key`, if any.
pub open spec fn map_lookup(pairs: Seq<(MetaValue, MetaValue)>, key: Seq<char>) -> Option<
    MetaValue,
>
    decreases pairs.len(),
{
    if pairs.len() == 0 {
        None
    } else if is_str_key(pairs[0].0, key) {
        Some(pairs[0].1)
    } else {
        map_lookup(pairs.subrange(1, pairs.len() as int), key)
    }
}

impl MetaValue {
    /// Whether this value is a string key equal to `key`.
    pub fn is_string_key(&self, key: &str) -> (r: bool)
        ensures
            r == is_str_key(*self, key@),
    {
        match self {
            MetaValue::Str(s) => str_eq(s.as_str(), key),
            _ => false,
        }
    }
}

/// The value under the first string key equal to `key`, if any.
pub fn lookup<'a>(pairs: &'a Vec<(MetaValue, MetaValue)>, key: &str) -> (r: Option<
    &'a MetaValue,
>)
    ensures
        match r {
            Some(v) => map_lookup(pairs@, key@) == Some(*v),
            None => map_lookup(pairs@, key@) is None,
        },
{
    let mut i: usize = 0;
    proof {
        assert(pairs@.subrange(0, pairs@.len() as int) =~= pairs@);
    }
    while i < pairs.len()
        invariant
            i <= pairs.len(),
            map_lookup(pairs@, key@) == map_lookup(pairs@.subrange(i as int, pairs@.len() as int), key@),
            forall|k: int| 0 <= k < i ==> !is_str_key(pairs@[k].0, key@),
        decreases pairs.len() - i,
    {
        let ghost rest = pairs@.subrange(i as int, pairs@.len() as int);
        if pairs[i].0.is_string_key(key) {
            proof {
                assert(rest[0] == pairs@[i as int]);
            }
            return Some(&pairs[i].1);
        }
        proof {
            assert(rest[0] == pairs@[i as int]);
            assert(rest.subrange(1, rest.len() as int) =~= pairs@.subrange(
                i + 1,
                pairs@.len() as int,
            ));
        }
        i = i + 1;
    }
    proof {
        assert(pairs@.subrange(i as int, pairs@.len() as int).len() == 0);
    }
    None
}

} // verus!
