use vstd::prelude::*;
use crate::strmap::{StrMap, keys_distinct};
use crate::version::Version;

verus! {

/// The accumulator of proposed pins: package name to the version to pin,
/// at most one entry per package, a later insert overriding an earlier one.
pub struct Changes {
    map: StrMap<Version>,
}

impl View for Changes {
    type V = Map<Seq<char>, Version>;

    closed spec fn view(&self) -> Map<Seq<char>, Version> {
        self.map@
    }
}

impl Changes {
    pub closed spec fn wf(&self) -> bool {
        self.map.wf()
    }

    pub fn new() -> (r: Self)
        ensures
            r.wf(),
            r@ == Map::<Seq<char>, Version>::empty(),
    {
        Changes { map: StrMap::new() }
    }

    /// Unconditional upsert.
    pub fn insert(&mut self, key: String, value: Version)
        requires
            old(self).wf(),
        ensures
            final(self).wf(),
            final(self)@ == old(self)@.insert(key@, value),
    {
        self.map.insert(key, value);
    }

    pub fn get(&self, key: &str) -> (r: Option<&Version>)
        requires
            self.wf(),
        ensures
            match r {
                Some(v) => self@.contains_key(key@) && *v == self@[key@],
                None => !self@.contains_key(key@),
            },
    {
        self.map.get(key)
    }

    /// Consume the accumulator, handing out its entries exactly once.
    pub fn drain(self) -> (r: Vec<(String, Version)>)
        requires
            self.wf(),
        ensures
            keys_distinct(r@),
            forall|i: int| 0 <= i < r@.len() ==> self@.contains_key(#[trigger] r@[i].0@)
                && self@[r@[i].0@] == r@[i].1,
            forall|k: Seq<char>| self@.contains_key(k) ==> exists|i: int| 0 <= i < r@.len() && r@[i].0@
                == k,
    {
        self.map.into_entries()
    }
}

} // verus!
