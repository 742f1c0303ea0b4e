use vstd::prelude::*;
use vstd::pervasive::unreached;
use crate::parse::{parse_comparator, spec_parse_comparator};
use crate::range::Comparator;
use crate::strmap::{StrMap, keys_distinct};

verus! {

/// The dependency declarations of a manifest: package name to the range
/// expression the manifest currently accepts for it. Parsed once; immutable.
pub struct PkgReader {
    comparators: StrMap<Comparator>,
}

impl View for PkgReader {
    type V = Map<Seq<char>, Comparator>;

    closed spec fn view(&self) -> Map<Seq<char>, Comparator> {
        self.comparators@
    }
}

impl PkgReader {
    pub closed spec fn wf(&self) -> bool {
        self.comparators.wf()
    }

    /// Build the declarations from the manifest's dependency pairs, each a
    /// package name and a range-expression string. Fails exactly when some
    /// range expression does not parse.
    pub fn new(pairs: &Vec<(String, String)>) -> (r: Option<PkgReader>)
        requires
            keys_distinct(pairs@),
        ensures
            match r {
                Some(reader) => {
                    &&& reader.wf()
                    &&& forall|i: int|
                        0 <= i < pairs@.len() ==> spec_parse_comparator(
                            (#[trigger] pairs@[i]).1@,
                        ) is Some
                    &&& forall|i: int|
                        0 <= i < pairs@.len() ==> reader@.contains_key(#[trigger] pairs@[i].0@)
                            && reader@[pairs@[i].0@]@ == spec_parse_comparator(pairs@[i].1@)->0
                    &&& forall|k: Seq<char>|
                        reader@.contains_key(k) ==> exists|i: int|
                            0 <= i < pairs@.len() && (#[trigger] pairs@[i]).0@ == k
                },
                None => exists|i: int|
                    0 <= i < pairs@.len() && spec_parse_comparator((#[trigger] pairs@[i]).1@) is None,
            },
    {
        let mut map: StrMap<Comparator> = StrMap::new();
        let mut i: usize = 0;
        while i < pairs.len()
            invariant
                keys_distinct(pairs@),
                i <= pairs@.len(),
                map.wf(),
                forall|j: int|
                    0 <= j < i ==> spec_parse_comparator((#[trigger] pairs@[j]).1@) is Some,
                forall|j: int|
                    0 <= j < i ==> map@.contains_key(#[trigger] pairs@[j].0@)
                        && map@[pairs@[j].0@]@ == spec_parse_comparator(pairs@[j].1@)->0,
                forall|k: Seq<char>|
                    map@.contains_key(k) ==> exists|j: int|
                        0 <= j < i && (#[trigger] pairs@[j]).0@ == k,
            decreases pairs@.len() - i,
        {
            match parse_comparator(pairs[i].1.as_str()) {
                Some(c) => {
                    map.insert(pairs[i].0.clone(), c);
                },
                None => {
                    return None;
                },
            }
            i += 1;
        }
        Some(PkgReader { comparators: map })
    }

    /// The declared range expression of one dependency; asking for a package
    /// the manifest does not declare is a contract violation.
    pub fn comparator(&self, library: &str) -> (r: &Comparator)
        requires
            self.wf(),
            self@.contains_key(library@),
        ensures
            *r == self@[library@],
    {
        match self.comparators.get(library) {
            Some(c) => c,
            None => unreached(),
        }
    }

    /// The declared dependencies: distinct names, one per entry of the map.
    pub fn dependencies(&self) -> (r: Vec<String>)
        requires
            self.wf(),
        ensures
            forall|i: int, j: int| 0 <= i < j < r@.len() ==> r@[i]@ != r@[j]@,
            forall|i: int| 0 <= i < r@.len() ==> self@.contains_key(#[trigger] r@[i]@),
            forall|k: Seq<char>|
                self@.contains_key(k) ==> exists|i: int| 0 <= i < r@.len() && r@[i]@ == k,
    {
        let entries = self.comparators.entries();
        let mut r: Vec<String> = Vec::new();
        let mut i: usize = 0;
        while i < entries.len()
            invariant
                i <= entries@.len(),
                r@.len() == i,
                forall|j: int| 0 <= j < i ==> r@[j]@ == (#[trigger] entries@[j]).0@,
                keys_distinct(entries@),
                forall|j: int|
                    0 <= j < entries@.len() ==> self@.contains_key(#[trigger] entries@[j].0@),
                forall|k: Seq<char>|
                    self@.contains_key(k) ==> exists|j: int|
                        0 <= j < entries@.len() && (#[trigger] entries@[j]).0@ == k,
            decreases entries@.len() - i,
        {
            r.push(entries[i].0.clone());
            i += 1;
        }
        proof {
            assert forall|a: int, b: int| 0 <= a < b < r@.len() implies r@[a]@ != r@[b]@ by {
                assert(r@[a]@ == entries@[a].0@);
                assert(r@[b]@ == entries@[b].0@);
            }
            assert forall|a: int| 0 <= a < r@.len() implies self@.contains_key(r@[a]@) by {
                assert(r@[a]@ == entries@[a].0@);
            }
            assert forall|k: Seq<char>| self@.contains_key(k) implies exists|a: int|
                0 <= a < r@.len() && r@[a]@ == k by {
                let j = choose|j: int| 0 <= j < entries@.len() && (#[trigger] entries@[j]).0@ == k;
                assert(r@[j]@ == k);
            }
        }
        r
    }

    /// The declarations as (name, range expression) pairs, names distinct.
    pub fn entries(&self) -> (r: &Vec<(String, Comparator)>)
        requires
            self.wf(),
        ensures
            keys_distinct(r@),
            forall|i: int| 0 <= i < r@.len() ==> self@.contains_key(#[trigger] r@[i].0@)
                && self@[r@[i].0@] == r@[i].1,
            forall|k: Seq<char>| self@.contains_key(k) ==> exists|i: int| 0 <= i < r@.len() && r@[i].0@
                == k,
    {
        self.comparators.entries()
    }
}

} // verus!
