use vstd::prelude::*;
use crate::changes::Changes;
use crate::dates::Date;
use crate::range::{Comparator, ComparatorView};
use crate::registry::{
    Registry, RecordView, is_latest_released, is_latest_matching, qualifies,
};
use crate::range::spec_matches;
use crate::strmap::keys_distinct;
use crate::version::{Cmp, Version, VersionView, version_cmp, cmp_version};

verus! {

/// The decision for one dependency. `Some(v)`: the latest release at the
/// cutoff, `v`, strictly exceeds (by version precedence) the latest release
/// the declared range allows, so `v` is proposed as the pin. `None`: either
/// query had no answer, or the historical latest does not exceed the range.
pub open spec fn change_decision(
    h: Seq<RecordView>,
    date: Date,
    c: ComparatorView,
    r: Option<VersionView>,
) -> bool {
    match r {
        Some(v) => exists|w: VersionView|
            is_latest_released(h, date, v) && #[trigger] is_latest_matching(h, c, w)
                && version_cmp(v, w) == Cmp::Gt,
        None => {
            ||| forall|i: int| 0 <= i < h.len() ==> !qualifies(#[trigger] h[i], date)
            ||| forall|i: int|
                0 <= i < h.len() ==> !spec_matches(c, (#[trigger] h[i]).version)
            ||| exists|v: VersionView, w: VersionView|
                #![trigger is_latest_released(h, date, v), is_latest_matching(h, c, w)]
                is_latest_released(h, date, v) && is_latest_matching(h, c, w) && version_cmp(v, w)
                    != Cmp::Gt
        },
    }
}

/// Decide one dependency against the loaded registry: propose the latest
/// release at the cutoff as a pin exactly when it strictly exceeds the latest
/// release the declared range allows; skip the dependency when either query
/// has no answer.
pub fn resolve_one(registry: &Registry, library: &str, date: Date, comparator: &Comparator) -> (r:
    Option<Version>)
    requires
        registry.wf(),
        registry.loaded(library@),
    ensures
        change_decision(registry.history(library@), date, comparator@, r.deep_view()),
{
    let ghost h = registry.history(library@);
    let latest_at = match registry.get_latest(library, date) {
        Some(v) => v,
        None => {
            return None;
        },
    };
    let latest_allowed = match registry.get_latest_matching(library, comparator) {
        Some(v) => v,
        None => {
            return None;
        },
    };
    let c = cmp_version(&latest_at, &latest_allowed);
    proof {
        assert(is_latest_released(h, date, latest_at@));
        assert(is_latest_matching(h, comparator@, latest_allowed@));
    }
    if c == Cmp::Gt {
        Some(latest_at)
    } else {
        None
    }
}

/// Resolve every dependency against the loaded registry, recording a pin for
/// each whose historical latest strictly exceeds its declared range. The
/// accumulator starts empty and afterwards holds exactly the proposed pins:
/// nothing but declared dependencies, and for every dependency its entry (or
/// absence) is a correct decision.
pub fn find_changes(
    registry: &Registry,
    deps: &Vec<(String, Comparator)>,
    date: Date,
    changes: &mut Changes,
)
    requires
        registry.wf(),
        old(changes).wf(),
        old(changes)@ == Map::<Seq<char>, Version>::empty(),
        keys_distinct(deps@),
        forall|i: int| 0 <= i < deps@.len() ==> registry.loaded((#[trigger] deps@[i]).0@),
    ensures
        final(changes).wf(),
        forall|k: Seq<char>|
            final(changes)@.contains_key(k) ==> exists|i: int|
                0 <= i < deps@.len() && (#[trigger] deps@[i]).0@ == k,
        forall|i: int|
            0 <= i < deps@.len() ==> change_decision(
                registry.history((#[trigger] deps@[i]).0@),
                date,
                deps@[i].1@,
                if final(changes)@.contains_key(deps@[i].0@) {
                    Some(final(changes)@[deps@[i].0@]@)
                } else {
                    None
                },
            ),
{
    let mut i: usize = 0;
    while i < deps.len()
        invariant
            registry.wf(),
            changes.wf(),
            keys_distinct(deps@),
            forall|j: int| 0 <= j < deps@.len() ==> registry.loaded((#[trigger] deps@[j]).0@),
            i <= deps@.len(),
            forall|k: Seq<char>|
                changes@.contains_key(k) ==> exists|j: int|
                    0 <= j < i && (#[trigger] deps@[j]).0@ == k,
            forall|j: int|
                0 <= j < i ==> change_decision(
                    registry.history((#[trigger] deps@[j]).0@),
                    date,
                    deps@[j].1@,
                    if changes@.contains_key(deps@[j].0@) {
                        Some(changes@[deps@[j].0@]@)
                    } else {
                        None
                    },
                ),
        decreases deps@.len() - i,
    {
        let name = &deps[i].0;
        let comparator = &deps[i].1;
        let r = resolve_one(registry, name.as_str(), date, comparator);
        match r {
            Some(v) => {
                changes.insert(name.clone(), v);
            },
            None => {},
        }
        i += 1;
    }
}

} // verus!
