use vstd::prelude::*;
use crate::dates::{Date, Timestamp, date_le, date_at_or_before};
use crate::parse::{spec_parse_version, spec_parse_timestamp, parse_version, parse_timestamp};
use crate::range::{Comparator, ComparatorView, spec_matches};
use crate::strmap::StrMap;
use crate::version::{
    Cmp, Version, VersionView, version_cmp, version_le, cmp_version, lemma_version_flip,
    lemma_version_trans,
};
use crate::dates::{timestamp_cmp, ts_cmp};

verus! {

/// One release of a package: a version and the instant it was published.
pub struct VersionRecord {
    pub version: Version,
    pub published: Timestamp,
}

pub struct RecordView {
    pub version: VersionView,
    pub published: Timestamp,
}

impl View for VersionRecord {
    type V = RecordView;

    open spec fn view(&self) -> RecordView {
        RecordView { version: self.version@, published: self.published }
    }
}

impl DeepView for VersionRecord {
    type V = RecordView;

    open spec fn deep_view(&self) -> RecordView {
        self.view()
    }
}

/// A release qualifies for the date query when it carries no pre-release tag
/// and its publish date (the calendar date, time of day discarded) is not
/// after the cutoff.
pub open spec fn qualifies(r: RecordView, date: Date) -> bool {
    r.version.pre.len() == 0 && date_le(r.published.spec_date(), date)
}

/// The order the date query maximises: version precedence first, the publish
/// instant as a defensive tie-break among releases of equal precedence.
pub open spec fn record_le(a: RecordView, b: RecordView) -> bool {
    ||| version_cmp(a.version, b.version) == Cmp::Lt
    ||| (version_cmp(a.version, b.version) == Cmp::Eq && ts_cmp(a.published, b.published)
        != Cmp::Gt)
}

pub proof fn lemma_record_trans(a: RecordView, b: RecordView, c: RecordView)
    ensures
        record_le(a, b) && record_le(b, c) ==> record_le(a, c),
{
    lemma_version_trans(a.version, b.version, c.version);
}

/// The release at index `i` qualifies and ranks at the top of the order the
/// date query maximises.
pub open spec fn is_latest_released_at(h: Seq<RecordView>, date: Date, i: int) -> bool {
    &&& 0 <= i < h.len() && qualifies(h[i], date)
    &&& forall|j: int|
        0 <= j < h.len() && qualifies(#[trigger] h[j], date) ==> record_le(h[j], h[i])
}

/// `v` is the version of a qualifying release and no qualifying release has a
/// version of higher precedence.
pub open spec fn is_latest_released(h: Seq<RecordView>, date: Date, v: VersionView) -> bool {
    &&& exists|i: int|
        0 <= i < h.len() && qualifies(#[trigger] h[i], date) && h[i].version == v
    &&& forall|i: int|
        0 <= i < h.len() && qualifies(#[trigger] h[i], date) ==> version_le(h[i].version, v)
}

/// `v` is the version of a release satisfying the range expression and no
/// satisfying release (pre-releases included) has a version of higher
/// precedence.
pub open spec fn is_latest_matching(h: Seq<RecordView>, c: ComparatorView, v: VersionView) -> bool {
    &&& exists|i: int|
        0 <= i < h.len() && spec_matches(c, (#[trigger] h[i]).version) && h[i].version == v
    &&& forall|i: int|
        0 <= i < h.len() && spec_matches(c, (#[trigger] h[i]).version) ==> version_le(
            h[i].version,
            v,
        )
}

/// The releases a response body stands for: one record per pair whose version
/// and timestamp both parse; a pair that fails either parse is dropped.
pub open spec fn ingest_spec(pairs: Seq<(Seq<char>, Seq<char>)>) -> Seq<RecordView>
    decreases pairs.len(),
{
    if pairs.len() == 0 {
        Seq::empty()
    } else {
        let rest = ingest_spec(pairs.drop_last());
        let p = pairs.last();
        match (spec_parse_version(p.0), spec_parse_timestamp(p.1)) {
            (Some(v), Some(t)) => rest.push(RecordView { version: v, published: t }),
            _ => rest,
        }
    }
}

pub open spec fn pair_views(s: Seq<(String, String)>) -> Seq<(Seq<char>, Seq<char>)> {
    s.map_values(|p: (String, String)| (p.0@, p.1@))
}

/// Turn the (version string, timestamp string) pairs of a response body into
/// release records, dropping every pair that does not parse.
pub fn ingest(pairs: &Vec<(String, String)>) -> (r: Vec<VersionRecord>)
    ensures
        r.deep_view() == ingest_spec(pair_views(pairs@)),
{
    let mut r: Vec<VersionRecord> = Vec::new();
    let mut i: usize = 0;
    proof {
        assert(pair_views(pairs@.take(0)) =~= Seq::<(Seq<char>, Seq<char>)>::empty());
        assert(r.deep_view() =~~= ingest_spec(pair_views(pairs@.take(0))));
    }
    while i < pairs.len()
        invariant
            i <= pairs@.len(),
            r.deep_view() == ingest_spec(pair_views(pairs@.take(i as int))),
        decreases pairs@.len() - i,
    {
        let ghost prev = r.deep_view();
        let version = parse_version(pairs[i].0.as_str());
        let published = parse_timestamp(pairs[i].1.as_str());
        proof {
            let pv = pair_views(pairs@.take(i as int + 1));
            assert(pv.drop_last() =~= pair_views(pairs@.take(i as int)));
            assert(pv.last() == (pairs@[i as int].0@, pairs@[i as int].1@));
        }
        match (version, published) {
            (Some(v), Some(t)) => {
                let rec = VersionRecord { version: v, published: t };
                proof {
                    assert(rec@.version == spec_parse_version(pairs@[i as int].0@)->0);
                }
                r.push(rec);
                proof {
                    assert(r.deep_view() =~~= ingest_spec(pair_views(pairs@.take(i as int + 1))));
                }
            },
            _ => {
                proof {
                    assert(r.deep_view() =~~= ingest_spec(pair_views(pairs@.take(i as int + 1))));
                }
            },
        }
        i += 1;
    }
    proof {
        assert(pairs@.take(pairs@.len() as int) =~= pairs@);
    }
    r
}

/// The per-package release-history store. Histories arrive whole, one per
/// package; re-loading a package replaces its entry.
pub struct Registry {
    versions: StrMap<Vec<VersionRecord>>,
}

impl Registry {
    pub closed spec fn wf(&self) -> bool {
        self.versions.wf()
    }

    /// Whether this package's history has been loaded.
    pub closed spec fn loaded(&self, name: Seq<char>) -> bool {
        self.versions@.contains_key(name)
    }

    /// The loaded history of a package.
    pub closed spec fn history(&self, name: Seq<char>) -> Seq<RecordView> {
        self.versions@[name].deep_view()
    }

    pub fn new() -> (r: Self)
        ensures
            r.wf(),
            forall|k: Seq<char>| !r.loaded(k),
    {
        Registry { versions: StrMap::new() }
    }

    /// Store a package's releases whole under its name, replacing whatever
    /// was there (how a prior run's memoized result re-enters the store).
    pub fn store(&mut self, library: &str, records: Vec<VersionRecord>)
        requires
            old(self).wf(),
        ensures
            final(self).wf(),
            final(self).loaded(library@),
            final(self).history(library@) == records.deep_view(),
            forall|k: Seq<char>|
                k != library@ ==> (final(self).loaded(k) <==> old(self).loaded(k)),
            forall|k: Seq<char>|
                k != library@ && old(self).loaded(k) ==> final(self).history(k) == old(
                    self,
                ).history(k),
    {
        self.versions.insert(library.to_owned(), records);
    }

    /// Store the parsed releases of one response body under the package's
    /// name, replacing whatever was there; a body that could not be decoded
    /// at all (`None`) stores an empty history.
    pub fn load(&mut self, library: &str, response: Option<Vec<(String, String)>>)
        requires
            old(self).wf(),
        ensures
            final(self).wf(),
            final(self).loaded(library@),
            final(self).history(library@) == match response {
                Some(pairs) => ingest_spec(pair_views(pairs@)),
                None => Seq::<RecordView>::empty(),
            },
            forall|k: Seq<char>|
                k != library@ ==> (final(self).loaded(k) <==> old(self).loaded(k)),
            forall|k: Seq<char>|
                k != library@ && old(self).loaded(k) ==> final(self).history(k) == old(
                    self,
                ).history(k),
    {
        let records = match response {
            Some(pairs) => ingest(&pairs),
            None => {
                let r: Vec<VersionRecord> = Vec::new();
                proof {
                    assert(r.deep_view() =~~= Seq::<RecordView>::empty());
                }
                r
            },
        };
        self.store(library, records);
    }

    pub fn is_loaded(&self, library: &str) -> (r: bool)
        requires
            self.wf(),
        ensures
            r == self.loaded(library@),
    {
        self.versions.contains(library)
    }

    /// The latest release at or before the cutoff date: among the releases
    /// without a pre-release tag published on or before `date`, the one of
    /// highest version precedence (publish instant breaking precedence ties),
    /// or none when no release qualifies.
    pub fn get_latest(&self, library: &str, date: Date) -> (r: Option<Version>)
        requires
            self.wf(),
            self.loaded(library@),
        ensures
            match r {
                Some(v) => is_latest_released(self.history(library@), date, v@) && exists|i: int|
                    is_latest_released_at(self.history(library@), date, i)
                        && #[trigger] self.history(library@)[i].version == v@,
                None => forall|i: int|
                    0 <= i < self.history(library@).len() ==> !qualifies(
                        #[trigger] self.history(library@)[i],
                        date,
                    ),
            },
    {
        let records: &Vec<VersionRecord> = match self.versions.get(library) {
            Some(v) => v,
            None => {
                proof {
                    assert(false);
                }
                return None;
            },
        };
        let ghost h = self.history(library@);
        proof {
            assert(h == records.deep_view());
        }
        let mut best: usize = 0;
        let mut found: bool = false;
        let mut i: usize = 0;
        while i < records.len()
            invariant
                i <= records@.len(),
                h == records.deep_view(),
                h.len() == records@.len(),
                found ==> best < i && qualifies(h[best as int], date),
                found ==> forall|j: int|
                    0 <= j < i && qualifies(#[trigger] h[j], date) ==> record_le(
                        h[j],
                        h[best as int],
                    ),
                !found ==> forall|j: int| 0 <= j < i ==> !qualifies(#[trigger] h[j], date),
            decreases records@.len() - i,
        {
            let rec = &records[i];
            proof {
                assert(h[i as int] == records@[i as int].deep_view());
            }
            let q = rec.version.pre.len() == 0 && date_at_or_before(rec.date(), date);
            if q {
                if !found {
                    proof {
                        lemma_version_flip(h[i as int].version, h[i as int].version);
                    }
                    best = i;
                    found = true;
                } else {
                    let c = cmp_version(&records[best].version, &rec.version);
                    let replace = match c {
                        Cmp::Lt => true,
                        Cmp::Eq => {
                            let tc = timestamp_cmp(&records[best].published, &rec.published);
                            tc != Cmp::Gt
                        },
                        Cmp::Gt => false,
                    };
                    proof {
                        lemma_version_flip(h[best as int].version, h[i as int].version);
                    }
                    if replace {
                        proof {
                            let ghost ob = best as int;
                            assert forall|j: int|
                                0 <= j < i + 1 && qualifies(#[trigger] h[j], date) implies record_le(
                                h[j],
                                h[i as int],
                            ) by {
                                if j < i {
                                    lemma_record_trans(h[j], h[ob], h[i as int]);
                                } else {
                                    lemma_version_flip(h[i as int].version, h[i as int].version);
                                }
                            }
                        }
                        best = i;
                    }
                }
            }
            i += 1;
        }
        if found {
            proof {
                assert forall|j: int|
                    0 <= j < h.len() && qualifies(#[trigger] h[j], date) implies version_le(
                    h[j].version,
                    h[best as int].version,
                ) by {}
                assert(is_latest_released_at(h, date, best as int));
            }
            let v = records[best].version.duplicate();
            return Some(v);
        }
        None
    }

    /// The latest release satisfying the range expression: among all releases
    /// whose version satisfies it (pre-releases not excluded here), the one
    /// of highest version precedence, or none when no release satisfies it.
    pub fn get_latest_matching(&self, library: &str, comparator: &Comparator) -> (r: Option<
        Version,
    >)
        requires
            self.wf(),
            self.loaded(library@),
        ensures
            match r {
                Some(v) => is_latest_matching(self.history(library@), comparator@, v@),
                None => forall|i: int|
                    0 <= i < self.history(library@).len() ==> !spec_matches(
                        comparator@,
                        (#[trigger] self.history(library@)[i]).version,
                    ),
            },
    {
        let records: &Vec<VersionRecord> = match self.versions.get(library) {
            Some(v) => v,
            None => {
                proof {
                    assert(false);
                }
                return None;
            },
        };
        let ghost h = self.history(library@);
        proof {
            assert(h == records.deep_view());
        }
        let mut best: usize = 0;
        let mut found: bool = false;
        let mut i: usize = 0;
        while i < records.len()
            invariant
                i <= records@.len(),
                h == records.deep_view(),
                h.len() == records@.len(),
                found ==> best < i && spec_matches(comparator@, h[best as int].version),
                found ==> forall|j: int|
                    0 <= j < i && spec_matches(comparator@, (#[trigger] h[j]).version)
                        ==> version_le(h[j].version, h[best as int].version),
                !found ==> forall|j: int|
                    0 <= j < i ==> !spec_matches(comparator@, (#[trigger] h[j]).version),
            decreases records@.len() - i,
        {
            let rec = &records[i];
            proof {
                assert(h[i as int] == records@[i as int].deep_view());
            }
            if comparator.matches(&rec.version) {
                if !found {
                    proof {
                        lemma_version_flip(h[i as int].version, h[i as int].version);
                    }
                    best = i;
                    found = true;
                } else {
                    let c = cmp_version(&records[best].version, &rec.version);
                    proof {
                        lemma_version_flip(h[best as int].version, h[i as int].version);
                    }
                    if c != Cmp::Gt {
                        proof {
                            let ghost ob = best as int;
                            assert forall|j: int|
                                0 <= j < i + 1 && spec_matches(
                                    comparator@,
                                    (#[trigger] h[j]).version,
                                ) implies version_le(h[j].version, h[i as int].version) by {
                                if j < i {
                                    lemma_version_trans(
                                        h[j].version,
                                        h[ob].version,
                                        h[i as int].version,
                                    );
                                } else {
                                    lemma_version_flip(h[i as int].version, h[i as int].version);
                                }
                            }
                        }
                        best = i;
                    }
                }
            }
            i += 1;
        }
        if found {
            let v = records[best].version.duplicate();
            return Some(v);
        }
        None
    }
}

impl VersionRecord {
    pub fn date(&self) -> (r: Date)
        ensures
            r == self.published.spec_date(),
    {
        self.published.date()
    }
}

/// A version answering the date query is never a pre-release and is the
/// version of a release published on or before the cutoff.
pub proof fn lemma_latest_released_sound(h: Seq<RecordView>, date: Date, v: VersionView)
    requires
        is_latest_released(h, date, v),
    ensures
        v.pre.len() == 0,
        exists|i: int|
            0 <= i < h.len() && (#[trigger] h[i]).version == v && h[i].version.pre.len() == 0
                && date_le(h[i].published.spec_date(), date),
{
    let i = choose|i: int| 0 <= i < h.len() && qualifies(#[trigger] h[i], date) && h[i].version == v;
    assert(h[i].version == v && h[i].version.pre.len() == 0 && date_le(
        h[i].published.spec_date(),
        date,
    ));
}

/// A version answering the range query is the version of a release that
/// satisfies the expression, and every satisfying release ranks at or below
/// it in version precedence.
pub proof fn lemma_latest_matching_sound(h: Seq<RecordView>, c: ComparatorView, v: VersionView)
    requires
        is_latest_matching(h, c, v),
    ensures
        spec_matches(c, v),
        forall|i: int|
            0 <= i < h.len() && spec_matches(c, (#[trigger] h[i]).version) ==> version_le(
                h[i].version,
                v,
            ),
{
    let i = choose|i: int|
        0 <= i < h.len() && spec_matches(c, (#[trigger] h[i]).version) && h[i].version == v;
    assert(spec_matches(c, h[i].version));
}

} // verus!
