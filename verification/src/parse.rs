use vstd::prelude::*;
use crate::dates::Timestamp;
use crate::range::{Comparator, ComparatorView, RangeOp};
use crate::version::{PreIdent, PreIdentView, Version, VersionView};

verus! {

// ---------------------------------------------------------------------------
// Splitting a pre-release tag into its identifiers
// ---------------------------------------------------------------------------

pub open spec fn is_digit(c: u8) -> bool {
    48 <= c <= 57
}

pub open spec fn all_digits(b: Seq<u8>) -> bool {
    forall|j: int| 0 <= j < b.len() ==> is_digit(b[j])
}

/// The identifier a chunk of a pre-release tag stands for.
pub open spec fn ident_view(b: Seq<u8>) -> PreIdentView {
    PreIdentView { numeric: b.len() > 0 && all_digits(b), text: b }
}

/// Index of the first `.` in `b`, or `b.len()` if there is none.
pub open spec fn first_dot(b: Seq<u8>) -> int
    decreases b.len(),
{
    if b.len() == 0 {
        0
    } else if b[0] == 46u8 {
        0
    } else {
        1 + first_dot(b.drop_first())
    }
}

pub proof fn lemma_first_dot(b: Seq<u8>)
    ensures
        0 <= first_dot(b) <= b.len(),
        forall|j: int| 0 <= j < first_dot(b) ==> b[j] != 46u8,
        first_dot(b) < b.len() ==> b[first_dot(b)] == 46u8,
    decreases b.len(),
{
    if b.len() > 0 && b[0] != 46u8 {
        lemma_first_dot(b.drop_first());
        assert forall|j: int| 0 <= j < first_dot(b) implies b[j] != 46u8 by {
            if j > 0 {
                assert(b.drop_first()[j - 1] == b[j]);
            }
        }
    }
}

pub proof fn lemma_first_dot_is(b: Seq<u8>, k: int)
    requires
        0 <= k <= b.len(),
        forall|j: int| 0 <= j < k ==> b[j] != 46u8,
        k < b.len() ==> b[k] == 46u8,
    ensures
        first_dot(b) == k,
    decreases b.len(),
{
    if b.len() > 0 && b[0] != 46u8 {
        assert(k >= 1);
        assert(forall|j: int| 0 <= j < k - 1 ==> b.drop_first()[j] == b[j + 1]);
        assert(k - 1 < b.drop_first().len() ==> b.drop_first()[k - 1] == b[k]);
        lemma_first_dot_is(b.drop_first(), k - 1);
    }
}

/// The identifiers of a pre-release tag, in order: the chunks between the
/// dots. The empty tag has no identifiers.
pub open spec fn split_pre(b: Seq<u8>) -> Seq<PreIdentView>
    decreases b.len(),
    via split_pre_decreases
{
    if b.len() == 0 {
        Seq::empty()
    } else {
        let k = first_dot(b);
        if k >= b.len() {
            seq![ident_view(b)]
        } else {
            seq![ident_view(b.take(k))] + split_pre(b.skip(k + 1))
        }
    }
}

#[via_fn]
proof fn split_pre_decreases(b: Seq<u8>) {
    lemma_first_dot(b);
}

/// Split the byte text of a pre-release tag into its identifiers, flagging
/// the purely numeric ones.
pub fn parse_pre(bytes: &Vec<u8>) -> (r: Vec<PreIdent>)
    ensures
        r.deep_view() == split_pre(bytes@),
{
    let mut r: Vec<PreIdent> = Vec::new();
    let mut p: usize = 0;
    proof {
        assert(bytes@.skip(0) =~= bytes@);
        assert(r.deep_view() + split_pre(bytes@) =~~= split_pre(bytes@));
    }
    while p < bytes.len()
        invariant
            p <= bytes.len(),
            split_pre(bytes@) == r.deep_view() + split_pre(bytes@.skip(p as int)),
        decreases bytes@.len() - p,
    {
        let ghost prev = r.deep_view();
        let ghost rest = bytes@.skip(p as int);
        // Find the end of the current chunk and whether it is all digits.
        let mut k: usize = p;
        let mut chunk: Vec<u8> = Vec::new();
        let mut digits: bool = true;
        while k < bytes.len() && bytes[k] != 46u8
            invariant
                p <= k <= bytes.len(),
                forall|j: int| p <= j < k ==> bytes@[j] != 46u8,
                chunk@ == bytes@.subrange(p as int, k as int),
                digits == all_digits(chunk@),
            decreases bytes@.len() - k,
        {
            let ghost old_chunk = chunk@;
            let ghost old_digits = digits;
            let c = bytes[k];
            let is_d = 48 <= c && c <= 57;
            if !is_d {
                digits = false;
            }
            chunk.push(c);
            k += 1;
            proof {
                assert(chunk@ =~= bytes@.subrange(p as int, k as int));
                assert(chunk@ == old_chunk.push(c));
                if old_digits && is_d {
                    assert forall|j: int| 0 <= j < chunk@.len() implies is_digit(chunk@[j]) by {
                        if j < old_chunk.len() {
                            assert(chunk@[j] == old_chunk[j]);
                        }
                    }
                } else if !is_d {
                    assert(chunk@[chunk@.len() - 1] == c);
                    assert(!all_digits(chunk@));
                } else {
                    let j0 = choose|j: int| 0 <= j < old_chunk.len() && !is_digit(old_chunk[j]);
                    assert(chunk@[j0] == old_chunk[j0]);
                    assert(!all_digits(chunk@));
                }
            }
        }
        proof {
            assert(forall|j: int| 0 <= j < k - p ==> rest[j] == bytes@[p + j]);
            assert(k < bytes.len() ==> rest[k - p] == bytes@[k as int]);
            lemma_first_dot_is(rest, k - p);
        }
        let numeric = digits && k > p;
        let id = PreIdent { numeric, text: chunk };
        proof {
            assert(rest.take(k - p) =~= bytes@.subrange(p as int, k as int));
            assert(id@ == ident_view(bytes@.subrange(p as int, k as int)));
        }
        r.push(id);
        if k < bytes.len() {
            proof {
                assert(rest.skip(k - p + 1) =~= bytes@.skip(k as int + 1));
                assert(split_pre(rest) == seq![ident_view(rest.take(k - p))] + split_pre(
                    rest.skip(k - p + 1),
                ));
                assert(r.deep_view() =~~= prev + seq![ident_view(rest.take(k - p))]);
                assert(split_pre(bytes@) =~~= r.deep_view() + split_pre(bytes@.skip(k as int + 1)));
            }
            k += 1;
        } else {
            proof {
                assert(rest.take(k - p) =~= rest);
                assert(split_pre(rest) == seq![ident_view(rest)]);
                assert(r.deep_view() =~~= prev + seq![ident_view(rest)]);
                assert(bytes@.skip(k as int).len() == 0);
                assert(split_pre(bytes@) =~~= r.deep_view() + split_pre(bytes@.skip(k as int)));
            }
        }
        p = k;
    }
    proof {
        assert(split_pre(bytes@.skip(p as int)) =~~= Seq::<PreIdentView>::empty());
        assert(r.deep_view() =~~= r.deep_view() + Seq::<PreIdentView>::empty());
    }
    r
}

// ---------------------------------------------------------------------------
// Trusted readings of the two outside grammars
// ---------------------------------------------------------------------------

/// What parsing a version string yields: major, minor, patch, the raw bytes
/// of the pre-release tag and of the build metadata; or nothing when the
/// string is not a well-formed semantic version.
pub uninterp spec fn version_parse_of(s: Seq<char>) -> Option<(u64, u64, u64, Seq<u8>, Seq<u8>)>;

/// Relies on semver::Version::parse: it accepts exactly the semantic-version
/// grammar and splits an accepted string into major, minor, patch,
/// pre-release and build metadata, depending on the characters alone.
#[verifier::external_body]
fn semver_parse(s: &str) -> (r: Option<(u64, u64, u64, Vec<u8>, Vec<u8>)>)
    ensures
        r.deep_view() == version_parse_of(s@),
{
    match semver::Version::parse(s) {
        Ok(v) => Some((v.major, v.minor, v.patch, v.pre.as_bytes().to_vec(), v.build.as_bytes().to_vec())),
        Err(_) => None,
    }
}

/// What parsing a range expression yields: operator, major, optional minor
/// and patch, and the raw bytes of the pre-release tag; or nothing when the
/// string is not a well-formed expression.
pub uninterp spec fn comparator_parse_of(s: Seq<char>) -> Option<
    (RangeOp, u64, Option<u64>, Option<u64>, Seq<u8>),
>;

/// Relies on semver::Comparator::parse: it accepts exactly the grammar of a
/// single comparator (an operator, a possibly partial version and an optional
/// pre-release tag), depending on the characters alone.
#[verifier::external_body]
fn semver_comparator_parse(s: &str) -> (r: Option<(RangeOp, u64, Option<u64>, Option<u64>, Vec<u8>)>)
    ensures
        r.deep_view() == comparator_parse_of(s@),
{
    let c = match semver::Comparator::parse(s) {
        Ok(c) => c,
        Err(_) => return None,
    };
    let op = match c.op {
        semver::Op::Exact => RangeOp::Exact,
        semver::Op::Greater => RangeOp::Greater,
        semver::Op::GreaterEq => RangeOp::GreaterEq,
        semver::Op::Less => RangeOp::Less,
        semver::Op::LessEq => RangeOp::LessEq,
        semver::Op::Tilde => RangeOp::Tilde,
        semver::Op::Caret => RangeOp::Caret,
        _ => RangeOp::Wildcard,
    };
    Some((op, c.major, c.minor, c.patch, c.pre.as_bytes().to_vec()))
}

/// What parsing an RFC 3339 timestamp yields: seconds and nanoseconds since
/// the Unix epoch, then the local year, month and day; or nothing when the
/// string is not a well-formed timestamp.
pub uninterp spec fn rfc3339_parse_of(s: Seq<char>) -> Option<(i64, u32, i32, u8, u8)>;

/// Relies on time::OffsetDateTime::parse with the RFC 3339 format: it accepts
/// exactly that grammar; unix_timestamp and nanosecond place the instant on
/// the timeline, and date yields the calendar date in the parsed offset. All
/// of it depends on the characters alone.
#[verifier::external_body]
fn rfc3339_parse(s: &str) -> (r: Option<(i64, u32, i32, u8, u8)>)
    ensures
        r == rfc3339_parse_of(s@),
{
    match time::OffsetDateTime::parse(s, &time::format_description::well_known::Rfc3339) {
        Ok(t) => Some((
            t.unix_timestamp(),
            t.nanosecond(),
            t.date().year(),
            t.date().month() as u8,
            t.date().day(),
        )),
        Err(_) => None,
    }
}

// ---------------------------------------------------------------------------
// Verified parsing into the library's types
// ---------------------------------------------------------------------------

/// The version a string stands for, with its pre-release tag split into
/// identifiers.
pub open spec fn spec_parse_version(s: Seq<char>) -> Option<VersionView> {
    match version_parse_of(s) {
        Some(t) => Some(
            VersionView {
                major: t.0,
                minor: t.1,
                patch: t.2,
                pre: split_pre(t.3),
                build: t.4,
            },
        ),
        None => None,
    }
}

pub fn parse_version(s: &str) -> (r: Option<Version>)
    ensures
        r.deep_view() == spec_parse_version(s@),
{
    match semver_parse(s) {
        Some(t) => {
            let (major, minor, patch, pre_bytes, build) = t;
            let pre = parse_pre(&pre_bytes);
            let v = Version { major, minor, patch, pre, build };
            proof {
                assert(pre_bytes.deep_view() =~= pre_bytes@);
                assert(build.deep_view() =~= build@);
                assert(v.deep_view() =~~= spec_parse_version(s@)->0);
            }
            Some(v)
        },
        None => None,
    }
}

/// The range expression a string stands for.
pub open spec fn spec_parse_comparator(s: Seq<char>) -> Option<ComparatorView> {
    match comparator_parse_of(s) {
        Some(t) => Some(
            ComparatorView { op: t.0, major: t.1, minor: t.2, patch: t.3, pre: split_pre(t.4) },
        ),
        None => None,
    }
}

pub fn parse_comparator(s: &str) -> (r: Option<Comparator>)
    ensures
        r.deep_view() == spec_parse_comparator(s@),
{
    match semver_comparator_parse(s) {
        Some(t) => {
            let (op, major, minor, patch, pre_bytes) = t;
            let pre = parse_pre(&pre_bytes);
            let c = Comparator { op, major, minor, patch, pre };
            proof {
                assert(pre_bytes.deep_view() =~= pre_bytes@);
                assert(c.deep_view() =~~= spec_parse_comparator(s@)->0);
            }
            Some(c)
        },
        None => None,
    }
}

/// The publish instant a string stands for.
pub open spec fn spec_parse_timestamp(s: Seq<char>) -> Option<Timestamp> {
    match rfc3339_parse_of(s) {
        Some(t) => Some(
            Timestamp { unix_seconds: t.0, nanos: t.1, year: t.2, month: t.3, day: t.4 },
        ),
        None => None,
    }
}

pub fn parse_timestamp(s: &str) -> (r: Option<Timestamp>)
    ensures
        r == spec_parse_timestamp(s@),
{
    match rfc3339_parse(s) {
        Some(t) => Some(Timestamp { unix_seconds: t.0, nanos: t.1, year: t.2, month: t.3, day: t.4 }),
        None => None,
    }
}

} // verus!
