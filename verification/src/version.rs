use vstd::prelude::*;

verus! {

/// Outcome of a three-way comparison.
#[derive(Clone, Copy, PartialEq, Eq, Structural, Debug)]
pub enum Cmp {
    Lt,
    Eq,
    Gt,
}

pub open spec fn cmp_flip(c: Cmp) -> Cmp {
    match c {
        Cmp::Lt => Cmp::Gt,
        Cmp::Eq => Cmp::Eq,
        Cmp::Gt => Cmp::Lt,
    }
}

/// One dot-separated identifier of a pre-release tag. `numeric` holds exactly
/// when the identifier is non-empty and consists of ASCII digits only; such
/// identifiers rank below alphanumeric ones and are ordered numerically, which
/// (in the absence of leading zeros) is by length and then byte order.
#[derive(Clone, Debug, PartialEq, Eq)]
pub struct PreIdent {
    pub numeric: bool,
    pub text: Vec<u8>,
}

pub struct PreIdentView {
    pub numeric: bool,
    pub text: Seq<u8>,
}

impl View for PreIdent {
    type V = PreIdentView;

    open spec fn view(&self) -> PreIdentView {
        PreIdentView { numeric: self.numeric, text: self.text@ }
    }
}

impl DeepView for PreIdent {
    type V = PreIdentView;

    open spec fn deep_view(&self) -> PreIdentView {
        self.view()
    }
}

/// A parsed semantic version. Precedence ignores `build`, which is kept only
/// so that a version can be rendered back in full.
#[derive(Clone, Debug, PartialEq, Eq)]
pub struct Version {
    pub major: u64,
    pub minor: u64,
    pub patch: u64,
    pub pre: Vec<PreIdent>,
    pub build: Vec<u8>,
}

pub struct VersionView {
    pub major: u64,
    pub minor: u64,
    pub patch: u64,
    pub pre: Seq<PreIdentView>,
    pub build: Seq<u8>,
}

impl View for Version {
    type V = VersionView;

    open spec fn view(&self) -> VersionView {
        VersionView {
            major: self.major,
            minor: self.minor,
            patch: self.patch,
            pre: self.pre.deep_view(),
            build: self.build@,
        }
    }
}

impl DeepView for Version {
    type V = VersionView;

    open spec fn deep_view(&self) -> VersionView {
        self.view()
    }
}

// ---------------------------------------------------------------------------
// Byte-wise lexicographic order
// ---------------------------------------------------------------------------

pub open spec fn lex_cmp_from(a: Seq<u8>, b: Seq<u8>, i: int) -> Cmp
    decreases a.len() - i,
{
    if i < a.len() && i < b.len() {
        if a[i] < b[i] {
            Cmp::Lt
        } else if a[i] > b[i] {
            Cmp::Gt
        } else {
            lex_cmp_from(a, b, i + 1)
        }
    } else if i < b.len() {
        Cmp::Lt
    } else if i < a.len() {
        Cmp::Gt
    } else {
        Cmp::Eq
    }
}

pub open spec fn lex_cmp(a: Seq<u8>, b: Seq<u8>) -> Cmp {
    lex_cmp_from(a, b, 0)
}

pub proof fn lemma_lex_cmp_flip(a: Seq<u8>, b: Seq<u8>, i: int)
    ensures
        lex_cmp_from(a, b, i) == cmp_flip(lex_cmp_from(b, a, i)),
    decreases a.len() - i,
{
    if i < a.len() && i < b.len() && a[i] == b[i] {
        lemma_lex_cmp_flip(a, b, i + 1);
    }
}

pub proof fn lemma_lex_cmp_eq_len(a: Seq<u8>, b: Seq<u8>, i: int)
    ensures
        lex_cmp_from(a, b, i) == Cmp::Eq && i <= a.len() && i <= b.len() ==> a.len() == b.len(),
    decreases a.len() - i,
{
    if i < a.len() && i < b.len() && a[i] == b[i] {
        lemma_lex_cmp_eq_len(a, b, i + 1);
    }
}

pub proof fn lemma_lex_cmp_trans(a: Seq<u8>, b: Seq<u8>, c: Seq<u8>, i: int)
    ensures
        lex_cmp_from(a, b, i) == Cmp::Eq ==> lex_cmp_from(a, c, i) == lex_cmp_from(b, c, i),
        lex_cmp_from(b, c, i) == Cmp::Eq ==> lex_cmp_from(a, c, i) == lex_cmp_from(a, b, i),
        lex_cmp_from(a, b, i) == Cmp::Lt && lex_cmp_from(b, c, i) == Cmp::Lt ==> lex_cmp_from(
            a,
            c,
            i,
        ) == Cmp::Lt,
    decreases a.len() - i,
{
    if i < a.len() && i < b.len() && i < c.len() {
        lemma_lex_cmp_trans(a, b, c, i + 1);
    }
}

// ---------------------------------------------------------------------------
// Order on pre-release identifiers
// ---------------------------------------------------------------------------

pub open spec fn pre_id_cmp(x: PreIdentView, y: PreIdentView) -> Cmp {
    if x.numeric && !y.numeric {
        Cmp::Lt
    } else if !x.numeric && y.numeric {
        Cmp::Gt
    } else if x.numeric && y.numeric {
        if x.text.len() < y.text.len() {
            Cmp::Lt
        } else if x.text.len() > y.text.len() {
            Cmp::Gt
        } else {
            lex_cmp(x.text, y.text)
        }
    } else {
        lex_cmp(x.text, y.text)
    }
}

pub proof fn lemma_pre_id_flip(x: PreIdentView, y: PreIdentView)
    ensures
        pre_id_cmp(x, y) == cmp_flip(pre_id_cmp(y, x)),
{
    lemma_lex_cmp_flip(x.text, y.text, 0);
}

pub proof fn lemma_pre_id_trans(x: PreIdentView, y: PreIdentView, z: PreIdentView)
    ensures
        pre_id_cmp(x, y) == Cmp::Eq ==> pre_id_cmp(x, z) == pre_id_cmp(y, z),
        pre_id_cmp(y, z) == Cmp::Eq ==> pre_id_cmp(x, z) == pre_id_cmp(x, y),
        pre_id_cmp(x, y) == Cmp::Lt && pre_id_cmp(y, z) == Cmp::Lt ==> pre_id_cmp(x, z) == Cmp::Lt,
{
    lemma_lex_cmp_trans(x.text, y.text, z.text, 0);
    lemma_lex_cmp_eq_len(x.text, y.text, 0);
    lemma_lex_cmp_eq_len(y.text, z.text, 0);
}

// ---------------------------------------------------------------------------
// Order on whole pre-release tags
// ---------------------------------------------------------------------------

pub open spec fn pre_seq_cmp_from(a: Seq<PreIdentView>, b: Seq<PreIdentView>, i: int) -> Cmp
    decreases a.len() - i,
{
    if i < a.len() && i < b.len() {
        if pre_id_cmp(a[i], b[i]) != Cmp::Eq {
            pre_id_cmp(a[i], b[i])
        } else {
            pre_seq_cmp_from(a, b, i + 1)
        }
    } else if i < b.len() {
        Cmp::Lt
    } else if i < a.len() {
        Cmp::Gt
    } else {
        Cmp::Eq
    }
}

/// Order on pre-release tags: a version without a tag ranks above any version
/// with one; two tags are compared identifier by identifier, a proper prefix
/// ranking lower.
pub open spec fn pre_cmp(a: Seq<PreIdentView>, b: Seq<PreIdentView>) -> Cmp {
    if a.len() == 0 && b.len() == 0 {
        Cmp::Eq
    } else if a.len() == 0 {
        Cmp::Gt
    } else if b.len() == 0 {
        Cmp::Lt
    } else {
        pre_seq_cmp_from(a, b, 0)
    }
}

pub proof fn lemma_pre_seq_flip(a: Seq<PreIdentView>, b: Seq<PreIdentView>, i: int)
    ensures
        pre_seq_cmp_from(a, b, i) == cmp_flip(pre_seq_cmp_from(b, a, i)),
    decreases a.len() - i,
{
    if i < a.len() && i < b.len() {
        lemma_pre_id_flip(a[i], b[i]);
        if pre_id_cmp(a[i], b[i]) == Cmp::Eq {
            lemma_pre_seq_flip(a, b, i + 1);
        }
    }
}

pub proof fn lemma_pre_seq_trans(a: Seq<PreIdentView>, b: Seq<PreIdentView>, c: Seq<PreIdentView>, i: int)
    ensures
        pre_seq_cmp_from(a, b, i) == Cmp::Eq ==> pre_seq_cmp_from(a, c, i) == pre_seq_cmp_from(
            b,
            c,
            i,
        ),
        pre_seq_cmp_from(b, c, i) == Cmp::Eq ==> pre_seq_cmp_from(a, c, i) == pre_seq_cmp_from(
            a,
            b,
            i,
        ),
        pre_seq_cmp_from(a, b, i) == Cmp::Lt && pre_seq_cmp_from(b, c, i) == Cmp::Lt
            ==> pre_seq_cmp_from(a, c, i) == Cmp::Lt,
    decreases a.len() - i,
{
    if i < a.len() && i < b.len() && i < c.len() {
        lemma_pre_id_trans(a[i], b[i], c[i]);
        lemma_pre_seq_trans(a, b, c, i + 1);
    }
}

pub proof fn lemma_pre_flip(a: Seq<PreIdentView>, b: Seq<PreIdentView>)
    ensures
        pre_cmp(a, b) == cmp_flip(pre_cmp(b, a)),
{
    lemma_pre_seq_flip(a, b, 0);
}

pub proof fn lemma_pre_trans(a: Seq<PreIdentView>, b: Seq<PreIdentView>, c: Seq<PreIdentView>)
    ensures
        pre_cmp(a, b) == Cmp::Eq ==> pre_cmp(a, c) == pre_cmp(b, c),
        pre_cmp(b, c) == Cmp::Eq ==> pre_cmp(a, c) == pre_cmp(a, b),
        pre_cmp(a, b) == Cmp::Lt && pre_cmp(b, c) == Cmp::Lt ==> pre_cmp(a, c) == Cmp::Lt,
{
    lemma_pre_seq_trans(a, b, c, 0);
}

// ---------------------------------------------------------------------------
// Version precedence
// ---------------------------------------------------------------------------

/// Semantic-version precedence: major, minor, patch, then the pre-release
/// tag. Build metadata does not participate.
pub open spec fn version_cmp(a: VersionView, b: VersionView) -> Cmp {
    if a.major < b.major {
        Cmp::Lt
    } else if a.major > b.major {
        Cmp::Gt
    } else if a.minor < b.minor {
        Cmp::Lt
    } else if a.minor > b.minor {
        Cmp::Gt
    } else if a.patch < b.patch {
        Cmp::Lt
    } else if a.patch > b.patch {
        Cmp::Gt
    } else {
        pre_cmp(a.pre, b.pre)
    }
}

pub open spec fn version_le(a: VersionView, b: VersionView) -> bool {
    version_cmp(a, b) != Cmp::Gt
}

pub proof fn lemma_version_flip(a: VersionView, b: VersionView)
    ensures
        version_cmp(a, b) == cmp_flip(version_cmp(b, a)),
{
    lemma_pre_flip(a.pre, b.pre);
}

pub proof fn lemma_version_trans(a: VersionView, b: VersionView, c: VersionView)
    ensures
        version_cmp(a, b) == Cmp::Eq ==> version_cmp(a, c) == version_cmp(b, c),
        version_cmp(b, c) == Cmp::Eq ==> version_cmp(a, c) == version_cmp(a, b),
        version_cmp(a, b) == Cmp::Lt && version_cmp(b, c) == Cmp::Lt ==> version_cmp(a, c)
            == Cmp::Lt,
        version_le(a, b) && version_le(b, c) ==> version_le(a, c),
{
    lemma_pre_trans(a.pre, b.pre, c.pre);
    lemma_pre_flip(a.pre, b.pre);
    lemma_pre_flip(b.pre, c.pre);
    lemma_pre_flip(a.pre, c.pre);
}

// ---------------------------------------------------------------------------
// Executable comparisons
// ---------------------------------------------------------------------------

pub fn bytes_cmp(a: &Vec<u8>, b: &Vec<u8>) -> (r: Cmp)
    ensures
        r == lex_cmp(a@, b@),
{
    let mut i: usize = 0;
    loop
        invariant
            i <= a.len(),
            i <= b.len(),
            lex_cmp(a@, b@) == lex_cmp_from(a@, b@, i as int),
        decreases a@.len() - i,
    {
        if i < a.len() && i < b.len() {
            if a[i] < b[i] {
                return Cmp::Lt;
            } else if a[i] > b[i] {
                return Cmp::Gt;
            }
            i += 1;
        } else if i < b.len() {
            return Cmp::Lt;
        } else if i < a.len() {
            return Cmp::Gt;
        } else {
            return Cmp::Eq;
        }
    }
}

pub fn pre_ident_cmp(x: &PreIdent, y: &PreIdent) -> (r: Cmp)
    ensures
        r == pre_id_cmp(x@, y@),
{
    if x.numeric && !y.numeric {
        Cmp::Lt
    } else if !x.numeric && y.numeric {
        Cmp::Gt
    } else if x.numeric && y.numeric {
        if x.text.len() < y.text.len() {
            Cmp::Lt
        } else if x.text.len() > y.text.len() {
            Cmp::Gt
        } else {
            bytes_cmp(&x.text, &y.text)
        }
    } else {
        bytes_cmp(&x.text, &y.text)
    }
}

pub fn pre_tag_cmp(a: &Vec<PreIdent>, b: &Vec<PreIdent>) -> (r: Cmp)
    ensures
        r == pre_cmp(a.deep_view(), b.deep_view()),
{
    if a.len() == 0 && b.len() == 0 {
        return Cmp::Eq;
    }
    if a.len() == 0 {
        return Cmp::Gt;
    }
    if b.len() == 0 {
        return Cmp::Lt;
    }
    let mut i: usize = 0;
    loop
        invariant
            i <= a.len(),
            i <= b.len(),
            a.len() > 0,
            b.len() > 0,
            pre_cmp(a.deep_view(), b.deep_view()) == pre_seq_cmp_from(
                a.deep_view(),
                b.deep_view(),
                i as int,
            ),
        decreases a@.len() - i,
    {
        if i < a.len() && i < b.len() {
            let c = pre_ident_cmp(&a[i], &b[i]);
            if c != Cmp::Eq {
                return c;
            }
            i += 1;
        } else if i < b.len() {
            return Cmp::Lt;
        } else if i < a.len() {
            return Cmp::Gt;
        } else {
            return Cmp::Eq;
        }
    }
}

/// Three-way comparison of two versions by semantic-version precedence.
pub fn cmp_version(a: &Version, b: &Version) -> (r: Cmp)
    ensures
        r == version_cmp(a@, b@),
{
    if a.major < b.major {
        Cmp::Lt
    } else if a.major > b.major {
        Cmp::Gt
    } else if a.minor < b.minor {
        Cmp::Lt
    } else if a.minor > b.minor {
        Cmp::Gt
    } else if a.patch < b.patch {
        Cmp::Lt
    } else if a.patch > b.patch {
        Cmp::Gt
    } else {
        pre_tag_cmp(&a.pre, &b.pre)
    }
}

// ---------------------------------------------------------------------------
// Copying (spelled out so that the copies carry their contracts)
// ---------------------------------------------------------------------------

pub fn copy_bytes(v: &Vec<u8>) -> (r: Vec<u8>)
    ensures
        r@ == v@,
{
    let mut r: Vec<u8> = Vec::new();
    let mut i: usize = 0;
    while i < v.len()
        invariant
            i <= v.len(),
            r@ == v@.take(i as int),
        decreases v@.len() - i,
    {
        r.push(v[i]);
        i += 1;
        proof {
            assert(r@ =~= v@.take(i as int));
        }
    }
    proof {
        assert(v@.take(v@.len() as int) =~= v@);
    }
    r
}

impl PreIdent {
    pub fn duplicate(&self) -> (r: PreIdent)
        ensures
            r@ == self@,
    {
        PreIdent { numeric: self.numeric, text: copy_bytes(&self.text) }
    }
}

impl Version {
    pub fn duplicate(&self) -> (r: Version)
        ensures
            r@ == self@,
    {
        let mut pre: Vec<PreIdent> = Vec::new();
        let mut i: usize = 0;
        while i < self.pre.len()
            invariant
                i <= self.pre.len(),
                pre@.len() == i,
                forall|k: int| 0 <= k < i ==> pre@[k]@ == self.pre@[k]@,
            decreases self.pre@.len() - i,
        {
            pre.push(self.pre[i].duplicate());
            i += 1;
        }
        proof {
            assert(pre.deep_view() =~~= self.pre.deep_view());
        }
        let r = Version {
            major: self.major,
            minor: self.minor,
            patch: self.patch,
            pre,
            build: copy_bytes(&self.build),
        };
        proof {
            assert(r@ =~~= self@);
        }
        r
    }
}

} // verus!
