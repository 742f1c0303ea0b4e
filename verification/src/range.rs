use vstd::prelude::*;
use crate::version::{Cmp, PreIdent, PreIdentView, Version, VersionView, pre_cmp, pre_tag_cmp};

verus! {

/// The operator of a range expression.
#[derive(Clone, Copy, PartialEq, Eq, Structural, Debug)]
pub enum RangeOp {
    Exact,
    Greater,
    GreaterEq,
    Less,
    LessEq,
    Tilde,
    Caret,
    Wildcard,
}

impl View for RangeOp {
    type V = RangeOp;

    open spec fn view(&self) -> RangeOp {
        *self
    }
}

impl DeepView for RangeOp {
    type V = RangeOp;

    open spec fn deep_view(&self) -> RangeOp {
        *self
    }
}

/// One range expression of a dependency declaration: an operator applied to a
/// possibly partial version (minor and patch may be absent) with an optional
/// pre-release tag.
#[derive(Clone, Debug, PartialEq, Eq)]
pub struct Comparator {
    pub op: RangeOp,
    pub major: u64,
    pub minor: Option<u64>,
    pub patch: Option<u64>,
    pub pre: Vec<PreIdent>,
}

pub struct ComparatorView {
    pub op: RangeOp,
    pub major: u64,
    pub minor: Option<u64>,
    pub patch: Option<u64>,
    pub pre: Seq<PreIdentView>,
}

impl View for Comparator {
    type V = ComparatorView;

    open spec fn view(&self) -> ComparatorView {
        ComparatorView {
            op: self.op,
            major: self.major,
            minor: self.minor,
            patch: self.patch,
            pre: self.pre.deep_view(),
        }
    }
}

impl DeepView for Comparator {
    type V = ComparatorView;

    open spec fn deep_view(&self) -> ComparatorView {
        self.view()
    }
}

// ---------------------------------------------------------------------------
// Satisfaction of a range expression
// ---------------------------------------------------------------------------

pub open spec fn spec_matches_exact(c: ComparatorView, v: VersionView) -> bool {
    &&& v.major == c.major
    &&& match c.minor {
        Some(minor) => v.minor == minor,
        None => true,
    }
    &&& match c.patch {
        Some(patch) => v.patch == patch,
        None => true,
    }
    &&& pre_cmp(v.pre, c.pre) == Cmp::Eq
}

pub open spec fn spec_matches_greater(c: ComparatorView, v: VersionView) -> bool {
    if v.major != c.major {
        v.major > c.major
    } else {
        match c.minor {
            None => false,
            Some(minor) => if v.minor != minor {
                v.minor > minor
            } else {
                match c.patch {
                    None => false,
                    Some(patch) => if v.patch != patch {
                        v.patch > patch
                    } else {
                        pre_cmp(v.pre, c.pre) == Cmp::Gt
                    },
                }
            },
        }
    }
}

pub open spec fn spec_matches_less(c: ComparatorView, v: VersionView) -> bool {
    if v.major != c.major {
        v.major < c.major
    } else {
        match c.minor {
            None => false,
            Some(minor) => if v.minor != minor {
                v.minor < minor
            } else {
                match c.patch {
                    None => false,
                    Some(patch) => if v.patch != patch {
                        v.patch < patch
                    } else {
                        pre_cmp(v.pre, c.pre) == Cmp::Lt
                    },
                }
            },
        }
    }
}

pub open spec fn spec_matches_tilde(c: ComparatorView, v: VersionView) -> bool {
    if v.major != c.major {
        false
    } else if c.minor matches Some(minor) && v.minor != minor {
        false
    } else {
        match c.patch {
            Some(patch) => if v.patch != patch {
                v.patch > patch
            } else {
                pre_cmp(v.pre, c.pre) != Cmp::Lt
            },
            None => pre_cmp(v.pre, c.pre) != Cmp::Lt,
        }
    }
}

pub open spec fn spec_matches_caret(c: ComparatorView, v: VersionView) -> bool {
    if v.major != c.major {
        false
    } else {
        match c.minor {
            None => true,
            Some(minor) => match c.patch {
                None => if c.major > 0 {
                    v.minor >= minor
                } else {
                    v.minor == minor
                },
                Some(patch) => if c.major > 0 {
                    if v.minor != minor {
                        v.minor > minor
                    } else if v.patch != patch {
                        v.patch > patch
                    } else {
                        pre_cmp(v.pre, c.pre) != Cmp::Lt
                    }
                } else if minor > 0 {
                    if v.minor != minor {
                        false
                    } else if v.patch != patch {
                        v.patch > patch
                    } else {
                        pre_cmp(v.pre, c.pre) != Cmp::Lt
                    }
                } else {
                    if v.minor != minor || v.patch != patch {
                        false
                    } else {
                        pre_cmp(v.pre, c.pre) != Cmp::Lt
                    }
                },
            },
        }
    }
}

pub open spec fn spec_matches_op(c: ComparatorView, v: VersionView) -> bool {
    match c.op {
        RangeOp::Exact => spec_matches_exact(c, v),
        RangeOp::Wildcard => spec_matches_exact(c, v),
        RangeOp::Greater => spec_matches_greater(c, v),
        RangeOp::GreaterEq => spec_matches_exact(c, v) || spec_matches_greater(c, v),
        RangeOp::Less => spec_matches_less(c, v),
        RangeOp::LessEq => spec_matches_exact(c, v) || spec_matches_less(c, v),
        RangeOp::Tilde => spec_matches_tilde(c, v),
        RangeOp::Caret => spec_matches_caret(c, v),
    }
}

/// A version carrying a pre-release tag satisfies a range expression only if
/// the expression itself points at the same major.minor.patch and carries a
/// tag of its own.
pub open spec fn spec_pre_compatible(c: ComparatorView, v: VersionView) -> bool {
    &&& c.major == v.major
    &&& c.minor == Some(v.minor)
    &&& c.patch == Some(v.patch)
    &&& c.pre.len() > 0
}

/// Whether `v` satisfies the range expression `c`.
pub open spec fn spec_matches(c: ComparatorView, v: VersionView) -> bool {
    spec_matches_op(c, v) && (v.pre.len() == 0 || spec_pre_compatible(c, v))
}

impl Comparator {
    fn matches_exact(&self, v: &Version) -> (r: bool)
        ensures
            r == spec_matches_exact(self@, v@),
    {
        if v.major != self.major {
            return false;
        }
        if let Some(minor) = self.minor {
            if v.minor != minor {
                return false;
            }
        }
        if let Some(patch) = self.patch {
            if v.patch != patch {
                return false;
            }
        }
        pre_tag_cmp(&v.pre, &self.pre) == Cmp::Eq
    }

    fn matches_greater(&self, v: &Version) -> (r: bool)
        ensures
            r == spec_matches_greater(self@, v@),
    {
        if v.major != self.major {
            return v.major > self.major;
        }
        match self.minor {
            None => return false,
            Some(minor) => {
                if v.minor != minor {
                    return v.minor > minor;
                }
            },
        }
        match self.patch {
            None => return false,
            Some(patch) => {
                if v.patch != patch {
                    return v.patch > patch;
                }
            },
        }
        pre_tag_cmp(&v.pre, &self.pre) == Cmp::Gt
    }

    fn matches_less(&self, v: &Version) -> (r: bool)
        ensures
            r == spec_matches_less(self@, v@),
    {
        if v.major != self.major {
            return v.major < self.major;
        }
        match self.minor {
            None => return false,
            Some(minor) => {
                if v.minor != minor {
                    return v.minor < minor;
                }
            },
        }
        match self.patch {
            None => return false,
            Some(patch) => {
                if v.patch != patch {
                    return v.patch < patch;
                }
            },
        }
        pre_tag_cmp(&v.pre, &self.pre) == Cmp::Lt
    }

    fn matches_tilde(&self, v: &Version) -> (r: bool)
        ensures
            r == spec_matches_tilde(self@, v@),
    {
        if v.major != self.major {
            return false;
        }
        if let Some(minor) = self.minor {
            if v.minor != minor {
                return false;
            }
        }
        if let Some(patch) = self.patch {
            if v.patch != patch {
                return v.patch > patch;
            }
        }
        pre_tag_cmp(&v.pre, &self.pre) != Cmp::Lt
    }

    fn matches_caret(&self, v: &Version) -> (r: bool)
        ensures
            r == spec_matches_caret(self@, v@),
    {
        if v.major != self.major {
            return false;
        }
        let minor = match self.minor {
            None => {
                return true;
            },
            Some(minor) => minor,
        };
        let patch = match self.patch {
            None => {
                if self.major > 0 {
                    return v.minor >= minor;
                } else {
                    return v.minor == minor;
                }
            },
            Some(patch) => patch,
        };
        if self.major > 0 {
            if v.minor != minor {
                return v.minor > minor;
            } else if v.patch != patch {
                return v.patch > patch;
            }
        } else if minor > 0 {
            if v.minor != minor {
                return false;
            } else if v.patch != patch {
                return v.patch > patch;
            }
        } else if v.minor != minor || v.patch != patch {
            return false;
        }
        pre_tag_cmp(&v.pre, &self.pre) != Cmp::Lt
    }

    /// Whether `v` satisfies this range expression.
    pub fn matches(&self, v: &Version) -> (r: bool)
        ensures
            r == spec_matches(self@, v@),
    {
        let op_ok = match self.op {
            RangeOp::Exact => self.matches_exact(v),
            RangeOp::Wildcard => self.matches_exact(v),
            RangeOp::Greater => self.matches_greater(v),
            RangeOp::GreaterEq => self.matches_exact(v) || self.matches_greater(v),
            RangeOp::Less => self.matches_less(v),
            RangeOp::LessEq => self.matches_exact(v) || self.matches_less(v),
            RangeOp::Tilde => self.matches_tilde(v),
            RangeOp::Caret => self.matches_caret(v),
        };
        if !op_ok {
            return false;
        }
        if v.pre.len() == 0 {
            return true;
        }
        let pre_ok = self.major == v.major && self.minor == Some(v.minor) && self.patch == Some(
            v.patch,
        ) && self.pre.len() > 0;
        pre_ok
    }
}

} // verus!
