//! Semantic versions and version constraints, as used by the package index.
//!
//! A constraint is either "compatible with a prefix" (`1`, `1.2`, `1.2.3`) or
//! an exact version (`=1.2.3`). Comparison between versions is strict: the
//! pre-release tag takes part in equality, and a pre-release never equals the
//! corresponding release.

use vstd::prelude::*;
use vstd::string::*;
use crate::strutil::{dec_str, u64_to_string};

verus! {

/// A semantic version: major, minor, patch and a pre-release tag (empty when
/// absent). Build metadata is not represented.
#[derive(Debug)]
pub struct SemVer {
    pub major: u64,
    pub minor: u64,
    pub patch: u64,
    pub pre: String,
}

/// The mathematical value of a [`SemVer`].
pub struct SemVerV {
    pub major: u64,
    pub minor: u64,
    pub patch: u64,
    pub pre: Seq<char>,
}

impl View for SemVer {
    type V = SemVerV;

    open spec fn view(&self) -> SemVerV {
        SemVerV { major: self.major, minor: self.minor, patch: self.patch, pre: self.pre@ }
    }
}

impl SemVer {
    /// A release version, with an empty pre-release tag.
    pub fn new(major: u64, minor: u64, patch: u64) -> (v: SemVer)
        ensures
            v@ == (SemVerV { major, minor, patch, pre: Seq::<char>::empty() }),
    {
        SemVer { major, minor, patch, pre: String::new() }
    }

    /// An identical copy.
    pub fn duplicate(&self) -> (v: SemVer)
        ensures
            v == *self,
    {
        SemVer { major: self.major, minor: self.minor, patch: self.patch, pre: self.pre.clone() }
    }

    /// A version from its four parts.
    pub fn from_parts(major: u64, minor: u64, patch: u64, pre: String) -> (v: SemVer)
        ensures
            v@ == (SemVerV { major, minor, patch, pre: pre@ }),
    {
        SemVer { major, minor, patch, pre }
    }

    /// Renders as `major.minor.patch`, or `major.minor.patch-pre` when there
    /// is a pre-release tag.
    pub fn to_version_string(&self) -> (s: String)
        ensures
            s@ == semver_str(self@),
    {
        let mut s = u64_to_string(self.major);
        s.append(".");
        let minor = u64_to_string(self.minor);
        s.append(minor.as_str());
        s.append(".");
        let patch = u64_to_string(self.patch);
        s.append(patch.as_str());
        if !self.pre.as_str().is_empty() {
            s.append("-");
            s.append(self.pre.as_str());
        }
        proof {
            assert(s@ =~= semver_str(self@));
        }
        s
    }
}

impl PartialEq for SemVer {
    fn eq(&self, other: &SemVer) -> (r: bool) {
        self.major == other.major && self.minor == other.minor && self.patch == other.patch
            && self.pre == other.pre
    }
}

impl vstd::std_specs::cmp::PartialEqSpecImpl for SemVer {
    open spec fn obeys_eq_spec() -> bool {
        true
    }

    open spec fn eq_spec(&self, other: &SemVer) -> bool {
        self@ == other@
    }
}

/// The rendered form of a version.
pub open spec fn semver_str(v: SemVerV) -> Seq<char> {
    dec_str(v.major as int) + "."@ + dec_str(v.minor as int) + "."@ + dec_str(v.patch as int) + (
    if v.pre.len() == 0 {
        Seq::<char>::empty()
    } else {
        "-"@ + v.pre
    })
}

/// A requirement on the version of a dependency: either any version
/// compatible with a prefix, or one exact version.
#[derive(Debug)]
pub enum VersionConstraint {
    Compatible { major: u64, minor: Option<u64>, patch: Option<u64> },
    Exact(SemVer),
}

/// The mathematical value of a [`VersionConstraint`].
pub enum VersionConstraintV {
    Compatible { major: u64, minor: Option<u64>, patch: Option<u64> },
    Exact(SemVerV),
}

impl View for VersionConstraint {
    type V = VersionConstraintV;

    open spec fn view(&self) -> VersionConstraintV {
        match self {
            VersionConstraint::Compatible { major, minor, patch } => VersionConstraintV::Compatible {
                major: *major,
                minor: *minor,
                patch: *patch,
            },
            VersionConstraint::Exact(v) => VersionConstraintV::Exact(v@),
        }
    }
}

/// Does version `v` satisfy constraint `c`?
///
/// A bare major prefix admits every version with that major number; a
/// `major.minor` prefix also requires the minor number to be at least the
/// given one; a full `major.minor.patch` prefix requires equal major and
/// minor and a patch number at least the given one. An exact constraint
/// requires strict equality, pre-release tag included.
pub open spec fn constraint_matches(c: VersionConstraintV, v: SemVerV) -> bool {
    match c {
        VersionConstraintV::Compatible { major, minor, patch } => match (minor, patch) {
            (Option::None, _) => v.major == major,
            (Option::Some(m), Option::None) => v.major == major && v.minor >= m,
            (Option::Some(m), Option::Some(p)) => v.major == major && v.minor == m && v.patch
                >= p,
        },
        VersionConstraintV::Exact(w) => v == w,
    }
}

impl VersionConstraint {
    /// A compatibility constraint from its prefix parts.
    pub fn compatible(major: u64, minor: Option<u64>, patch: Option<u64>) -> (c:
        VersionConstraint)
        ensures
            c@ == (VersionConstraintV::Compatible { major, minor, patch }),
    {
        VersionConstraint::Compatible { major, minor, patch }
    }

    /// An exact constraint from the version's four parts.
    pub fn exact(major: u64, minor: u64, patch: u64, pre: String) -> (c: VersionConstraint)
        ensures
            c@ == VersionConstraintV::Exact(SemVerV { major, minor, patch, pre: pre@ }),
    {
        VersionConstraint::Exact(SemVer::from_parts(major, minor, patch, pre))
    }

    /// Does version `v` satisfy this constraint?
    pub fn matches(&self, v: &SemVer) -> (b: bool)
        ensures
            b == constraint_matches(self@, v@),
    {
        match self {
            VersionConstraint::Compatible { major, minor, patch } => match (*minor, *patch) {
                (Option::None, _) => v.major == *major,
                (Option::Some(m), Option::None) => v.major == *major && v.minor >= m,
                (Option::Some(m), Option::Some(p)) => v.major == *major && v.minor == m
                    && v.patch >= p,
            },
            VersionConstraint::Exact(w) => v.eq(w),
        }
    }

    /// An identical copy.
    pub fn duplicate(&self) -> (c: VersionConstraint)
        ensures
            c == *self,
    {
        match self {
            VersionConstraint::Compatible { major, minor, patch } => VersionConstraint::Compatible {
                major: *major,
                minor: *minor,
                patch: *patch,
            },
            VersionConstraint::Exact(v) => VersionConstraint::Exact(v.duplicate()),
        }
    }

    /// Renders as the bare prefix (`1`, `1.2`, `1.2.3`) for a compatibility
    /// constraint, or `=` followed by the version for an exact one.
    pub fn to_constraint_string(&self) -> (s: String)
        ensures
            s@ == constraint_str(self@),
    {
        match self {
            VersionConstraint::Compatible { major, minor, patch } => {
                let mut s = u64_to_string(*major);
                match (*minor, *patch) {
                    (Option::None, _) => {},
                    (Option::Some(m), Option::None) => {
                        s.append(".");
                        let ms = u64_to_string(m);
                        s.append(ms.as_str());
                    },
                    (Option::Some(m), Option::Some(p)) => {
                        s.append(".");
                        let ms = u64_to_string(m);
                        s.append(ms.as_str());
                        s.append(".");
                        let ps = u64_to_string(p);
                        s.append(ps.as_str());
                    },
                }
                proof {
                    assert(s@ =~= constraint_str(self@));
                }
                s
            },
            VersionConstraint::Exact(v) => {
                let mut s = String::from_str("=");
                let vs = v.to_version_string();
                s.append(vs.as_str());
                proof {
                    assert(s@ =~= constraint_str(self@));
                }
                s
            },
        }
    }
}

/// The rendered form of a constraint.
pub open spec fn constraint_str(c: VersionConstraintV) -> Seq<char> {
    match c {
        VersionConstraintV::Compatible { major, minor, patch } => match (minor, patch) {
            (Option::None, _) => dec_str(major as int),
            (Option::Some(m), Option::None) => dec_str(major as int) + "."@ + dec_str(m as int),
            (Option::Some(m), Option::Some(p)) => dec_str(major as int) + "."@ + dec_str(m as int)
                + "."@ + dec_str(p as int),
        },
        VersionConstraintV::Exact(v) => "="@ + semver_str(v),
    }
}

} // verus!
