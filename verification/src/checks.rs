//! Per-package acceptance checks: submitter permission, and the cross-check
//! of the index descriptor against the fetched manifest and the index's
//! known dependency versions.

use vstd::prelude::*;
use crate::semver::{SemVer, SemVerV, constraint_matches};
use crate::descriptor::{Dep, DepV};
use crate::strutil::str_eq;

verus! {

/// The verdict for one submitter against one package identity: is the
/// submission by someone we consider an owner of that namespace?
#[derive(Debug)]
pub struct Permission {
    /// The user that submitted the package.
    pub user: String,
    /// The organization that owns the package.
    pub org: String,
    /// The repository containing the package.
    pub repo: String,
    /// Do we think they're allowed?
    pub is_allowed: bool,
}

/// The mathematical value of a [`Permission`].
pub struct PermissionV {
    pub user: Seq<char>,
    pub org: Seq<char>,
    pub repo: Seq<char>,
    pub is_allowed: bool,
}

impl View for Permission {
    type V = PermissionV;

    open spec fn view(&self) -> PermissionV {
        PermissionV {
            user: self.user@,
            org: self.org@,
            repo: self.repo@,
            is_allowed: self.is_allowed,
        }
    }
}

/// Whether a submitter is allowed, given the membership service's answer:
/// the submitter either owns the namespace outright (the handle equals the
/// organization's name) or is a publicly visible member of it.
pub open spec fn permission_allowed(user: Seq<char>, org: Seq<char>, is_member: bool) -> bool {
    user == org || is_member
}

impl Permission {
    /// Must the membership service be consulted for this submitter at all?
    /// Only when the submitter does not own the namespace outright.
    pub fn membership_check_needed(user: &str, org: &str) -> (b: bool)
        ensures
            b == (user@ != org@),
    {
        !str_eq(user, org)
    }

    /// The verdict for one submitter, given the owning organization and
    /// repository and the membership service's answer (pass `false` when
    /// the service was not consulted).
    pub fn check(user: String, org: String, repo: String, is_member: bool) -> (p: Permission)
        ensures
            p@.user == user@,
            p@.org == org@,
            p@.repo == repo@,
            p@.is_allowed == permission_allowed(user@, org@, is_member),
    {
        let allowed = str_eq(user.as_str(), org.as_str()) || is_member;
        Permission { user, org, repo, is_allowed: allowed }
    }
}

/// Self-owned namespace bypass: when the submitter's handle equals the
/// owning organization's name, the verdict is allowed whatever the
/// membership service would have answered, so no membership call is needed
/// for such a submitter.
pub proof fn lemma_self_owned_allowed(user: Seq<char>, org: Seq<char>)
    requires
        user == org,
    ensures
        forall|is_member: bool| permission_allowed(user, org, is_member),
{
}

/// The views of a sequence of versions.
pub open spec fn versions_view(vs: Seq<SemVer>) -> Seq<SemVerV> {
    vs.map_values(|v: SemVer| v@)
}

/// The outcome of checking one declared dependency against the versions the
/// index knows for its identity.
#[derive(Debug)]
pub struct DependencyChecks {
    pub dep: Dep,
    pub known_versions: Vec<SemVer>,
    pub has_match: bool,
}

/// The mathematical value of a [`DependencyChecks`].
pub struct DependencyChecksV {
    pub dep: DepV,
    pub known_versions: Seq<SemVerV>,
    pub has_match: bool,
}

impl View for DependencyChecks {
    type V = DependencyChecksV;

    open spec fn view(&self) -> DependencyChecksV {
        DependencyChecksV {
            dep: self.dep@,
            known_versions: versions_view(self.known_versions@),
            has_match: self.has_match,
        }
    }
}

/// A dependency check is well formed when its verdict is exactly the
/// existence of a known version satisfying the declared constraint.
pub open spec fn dependency_checks_wf(c: DependencyChecksV) -> bool {
    c.has_match == exists|i: int|
        0 <= i < c.known_versions.len() && constraint_matches(c.dep.req, c.known_versions[i])
}

impl DependencyChecks {
    /// Checks one declared dependency against the known versions. The
    /// verdict is the existence of any satisfying version; the known list
    /// is recorded unchanged, whether or not there was a match.
    pub fn new(dep: Dep, known_versions: Vec<SemVer>) -> (c: DependencyChecks)
        ensures
            c.dep == dep,
            c.known_versions == known_versions,
            dependency_checks_wf(c@),
    {
        let ghost kv = versions_view(known_versions@);
        let mut has = false;
        let mut i: usize = 0;
        while i < known_versions.len()
            invariant
                i <= known_versions.len(),
                kv == versions_view(known_versions@),
                has == exists|t: int| 0 <= t < i && constraint_matches(dep@.req, kv[t]),
            decreases known_versions.len() - i,
        {
            let ghost oldhas = has;
            if dep.req.matches(&known_versions[i]) {
                has = true;
                proof {
                    assert(kv[i as int] == known_versions@[i as int]@);
                    assert(constraint_matches(dep@.req, kv[i as int]));
                }
            }
            proof {
                if has {
                    if oldhas {
                        let t = choose|t: int| 0 <= t < i && constraint_matches(dep@.req, kv[t]);
                        assert(0 <= t < i + 1 && constraint_matches(dep@.req, kv[t]));
                    } else {
                        assert(0 <= i < i + 1 && constraint_matches(dep@.req, kv[i as int]));
                    }
                } else {
                    assert(forall|t: int|
                        0 <= t < i + 1 ==> !constraint_matches(dep@.req, kv[t])) by {
                        assert(!constraint_matches(dep@.req, kv[i as int]));
                    }
                }
            }
            i = i + 1;
        }
        let ghost dreq = dep@.req;
        let ghost nfinal = known_versions@.len();
        let c = DependencyChecks { dep, known_versions, has_match: has };
        proof {
            assert(c@.dep.req == dreq);
            assert(c@.known_versions == kv);
            assert(kv.len() == nfinal);
            if has {
                let t = choose|t: int| 0 <= t < nfinal && constraint_matches(dreq, kv[t]);
                assert(0 <= t < c@.known_versions.len() && constraint_matches(
                    c@.dep.req,
                    c@.known_versions[t],
                ));
            } else {
                assert(forall|t: int| 0 <= t < kv.len() ==> !constraint_matches(dreq, kv[t]));
                assert(!(exists|t: int|
                    0 <= t < c@.known_versions.len() && constraint_matches(
                        c@.dep.req,
                        c@.known_versions[t],
                    ))) by {
                    if exists|t: int|
                        0 <= t < c@.known_versions.len() && constraint_matches(
                            c@.dep.req,
                            c@.known_versions[t],
                        ) {
                        let t = choose|t: int|
                            0 <= t < c@.known_versions.len() && constraint_matches(
                                c@.dep.req,
                                c@.known_versions[t],
                            );
                        assert(!constraint_matches(dreq, kv[t]));
                    }
                }
            }
            assert(dependency_checks_wf(c@));
        }
        c
    }

    /// Is this dependency satisfied?
    pub fn is_good(&self) -> (b: bool)
        ensures
            b == self@.has_match,
    {
        self.has_match
    }
}

/// The cross-check of one package: the version declared in the index
/// descriptor, the version evaluated from the fetched manifest, and one
/// check per declared dependency, in declaration order.
#[derive(Debug)]
pub struct ManifestChecks {
    pub package_version: SemVer,
    pub manifest_version: SemVer,
    pub dependencies: Vec<DependencyChecks>,
}

/// The mathematical value of a [`ManifestChecks`].
pub struct ManifestChecksV {
    pub package_version: SemVerV,
    pub manifest_version: SemVerV,
    pub dependencies: Seq<DependencyChecksV>,
}

impl View for ManifestChecks {
    type V = ManifestChecksV;

    open spec fn view(&self) -> ManifestChecksV {
        ManifestChecksV {
            package_version: self.package_version@,
            manifest_version: self.manifest_version@,
            dependencies: self.dependencies@.map_values(|d: DependencyChecks| d@),
        }
    }
}

/// A manifest check is good exactly when the two versions are equal — the
/// pre-release tag included, with no coercion between a pre-release and its
/// release — and every dependency check found a match.
pub open spec fn manifest_checks_good(m: ManifestChecksV) -> bool {
    m.package_version == m.manifest_version && forall|i: int|
        0 <= i < m.dependencies.len() ==> #[trigger] m.dependencies[i].has_match
}

impl ManifestChecks {
    /// Is this manifest acceptable for the descriptor it was checked
    /// against?
    pub fn is_good(&self) -> (b: bool)
        ensures
            b == manifest_checks_good(self@),
    {
        if !self.package_version.eq(&self.manifest_version) {
            return false;
        }
        let mut i: usize = 0;
        while i < self.dependencies.len()
            invariant
                i <= self.dependencies.len(),
                self@.package_version == self@.manifest_version,
                forall|t: int| 0 <= t < i ==> #[trigger] self@.dependencies[t].has_match,
            decreases self.dependencies.len() - i,
        {
            if !self.dependencies[i].is_good() {
                proof {
                    assert(!self@.dependencies[i as int].has_match);
                }
                return false;
            }
            i = i + 1;
        }
        true
    }
}

/// Builds the manifest cross-check for one package: the descriptor's
/// version against the manifest's version, and one dependency check per
/// declared dependency, in order, each against the list of versions the
/// index knows for that dependency's identity.
pub fn check_manifest(
    package_version: &SemVer,
    manifest_version: SemVer,
    deps: &Vec<Dep>,
    known: Vec<Vec<SemVer>>,
) -> (m: ManifestChecks)
    requires
        deps@.len() == known@.len(),
    ensures
        m@.package_version == package_version@,
        m@.manifest_version == manifest_version@,
        m@.dependencies.len() == deps@.len(),
        forall|i: int|
            0 <= i < deps@.len() ==> {
                &&& (#[trigger] m@.dependencies[i]).dep == deps@[i]@
                &&& m@.dependencies[i].known_versions == versions_view(known@[i]@)
                &&& dependency_checks_wf(m@.dependencies[i])
            },
{
    let ghost kv0 = known@;
    let mut known = known;
    let mut out: Vec<DependencyChecks> = Vec::new();
    let mut i: usize = 0;
    proof {
        assert(known@ =~= kv0.skip(0));
    }
    while i < deps.len()
        invariant
            i <= deps@.len(),
            deps@.len() == kv0.len(),
            known@ == kv0.skip(i as int),
            out@.len() == i,
            forall|t: int|
                0 <= t < i ==> {
                    &&& (#[trigger] out@[t]@).dep == deps@[t]@
                    &&& out@[t]@.known_versions == versions_view(kv0[t]@)
                    &&& dependency_checks_wf(out@[t]@)
                },
        decreases deps@.len() - i,
    {
        let kv = known.remove(0);
        proof {
            assert(kv == kv0.skip(i as int)[0]);
            assert(kv0.skip(i as int)[0] == kv0[i as int]);
            assert(kv0.skip(i as int).remove(0) =~= kv0.skip(i + 1));
        }
        let c = DependencyChecks::new(deps[i].duplicate(), kv);
        out.push(c);
        i = i + 1;
    }
    ManifestChecks {
        package_version: package_version.duplicate(),
        manifest_version,
        dependencies: out,
    }
}

} // verus!
