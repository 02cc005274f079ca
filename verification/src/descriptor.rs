//! Package descriptors and their extraction from an in-scope diff.
//!
//! Extraction walks the added lines of each patch in file-then-line order.
//! Every added line must deserialize as a descriptor whose identity computes
//! to exactly the file's path under the index root; a removed line, a
//! malformed line, a mismatched identity or an over-deep path aborts
//! extraction for the whole diff.

use vstd::prelude::*;
use vstd::string::*;
use crate::semver::{SemVer, SemVerV, VersionConstraint, VersionConstraintV};
use crate::diff::{Line, LineV, HunkV, Patch, PatchV, patches_view};
use crate::strutil::{split_slash_spec, split_slash, strings_view, str_eq, lemma_split_slash_len};
use nickel_lang_package::IndexDependency;
use nickel_lang_package::index::{Package, PreciseId, Id, serialize::PackageFormat};
use nickel_lang_package::version::VersionReq as IndexVersionReq;

verus! {

/// The identity of a package: the organization and repository that host it,
/// an optional subdirectory within the repository (empty when absent), and
/// the commit the published version is pinned to, as a hex string.
#[derive(Debug)]
pub struct PackageIdentity {
    pub org: String,
    pub name: String,
    pub subdir: String,
    pub commit: String,
}

/// The mathematical value of a [`PackageIdentity`].
pub struct PackageIdentityV {
    pub org: Seq<char>,
    pub name: Seq<char>,
    pub subdir: Seq<char>,
    pub commit: Seq<char>,
}

impl View for PackageIdentity {
    type V = PackageIdentityV;

    open spec fn view(&self) -> PackageIdentityV {
        PackageIdentityV {
            org: self.org@,
            name: self.name@,
            subdir: self.subdir@,
            commit: self.commit@,
        }
    }
}

impl PackageIdentity {
    /// An identity from its four parts.
    pub fn new(org: String, name: String, subdir: String, commit: String) -> (id:
        PackageIdentity)
        ensures
            id@ == (PackageIdentityV {
                org: org@,
                name: name@,
                subdir: subdir@,
                commit: commit@,
            }),
    {
        PackageIdentity { org, name, subdir, commit }
    }
}

/// One dependency declared by a descriptor: the identity of the package
/// depended on, and the constraint on its version.
#[derive(Debug)]
pub struct Dep {
    pub org: String,
    pub name: String,
    pub subdir: String,
    pub req: VersionConstraint,
}

/// The mathematical value of a [`Dep`].
pub struct DepV {
    pub org: Seq<char>,
    pub name: Seq<char>,
    pub subdir: Seq<char>,
    pub req: VersionConstraintV,
}

impl View for Dep {
    type V = DepV;

    open spec fn view(&self) -> DepV {
        DepV { org: self.org@, name: self.name@, subdir: self.subdir@, req: self.req@ }
    }
}

impl Dep {
    /// A dependency from its identity parts and its constraint.
    pub fn new(org: String, name: String, subdir: String, req: VersionConstraint) -> (d: Dep)
        ensures
            d@ == (DepV { org: org@, name: name@, subdir: subdir@, req: req@ }),
    {
        Dep { org, name, subdir, req }
    }

    /// An identical copy.
    pub fn duplicate(&self) -> (d: Dep)
        ensures
            d == *self,
    {
        Dep {
            org: self.org.clone(),
            name: self.name.clone(),
            subdir: self.subdir.clone(),
            req: self.req.duplicate(),
        }
    }
}

/// A package descriptor as declared on one line of an index file: the
/// identity, the published version, the minimum required tool version, the
/// declared dependencies in order, and the free-form metadata, which the
/// checks never validate but which the descriptor carries.
#[derive(Debug)]
pub struct Descriptor {
    pub id: PackageIdentity,
    pub version: SemVer,
    pub min_tool_version: SemVer,
    pub deps: Vec<Dep>,
    pub authors: Vec<String>,
    pub description: String,
    pub keywords: Vec<String>,
    pub license: String,
}

/// The mathematical value of a [`Descriptor`].
pub struct DescriptorV {
    pub id: PackageIdentityV,
    pub version: SemVerV,
    pub min_tool_version: SemVerV,
    pub deps: Seq<DepV>,
    pub authors: Seq<Seq<char>>,
    pub description: Seq<char>,
    pub keywords: Seq<Seq<char>>,
    pub license: Seq<char>,
}

impl View for Descriptor {
    type V = DescriptorV;

    open spec fn view(&self) -> DescriptorV {
        DescriptorV {
            id: self.id@,
            version: self.version@,
            min_tool_version: self.min_tool_version@,
            deps: self.deps@.map_values(|d: Dep| d@),
            authors: strings_view(self.authors@),
            description: self.description@,
            keywords: strings_view(self.keywords@),
            license: self.license@,
        }
    }
}

impl Descriptor {
    /// A descriptor from its parts.
    pub fn new(
        id: PackageIdentity,
        version: SemVer,
        min_tool_version: SemVer,
        deps: Vec<Dep>,
        authors: Vec<String>,
        description: String,
        keywords: Vec<String>,
        license: String,
    ) -> (r: Descriptor)
        ensures
            r@ == (DescriptorV {
                id: id@,
                version: version@,
                min_tool_version: min_tool_version@,
                deps: deps@.map_values(|d: Dep| d@),
                authors: strings_view(authors@),
                description: description@,
                keywords: strings_view(keywords@),
                license: license@,
            }),
    {
        Descriptor { id, version, min_tool_version, deps, authors, description, keywords, license }
    }
}

/// The views of a sequence of descriptors.
pub open spec fn descs_view(ds: Seq<Descriptor>) -> Seq<DescriptorV> {
    ds.map_values(|d: Descriptor| d@)
}

/// A fatal extraction error: any one of these rejects the whole diff.
#[derive(Debug)]
pub enum Error {
    Patch(String),
    BadPrefix(String),
    MissingOrg(String),
    MissingRepo(String),
    Deletion(String),
    Deserialize(String),
    OrgNameMismatch { path: String, package: String },
    PathToDeep { path: String },
}

/// The mathematical value of an [`Error`].
pub enum ErrorV {
    Patch(Seq<char>),
    BadPrefix(Seq<char>),
    MissingOrg(Seq<char>),
    MissingRepo(Seq<char>),
    Deletion(Seq<char>),
    Deserialize(Seq<char>),
    OrgNameMismatch { path: Seq<char>, package: Seq<char> },
    PathToDeep { path: Seq<char> },
}

impl View for Error {
    type V = ErrorV;

    open spec fn view(&self) -> ErrorV {
        match self {
            Error::Patch(m) => ErrorV::Patch(m@),
            Error::BadPrefix(p) => ErrorV::BadPrefix(p@),
            Error::MissingOrg(p) => ErrorV::MissingOrg(p@),
            Error::MissingRepo(p) => ErrorV::MissingRepo(p@),
            Error::Deletion(l) => ErrorV::Deletion(l@),
            Error::Deserialize(m) => ErrorV::Deserialize(m@),
            Error::OrgNameMismatch { path, package } => ErrorV::OrgNameMismatch {
                path: path@,
                package: package@,
            },
            Error::PathToDeep { path } => ErrorV::PathToDeep { path: path@ },
        }
    }
}

/// The explanatory message of an error.
pub open spec fn error_message(e: ErrorV) -> Seq<char> {
    match e {
        ErrorV::Patch(m) => "failed to parse diff: "@ + m,
        ErrorV::BadPrefix(p) => "expected new files to start with \"b/github\", got \""@ + p
            + "\""@,
        ErrorV::MissingOrg(p) => "missing org, got \""@ + p + "\""@,
        ErrorV::MissingRepo(p) => "missing repo, got \""@ + p + "\""@,
        ErrorV::Deletion(l) => "you can't delete a line: \""@ + l + "\""@,
        ErrorV::Deserialize(m) => "invalid package spec: "@ + m,
        ErrorV::OrgNameMismatch { path, package } => "org/name mismatch: path was \""@ + path
            + "\", package was \""@ + package + "\""@,
        ErrorV::PathToDeep { path } => "path too deep: expected three components, got \""@ + path
            + "\""@,
    }
}

impl Error {
    /// Renders the explanatory message of this error.
    pub fn message(&self) -> (s: String)
        ensures
            s@ == error_message(self@),
    {
        match self {
            Error::Patch(m) => {
                let mut s = String::from_str("failed to parse diff: ");
                s.append(m.as_str());
                proof { assert(s@ =~= error_message(self@)); }
                s
            },
            Error::BadPrefix(p) => {
                let mut s = String::from_str("expected new files to start with \"b/github\", got \"");
                s.append(p.as_str());
                s.append("\"");
                proof { assert(s@ =~= error_message(self@)); }
                s
            },
            Error::MissingOrg(p) => {
                let mut s = String::from_str("missing org, got \"");
                s.append(p.as_str());
                s.append("\"");
                proof { assert(s@ =~= error_message(self@)); }
                s
            },
            Error::MissingRepo(p) => {
                let mut s = String::from_str("missing repo, got \"");
                s.append(p.as_str());
                s.append("\"");
                proof { assert(s@ =~= error_message(self@)); }
                s
            },
            Error::Deletion(l) => {
                let mut s = String::from_str("you can't delete a line: \"");
                s.append(l.as_str());
                s.append("\"");
                proof { assert(s@ =~= error_message(self@)); }
                s
            },
            Error::Deserialize(m) => {
                let mut s = String::from_str("invalid package spec: ");
                s.append(m.as_str());
                proof { assert(s@ =~= error_message(self@)); }
                s
            },
            Error::OrgNameMismatch { path, package } => {
                let mut s = String::from_str("org/name mismatch: path was \"");
                s.append(path.as_str());
                s.append("\", package was \"");
                s.append(package.as_str());
                s.append("\"");
                proof { assert(s@ =~= error_message(self@)); }
                s
            },
            Error::PathToDeep { path } => {
                let mut s = String::from_str("path too deep: expected three components, got \"");
                s.append(path.as_str());
                s.append("\"");
                proof { assert(s@ =~= error_message(self@)); }
                s
            },
        }
    }
}

/// What deserializing one added line yields: the descriptor it declares, or
/// the parser's message on a malformed line. The outcome depends on the
/// line alone.
pub uninterp spec fn descriptor_of(line: Seq<char>) -> Result<DescriptorV, Seq<char>>;

#[verifier::external_type_specification]
#[verifier::external_body]
pub struct ExIndexDependency(IndexDependency);

/// Relies on nickel-lang-package's `IndexDependency`: moves its github
/// identity and its version requirement, field by field, into the
/// library's dependency type. Only `parse_descriptor` uses it, as part of
/// the conversion whose whole outcome `descriptor_of` names.
#[verifier::external_body]
fn dep_of_index(d: IndexDependency) -> (r: Dep) {
    let Id::Github { org, name, path } = d.id;
    Dep::new(org, name, path.to_string(), match d.version {
        IndexVersionReq::Compatible(c) => VersionConstraint::compatible(c.major, c.minor, c.patch),
        IndexVersionReq::Exact(v) => VersionConstraint::exact(v.major, v.minor, v.patch, v.pre),
    })
}

/// Relies on serde_json's `from_str` together with nickel-lang-package's
/// index serialization format (`PackageFormat` and its conversion to
/// `Package`): one line of an index file deserializes into a package record
/// with a github identity, a version, a minimal tool version, named
/// dependencies ordered by name, and free-form metadata.
#[verifier::external_body]
pub(crate) fn parse_descriptor(line: &str) -> (r: Result<Descriptor, String>)
    ensures
        match r {
            Ok(d) => descriptor_of(line@) == Ok::<DescriptorV, Seq<char>>(d@),
            Err(m) => descriptor_of(line@) == Err::<DescriptorV, Seq<char>>(m@),
        },
{
    let p = Package::from(serde_json::from_str::<PackageFormat>(line).map_err(|e| e.to_string())?);
    let PreciseId::Github { org, name, path, commit } = p.id;
    let deps = p.dependencies.into_values().map(dep_of_index).collect();
    let v = SemVer::from_parts(p.version.major, p.version.minor, p.version.patch, p.version.pre);
    let mv = SemVer::from_parts(p.minimal_nickel_version.major, p.minimal_nickel_version.minor, p.minimal_nickel_version.patch, p.minimal_nickel_version.pre);
    let id = PackageIdentity::new(org, name, path.to_string(), commit.to_string());
    Ok(Descriptor::new(id, v, mv, deps, p.authors, p.description, p.keywords, p.license))
}

/// The index path `github/org/name`.
pub open spec fn github_path2_spec(org: Seq<char>, name: Seq<char>) -> Seq<char> {
    "github/"@ + org + "/"@ + name
}

/// The index path `github/org/name/subdir`.
pub open spec fn github_path3_spec(org: Seq<char>, name: Seq<char>, subdir: Seq<char>) -> Seq<
    char,
> {
    github_path2_spec(org, name) + "/"@ + subdir
}

/// The index path computed from an identity: the subdirectory component is
/// appended only when it is non-empty.
pub open spec fn id_index_path(id: PackageIdentityV) -> Seq<char> {
    if id.subdir.len() == 0 {
        github_path2_spec(id.org, id.name)
    } else {
        github_path3_spec(id.org, id.name, id.subdir)
    }
}

/// The location of the manifest file relative to the fetched tree.
pub open spec fn manifest_path_spec(id: PackageIdentityV) -> Seq<char> {
    if id.subdir.len() == 0 {
        "Nickel-pkg.ncl"@
    } else {
        id.subdir + "/"@ + "Nickel-pkg.ncl"@
    }
}

/// The URL from which a package's repository is fetched.
pub open spec fn fetch_url_spec(id: PackageIdentityV) -> Seq<char> {
    "https://github.com/"@ + id.org + "/"@ + id.name + ".git"@
}

impl PackageIdentity {
    /// The URL of the repository holding this package's source.
    pub fn fetch_url(&self) -> (s: String)
        ensures
            s@ == fetch_url_spec(self@),
    {
        let mut s = String::from_str("https://github.com/");
        s.append(self.org.as_str());
        s.append("/");
        s.append(self.name.as_str());
        s.append(".git");
        proof {
            assert(s@ =~= fetch_url_spec(self@));
        }
        s
    }

    /// The path of the manifest file within the package's fetched tree:
    /// the file is named `Nickel-pkg.ncl` and lives at the identity's
    /// subdirectory, or at the root when there is none.
    pub fn manifest_path(&self) -> (s: String)
        ensures
            s@ == manifest_path_spec(self@),
    {
        if self.subdir.as_str().is_empty() {
            let s = String::from_str("Nickel-pkg.ncl");
            proof {
                assert(s@ =~= manifest_path_spec(self@));
            }
            s
        } else {
            let mut s = self.subdir.clone();
            s.append("/");
            s.append("Nickel-pkg.ncl");
            proof {
                assert(s@ =~= manifest_path_spec(self@));
            }
            s
        }
    }

    /// The index path under which this identity's descriptor must live.
    pub fn index_path(&self) -> (s: String)
        ensures
            s@ == id_index_path(self@),
    {
        let mut s = String::from_str("github/");
        s.append(self.org.as_str());
        s.append("/");
        s.append(self.name.as_str());
        if !self.subdir.as_str().is_empty() {
            s.append("/");
            s.append(self.subdir.as_str());
        }
        proof {
            assert(s@ =~= id_index_path(self@));
        }
        s
    }
}

/// The identity components a patched file path asserts, or the error that
/// rejects the path. The path must read `b/github/org/name` with at most
/// one further subdirectory component.
pub open spec fn patch_expected_path(path: Seq<char>) -> Result<Seq<char>, ErrorV> {
    let parts = split_slash_spec(path);
    if parts[0] != "b"@ || parts.len() < 2 || parts[1] != "github"@ {
        Err(ErrorV::BadPrefix(path))
    } else if parts.len() < 3 {
        Err(ErrorV::MissingOrg(path))
    } else if parts.len() < 4 {
        Err(ErrorV::MissingRepo(path))
    } else if parts.len() > 5 {
        Err(ErrorV::PathToDeep { path })
    } else if parts.len() == 4 {
        Ok(github_path2_spec(parts[2], parts[3]))
    } else {
        Ok(github_path3_spec(parts[2], parts[3], parts[4]))
    }
}

/// What one added line contributes, against the identity path asserted by
/// the file it stands in.
pub open spec fn added_line_result(line: Seq<char>, expected: Seq<char>) -> Result<
    DescriptorV,
    ErrorV,
> {
    match descriptor_of(line) {
        Err(m) => Err(ErrorV::Deserialize(m)),
        Ok(d) => {
            let dpath = id_index_path(d.id);
            if dpath != expected {
                Err(ErrorV::OrgNameMismatch { path: expected, package: dpath })
            } else {
                Ok(d)
            }
        },
    }
}

/// Extraction over a sequence of lines, earliest error first: context lines
/// are skipped, a removed line is rejected, and every added line must
/// contribute a descriptor.
pub open spec fn extract_lines(lines: Seq<LineV>, expected: Seq<char>) -> Result<
    Seq<DescriptorV>,
    ErrorV,
>
    decreases lines.len(),
{
    if lines.len() == 0 {
        Ok(Seq::empty())
    } else {
        match extract_lines(lines.drop_last(), expected) {
            Err(e) => Err(e),
            Ok(ds) => match lines.last() {
                LineV::Context(_) => Ok(ds),
                LineV::Removed(t) => Err(ErrorV::Deletion(t)),
                LineV::Added(t) => match added_line_result(t, expected) {
                    Err(e) => Err(e),
                    Ok(d) => Ok(ds.push(d)),
                },
            },
        }
    }
}

/// All the lines of a patch, in hunk order.
pub open spec fn patch_lines(hunks: Seq<HunkV>) -> Seq<LineV>
    decreases hunks.len(),
{
    if hunks.len() == 0 {
        Seq::empty()
    } else {
        patch_lines(hunks.drop_last()) + hunks.last().lines
    }
}

/// What extraction yields for one patch.
pub open spec fn extract_patch(p: PatchV) -> Result<Seq<DescriptorV>, ErrorV> {
    match patch_expected_path(p.path) {
        Err(e) => Err(e),
        Ok(expected) => extract_lines(patch_lines(p.hunks), expected),
    }
}

/// What extraction yields for a sequence of patches: the concatenation of
/// the per-patch descriptors, or the earliest error.
pub open spec fn extract_spec(ps: Seq<PatchV>) -> Result<Seq<DescriptorV>, ErrorV>
    decreases ps.len(),
{
    if ps.len() == 0 {
        Ok(Seq::empty())
    } else {
        match extract_spec(ps.drop_last()) {
            Err(e) => Err(e),
            Ok(ds) => match extract_patch(ps.last()) {
                Err(e) => Err(e),
                Ok(d2) => Ok(ds + d2),
            },
        }
    }
}

/// The view of an extraction result.
pub open spec fn extraction_view(r: Result<Vec<Descriptor>, Error>) -> Result<
    Seq<DescriptorV>,
    ErrorV,
> {
    match r {
        Ok(ds) => Ok(descs_view(ds@)),
        Err(e) => Err(e@),
    }
}

/// The views of a sequence of lines.
pub open spec fn lines_view(ls: Seq<Line>) -> Seq<LineV> {
    ls.map_values(|l: Line| l@)
}

/// An error met on a prefix of the lines is the result for the whole
/// sequence: extraction never looks past the earliest failure.
pub proof fn lemma_extract_lines_err_append(a: Seq<LineV>, b: Seq<LineV>, expected: Seq<char>)
    requires
        extract_lines(a, expected) is Err,
    ensures
        extract_lines(a + b, expected) == extract_lines(a, expected),
    decreases b.len(),
{
    if b.len() == 0 {
        assert(a + b =~= a);
    } else {
        assert((a + b).drop_last() =~= a + b.drop_last());
        lemma_extract_lines_err_append(a, b.drop_last(), expected);
    }
}

/// An error met on a prefix of the patches is the result for the whole
/// sequence.
pub proof fn lemma_extract_spec_err_take(ps: Seq<PatchV>, k: int)
    requires
        0 <= k <= ps.len(),
        extract_spec(ps.take(k)) is Err,
    ensures
        extract_spec(ps) == extract_spec(ps.take(k)),
    decreases ps.len() - k,
{
    if k == ps.len() {
        assert(ps.take(k) =~= ps);
    } else {
        assert(ps.take(k + 1).drop_last() =~= ps.take(k));
        lemma_extract_spec_err_take(ps, k + 1);
    }
}

/// A removed line anywhere in a sequence of lines makes extraction fail.
pub proof fn lemma_removed_line_errs(lines: Seq<LineV>, m: int, expected: Seq<char>)
    requires
        0 <= m < lines.len(),
        lines[m] is Removed,
    ensures
        extract_lines(lines, expected) is Err,
    decreases lines.len(),
{
    if m < lines.len() - 1 {
        assert(lines.drop_last()[m] == lines[m]);
        lemma_removed_line_errs(lines.drop_last(), m, expected);
    }
}

/// Every line of every hunk appears among the patch's lines.
pub proof fn lemma_hunk_line_in_patch(hunks: Seq<HunkV>, j: int, k: int)
    requires
        0 <= j < hunks.len(),
        0 <= k < hunks[j].lines.len(),
    ensures
        patch_lines(hunks).contains(hunks[j].lines[k]),
    decreases hunks.len(),
{
    if j == hunks.len() - 1 {
        let prefix = patch_lines(hunks.drop_last());
        assert(patch_lines(hunks)[prefix.len() + k] == hunks[j].lines[k]);
    } else {
        assert(hunks.drop_last()[j] == hunks[j]);
        lemma_hunk_line_in_patch(hunks.drop_last(), j, k);
        let prefix = patch_lines(hunks.drop_last());
        let m = choose|m: int| 0 <= m < prefix.len() && prefix[m] == hunks[j].lines[k];
        assert(patch_lines(hunks)[m] == hunks[j].lines[k]);
    }
}

/// No deletions: a diff one of whose patches contains a removed line never
/// yields packages; extraction for the whole sequence fails.
pub proof fn lemma_no_deletions(ps: Seq<PatchV>, i: int, j: int, k: int)
    requires
        0 <= i < ps.len(),
        0 <= j < ps[i].hunks.len(),
        0 <= k < ps[i].hunks[j].lines.len(),
        ps[i].hunks[j].lines[k] is Removed,
    ensures
        extract_spec(ps) is Err,
{
    let p = ps[i];
    if patch_expected_path(p.path) is Ok {
        let expected = patch_expected_path(p.path)->Ok_0;
        lemma_hunk_line_in_patch(p.hunks, j, k);
        let m = choose|m: int|
            0 <= m < patch_lines(p.hunks).len() && patch_lines(p.hunks)[m] == p.hunks[j].lines[k];
        lemma_removed_line_errs(patch_lines(p.hunks), m, expected);
    }
    assert(extract_patch(p) is Err);
    assert(ps.take(i + 1).drop_last() =~= ps.take(i));
    assert(ps.take(i + 1).last() == p);
    assert(extract_spec(ps.take(i + 1)) is Err);
    lemma_extract_spec_err_take(ps, i + 1);
}

/// Identity/path consistency: a well-formed descriptor line validates only
/// at the index path computed from its own identity; at any other path it
/// fails with an org/name mismatch naming both the file's path and the
/// identity's path.
pub proof fn lemma_identity_path_consistency(line: Seq<char>, d: DescriptorV, expected: Seq<char>)
    requires
        descriptor_of(line) == Ok::<DescriptorV, Seq<char>>(d),
    ensures
        added_line_result(line, expected) is Ok <==> expected == id_index_path(d.id),
        expected != id_index_path(d.id) ==> added_line_result(line, expected) == Err::<
            DescriptorV,
            ErrorV,
        >(ErrorV::OrgNameMismatch { path: expected, package: id_index_path(d.id) }),
{
}

/// Builds `github/org/name`.
fn github_path2(org: &str, name: &str) -> (s: String)
    ensures
        s@ == github_path2_spec(org@, name@),
{
    let mut s = String::from_str("github/");
    s.append(org);
    s.append("/");
    s.append(name);
    proof {
        assert(s@ =~= github_path2_spec(org@, name@));
    }
    s
}

/// Builds `github/org/name/subdir`.
fn github_path3(org: &str, name: &str, subdir: &str) -> (s: String)
    ensures
        s@ == github_path3_spec(org@, name@, subdir@),
{
    let mut s = github_path2(org, name);
    s.append("/");
    s.append(subdir);
    proof {
        assert(s@ =~= github_path3_spec(org@, name@, subdir@));
    }
    s
}

/// All the lines of a patch, in hunk order.
fn flatten_patch_lines(p: &Patch) -> (flat: Vec<Line>)
    ensures
        lines_view(flat@) == patch_lines(p@.hunks),
{
    let ghost hv = p@.hunks;
    let mut flat: Vec<Line> = Vec::new();
    let mut j: usize = 0;
    proof {
        assert(hv.take(0) =~= Seq::<HunkV>::empty());
        assert(lines_view(flat@) =~= patch_lines(hv.take(0)));
    }
    while j < p.hunks.len()
        invariant
            j <= p.hunks.len(),
            hv == p@.hunks,
            lines_view(flat@) == patch_lines(hv.take(j as int)),
        decreases p.hunks.len() - j,
    {
        let ghost lv = hv[j as int].lines;
        let mut k: usize = 0;
        proof {
            assert(lv.take(0) =~= Seq::<LineV>::empty());
            assert(lines_view(flat@) + lv.take(0) =~= lines_view(flat@));
        }
        while k < p.hunks[j].lines.len()
            invariant
                j < p.hunks.len(),
                k <= p.hunks[j as int].lines.len(),
                hv == p@.hunks,
                lv == hv[j as int].lines,
                lines_view(flat@) == patch_lines(hv.take(j as int)) + lv.take(k as int),
            decreases p.hunks[j as int].lines.len() - k,
        {
            let line = p.hunks[j].lines[k].duplicate();
            let ghost lg = line@;
            let ghost oldflat = flat@;
            proof {
                assert(lv[k as int] == p.hunks@[j as int].lines@[k as int]@);
                assert(lg == lv[k as int]);
                assert(lv.take(k + 1) =~= lv.take(k as int).push(lv[k as int]));
            }
            flat.push(line);
            proof {
                assert(flat@ == oldflat.push(flat@.last()));
                assert(flat@.last()@ == lg);
                assert(lines_view(flat@) =~= lines_view(oldflat).push(lg));
                assert(lines_view(flat@) =~= patch_lines(hv.take(j as int)) + lv.take(k + 1));
            }
            k = k + 1;
        }
        proof {
            assert(lv.take(lv.len() as int) =~= lv);
            assert(hv.take(j + 1).drop_last() =~= hv.take(j as int));
            assert(hv.take(j + 1).last() == hv[j as int]);
            assert(patch_lines(hv.take(j + 1)) =~= patch_lines(hv.take(j as int)) + lv);
        }
        j = j + 1;
    }
    proof {
        assert(hv.take(p.hunks.len() as int) =~= hv);
    }
    flat
}

/// Extracts the descriptors one patch adds, or the earliest error in it.
fn extract_from_patch(p: &Patch) -> (r: Result<Vec<Descriptor>, Error>)
    ensures
        match r {
            Ok(ds) => extract_patch(p@) == Ok::<Seq<DescriptorV>, ErrorV>(descs_view(ds@)),
            Err(e) => extract_patch(p@) == Err::<Seq<DescriptorV>, ErrorV>(e@),
        },
{
    let parts = split_slash(p.path.as_str());
    proof {
        lemma_split_slash_len(p.path@);
        assert(strings_view(parts@).len() == parts@.len());
    }
    if !str_eq(parts[0].as_str(), "b") {
        return Err(Error::BadPrefix(p.path.clone()));
    }
    if parts.len() < 2 {
        return Err(Error::BadPrefix(p.path.clone()));
    }
    if !str_eq(parts[1].as_str(), "github") {
        return Err(Error::BadPrefix(p.path.clone()));
    }
    if parts.len() < 3 {
        return Err(Error::MissingOrg(p.path.clone()));
    }
    if parts.len() < 4 {
        return Err(Error::MissingRepo(p.path.clone()));
    }
    if parts.len() > 5 {
        return Err(Error::PathToDeep { path: p.path.clone() });
    }
    let expected: String = if parts.len() == 4 {
        github_path2(parts[2].as_str(), parts[3].as_str())
    } else {
        github_path3(parts[2].as_str(), parts[3].as_str(), parts[4].as_str())
    };
    proof {
        assert(patch_expected_path(p@.path) == Ok::<Seq<char>, ErrorV>(expected@));
    }
    let flat = flatten_patch_lines(p);
    let ghost flv = lines_view(flat@);
    let mut found: Vec<Descriptor> = Vec::new();
    let mut k: usize = 0;
    proof {
        assert(flv.take(0) =~= Seq::<LineV>::empty());
        assert(descs_view(found@) =~= Seq::<DescriptorV>::empty());
    }
    while k < flat.len()
        invariant
            k <= flat.len(),
            flv == lines_view(flat@),
            flv == patch_lines(p@.hunks),
            patch_expected_path(p@.path) == Ok::<Seq<char>, ErrorV>(expected@),
            extract_lines(flv.take(k as int), expected@) == Ok::<Seq<DescriptorV>, ErrorV>(
                descs_view(found@),
            ),
        decreases flat.len() - k,
    {
        proof {
            assert(flv.take(k + 1).drop_last() =~= flv.take(k as int));
            assert(flv.take(k + 1).last() == flv[k as int]);
            assert(flv[k as int] == flat@[k as int]@);
        }
        let line = &flat[k];
        match line {
            Line::Context(_) => {},
            Line::Removed(t) => {
                proof {
                    assert(extract_lines(flv.take(k + 1), expected@) == Err::<
                        Seq<DescriptorV>,
                        ErrorV,
                    >(ErrorV::Deletion(t@)));
                    assert(flv.take(k + 1) + flv.skip(k + 1) =~= flv);
                    lemma_extract_lines_err_append(flv.take(k + 1), flv.skip(k + 1), expected@);
                }
                return Err(Error::Deletion(t.clone()));
            },
            Line::Added(t) => {
                match parse_descriptor(t.as_str()) {
                    Err(m) => {
                        proof {
                            assert(flv.take(k + 1) + flv.skip(k + 1) =~= flv);
                            lemma_extract_lines_err_append(
                                flv.take(k + 1),
                                flv.skip(k + 1),
                                expected@,
                            );
                        }
                        return Err(Error::Deserialize(m));
                    },
                    Ok(d) => {
                        let dpath = d.id.index_path();
                        if !str_eq(dpath.as_str(), expected.as_str()) {
                            proof {
                                assert(flv.take(k + 1) + flv.skip(k + 1) =~= flv);
                                lemma_extract_lines_err_append(
                                    flv.take(k + 1),
                                    flv.skip(k + 1),
                                    expected@,
                                );
                            }
                            return Err(
                                Error::OrgNameMismatch { path: expected, package: dpath },
                            );
                        }
                        let ghost prev = descs_view(found@);
                        found.push(d);
                        proof {
                            assert(descs_view(found@) =~= prev.push(found@.last()@));
                        }
                    },
                }
            },
        }
        k = k + 1;
    }
    proof {
        assert(flv.take(flat.len() as int) =~= flv);
    }
    Ok(found)
}

/// Extracts every package descriptor a parsed diff adds, in file-then-line
/// order, or the earliest error among its patches. Fails on a path outside
/// the index convention, on any removed line, on a malformed descriptor
/// line, on an identity that does not match its file's path, and on an
/// over-deep path.
pub fn changed_packages(patches: &Vec<Patch>) -> (r: Result<Vec<Descriptor>, Error>)
    ensures
        extraction_view(r) == extract_spec(patches_view(patches@)),
{
    let ghost pv = patches_view(patches@);
    let mut out: Vec<Descriptor> = Vec::new();
    let mut i: usize = 0;
    proof {
        assert(pv.take(0) =~= Seq::<PatchV>::empty());
        assert(descs_view(out@) =~= Seq::<DescriptorV>::empty());
    }
    while i < patches.len()
        invariant
            i <= patches.len(),
            pv == patches_view(patches@),
            extract_spec(pv.take(i as int)) == Ok::<Seq<DescriptorV>, ErrorV>(descs_view(out@)),
        decreases patches.len() - i,
    {
        proof {
            assert(pv.take(i + 1).drop_last() =~= pv.take(i as int));
            assert(pv.take(i + 1).last() == pv[i as int]);
            assert(pv[i as int] == patches@[i as int]@);
        }
        match extract_from_patch(&patches[i]) {
            Err(e) => {
                proof {
                    assert(extract_spec(pv.take(i + 1)) is Err);
                    lemma_extract_spec_err_take(pv, i + 1);
                }
                return Err(e);
            },
            Ok(mut ds) => {
                let ghost prev = descs_view(out@);
                let ghost dsv = descs_view(ds@);
                out.append(&mut ds);
                proof {
                    assert(descs_view(out@) =~= prev + dsv);
                }
            },
        }
        i = i + 1;
    }
    proof {
        assert(pv.take(patches.len() as int) =~= pv);
    }
    Ok(out)
}

} // verus!
