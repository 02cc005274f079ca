//! The hierarchical submission report: per-path diagnostics and per-package
//! results, a recursive goodness predicate, and rendering into indented
//! text with status markers.
//!
//! Rendering is a pure function of the report tree; the same text serves
//! the terminal and the comment posted back on the submission.

use vstd::prelude::*;
use vstd::string::*;
use crate::strutil::{spaces, spaces_spec, split_slash, strings_view, str_eq, lemma_split_slash_len};
use crate::semver::{semver_str, constraint_str, SemVerV};
use crate::diff::{
    Patch, PatchV, patches_view, path_in_scope, diag_for, classify_retained, classify_diags,
};
use crate::descriptor::{
    Descriptor, DescriptorV, descs_view, Error, ErrorV, error_message, extract_spec,
    changed_packages, DepV, Dep,
};
use crate::checks::{
    Permission, PermissionV, ManifestChecks, ManifestChecksV, manifest_checks_good,
    DependencyChecks, DependencyChecksV, versions_view,
};

verus! {

/// A diagnostic showing that an unexpected path was modified.
#[derive(Debug)]
pub struct PathReport {
    /// Whether the modification is benign (a warning) or blocks acceptance.
    pub is_good: bool,
    /// The path as shown to the submitter.
    pub path: String,
}

/// The mathematical value of a [`PathReport`].
pub struct PathReportV {
    pub is_good: bool,
    pub path: Seq<char>,
}

impl View for PathReport {
    type V = PathReportV;

    open spec fn view(&self) -> PathReportV {
        PathReportV { is_good: self.is_good, path: self.path@ }
    }
}

/// How far one package's validation went: fetching its source, evaluating
/// its manifest, and the manifest cross-check.
#[derive(Debug)]
pub enum PackageStatus {
    FetchFailed(String),
    EvalFailed(String),
    Manifest(ManifestChecks),
}

/// The mathematical value of a [`PackageStatus`].
pub enum PackageStatusV {
    FetchFailed(Seq<char>),
    EvalFailed(Seq<char>),
    Manifest(ManifestChecksV),
}

impl View for PackageStatus {
    type V = PackageStatusV;

    open spec fn view(&self) -> PackageStatusV {
        match self {
            PackageStatus::FetchFailed(e) => PackageStatusV::FetchFailed(e@),
            PackageStatus::EvalFailed(e) => PackageStatusV::EvalFailed(e@),
            PackageStatus::Manifest(m) => PackageStatusV::Manifest(m@),
        }
    }
}

/// The result of validating one package: the descriptor, the submitter's
/// permission, and how far validation went.
#[derive(Debug)]
pub struct PackageReport {
    pub pkg: Descriptor,
    pub permission: Permission,
    pub status: PackageStatus,
}

/// The mathematical value of a [`PackageReport`].
pub struct PackageReportV {
    pub pkg: DescriptorV,
    pub permission: PermissionV,
    pub status: PackageStatusV,
}

impl View for PackageReport {
    type V = PackageReportV;

    open spec fn view(&self) -> PackageReportV {
        PackageReportV { pkg: self.pkg@, permission: self.permission@, status: self.status@ }
    }
}

/// One entry of the report list: a path diagnostic or a package result.
#[derive(Debug)]
pub enum ReportItem {
    Path(PathReport),
    Package(PackageReport),
}

/// The mathematical value of a [`ReportItem`].
pub enum ReportItemV {
    Path(PathReportV),
    Package(PackageReportV),
}

impl View for ReportItem {
    type V = ReportItemV;

    open spec fn view(&self) -> ReportItemV {
        match self {
            ReportItem::Path(p) => ReportItemV::Path(p@),
            ReportItem::Package(p) => ReportItemV::Package(p@),
        }
    }
}

/// The views of a sequence of report items.
pub open spec fn items_view(items: Seq<ReportItem>) -> Seq<ReportItemV> {
    items.map_values(|it: ReportItem| it@)
}

/// The whole-submission result: either a single terminal failure for an
/// invalid diff, or the ordered list of diagnostics and package results.
#[derive(Debug)]
pub enum Report {
    InvalidDiff(Error),
    PackageReports(Vec<ReportItem>),
}

/// The mathematical value of a [`Report`].
pub enum ReportV {
    InvalidDiff(ErrorV),
    PackageReports(Seq<ReportItemV>),
}

impl View for Report {
    type V = ReportV;

    open spec fn view(&self) -> ReportV {
        match self {
            Report::InvalidDiff(e) => ReportV::InvalidDiff(e@),
            Report::PackageReports(items) => ReportV::PackageReports(items_view(items@)),
        }
    }
}

/// A package's node is good only when the submitter is allowed, the source
/// was fetched, the manifest evaluated, and the cross-check passed.
pub open spec fn package_report_good(p: PackageReportV) -> bool {
    p.permission.is_allowed && match p.status {
        PackageStatusV::Manifest(m) => manifest_checks_good(m),
        _ => false,
    }
}

/// Goodness of one report item.
pub open spec fn item_good(it: ReportItemV) -> bool {
    match it {
        ReportItemV::Path(p) => p.is_good,
        ReportItemV::Package(p) => package_report_good(p),
    }
}

/// Are all entries of the list good?
pub open spec fn all_items_good(items: Seq<ReportItemV>) -> bool {
    forall|i: int| 0 <= i < items.len() ==> item_good(#[trigger] items[i])
}

/// The whole report is good only when it is the list variant and every
/// item in it is good.
pub open spec fn report_good(r: ReportV) -> bool {
    match r {
        ReportV::InvalidDiff(_) => false,
        ReportV::PackageReports(items) => all_items_good(items),
    }
}

impl PathReport {
    /// A benign modification warns; any other out-of-scope path blocks.
    pub fn is_good(&self) -> (b: bool)
        ensures
            b == self@.is_good,
    {
        self.is_good
    }
}

impl PackageReport {
    /// Assembles the report node for one package.
    pub fn new(pkg: Descriptor, permission: Permission, status: PackageStatus) -> (r:
        PackageReport)
        ensures
            r.pkg == pkg,
            r.permission == permission,
            r.status == status,
    {
        PackageReport { pkg, permission, status }
    }

    /// Is this package acceptable?
    pub fn is_good(&self) -> (b: bool)
        ensures
            b == package_report_good(self@),
    {
        self.permission.is_allowed && match &self.status {
            PackageStatus::FetchFailed(_) => false,
            PackageStatus::EvalFailed(_) => false,
            PackageStatus::Manifest(m) => m.is_good(),
        }
    }
}

impl ReportItem {
    /// Goodness of this entry.
    pub fn is_good(&self) -> (b: bool)
        ensures
            b == item_good(self@),
    {
        match self {
            ReportItem::Path(p) => p.is_good(),
            ReportItem::Package(p) => p.is_good(),
        }
    }
}

// ------------------------------------------------------------------
// Rendering.
// ------------------------------------------------------------------

/// The identity of a dependency as shown: `github:org/name`, with the
/// subdirectory appended when present.
pub open spec fn dep_id_str(d: DepV) -> Seq<char> {
    "github:"@ + d.org + "/"@ + d.name + (if d.subdir.len() == 0 {
        Seq::<char>::empty()
    } else {
        "/"@ + d.subdir
    })
}

/// The known versions joined with commas.
pub open spec fn versions_list_str(vs: Seq<SemVerV>) -> Seq<char>
    decreases vs.len(),
{
    if vs.len() == 0 {
        Seq::empty()
    } else if vs.len() == 1 {
        semver_str(vs[0])
    } else {
        versions_list_str(vs.drop_last()) + ", "@ + semver_str(vs.last())
    }
}

/// One dependency's line.
pub open spec fn dep_render(d: DependencyChecksV, indent: Seq<char>) -> Seq<char> {
    if d.has_match {
        indent + "ok "@ + dep_id_str(d.dep) + " "@ + constraint_str(d.dep.req) + "\n"@
    } else if d.known_versions.len() == 0 {
        indent + "fail "@ + dep_id_str(d.dep) + " doesn't exist in the index\n"@
    } else {
        indent + "fail "@ + dep_id_str(d.dep) + " "@ + constraint_str(d.dep.req)
            + " doesn't match any versions: known versions are "@ + versions_list_str(
            d.known_versions,
        ) + "\n"@
    }
}

/// The dependency lines in order.
pub open spec fn deps_render(ds: Seq<DependencyChecksV>, indent: Seq<char>) -> Seq<char>
    decreases ds.len(),
{
    if ds.len() == 0 {
        Seq::empty()
    } else {
        deps_render(ds.drop_last(), indent) + dep_render(ds.last(), indent)
    }
}

/// The manifest-version line.
pub open spec fn version_line(m: ManifestChecksV, indent: Seq<char>) -> Seq<char> {
    if m.package_version == m.manifest_version {
        indent + "ok manifest version matches\n"@
    } else {
        indent + "fail index version "@ + semver_str(m.package_version)
            + " doesn't match manifest version "@ + semver_str(m.manifest_version) + "\n"@
    }
}

/// The dependency section.
pub open spec fn deps_part(ds: Seq<DependencyChecksV>, indent: Seq<char>) -> Seq<char> {
    if ds.len() == 0 {
        indent + "ok no dependencies to check\n"@
    } else {
        indent + "checking dependencies:\n"@ + deps_render(ds, indent + "- "@)
    }
}

/// The rendering of a manifest cross-check.
pub open spec fn manifest_render(m: ManifestChecksV, indent: Seq<char>) -> Seq<char> {
    version_line(m, indent) + deps_part(m.dependencies, indent)
}

/// The package header line.
pub open spec fn header_line(d: DescriptorV, indent: Seq<char>) -> Seq<char> {
    indent + "package "@ + d.id.org + "/"@ + d.id.name + (if d.id.subdir.len() == 0 {
        Seq::<char>::empty()
    } else {
        "/"@ + d.id.subdir
    }) + ", version "@ + semver_str(d.version) + "\n"@
}

/// The permission line.
pub open spec fn permission_line(perm: PermissionV, ind: Seq<char>) -> Seq<char> {
    ind + (if perm.is_allowed {
        "* ok this PR is by "@ + perm.user + ", a collaborator on "@ + perm.org + "/"@ + perm.repo
    } else {
        "* fail this PR is by "@ + perm.user + ", who is not a public member of "@ + perm.org
    }) + "\n"@
}

/// The fetch/evaluate/cross-check lines.
pub open spec fn status_part(st: PackageStatusV, ind: Seq<char>) -> Seq<char> {
    match st {
        PackageStatusV::FetchFailed(e) => ind + "* fail failed to fetch package: "@ + e + "\n"@,
        PackageStatusV::EvalFailed(e) => ind + "* ok fetched package\n"@ + ind
            + "* fail failed to evaluate manifest: "@ + e + "\n"@,
        PackageStatusV::Manifest(m) => ind + "* ok fetched package\n"@ + ind
            + "* ok evaluated manifest\n"@ + manifest_render(m, ind + "* "@),
    }
}

/// The rendering of one package's node.
pub open spec fn package_report_render(p: PackageReportV, indent: Seq<char>) -> Seq<char> {
    header_line(p.pkg, indent) + permission_line(p.permission, spaces_spec(indent.len() as int))
        + status_part(p.status, spaces_spec(indent.len() as int))
}

/// The rendering of one path diagnostic.
pub open spec fn path_report_render(p: PathReportV, indent: Seq<char>) -> Seq<char> {
    indent + (if p.is_good {
        "warn"@
    } else {
        "fail"@
    }) + " this PR modifies "@ + p.path + "\n"@
}

/// The rendering of one report item.
pub open spec fn item_render(it: ReportItemV, indent: Seq<char>) -> Seq<char> {
    match it {
        ReportItemV::Path(p) => path_report_render(p, indent),
        ReportItemV::Package(p) => package_report_render(p, indent),
    }
}

/// The items in order, each at the top-level indent.
pub open spec fn items_render(items: Seq<ReportItemV>) -> Seq<char>
    decreases items.len(),
{
    if items.len() == 0 {
        Seq::empty()
    } else {
        items_render(items.drop_last()) + item_render(items.last(), " - "@)
    }
}

/// The rendering of the whole report.
pub open spec fn report_render(r: ReportV) -> Seq<char> {
    match r {
        ReportV::InvalidDiff(e) => "fail invalid index changes: "@ + error_message(e) + "\n"@,
        ReportV::PackageReports(items) => items_render(items),
    }
}

/// Idempotent rendering: the rendered text is a pure function of the
/// report tree, so rendering the same report twice yields identical text.
pub proof fn lemma_render_pure(a: ReportV, b: ReportV)
    requires
        a == b,
    ensures
        report_render(a) == report_render(b),
{
}

fn dep_id_string(d: &Dep) -> (s: String)
    ensures
        s@ == dep_id_str(d@),
{
    let mut s = String::from_str("github:");
    s.append(d.org.as_str());
    s.append("/");
    s.append(d.name.as_str());
    if !d.subdir.as_str().is_empty() {
        s.append("/");
        s.append(d.subdir.as_str());
    }
    proof {
        assert(s@ =~= dep_id_str(d@));
    }
    s
}

impl DependencyChecks {
    /// Writes this dependency's line at the given indent.
    pub fn format(&self, out: &mut String, indent: &str)
        ensures
            final(out)@ == old(out)@ + dep_render(self@, indent@),
    {
        let idstr = dep_id_string(&self.dep);
        if self.has_match {
            out.append(indent);
            out.append("ok ");
            out.append(idstr.as_str());
            out.append(" ");
            let c = self.dep.req.to_constraint_string();
            out.append(c.as_str());
            out.append("\n");
            proof {
                assert(out@ =~= old(out)@ + dep_render(self@, indent@));
            }
        } else if self.known_versions.len() == 0 {
            out.append(indent);
            out.append("fail ");
            out.append(idstr.as_str());
            out.append(" doesn't exist in the index\n");
            proof {
                assert(out@ =~= old(out)@ + dep_render(self@, indent@));
            }
        } else {
            out.append(indent);
            out.append("fail ");
            out.append(idstr.as_str());
            out.append(" ");
            let c = self.dep.req.to_constraint_string();
            out.append(c.as_str());
            out.append(" doesn't match any versions: known versions are ");
            let ghost prefix = out@;
            let ghost vv = versions_view(self.known_versions@);
            let mut i: usize = 0;
            proof {
                assert(vv.take(0) =~= Seq::<SemVerV>::empty());
                assert(out@ =~= prefix + versions_list_str(vv.take(0)));
            }
            while i < self.known_versions.len()
                invariant
                    i <= self.known_versions.len(),
                    vv == versions_view(self.known_versions@),
                    out@ == prefix + versions_list_str(vv.take(i as int)),
                decreases self.known_versions.len() - i,
            {
                proof {
                    assert(vv.take(i + 1).drop_last() =~= vv.take(i as int));
                    assert(vv.take(i + 1).last() == vv[i as int]);
                    assert(vv[i as int] == self.known_versions@[i as int]@);
                }
                if i > 0 {
                    out.append(", ");
                }
                let vs = self.known_versions[i].to_version_string();
                out.append(vs.as_str());
                proof {
                    assert(out@ =~= prefix + versions_list_str(vv.take(i + 1)));
                }
                i = i + 1;
            }
            out.append("\n");
            proof {
                assert(vv.take(self.known_versions.len() as int) =~= vv);
                assert(out@ =~= old(out)@ + dep_render(self@, indent@));
            }
        }
    }
}

impl ManifestChecks {
    /// Writes the manifest cross-check at the given indent: the version
    /// line, then one line per dependency (or a single line when there are
    /// none).
    #[verifier::rlimit(100)]
    pub fn format(&self, out: &mut String, indent: &str)
        ensures
            final(out)@ == old(out)@ + manifest_render(self@, indent@),
    {
        if self.package_version.eq(&self.manifest_version) {
            out.append(indent);
            out.append("ok manifest version matches\n");
        } else {
            out.append(indent);
            out.append("fail index version ");
            let a = self.package_version.to_version_string();
            out.append(a.as_str());
            out.append(" doesn't match manifest version ");
            let b = self.manifest_version.to_version_string();
            out.append(b.as_str());
            out.append("\n");
        }
        proof {
            assert(out@ =~= old(out)@ + version_line(self@, indent@));
        }
        if self.dependencies.len() == 0 {
            out.append(indent);
            out.append("ok no dependencies to check\n");
            proof {
                assert(out@ =~= old(out)@ + manifest_render(self@, indent@));
            }
        } else {
            out.append(indent);
            out.append("checking dependencies:\n");
            let mut dind = String::from_str(indent);
            dind.append("- ");
            let ghost prefix = out@;
            let ghost dv = self.dependencies@.map_values(|d: DependencyChecks| d@);
            let mut i: usize = 0;
            proof {
                assert(dv.take(0) =~= Seq::<DependencyChecksV>::empty());
                assert(out@ =~= prefix + deps_render(dv.take(0), dind@));
            }
            while i < self.dependencies.len()
                invariant
                    i <= self.dependencies.len(),
                    dv == self.dependencies@.map_values(|d: DependencyChecks| d@),
                    dind@ == indent@ + "- "@,
                    out@ == prefix + deps_render(dv.take(i as int), dind@),
                decreases self.dependencies.len() - i,
            {
                proof {
                    assert(dv.take(i + 1).drop_last() =~= dv.take(i as int));
                    assert(dv.take(i + 1).last() == dv[i as int]);
                    assert(dv[i as int] == self.dependencies@[i as int]@);
                }
                self.dependencies[i].format(out, dind.as_str());
                proof {
                    assert(out@ =~= prefix + deps_render(dv.take(i + 1), dind@));
                }
                i = i + 1;
            }
            proof {
                assert(dv.take(self.dependencies.len() as int) =~= dv);
                assert(out@ =~= old(out)@ + manifest_render(self@, indent@));
            }
        }
    }
}

impl PathReport {
    /// Writes this diagnostic's line at the given indent.
    pub fn format_with_indent(&self, out: &mut String, indent: &str)
        ensures
            final(out)@ == old(out)@ + path_report_render(self@, indent@),
    {
        out.append(indent);
        if self.is_good {
            out.append("warn");
        } else {
            out.append("fail");
        }
        out.append(" this PR modifies ");
        out.append(self.path.as_str());
        out.append("\n");
        proof {
            assert(out@ =~= old(out)@ + path_report_render(self@, indent@));
        }
    }
}

/// Writes the package header line.
fn write_header_line(out: &mut String, d: &Descriptor, indent: &str)
    ensures
        final(out)@ == old(out)@ + header_line(d@, indent@),
{
    out.append(indent);
    out.append("package ");
    out.append(d.id.org.as_str());
    out.append("/");
    out.append(d.id.name.as_str());
    if !d.id.subdir.as_str().is_empty() {
        out.append("/");
        out.append(d.id.subdir.as_str());
    }
    out.append(", version ");
    let vs = d.version.to_version_string();
    out.append(vs.as_str());
    out.append("\n");
    proof {
        assert(out@ =~= old(out)@ + header_line(d@, indent@));
    }
}

/// Writes the permission line.
fn write_permission_line(out: &mut String, perm: &Permission, ind: &str)
    ensures
        final(out)@ == old(out)@ + permission_line(perm@, ind@),
{
    out.append(ind);
    if perm.is_allowed {
        out.append("* ok this PR is by ");
        out.append(perm.user.as_str());
        out.append(", a collaborator on ");
        out.append(perm.org.as_str());
        out.append("/");
        out.append(perm.repo.as_str());
        out.append("\n");
    } else {
        out.append("* fail this PR is by ");
        out.append(perm.user.as_str());
        out.append(", who is not a public member of ");
        out.append(perm.org.as_str());
        out.append("\n");
    }
    proof {
        assert(out@ =~= old(out)@ + permission_line(perm@, ind@));
    }
}

impl PackageReport {
    /// Writes this package's block at the given indent: the header, the
    /// permission line, and the fetch/evaluate/cross-check lines.
    #[verifier::rlimit(100)]
    pub fn format_with_indent(&self, out: &mut String, indent: &str)
        ensures
            final(out)@ == old(out)@ + package_report_render(self@, indent@),
    {
        let ind = spaces(indent.unicode_len());
        proof {
            assert(ind@ == spaces_spec(indent@.len() as int));
        }
        write_header_line(out, &self.pkg, indent);
        write_permission_line(out, &self.permission, ind.as_str());
        let ghost mid = out@;
        match &self.status {
            PackageStatus::FetchFailed(e) => {
                out.append(ind.as_str());
                out.append("* fail failed to fetch package: ");
                out.append(e.as_str());
                out.append("\n");
                proof {
                    assert(out@ =~= mid + status_part(self@.status, ind@));
                }
            },
            PackageStatus::EvalFailed(e) => {
                out.append(ind.as_str());
                out.append("* ok fetched package\n");
                out.append(ind.as_str());
                out.append("* fail failed to evaluate manifest: ");
                out.append(e.as_str());
                out.append("\n");
                proof {
                    assert(out@ =~= mid + status_part(self@.status, ind@));
                }
            },
            PackageStatus::Manifest(m) => {
                out.append(ind.as_str());
                out.append("* ok fetched package\n");
                out.append(ind.as_str());
                out.append("* ok evaluated manifest\n");
                let mut mind = spaces(indent.unicode_len());
                mind.append("* ");
                proof {
                    assert(mind@ == ind@ + "* "@);
                }
                m.format(out, mind.as_str());
                proof {
                    assert(out@ =~= mid + status_part(self@.status, ind@));
                }
            },
        }
        proof {
            assert(out@ =~= old(out)@ + package_report_render(self@, indent@));
        }
    }
}

impl ReportItem {
    /// Writes this entry at the given indent.
    pub fn format_with_indent(&self, out: &mut String, indent: &str)
        ensures
            final(out)@ == old(out)@ + item_render(self@, indent@),
    {
        match self {
            ReportItem::Path(p) => p.format_with_indent(out, indent),
            ReportItem::Package(p) => p.format_with_indent(out, indent),
        }
    }
}

impl Report {
    /// Is the whole submission acceptable?
    pub fn is_good(&self) -> (b: bool)
        ensures
            b == report_good(self@),
    {
        match self {
            Report::InvalidDiff(_) => false,
            Report::PackageReports(items) => {
                let ghost iv = items_view(items@);
                proof {
                    assert(self@ == ReportV::PackageReports(iv));
                }
                let mut i: usize = 0;
                while i < items.len()
                    invariant
                        i <= items.len(),
                        iv == items_view(items@),
                        self@ == ReportV::PackageReports(iv),
                        forall|t: int| 0 <= t < i ==> item_good(#[trigger] iv[t]),
                    decreases items.len() - i,
                {
                    proof {
                        assert(iv[i as int] == items@[i as int]@);
                    }
                    if !items[i].is_good() {
                        proof {
                            assert(iv.len() == items@.len());
                            assert(0 <= (i as int) < iv.len());
                            assert(!all_items_good(iv)) by {
                                assert(!item_good(iv[i as int]));
                            }
                            assert(!report_good(self@));
                        }
                        return false;
                    }
                    i = i + 1;
                }
                proof {
                    assert(all_items_good(iv));
                }
                true
            },
        }
    }

    /// Renders the whole report as the text shown on the terminal and
    /// posted back on the submission.
    #[verifier::rlimit(100)]
    pub fn render(&self) -> (s: String)
        ensures
            s@ == report_render(self@),
    {
        match self {
            Report::InvalidDiff(e) => {
                let mut s = String::from_str("fail invalid index changes: ");
                let m = e.message();
                s.append(m.as_str());
                s.append("\n");
                proof {
                    assert(s@ =~= report_render(self@));
                }
                s
            },
            Report::PackageReports(items) => {
                let mut s = String::new();
                let ghost iv = items_view(items@);
                let mut i: usize = 0;
                proof {
                    assert(iv.take(0) =~= Seq::<ReportItemV>::empty());
                    assert(s@ =~= items_render(iv.take(0)));
                }
                while i < items.len()
                    invariant
                        i <= items.len(),
                        iv == items_view(items@),
                        s@ == items_render(iv.take(i as int)),
                    decreases items.len() - i,
                {
                    proof {
                        assert(iv.take(i + 1).drop_last() =~= iv.take(i as int));
                        assert(iv.take(i + 1).last() == iv[i as int]);
                        assert(iv[i as int] == items@[i as int]@);
                    }
                    items[i].format_with_indent(&mut s, " - ");
                    proof {
                        assert(s@ =~= items_render(iv.take(i + 1)));
                    }
                    i = i + 1;
                }
                proof {
                    assert(iv.take(items.len() as int) =~= iv);
                }
                s
            },
        }
    }
}

// ------------------------------------------------------------------
// Path classification and the front half of a run.
// ------------------------------------------------------------------

/// The report items recorded for classification diagnostics.
pub open spec fn diag_items(ds: Seq<(bool, Seq<char>)>) -> Seq<ReportItemV> {
    ds.map_values(
        |d: (bool, Seq<char>)| ReportItemV::Path(PathReportV { is_good: d.0, path: d.1 }),
    )
}

/// Records one path diagnostic.
fn push_diag(reports: &mut Vec<ReportItem>, good: bool, path: String)
    ensures
        items_view(final(reports)@) == items_view(old(reports)@).push(
            ReportItemV::Path(PathReportV { is_good: good, path: path@ }),
        ),
{
    let ghost pv = path@;
    reports.push(ReportItem::Path(PathReport { is_good: good, path }));
    proof {
        assert(reports@.last()@ == ReportItemV::Path(PathReportV { is_good: good, path: pv }));
        assert(items_view(reports@) =~= items_view(old(reports)@).push(
            ReportItemV::Path(PathReportV { is_good: good, path: pv }),
        ));
    }
}

/// One classification step over the diagnostics list.
proof fn lemma_step_diag(
    orig: Seq<PatchV>,
    m: int,
    preports: Seq<ReportItemV>,
    rep0: Seq<ReportItemV>,
    now: Seq<ReportItemV>,
)
    requires
        0 <= m < orig.len(),
        !path_in_scope(orig[m].path),
        preports == rep0 + diag_items(classify_diags(orig.take(m))),
        now == preports.push(
            ReportItemV::Path(
                PathReportV {
                    is_good: diag_for(orig[m].path).0,
                    path: diag_for(orig[m].path).1,
                },
            ),
        ),
    ensures
        now == rep0 + diag_items(classify_diags(orig.take(m + 1))),
{
    assert(orig.take(m + 1).drop_last() =~= orig.take(m));
    assert(orig.take(m + 1).last() == orig[m]);
    assert(classify_diags(orig.take(m + 1)) =~= classify_diags(orig.take(m)).push(
        diag_for(orig[m].path),
    ));
    assert(diag_items(classify_diags(orig.take(m + 1))) =~= diag_items(
        classify_diags(orig.take(m)),
    ).push(
        ReportItemV::Path(
            PathReportV { is_good: diag_for(orig[m].path).0, path: diag_for(orig[m].path).1 },
        ),
    ));
    assert(now =~= rep0 + diag_items(classify_diags(orig.take(m + 1))));
}

/// Checks the paths of the modified files: removes the patches that are not
/// modifying packages and records a diagnostic for each of them — a warning
/// for the adjacent CI directory, a failure for any other stray path.
pub fn check_diff_paths(patches: &mut Vec<Patch>, reports: &mut Vec<ReportItem>)
    ensures
        patches_view(final(patches)@) == classify_retained(patches_view(old(patches)@)),
        items_view(final(reports)@) == items_view(old(reports)@) + diag_items(
            classify_diags(patches_view(old(patches)@)),
        ),
{
    let ghost orig = patches_view(patches@);
    let ghost rep0 = items_view(reports@);
    let n = patches.len();
    let mut kept: Vec<Patch> = Vec::new();
    let mut m: usize = 0;
    proof {
        assert(patches@ =~= patches@.skip(0));
        assert(orig.take(0) =~= Seq::<PatchV>::empty());
        assert(patches_view(kept@) =~= classify_retained(orig.take(0)));
        assert(items_view(reports@) =~= rep0 + diag_items(classify_diags(orig.take(0))));
    }
    while m < n
        invariant
            m <= n,
            n == orig.len(),
            patches_view(patches@) == orig.skip(m as int),
            patches@.len() == n - m,
            patches_view(kept@) == classify_retained(orig.take(m as int)),
            items_view(reports@) == rep0 + diag_items(classify_diags(orig.take(m as int))),
        decreases n - m,
    {
        let ghost preports = items_view(reports@);
        let ghost pkept = patches_view(kept@);
        let ghost oldp = patches@;
        let p = patches.remove(0);
        proof {
            assert(patches_view(oldp)[0] == oldp[0]@);
            assert(p@ == orig[m as int]);
            assert(oldp.remove(0) =~= oldp.skip(1));
            assert(patches_view(oldp.skip(1)) =~= orig.skip(m + 1)) by {
                assert(patches_view(oldp).skip(1) =~= patches_view(oldp.skip(1)));
            }
            assert(patches_view(patches@) =~= orig.skip(m + 1));
            assert(orig.take(m + 1).drop_last() =~= orig.take(m as int));
            assert(orig.take(m + 1).last() == orig[m as int]);
        }
        let parts = split_slash(p.path.as_str());
        proof {
            lemma_split_slash_len(p.path@);
            assert(strings_view(parts@).len() == parts@.len());
            assert(strings_view(parts@)[0] == parts@[0]@);
        }
        if !str_eq(parts[0].as_str(), "b") {
            proof {
                assert(!path_in_scope(p@.path));
                assert(diag_for(p@.path) == (false, p@.path));
            }
            push_diag(reports, false, p.path);
            proof {
                lemma_step_diag(orig, m as int, preports, rep0, items_view(reports@));
                assert(patches_view(kept@) =~= classify_retained(orig.take(m + 1)));
            }
        } else if parts.len() < 2 {
            proof {
                assert(!path_in_scope(p@.path));
                assert(diag_for(p@.path) == (false, p@.path));
            }
            push_diag(reports, false, p.path);
            proof {
                lemma_step_diag(orig, m as int, preports, rep0, items_view(reports@));
                assert(patches_view(kept@) =~= classify_retained(orig.take(m + 1)));
            }
        } else {
            proof {
                assert(strings_view(parts@)[1] == parts@[1]@);
            }
            if str_eq(parts[1].as_str(), "github") {
                proof {
                    assert(path_in_scope(p@.path));
                }
                kept.push(p);
                proof {
                    assert(patches_view(kept@) =~= pkept.push(kept@.last()@));
                    assert(patches_view(kept@) =~= classify_retained(orig.take(m + 1)));
                    assert(items_view(reports@) =~= rep0 + diag_items(
                        classify_diags(orig.take(m + 1)),
                    ));
                }
            } else {
                let good = str_eq(parts[1].as_str(), ".github");
                let chars = p.path.as_str().unicode_len();
                let shown: String = if chars >= 2 {
                    p.path.as_str().substring_char(2, chars).to_owned()
                } else {
                    p.path
                };
                proof {
                    assert(!path_in_scope(p@.path));
                    assert(diag_for(p@.path).0 == good);
                    assert(diag_for(p@.path).1 == shown@);
                }
                push_diag(reports, good, shown);
                proof {
                    lemma_step_diag(orig, m as int, preports, rep0, items_view(reports@));
                    assert(patches_view(kept@) =~= classify_retained(orig.take(m + 1)));
                }
            }
        }
        m = m + 1;
    }
    proof {
        assert(orig.take(n as int) =~= orig);
    }
    *patches = kept;
}

/// The front half of a run, as a function of the parsed patches: classify
/// the paths, then extract descriptors from the in-scope patches.
pub open spec fn scan_spec(ps: Seq<PatchV>) -> Result<
    (Seq<ReportItemV>, Seq<DescriptorV>),
    ErrorV,
> {
    match extract_spec(classify_retained(ps)) {
        Err(e) => Err(e),
        Ok(ds) => Ok((diag_items(classify_diags(ps)), ds)),
    }
}

/// Classifies the modified paths of a parsed diff and extracts the added
/// package descriptors from the in-scope patches. Yields the path
/// diagnostics and the descriptors in discovery order, or the fatal error
/// that invalidates the whole diff.
pub fn scan_patches(patches: Vec<Patch>) -> (r: Result<(Vec<ReportItem>, Vec<Descriptor>), Error>)
    ensures
        match r {
            Ok(p) => scan_spec(patches_view(patches@)) == Ok::<
                (Seq<ReportItemV>, Seq<DescriptorV>),
                ErrorV,
            >((items_view(p.0@), descs_view(p.1@))),
            Err(e) => scan_spec(patches_view(patches@)) == Err::<
                (Seq<ReportItemV>, Seq<DescriptorV>),
                ErrorV,
            >(e@),
        },
{
    let ghost ps0 = patches_view(patches@);
    let mut patches = patches;
    let mut reports: Vec<ReportItem> = Vec::new();
    proof {
        assert(items_view(reports@) =~= Seq::<ReportItemV>::empty());
    }
    check_diff_paths(&mut patches, &mut reports);
    proof {
        assert(items_view(reports@) =~= diag_items(classify_diags(ps0)));
    }
    match changed_packages(&patches) {
        Err(e) => Err(e),
        Ok(ds) => Ok((reports, ds)),
    }
}

} // verus!
