use index_check::checks::{check_manifest, DependencyChecks, ManifestChecks, Permission};
use index_check::descriptor::{Dep, Error};
use index_check::report::scan_patches;
use index_check::diff::{Hunk, Line, Patch};
use index_check::report::{
    check_diff_paths, PackageReport, PackageStatus, PathReport, Report, ReportItem,
};
use index_check::semver::{SemVer, VersionConstraint};

/// Turns raw diff text into the library's patch values, as the program
/// around the library does.
fn parse_patches(diff: &str) -> Vec<Patch> {
    gitpatch::Patch::from_multiple(diff)
        .unwrap()
        .into_iter()
        .map(|p| Patch {
            path: p.new.path.into_owned(),
            hunks: p
                .hunks
                .into_iter()
                .map(|h| Hunk {
                    lines: h
                        .lines
                        .into_iter()
                        .map(|l| match l {
                            gitpatch::Line::Add(t) => Line::Added(t.to_string()),
                            gitpatch::Line::Remove(t) => Line::Removed(t.to_string()),
                            gitpatch::Line::Context(t) => Line::Context(t.to_string()),
                        })
                        .collect(),
                })
                .collect(),
        })
        .collect()
}

fn semver_pre(major: u64, minor: u64, patch: u64, pre: &str) -> SemVer {
    SemVer { major, minor, patch, pre: pre.to_string() }
}

#[test]
fn version_strings_are_exact() {
    assert_eq!(SemVer::new(1, 23, 456).to_version_string(), "1.23.456");
    assert_eq!(semver_pre(0, 2, 0, "pre").to_version_string(), "0.2.0-pre");
    let c = VersionConstraint::Compatible { major: 1, minor: Some(2), patch: None };
    assert_eq!(c.to_constraint_string(), "1.2");
    let c = VersionConstraint::Compatible { major: 1, minor: Some(2), patch: Some(3) };
    assert_eq!(c.to_constraint_string(), "1.2.3");
    let e = VersionConstraint::Exact(semver_pre(1, 2, 3, "rc1"));
    assert_eq!(e.to_constraint_string(), "=1.2.3-rc1");
}

#[test]
fn version_equality_is_exact() {
    // 0.2.0 against 0.2.0-pre is not good; 0.2.0 against 0.2.0 is.
    let not_good = ManifestChecks {
        package_version: SemVer::new(0, 2, 0),
        manifest_version: semver_pre(0, 2, 0, "pre"),
        dependencies: vec![],
    };
    assert!(!not_good.is_good());
    let good = ManifestChecks {
        package_version: SemVer::new(0, 2, 0),
        manifest_version: SemVer::new(0, 2, 0),
        dependencies: vec![],
    };
    assert!(good.is_good());
}

fn dep(req: VersionConstraint) -> Dep {
    Dep { org: "acme".to_string(), name: "gears".to_string(), subdir: String::new(), req }
}

fn known() -> Vec<SemVer> {
    vec![SemVer::new(1, 0, 0), SemVer::new(1, 2, 0), SemVer::new(2, 0, 0)]
}

#[test]
fn dependency_matching_is_existence_of_any_match() {
    // Constraint `^1` against {1.0.0, 1.2.0, 2.0.0}: 1.0.0 and 1.2.0 match.
    let c = DependencyChecks::new(
        dep(VersionConstraint::Compatible { major: 1, minor: None, patch: None }),
        known(),
    );
    assert!(c.is_good());
    // Constraint `^3` matches nothing, and the known list is unchanged.
    let c = DependencyChecks::new(
        dep(VersionConstraint::Compatible { major: 3, minor: None, patch: None }),
        known(),
    );
    assert!(!c.is_good());
    assert_eq!(c.known_versions.len(), 3);
    assert!(c.known_versions[0] == SemVer::new(1, 0, 0));
    assert!(c.known_versions[1] == SemVer::new(1, 2, 0));
    assert!(c.known_versions[2] == SemVer::new(2, 0, 0));
}

#[test]
fn exact_constraint_needs_exact_version() {
    let c = DependencyChecks::new(dep(VersionConstraint::Exact(SemVer::new(1, 2, 0))), known());
    assert!(c.is_good());
    let c = DependencyChecks::new(
        dep(VersionConstraint::Exact(semver_pre(1, 2, 0, "pre"))),
        known(),
    );
    assert!(!c.is_good());
}

#[test]
fn self_owned_namespace_is_always_allowed() {
    // No membership call is needed when the submitter owns the namespace.
    assert!(!Permission::membership_check_needed("acme", "acme"));
    assert!(Permission::membership_check_needed("bob", "acme"));
    let p = Permission::check("acme".to_string(), "acme".to_string(), "widgets".to_string(), false);
    assert!(p.is_allowed);
    let p = Permission::check("bob".to_string(), "acme".to_string(), "widgets".to_string(), true);
    assert!(p.is_allowed);
    let p = Permission::check("bob".to_string(), "acme".to_string(), "widgets".to_string(), false);
    assert!(!p.is_allowed);
}

#[test]
fn path_classification_drops_out_of_scope_paths() {
    let mk = |path: &str| Patch { path: path.to_string(), hunks: vec![] };
    let mut patches = vec![
        mk("b/ci/config.yml"),
        mk("b/.github/workflows/check.yml"),
        mk("b/github/acme/widgets"),
    ];
    let mut reports: Vec<ReportItem> = Vec::new();
    check_diff_paths(&mut patches, &mut reports);
    // Only the in-scope patch survives; the stray path fails, the CI path warns.
    assert_eq!(patches.len(), 1);
    assert_eq!(patches[0].path, "b/github/acme/widgets");
    assert_eq!(reports.len(), 2);
    match &reports[0] {
        ReportItem::Path(p) => {
            assert!(!p.is_good);
            assert_eq!(p.path, "ci/config.yml");
        }
        _ => panic!("expected a path diagnostic"),
    }
    match &reports[1] {
        ReportItem::Path(p) => {
            assert!(p.is_good);
            assert_eq!(p.path, ".github/workflows/check.yml");
        }
        _ => panic!("expected a path diagnostic"),
    }
    // A warning alone does not flip the report, a failing diagnostic does.
    let warn_only = Report::PackageReports(vec![ReportItem::Path(PathReport {
        is_good: true,
        path: ".github/workflows/check.yml".to_string(),
    })]);
    assert!(warn_only.is_good());
    let failing = Report::PackageReports(vec![ReportItem::Path(PathReport {
        is_good: false,
        path: "ci/config.yml".to_string(),
    })]);
    assert!(!failing.is_good());
}

const WIDGETS_DIFF: &str = r#"
diff --git a/github/acme/widgets b/github/acme/widgets
new file mode 100644
index 0000000..17e1150
--- /dev/null
+++ b/github/acme/widgets
@@ -0,0 +1 @@
+{"id":{"github":{"org":"acme","name":"widgets","commit":"3ac728792d4a71f53897b185445b77029c3ce245"}},"version":{"major":0,"minor":2,"patch":0,"pre":""},"minimal_nickel_version":{"major":1,"minor":9,"patch":0,"pre":""},"dependencies":{},"authors":[],"description":"","keywords":[],"license":"","v":0}
"#;

fn widgets_report(manifest_version: SemVer) -> Report {
    // The pipeline on one descriptor under github/acme/widgets, with the
    // external services stubbed: fetch succeeds, manifest evaluation yields
    // the given version, and the permission check allows the submitter.
    let (mut items, pkgs) = scan_patches(parse_patches(WIDGETS_DIFF)).unwrap();
    assert_eq!(pkgs.len(), 1);
    let mut pkgs = pkgs;
    let pkg = pkgs.remove(0);
    let permission = Permission::check(
        "bob".to_string(),
        pkg.id.org.clone(),
        pkg.id.name.clone(),
        true,
    );
    let checks = check_manifest(&pkg.version, manifest_version, &pkg.deps, vec![]);
    let status = PackageStatus::Manifest(checks);
    items.push(ReportItem::Package(PackageReport::new(pkg, permission, status)));
    Report::PackageReports(items)
}

#[test]
fn end_to_end_accepts_a_clean_submission() {
    let report = widgets_report(SemVer::new(0, 2, 0));
    assert!(report.is_good());
    let expected = " - package acme/widgets, version 0.2.0\n   * ok this PR is by bob, a collaborator on acme/widgets\n   * ok fetched package\n   * ok evaluated manifest\n   * ok manifest version matches\n   * ok no dependencies to check\n";
    assert_eq!(report.render(), expected);
}

#[test]
fn end_to_end_rejects_a_version_mismatch() {
    let report = widgets_report(SemVer::new(0, 1, 0));
    assert!(!report.is_good());
    let rendered = report.render();
    assert!(rendered.contains(
        "   * fail index version 0.2.0 doesn't match manifest version 0.1.0\n"
    ));
}

#[test]
fn rendering_is_idempotent() {
    let report = widgets_report(SemVer::new(0, 2, 0));
    assert_eq!(report.render(), report.render());
    let invalid = Report::InvalidDiff(Error::Deletion("x".to_string()));
    assert_eq!(invalid.render(), invalid.render());
}

#[test]
fn subdir_package_renders_its_path() {
    let pkg = index_check::descriptor::Descriptor {
        id: index_check::descriptor::PackageIdentity {
            org: "acme".to_string(),
            name: "widgets".to_string(),
            subdir: "lib".to_string(),
            commit: "3ac728792d4a71f53897b185445b77029c3ce245".to_string(),
        },
        version: SemVer::new(0, 2, 0),
        min_tool_version: SemVer::new(1, 9, 0),
        deps: vec![],
        authors: vec![],
        description: String::new(),
        keywords: vec![],
        license: String::new(),
    };
    let permission = Permission::check(
        "acme".to_string(),
        "acme".to_string(),
        "widgets".to_string(),
        false,
    );
    let report = Report::PackageReports(vec![ReportItem::Package(PackageReport::new(
        pkg,
        permission,
        PackageStatus::FetchFailed("unreachable".to_string()),
    ))]);
    assert!(report.render().starts_with(" - package acme/widgets/lib, version 0.2.0\n"));
}

#[test]
fn invalid_diff_renders_the_error() {
    let invalid = Report::InvalidDiff(Error::Deletion("x".to_string()));
    assert!(!invalid.is_good());
    assert_eq!(
        invalid.render(),
        "fail invalid index changes: you can't delete a line: \"x\"\n"
    );
}

#[test]
fn fetch_and_eval_failures_render_and_fail() {
    let (_, mut pkgs) = scan_patches(parse_patches(WIDGETS_DIFF)).unwrap();
    let pkg = pkgs.remove(0);
    let permission = Permission::check(
        "bob".to_string(),
        pkg.id.org.clone(),
        pkg.id.name.clone(),
        true,
    );
    let report = Report::PackageReports(vec![ReportItem::Package(PackageReport::new(
        pkg,
        permission,
        PackageStatus::FetchFailed("no such commit".to_string()),
    ))]);
    assert!(!report.is_good());
    assert!(report.render().contains("   * fail failed to fetch package: no such commit\n"));

    let (_, mut pkgs) = scan_patches(parse_patches(WIDGETS_DIFF)).unwrap();
    let pkg = pkgs.remove(0);
    let permission = Permission::check(
        "bob".to_string(),
        pkg.id.org.clone(),
        pkg.id.name.clone(),
        true,
    );
    let report = Report::PackageReports(vec![ReportItem::Package(PackageReport::new(
        pkg,
        permission,
        PackageStatus::EvalFailed("bad manifest".to_string()),
    ))]);
    assert!(!report.is_good());
    let rendered = report.render();
    assert!(rendered.contains("   * ok fetched package\n"));
    assert!(rendered.contains("   * fail failed to evaluate manifest: bad manifest\n"));
}

#[test]
fn unsatisfied_dependency_renders_known_versions() {
    let checks = ManifestChecks {
        package_version: SemVer::new(0, 2, 0),
        manifest_version: SemVer::new(0, 2, 0),
        dependencies: vec![DependencyChecks::new(
            dep(VersionConstraint::Compatible { major: 3, minor: None, patch: None }),
            known(),
        )],
    };
    assert!(!checks.is_good());
    let mut out = String::new();
    checks.format(&mut out, "   * ");
    let expected = "   * ok manifest version matches\n   * checking dependencies:\n   * - fail github:acme/gears 3 doesn't match any versions: known versions are 1.0.0, 1.2.0, 2.0.0\n";
    assert_eq!(out, expected);
}

#[test]
fn unknown_dependency_renders_as_missing() {
    let c = DependencyChecks::new(
        dep(VersionConstraint::Compatible { major: 1, minor: None, patch: None }),
        vec![],
    );
    assert!(!c.is_good());
    let mut out = String::new();
    c.format(&mut out, "- ");
    assert_eq!(out, "- fail github:acme/gears doesn't exist in the index\n");
}

#[test]
fn disallowed_submitter_renders_and_fails() {
    let (_, mut pkgs) = scan_patches(parse_patches(WIDGETS_DIFF)).unwrap();
    let pkg = pkgs.remove(0);
    let permission = Permission::check(
        "mallory".to_string(),
        pkg.id.org.clone(),
        pkg.id.name.clone(),
        false,
    );
    let version = pkg.version.duplicate();
    let checks = check_manifest(&version, SemVer::new(0, 2, 0), &pkg.deps, vec![]);
    let report = Report::PackageReports(vec![ReportItem::Package(PackageReport::new(
        pkg,
        permission,
        PackageStatus::Manifest(checks),
    ))]);
    assert!(!report.is_good());
    assert!(report.render().contains(
        "   * fail this PR is by mallory, who is not a public member of acme\n"
    ));
}
