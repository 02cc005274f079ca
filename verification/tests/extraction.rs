use index_check::descriptor::{changed_packages, Error, PackageIdentity};
use index_check::diff::{Hunk, Line, Patch};
use index_check::semver::SemVer;

/// Turns raw diff text into the library's patch values, as the program
/// around the library does.
fn parse(diff: &str) -> Vec<Patch> {
    gitpatch::Patch::from_multiple(diff)
        .unwrap()
        .into_iter()
        .map(|p| Patch {
            path: p.new.path.into_owned(),
            hunks: p
                .hunks
                .into_iter()
                .map(|h| Hunk {
                    lines: h
                        .lines
                        .into_iter()
                        .map(|l| match l {
                            gitpatch::Line::Add(t) => Line::Added(t.to_string()),
                            gitpatch::Line::Remove(t) => Line::Removed(t.to_string()),
                            gitpatch::Line::Context(t) => Line::Context(t.to_string()),
                        })
                        .collect(),
                })
                .collect(),
        })
        .collect()
}

const SAMPLE_DIFF: &str = r#"
diff --git a/github/nickel-lang/nickel-schemastore b/github/nickel-lang/nickel-schemastore
index df1cd2a..2229806 100644
--- a/github/nickel-lang/nickel-schemastore
+++ b/github/nickel-lang/nickel-schemastore
@@ -1 +1,2 @@
 {"id":{"github":{"org":"nickel-lang","name":"nickel-schemastore","commit":"3ac728792d4a71f53897b185445b77029c3ce245"}},"version":{"major":0,"minor":1,"patch":0,"pre":""},"minimal_nickel_version":{"major":1,"minor":11,"patch":0,"pre":""},"dependencies":{},"authors":["Théophane Hufschmitt","Yann Hamdaoui <yann.hamdaoui@tweag.io>"],"description":"A nickel package containing contracts autogenerated from the Schemastore JSON Schema repository via json-schema-to-nickel.","keywords":["schemastore","schemas","json-schema","contracts"],"license":"MIT","v":0}
+{"id":{"github":{"org":"nickel-lang","name":"nickel-schemastore","commit":"5b5edcba47eb5f957a34a6224b3d9b976a4fc911"}},"version":{"major":0,"minor":2,"patch":0,"pre":""},"minimal_nickel_version":{"major":1,"minor":11,"patch":0,"pre":""},"dependencies":{},"authors":["Théophane Hufschmitt","Yann Hamdaoui <yann.hamdaoui@tweag.io>"],"description":"Nickel contracts autogenerated from the Schemastore JSON Schema repository via json-schema-to-nickel","keywords":["schemastore","schemas","json-schema","contracts"],"license":"MIT","v":0}
"#;

const SAMPLE_DIFF_WITH_SUBDIR: &str = r#"
diff --git a/github/nickel-lang/json-schema-to-nickel/lib b/github/nickel-lang/json-schema-to-nickel/lib
new file mode 100644
index 0000000..17e1150
--- /dev/null
+++ b/github/nickel-lang/json-schema-to-nickel/lib
@@ -0,0 +1 @@
+{"id":{"github":{"org":"nickel-lang","name":"json-schema-to-nickel","path":"lib","commit":"7d7c007c1de43aa448df633ddbcb33b54385d8a0"}},"version":{"major":0,"minor":1,"patch":0,"pre":""},"minimal_nickel_version":{"major":1,"minor":12,"patch":0,"pre":""},"dependencies":{},"authors":["The json-schema-to-nickel authors"],"description":"A library of predicates for JSON schema","keywords":[],"license":"","v":0}
"#;

#[test]
fn test_changed_packages() {
    let packages = changed_packages(&parse(SAMPLE_DIFF)).unwrap();
    assert_eq!(packages.len(), 1);
    assert!(packages[0].version == SemVer::new(0, 2, 0));
}

#[test]
fn test_changed_packages_with_subdir() {
    let packages = changed_packages(&parse(SAMPLE_DIFF_WITH_SUBDIR)).unwrap();
    assert_eq!(packages.len(), 1);
    assert_eq!(packages[0].id.org, "nickel-lang");
    assert_eq!(packages[0].id.name, "json-schema-to-nickel");
    assert_eq!(packages[0].id.subdir, "lib");
    assert_eq!(packages[0].id.commit, "7d7c007c1de43aa448df633ddbcb33b54385d8a0");
}

fn one_line_patch(path: &str, line: Line) -> Patch {
    Patch { path: path.to_string(), hunks: vec![Hunk { lines: vec![line] }] }
}

const WIDGETS_LINE: &str = r#"{"id":{"github":{"org":"acme","name":"widgets","commit":"3ac728792d4a71f53897b185445b77029c3ce245"}},"version":{"major":0,"minor":2,"patch":0,"pre":""},"minimal_nickel_version":{"major":1,"minor":9,"patch":0,"pre":""},"dependencies":{},"authors":[],"description":"","keywords":[],"license":"","v":0}"#;

#[test]
fn extract_single_descriptor() {
    let patches = vec![one_line_patch(
        "b/github/acme/widgets",
        Line::Added(WIDGETS_LINE.to_string()),
    )];
    let pkgs = changed_packages(&patches).unwrap();
    assert_eq!(pkgs.len(), 1);
    assert_eq!(pkgs[0].id.org, "acme");
    assert_eq!(pkgs[0].id.name, "widgets");
    assert_eq!(pkgs[0].id.subdir, "");
    assert!(pkgs[0].version == SemVer::new(0, 2, 0));
    assert!(pkgs[0].deps.is_empty());
}

#[test]
fn removed_line_rejects_whole_diff() {
    let patches = vec![
        one_line_patch("b/github/acme/widgets", Line::Added(WIDGETS_LINE.to_string())),
        one_line_patch("b/github/acme/gears", Line::Removed("gone".to_string())),
    ];
    let err = changed_packages(&patches).unwrap_err();
    assert!(matches!(err, Error::Deletion(_)));
    assert_eq!(err.message(), "you can't delete a line: \"gone\"");
}

#[test]
fn context_lines_are_ignored() {
    let patches = vec![Patch {
        path: "b/github/acme/widgets".to_string(),
        hunks: vec![Hunk {
            lines: vec![
                Line::Context("old entry".to_string()),
                Line::Added(WIDGETS_LINE.to_string()),
            ],
        }],
    }];
    let pkgs = changed_packages(&patches).unwrap();
    assert_eq!(pkgs.len(), 1);
}

#[test]
fn identity_must_match_file_path() {
    // A well-formed descriptor for acme/widgets sitting in a file for
    // acme/other must be rejected, naming both paths.
    let patches = vec![one_line_patch(
        "b/github/acme/other",
        Line::Added(WIDGETS_LINE.to_string()),
    )];
    let err = changed_packages(&patches).unwrap_err();
    assert!(matches!(err, Error::OrgNameMismatch { .. }));
    assert_eq!(
        err.message(),
        "org/name mismatch: path was \"github/acme/other\", package was \"github/acme/widgets\""
    );
}

#[test]
fn malformed_descriptor_is_fatal() {
    let patches = vec![one_line_patch(
        "b/github/acme/widgets",
        Line::Added("this is not a descriptor".to_string()),
    )];
    let err = changed_packages(&patches).unwrap_err();
    assert!(matches!(err, Error::Deserialize(_)));
}

#[test]
fn bad_prefix_is_fatal_for_strict_extraction() {
    let patches = vec![one_line_patch("a/github/acme/widgets", Line::Added(String::new()))];
    let err = changed_packages(&patches).unwrap_err();
    assert!(matches!(err, Error::BadPrefix(_)));
    assert_eq!(
        err.message(),
        "expected new files to start with \"b/github\", got \"a/github/acme/widgets\""
    );
}

#[test]
fn missing_org_and_repo_are_fatal() {
    let patches = vec![one_line_patch("b/github", Line::Added(String::new()))];
    assert!(matches!(changed_packages(&patches).unwrap_err(), Error::MissingOrg(_)));
    let patches = vec![one_line_patch("b/github/acme", Line::Added(String::new()))];
    assert!(matches!(changed_packages(&patches).unwrap_err(), Error::MissingRepo(_)));
}

#[test]
fn too_deep_path_is_fatal() {
    let patches = vec![one_line_patch(
        "b/github/acme/widgets/sub/extra",
        Line::Added(String::new()),
    )];
    let err = changed_packages(&patches).unwrap_err();
    assert!(matches!(err, Error::PathToDeep { .. }));
    assert_eq!(
        err.message(),
        "path too deep: expected three components, got \"b/github/acme/widgets/sub/extra\""
    );
}

#[test]
fn parse_failure_becomes_the_diff_error() {
    // The parser refuses this text; the caller maps its message into the
    // library's diff error, which renders with the message embedded.
    assert!(gitpatch::Patch::from_multiple("this is not a diff").is_err());
    let err = Error::Patch("oops".to_string());
    assert_eq!(err.message(), "failed to parse diff: oops");
}

#[test]
fn metadata_is_carried_through_extraction() {
    let packages = changed_packages(&parse(SAMPLE_DIFF)).unwrap();
    assert!(packages[0].min_tool_version == SemVer::new(1, 11, 0));
    assert_eq!(
        packages[0].authors,
        vec!["Th\u{e9}ophane Hufschmitt", "Yann Hamdaoui <yann.hamdaoui@tweag.io>"]
    );
    assert_eq!(packages[0].license, "MIT");
    assert_eq!(
        packages[0].keywords,
        vec!["schemastore", "schemas", "json-schema", "contracts"]
    );
}

#[test]
fn manifest_location_follows_the_identity() {
    let at_root = PackageIdentity::new(
        "acme".to_string(),
        "widgets".to_string(),
        String::new(),
        "3ac728792d4a71f53897b185445b77029c3ce245".to_string(),
    );
    assert_eq!(at_root.manifest_path(), "Nickel-pkg.ncl");
    let in_subdir = PackageIdentity::new(
        "acme".to_string(),
        "widgets".to_string(),
        "lib".to_string(),
        "3ac728792d4a71f53897b185445b77029c3ce245".to_string(),
    );
    assert_eq!(in_subdir.manifest_path(), "lib/Nickel-pkg.ncl");
}

#[test]
fn fetch_url_is_built_from_identity() {
    let patches = vec![one_line_patch(
        "b/github/acme/widgets",
        Line::Added(WIDGETS_LINE.to_string()),
    )];
    let pkgs = changed_packages(&patches).unwrap();
    assert_eq!(pkgs[0].id.fetch_url(), "https://github.com/acme/widgets.git");
    assert_eq!(pkgs[0].id.index_path(), "github/acme/widgets");
}

#[test]
fn in_scope_patch_without_added_lines_yields_no_package() {
    let patches = vec![Patch { path: "b/github/acme/widgets".to_string(), hunks: vec![] }];
    let pkgs = changed_packages(&patches).unwrap();
    assert!(pkgs.is_empty());
}

#[test]
fn dependency_constraints_are_parsed() {
    let line = r#"{"id":{"github":{"org":"acme","name":"widgets","commit":"3ac728792d4a71f53897b185445b77029c3ce245"}},"version":{"major":0,"minor":2,"patch":0,"pre":""},"minimal_nickel_version":{"major":1,"minor":9,"patch":0,"pre":""},"dependencies":{"mydep":{"type":"github","org":"acme","name":"gears","req":{"Compatible":{"major":1,"minor":null,"patch":null}}}},"authors":[],"description":"","keywords":[],"license":"","v":0}"#;
    let patches = vec![one_line_patch("b/github/acme/widgets", Line::Added(line.to_string()))];
    let pkgs = changed_packages(&patches).unwrap();
    assert_eq!(pkgs[0].deps.len(), 1);
    assert_eq!(pkgs[0].deps[0].org, "acme");
    assert_eq!(pkgs[0].deps[0].name, "gears");
    assert_eq!(pkgs[0].deps[0].req.to_constraint_string(), "1");
}
