use cargo_tag::cli::{decide, plan_bump, Action, Command};
use cargo_tag::errors::OpError;
use cargo_tag::manifest::from_text;
use cargo_tag::version::Version;

fn manifest(version: &str) -> String {
    format!("[package]\nname = \"demo\"\nversion = \"{version}\"\n")
}

#[test]
fn patch_bump_with_prefix_builds_the_tagged_string() {
    let m = from_text(manifest("1.2.3")).unwrap();
    let plan = plan_bump(&m, Command::Patch, "v").unwrap();
    assert_eq!(plan.new_version, Version { major: 1, minor: 2, patch: 4 });
    assert_eq!(plan.version_str, "v1.2.4");
    assert_eq!(plan.commit_message, "chore: bump version to v1.2.4");
    assert_eq!(plan.tag_message, "chore: bump version to {}");
    assert_eq!(plan.new_manifest, "[package]\nname = \"demo\"\nversion = \"1.2.4\"\n");
}

#[test]
fn major_bump_without_prefix() {
    let m = from_text(manifest("1.2.3")).unwrap();
    let plan = plan_bump(&m, Command::Major, "").unwrap();
    assert_eq!(plan.new_version, Version { major: 2, minor: 0, patch: 0 });
    assert_eq!(plan.version_str, "2.0.0");
    assert_eq!(plan.commit_message, "chore: bump version to 2.0.0");
}

#[test]
fn minor_bump_resets_patch_in_the_manifest() {
    let m = from_text(manifest("0.4.9")).unwrap();
    let plan = plan_bump(&m, Command::Minor, "v").unwrap();
    assert_eq!(plan.new_version, Version { major: 0, minor: 5, patch: 0 });
    assert_eq!(plan.new_manifest, "[package]\nname = \"demo\"\nversion = \"0.5.0\"\n");
}

#[test]
fn current_reports_the_field_verbatim() {
    let m = from_text(manifest("0.9.0")).unwrap();
    match decide(&m, Command::Current, "v").unwrap() {
        Action::Report(s) => assert_eq!(s, "0.9.0"),
        Action::Bump(_) => panic!("a report run must not plan a bump"),
    }
}

#[test]
fn decide_routes_bumps() {
    let m = from_text(manifest("1.0.0")).unwrap();
    match decide(&m, Command::Patch, "").unwrap() {
        Action::Bump(plan) => assert_eq!(plan.version_str, "1.0.1"),
        Action::Report(_) => panic!("a bump run must not report"),
    }
}

#[test]
fn bump_overflow_is_reported() {
    let m = from_text(manifest("18446744073709551615.0.0")).unwrap();
    assert_eq!(plan_bump(&m, Command::Major, "v").err(), Some(OpError::VersionOverflow));
    let plan = plan_bump(&m, Command::Minor, "v").unwrap();
    assert_eq!(plan.version_str, "v18446744073709551615.1.0");
}
