use aipman::args::parse_prompt_response;
use aipman::catalog::{catalog_location, str_starts_with, CatalogLocation, PKG_LIST_URL};
use aipman::pkg::{archive_kind, str_ends_with, str_eq, ArchiveKind, Package, APP_DIR, PERMISSION};

fn pkg(name: &str, version: &str) -> Package {
    Package {
        name: name.to_string(),
        version: version.to_string(),
        description: String::new(),
        url: String::new(),
        compressed: Some(false),
    }
}

#[test]
fn upgradable_needs_matching_names() {
    assert!(!pkg("foo", "1.0").upgradable_to(&pkg("bar", "2.0")));
    assert!(pkg("foo", "1.0").upgradable_to(&pkg("foo", "2.0")));
}

#[test]
fn upgradable_orders_versions_by_segment() {
    assert!(pkg("foo", "1.9").upgradable_to(&pkg("foo", "1.10")));
    assert!(!pkg("foo", "1.10").upgradable_to(&pkg("foo", "1.9")));
    assert!(pkg("foo", "1.2.3").upgradable_to(&pkg("foo", "1.2.4")));
    assert!(pkg("foo", "0.1").upgradable_to(&pkg("foo", "1")));
}

#[test]
fn equal_versions_are_not_upgradable() {
    assert!(!pkg("foo", "1.2.3").upgradable_to(&pkg("foo", "1.2.3")));
    assert!(!pkg("foo", "1.0").upgradable_to(&pkg("foo", "1.0.0")));
}

#[test]
fn downgrade_is_not_upgradable() {
    assert!(!pkg("foo", "2.0").upgradable_to(&pkg("foo", "1.0")));
}

#[test]
fn artifact_file_name_is_name_dash_version() {
    assert_eq!(pkg("foo", "1.0").artifact_file_name(), "foo-1.0.AppImage");
    assert_eq!(pkg("some-app", "0.10.2").artifact_file_name(), "some-app-0.10.2.AppImage");
}

#[test]
fn print_text_lists_every_field() {
    let mut p = pkg("foo", "1.0");
    p.description = "a tool".to_string();
    p.url = "https://x/foo.AppImage".to_string();
    assert_eq!(
        p.print_text(),
        "Package:\n| Name: foo\n| Description: a tool\n| Version: 1.0\n| Url: https://x/foo.AppImage"
    );
}

#[test]
fn archive_kind_follows_url_suffix() {
    assert!(matches!(archive_kind("https://x/app.zip"), ArchiveKind::Zip));
    assert!(matches!(archive_kind("https://x/app.tar.gz"), ArchiveKind::TarGz));
    assert!(matches!(archive_kind("https://x/app.AppImage"), ArchiveKind::Plain));
    assert!(matches!(archive_kind(".gz"), ArchiveKind::TarGz));
    assert!(matches!(archive_kind("gz"), ArchiveKind::Plain));
}

#[test]
fn string_helpers_compare_characters() {
    assert!(str_eq("", ""));
    assert!(str_eq("abc", "abc"));
    assert!(!str_eq("abc", "abd"));
    assert!(!str_eq("abc", "ab"));
    assert!(str_ends_with("archive.tar.gz", ".gz"));
    assert!(!str_ends_with("gz", "tar.gz"));
    assert!(str_starts_with("file:///tmp/x", "file://"));
    assert!(!str_starts_with("https://x", "file://"));
}

#[test]
fn default_catalog_is_the_wellknown_url() {
    match catalog_location(&None) {
        CatalogLocation::Remote { url } => assert_eq!(url, PKG_LIST_URL),
        _ => panic!("expected the remote default"),
    }
}

#[test]
fn file_scheme_override_reads_from_disk() {
    match catalog_location(&Some("file:///tmp/pkgs.json".to_string())) {
        CatalogLocation::LocalFile { path } => assert_eq!(path, "/tmp/pkgs.json"),
        _ => panic!("expected a local file source"),
    }
}

#[test]
fn other_override_is_fetched_as_given() {
    match catalog_location(&Some("https://example.invalid/pkgs.json".to_string())) {
        CatalogLocation::Remote { url } => assert_eq!(url, "https://example.invalid/pkgs.json"),
        _ => panic!("expected a remote source"),
    }
}

#[test]
fn prompt_answers_default_to_yes() {
    assert_eq!(parse_prompt_response("\n"), Some(true));
    assert_eq!(parse_prompt_response("y\n"), Some(true));
    assert_eq!(parse_prompt_response("Y\n"), Some(true));
    assert_eq!(parse_prompt_response("n\n"), Some(false));
    assert_eq!(parse_prompt_response("N\n"), Some(false));
    assert_eq!(parse_prompt_response("maybe\n"), None);
    assert_eq!(parse_prompt_response(""), None);
}

#[test]
fn install_layout_constants() {
    assert_eq!(APP_DIR, "Applications");
    assert_eq!(PERMISSION, 0o755);
}

#[test]
fn manifest_reserialization_is_a_semantic_noop() {
    let text = "[{\"name\":\"foo\",\"version\":\"1.0\",\"description\":\"d\",\"url\":\"https://x/foo.AppImage\",\"compressed\":true},{\"name\":\"bar\",\"version\":\"2.0\",\"description\":\"\",\"url\":\"https://x/bar.zip\"}]";
    let loaded: serde_json::Value = serde_json::from_str(text).unwrap();
    let saved = serde_json::to_string_pretty(&loaded).unwrap();
    let reloaded: serde_json::Value = serde_json::from_str(&saved).unwrap();
    assert_eq!(loaded, reloaded);
}
