use psqlpack::capabilities::{server_version_from, Capabilities, Extension, Semver};
use psqlpack::errors::PsqlpackErrorKind;

fn ext(name: &str, v: (u32, u32, u32), installed: bool) -> Extension {
    Extension { name: name.to_string(), version: Semver::new(v.0, v.1, v.2), installed }
}

fn caps() -> Capabilities {
    Capabilities {
        server_version: Semver::new(10, 4, 0),
        extensions: vec![
            ext("pgcrypto", (1, 2, 0), false),
            ext("postgis", (2, 4, 1), false),
            ext("pgcrypto", (1, 3, 0), true),
            ext("pgcrypto", (1, 0, 5), false),
            ext("pgcrypto", (1, 3, 0), false),
        ],
        database_exists: true,
    }
}

#[test]
fn parse_versions() {
    assert_eq!(Semver::parse("9.6.3"), Some(Semver::new(9, 6, 3)));
    assert_eq!(Semver::parse("10.4 (Debian 10.4-2.pgdg90+1)"), Some(Semver::new(10, 4, 0)));
    assert_eq!(Semver::parse("14beta1"), Some(Semver::new(14, 0, 0)));
    assert_eq!(Semver::parse("4294967295.0.1"), Some(Semver::new(4294967295, 0, 1)));
    assert_eq!(Semver::parse(""), None);
    assert_eq!(Semver::parse("v1"), None);
    assert_eq!(Semver::parse("1."), None);
    assert_eq!(Semver::parse("1.2.3.4"), None);
    assert_eq!(Semver::parse("4294967296"), None);
}

#[test]
fn versions_order_by_parts() {
    assert!(Semver::new(1, 2, 3).le(&Semver::new(1, 2, 3)));
    assert!(Semver::new(1, 2, 3).le(&Semver::new(1, 3, 0)));
    assert!(Semver::new(1, 9, 9).le(&Semver::new(2, 0, 0)));
    assert!(!Semver::new(2, 0, 0).le(&Semver::new(1, 9, 9)));
    assert!(!Semver::new(1, 2, 4).le(&Semver::new(1, 2, 3)));
}

#[test]
fn extensions_equal_by_name_and_version() {
    assert!(ext("a", (1, 0, 0), true) == ext("a", (1, 0, 0), false));
    assert!(ext("a", (1, 0, 0), true) != ext("a", (1, 0, 1), true));
    assert!(ext("a", (1, 0, 0), true) != ext("b", (1, 0, 0), true));
}

#[test]
fn available_extensions_newest_first() {
    let c = caps();
    let found = c.available_extensions("pgcrypto", None);
    let versions: Vec<(u32, u32, u32, bool)> =
        found.iter().map(|e| (e.version.major, e.version.minor, e.version.patch, e.installed)).collect();
    assert_eq!(
        versions,
        vec![(1, 3, 0, true), (1, 3, 0, false), (1, 2, 0, false), (1, 0, 5, false)]
    );
}

#[test]
fn available_extensions_of_one_version() {
    let c = caps();
    let found = c.available_extensions("pgcrypto", Some(Semver::new(1, 3, 0)));
    assert_eq!(found.len(), 2);
    assert!(found.iter().all(|e| e.version == Semver::new(1, 3, 0) && e.name == "pgcrypto"));
    assert!(c.available_extensions("pgcrypto", Some(Semver::new(9, 0, 0))).is_empty());
    assert!(c.available_extensions("hstore", None).is_empty());
    assert_eq!(c.available_extensions("postgis", None).len(), 1);
}

#[test]
fn server_version_from_rows() {
    assert_eq!(
        server_version_from(&vec!["9.5.1".to_string(), "11.2".to_string()]).ok(),
        Some(Semver::new(11, 2, 0))
    );
    match server_version_from(&vec![]) {
        Err(PsqlpackErrorKind::DatabaseError(m)) => {
            assert_eq!(m, "Failed to retrieve version from server")
        }
        _ => panic!("expected a database error"),
    }
    match server_version_from(&vec!["devel".to_string()]) {
        Err(PsqlpackErrorKind::FormatError(f, m)) => {
            assert_eq!(f, "SERVER_VERSION");
            assert_eq!(m, "devel");
        }
        _ => panic!("expected a format error"),
    }
}
