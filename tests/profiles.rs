use psqlpack::profiles::{apply_drop_policy, GenerationOptions, PublishProfile, Toggle};

#[test]
fn default_profile() {
    let p = PublishProfile::default();
    assert_eq!(p.version, "1.0");
    assert!(p.package_parameters.is_empty());
    let g = p.generation_options;
    assert!(!g.always_recreate_database);
    assert_eq!(g.drop_enum_values, Toggle::Error);
    assert_eq!(g.drop_tables, Toggle::Error);
    assert_eq!(g.drop_columns, Toggle::Error);
    assert_eq!(g.drop_primary_key_constraints, Toggle::Error);
    assert_eq!(g.drop_foreign_key_constraints, Toggle::Allow);
    assert_eq!(g.drop_functions, Toggle::Error);
    assert_eq!(g.drop_indexes, Toggle::Allow);
    assert!(g.force_concurrent_indexes);
    assert_eq!(g, GenerationOptions::new());
}

#[test]
fn dropped_column_under_each_policy() {
    let drops = || vec!["t.b".to_string()];
    assert_eq!(apply_drop_policy(Toggle::Error, drops()), Err(vec!["t.b".to_string()]));
    assert_eq!(apply_drop_policy(Toggle::Ignore, drops()), Ok(vec![]));
    assert_eq!(apply_drop_policy(Toggle::Allow, drops()), Ok(vec!["t.b".to_string()]));
}

#[test]
fn error_policy_lists_every_drop() {
    let drops = vec!["s.t1".to_string(), "s.t2".to_string(), "s.t3".to_string()];
    assert_eq!(apply_drop_policy(Toggle::Error, drops.clone()), Err(drops));
    assert_eq!(apply_drop_policy(Toggle::Error, vec![]), Ok(vec![]));
}
