use aws_assume_role::config::{choose_config_path, config_format, path_extension, ConfigError, ConfigFormat};
use aws_assume_role::ini::{ini_lookup, profiles_from_ini, serial_from_ini, IniSection};
use aws_assume_role::profiles::ProfileTable;

fn section(name: Option<&str>, props: &[(&str, &str)]) -> IniSection {
    IniSection {
        name: name.map(|n| n.to_string()),
        properties: props.iter().map(|(k, v)| (k.to_string(), v.to_string())).collect(),
    }
}

#[test]
fn toml_extension_selects_structured_parser() {
    assert_eq!(config_format("tests/fixtures/config.toml").ok(), Some(ConfigFormat::Toml));
    assert_eq!(config_format("/home/u/.aws/config.toml").ok(), Some(ConfigFormat::Toml));
}

#[test]
fn no_extension_selects_sectioned_parser() {
    assert_eq!(config_format("tests/fixtures/config").ok(), Some(ConfigFormat::Ini));
    assert_eq!(config_format("/home/u.name/.aws/config").ok(), Some(ConfigFormat::Ini));
    assert_eq!(config_format(".config").ok(), Some(ConfigFormat::Ini));
}

#[test]
fn other_extension_is_unsupported() {
    match config_format("config.yaml") {
        Err(ConfigError::UnsupportedFormat(e)) => assert_eq!(e, "yaml"),
        _ => panic!("yaml must be refused"),
    }
}

#[test]
fn extension_of_paths() {
    assert_eq!(path_extension("a/b.c/file"), None);
    assert_eq!(path_extension("a/b/file.tar.gz"), Some("gz".to_string()));
    assert_eq!(path_extension("a/.hidden"), None);
    assert_eq!(path_extension("file."), Some("".to_string()));
    assert_eq!(path_extension("a.toml/"), Some("toml".to_string()));
    assert_eq!(path_extension("dir/a.toml//"), Some("toml".to_string()));
    assert_eq!(config_format("a.toml/").ok(), Some(ConfigFormat::Toml));
}

#[test]
fn config_path_precedence() {
    let explicit = Some("/tmp/c.toml".to_string());
    assert_eq!(choose_config_path(&explicit, "/home/u", true, true).ok(), explicit);
    assert_eq!(
        choose_config_path(&None, "/home/u", true, true).ok(),
        Some("/home/u/.aws/config.toml".to_string())
    );
    assert_eq!(
        choose_config_path(&None, "/home/u", false, true).ok(),
        Some("/home/u/.aws/config".to_string())
    );
    assert!(matches!(
        choose_config_path(&None, "/home/u", false, false),
        Err(ConfigError::NoConfigFile)
    ));
}

#[test]
fn later_pair_replaces_earlier() {
    let table = ProfileTable::from_pairs(vec![
        ("a".to_string(), "arn:1".to_string()),
        ("b".to_string(), "arn:2".to_string()),
        ("a".to_string(), "arn:3".to_string()),
    ]);
    assert_eq!(table.lookup("a").ok(), Some("arn:3".to_string()));
    assert_eq!(table.lookup("b").ok(), Some("arn:2".to_string()));
    let mut names: Vec<String> = table.candidates().into_iter().map(|c| c.name).collect();
    names.sort();
    assert_eq!(names, vec!["a".to_string(), "b".to_string()]);
}

#[test]
fn candidate_labels_are_padded() {
    let table = ProfileTable::from_pairs(vec![("test".to_string(), "arn:x".to_string())]);
    let c = table.candidates();
    assert_eq!(c.len(), 1);
    assert_eq!(c[0].label, format!("{:<30}\t{}", "test", "arn:x"));
    assert_eq!(c[0].role_arn, "arn:x");
    assert_eq!(c[0].name, "test");
    let long = "a-profile-name-longer-than-thirty-chars";
    let table = ProfileTable::from_pairs(vec![(long.to_string(), "arn:y".to_string())]);
    assert_eq!(table.candidates()[0].label, format!("{}\tarn:y", long));
}

#[test]
fn sections_define_profiles() {
    let secs = vec![
        section(None, &[]),
        section(Some("profile jump"), &[("serial_number", "arn:aws:iam::123456789012:mfa/serialnumber")]),
        section(Some("profile test"), &[("role_arn", "arn:aws:iam::987654321234:role/TestUser")]),
        section(Some("other"), &[("region", "ap-northeast-1")]),
        section(Some("default"), &[("role_arn", "arn:default")]),
        section(Some("sso-session x"), &[("role_arn", "arn:sso")]),
    ];
    let table = profiles_from_ini(&secs);
    assert_eq!(table.lookup("test").ok(), Some("arn:aws:iam::987654321234:role/TestUser".to_string()));
    assert!(matches!(table.lookup("jump"), Err(ConfigError::ProfileNotFound(_))));
    assert!(matches!(table.lookup("other"), Err(ConfigError::ProfileNotFound(_))));
    assert!(matches!(table.lookup("default"), Err(ConfigError::ProfileNotFound(_))));
    assert!(matches!(table.lookup("x"), Err(ConfigError::ProfileNotFound(_))));
    assert_eq!(table.candidates().len(), 1);
    assert_eq!(
        serial_from_ini(&secs, "jump").ok(),
        Some("arn:aws:iam::123456789012:mfa/serialnumber".to_string())
    );
    match serial_from_ini(&secs, "test") {
        Err(ConfigError::SerialMissing(p)) => assert_eq!(p, "test"),
        _ => panic!("SerialMissing expected"),
    }
}

#[test]
fn first_section_and_first_key_win() {
    let secs = vec![
        section(Some("s"), &[("k", "1"), ("k", "2")]),
        section(Some("s"), &[("k", "3")]),
    ];
    assert_eq!(ini_lookup(&secs, "s", "k"), Some("1".to_string()));
    assert_eq!(ini_lookup(&secs, "s", "missing"), None);
    assert_eq!(ini_lookup(&secs, "t", "k"), None);
}
