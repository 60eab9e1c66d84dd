use pam_cli::config::{Config, ConfigError, EnvOverrides, FileInput};

fn env_with(
    api_url: Option<&str>,
    gcs_bucket: Option<&str>,
    user_email: Option<&str>,
    db_host: Option<&str>,
    db_port: Option<&str>,
    db_password: Option<&str>,
) -> EnvOverrides {
    EnvOverrides {
        api_url: api_url.map(|s| s.to_owned()),
        gcs_bucket: gcs_bucket.map(|s| s.to_owned()),
        user_email: user_email.map(|s| s.to_owned()),
        db_host: db_host.map(|s| s.to_owned()),
        db_port: db_port.map(|s| s.to_owned()),
        db_password: db_password.map(|s| s.to_owned()),
    }
}

#[test]
fn env_wins_over_file_over_default() {
    let file = "api_url = \"https://file.example\"\ndb_host = \"filehost\"\ndb_port = 1111\n";
    let env = env_with(Some("https://env.example"), None, None, None, Some("2222"), None);
    let cfg = Config::load(FileInput::Text(file.to_owned()), env, "/tmp/c.toml").unwrap();
    // conflicting values: the environment wins
    assert_eq!(cfg.api_url, "https://env.example");
    assert_eq!(cfg.db_port, 2222);
    // file wins over the default
    assert_eq!(cfg.db_host, "filehost");
    // nothing set anywhere: the default
    assert_eq!(cfg.db_name, "pam_pm_knowledge");
    assert_eq!(cfg.db_user, "postgres");
    assert_eq!(cfg.gcs_bucket, "pam-context-files");
}

#[test]
fn invalid_file_is_config_error() {
    let env = EnvOverrides::none();
    let r = Config::load(FileInput::Text("not == valid [toml".to_owned()), env, "/etc/pam.toml");
    match r {
        Err(ConfigError::MalformedFile { path }) => assert_eq!(path, "/etc/pam.toml"),
        _ => panic!("expected a malformed-file error"),
    }
}

#[test]
fn wrong_typed_field_is_config_error() {
    let env = EnvOverrides::none();
    let r = Config::load(FileInput::Text("api_url = 5".to_owned()), env, "p.toml");
    assert!(matches!(r, Err(ConfigError::MalformedFile { .. })));
}

#[test]
fn port_out_of_range_is_config_error() {
    let env = EnvOverrides::none();
    let r = Config::load(FileInput::Text("db_port = 70000".to_owned()), env, "p.toml");
    assert!(matches!(r, Err(ConfigError::MalformedFile { .. })));
}

#[test]
fn absent_file_yields_defaults() {
    let cfg = Config::load(FileInput::Absent, EnvOverrides::none(), "p.toml").unwrap();
    assert_eq!(
        cfg.api_url,
        "https://pam-production-service-925072200586.us-central1.run.app"
    );
    assert_eq!(cfg.gcs_bucket, "pam-context-files");
    assert_eq!(cfg.user_email, None);
    assert_eq!(cfg.db_host, "localhost");
    assert_eq!(cfg.db_port, 5433);
    assert_eq!(cfg.db_name, "pam_pm_knowledge");
    assert_eq!(cfg.db_user, "postgres");
    assert_eq!(cfg.db_password, None);
    assert_eq!(cfg.cli_api_key, None);
}

#[test]
fn unreadable_file_is_config_error() {
    let r = Config::load(FileInput::Unreadable, EnvOverrides::none(), "locked.toml");
    match r {
        Err(ConfigError::UnreadableFile { path }) => assert_eq!(path, "locked.toml"),
        _ => panic!("expected an unreadable-file error"),
    }
}

#[test]
fn env_url_alone_leaves_other_fields_at_default() {
    let env = env_with(Some("https://x.test"), None, None, None, None, None);
    let cfg = Config::load(FileInput::Absent, env, "p.toml").unwrap();
    assert_eq!(cfg.api_url, "https://x.test");
    assert_eq!(cfg.gcs_bucket, "pam-context-files");
    assert_eq!(cfg.user_email, None);
    assert_eq!(cfg.db_host, "localhost");
    assert_eq!(cfg.db_port, 5433);
    assert_eq!(cfg.db_name, "pam_pm_knowledge");
    assert_eq!(cfg.db_user, "postgres");
    assert_eq!(cfg.db_password, None);
    assert_eq!(cfg.cli_api_key, None);
}

#[test]
fn invalid_env_port_falls_back_to_current_value() {
    let file = "db_port = 1234";
    let env = env_with(None, None, None, None, Some("not-a-port"), None);
    let cfg = Config::load(FileInput::Text(file.to_owned()), env, "p.toml").unwrap();
    assert_eq!(cfg.db_port, 1234);

    let env2 = env_with(None, None, None, None, Some("99999"), None);
    let cfg2 = Config::load(FileInput::Absent, env2, "p.toml").unwrap();
    assert_eq!(cfg2.db_port, 5433);
}

#[test]
fn file_only_fields_carry_over() {
    let file = "user_email = \"me@example.test\"\ncli_api_key = \"key-0123\"\ndb_password = \"pw\"\n";
    let cfg = Config::load(FileInput::Text(file.to_owned()), EnvOverrides::none(), "p.toml")
        .unwrap();
    assert_eq!(cfg.user_email.as_deref(), Some("me@example.test"));
    assert_eq!(cfg.cli_api_key.as_deref(), Some("key-0123"));
    assert_eq!(cfg.db_password.as_deref(), Some("pw"));
}

#[test]
fn set_field_updates_exactly_one_field() {
    let cfg = Config::default();
    let cfg2 = cfg.set_field("api_url", "https://new.example").unwrap();
    assert_eq!(cfg2.api_url, "https://new.example");
    assert_eq!(cfg2.db_host, cfg.db_host);
    let cfg3 = cfg.set_field("db_port", "8080").unwrap();
    assert_eq!(cfg3.db_port, 8080);
    let cfg4 = cfg.set_field("user_email", "a@b.c").unwrap();
    assert_eq!(cfg4.user_email.as_deref(), Some("a@b.c"));
}

#[test]
fn set_field_rejects_unknown_key() {
    let cfg = Config::default();
    match cfg.set_field("no_such_key", "x") {
        Err(ConfigError::UnknownKey { key }) => assert_eq!(key, "no_such_key"),
        _ => panic!("expected an unknown-key error"),
    }
}

#[test]
fn set_field_rejects_bad_port_value() {
    let cfg = Config::default();
    match cfg.set_field("db_port", "eighty") {
        Err(ConfigError::InvalidValue { key }) => assert_eq!(key, "db_port"),
        _ => panic!("expected an invalid-value error"),
    }
}

#[test]
fn connection_string_is_exact() {
    let mut cfg = Config::default();
    cfg.db_host = "h".to_owned();
    cfg.db_port = 9;
    cfg.db_name = "n".to_owned();
    cfg.db_user = "u".to_owned();
    cfg.db_password = Some("p".to_owned());
    assert_eq!(
        cfg.db_connection_string(None),
        "host=h port=9 dbname=n user=u password=p"
    );
    cfg.db_password = None;
    assert_eq!(
        cfg.db_connection_string(Some("envpw".to_owned())),
        "host=h port=9 dbname=n user=u password=envpw"
    );
    assert_eq!(
        cfg.db_connection_string(None),
        "host=h port=9 dbname=n user=u password="
    );
}

#[test]
fn error_messages_name_the_subject() {
    let e = ConfigError::MalformedFile { path: "a.toml".to_owned() };
    assert_eq!(e.message(), "failed to parse config file: a.toml");
    let e2 = ConfigError::UnknownKey { key: "zz".to_owned() };
    assert_eq!(e2.message(), "unknown config key: zz");
}
