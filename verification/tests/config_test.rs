use readsmith::config::{parse_env_file, sqlite_database_parent, Config, EnvVars};

#[test]
fn sqlite_database_parent_returns_file_parent_directory() {
    assert_eq!(
        sqlite_database_parent("sqlite:data/readsmith.db").as_deref(),
        Some("data")
    );
    assert_eq!(
        sqlite_database_parent("sqlite:/data/readsmith.db").as_deref(),
        Some("/data")
    );
}

#[test]
fn sqlite_database_parent_ignores_memory_and_non_sqlite_urls() {
    assert_eq!(sqlite_database_parent("sqlite::memory:"), None);
    assert_eq!(sqlite_database_parent("postgres://localhost/readsmith"), None);
}

#[test]
fn sqlite_database_parent_other_forms() {
    assert_eq!(
        sqlite_database_parent("sqlite://data/x.db?mode=rwc").as_deref(),
        Some("data")
    );
    assert_eq!(sqlite_database_parent("sqlite:/x.db").as_deref(), Some("/"));
    assert_eq!(sqlite_database_parent("sqlite:x.db"), None);
    assert_eq!(sqlite_database_parent("sqlite:"), None);
}

#[test]
fn config_requires_a_password_unless_allowed() {
    let vars = EnvVars::default();
    let err = Config::from_vars(&vars).unwrap_err();
    assert_eq!(
        err,
        "APP_PASSWORD must be set unless APP_ALLOW_EMPTY_PASSWORD=true"
    );
    let vars = EnvVars {
        app_password: Some(String::new()),
        ..EnvVars::default()
    };
    assert!(Config::from_vars(&vars).is_err());
    let vars = EnvVars {
        app_allow_empty_password: Some("yes".to_string()),
        ..EnvVars::default()
    };
    let config = Config::from_vars(&vars).unwrap();
    assert_eq!(config.password, None);
    assert!(config.allow_empty_password);
}

#[test]
fn config_defaults_and_values() {
    let vars = EnvVars {
        app_password: Some("secret".to_string()),
        ..EnvVars::default()
    };
    let c = Config::from_vars(&vars).unwrap();
    assert_eq!(c.password.as_deref(), Some("secret"));
    assert_eq!(c.host, "0.0.0.0");
    assert_eq!(c.port, 8080);
    assert_eq!(c.database_url, "sqlite:data/readsmith.db");
    assert_eq!(c.database_max_connections, 5);
    assert_eq!(c.session_secret, "dev-secret-change-me");
    assert!(!c.secure_cookies);
    assert_eq!(c.pull_interval_seconds, 300);
    assert_eq!(c.pull_timeout_seconds, 20);
    assert_eq!(c.pull_concurrency, 4);
    assert_eq!(c.pull_max_backoff_seconds, 86_400);
    assert!(!c.allow_private_feeds);
    assert_eq!(c.max_feed_body_bytes, 5 * 1024 * 1024);

    let vars = EnvVars {
        app_password: Some("secret".to_string()),
        app_port: Some("9091".to_string()),
        database_max_connections: Some("x".to_string()),
        app_secure_cookies: Some("TRUE".to_string()),
        app_allow_private_feeds: Some("True".to_string()),
        app_pull_concurrency: Some("+8".to_string()),
        app_max_feed_body_bytes: Some("1024".to_string()),
        ..EnvVars::default()
    };
    let c = Config::from_vars(&vars).unwrap();
    assert_eq!(c.port, 9091);
    assert_eq!(c.database_max_connections, 5);
    assert!(c.secure_cookies);
    assert!(!c.allow_private_feeds);
    assert_eq!(c.pull_concurrency, 8);
    assert_eq!(c.max_feed_body_bytes, 1024);

    let vars = EnvVars {
        app_password: Some("secret".to_string()),
        app_port: Some("70000".to_string()),
        ..EnvVars::default()
    };
    assert_eq!(Config::from_vars(&vars).unwrap().port, 8080);
}

#[test]
fn env_file_lines() {
    let entries = parse_env_file("APP_PASSWORD=from-dotenv\nAPP_PORT=9091\n");
    assert_eq!(
        entries,
        vec![
            ("APP_PASSWORD".to_string(), "from-dotenv".to_string()),
            ("APP_PORT".to_string(), "9091".to_string()),
        ]
    );
    let entries = parse_env_file("# comment\r\n\n  KEY = \"a b\" \nNOEQ\n=v\nX='y'\nZ=\"q'\n");
    assert_eq!(
        entries,
        vec![
            ("KEY".to_string(), "a b".to_string()),
            ("X".to_string(), "y".to_string()),
            ("Z".to_string(), "\"q'".to_string()),
        ]
    );
}
