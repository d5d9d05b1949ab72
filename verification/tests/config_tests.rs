use webtiles_rs::config::{
    dgl_format_str, BindMode, CliOverrides, ConfigOverrides, CryptAlgorithm, GameConfig, GameFields,
    GameTemplate, ServerConfig,
};
use webtiles_rs::error::WebtilesError;
use webtiles_rs::table::Table;

#[test]
fn defaults_match_python_config_defaults() {
    let c = ServerConfig::default();
    assert!(c.dgl_mode);
    assert_eq!(c.max_connections, 100);
    assert_eq!(c.connection_timeout_secs, 600);
    assert_eq!(c.max_idle_time_secs, 5 * 60 * 60);
    assert_eq!(c.kill_timeout_secs, 10);
    assert_eq!(c.crypt_algorithm, CryptAlgorithm::Broken);
    assert_eq!(c.max_passwd_length, 20);
    assert!(c.allow_anon_spectate);
}

#[test]
fn dgl_format_str_substitutes_all_placeholders() {
    let s = dgl_format_str("%n-%v-%V-%r", Some("alice"), Some("0.34")).unwrap();
    assert_eq!(s, "alice-0.34-0.34-34");
}

#[test]
fn dgl_format_str_errors_when_username_missing() {
    let err = dgl_format_str("%n", None, None).unwrap_err();
    assert!(matches!(err, WebtilesError::Config(_)));
}

#[test]
fn dgl_format_str_error_names_the_missing_value() {
    let err = dgl_format_str("x-%v", Some("alice"), None).unwrap_err();
    match err {
        WebtilesError::Config(m) => {
            assert_eq!(m, "version used in config templating but not set: x-%v")
        }
        other => panic!("unexpected error {other:?}"),
    }
}

#[test]
fn dgl_format_str_without_placeholders_is_unchanged() {
    assert_eq!(dgl_format_str("plain/path", None, None).unwrap(), "plain/path");
}

#[test]
fn dgl_format_str_capitalizes_and_strips_release_prefix() {
    assert_eq!(dgl_format_str("%V|%r", None, Some("trunk")).unwrap(), "Trunk|trunk");
}

#[test]
fn games_yaml_replaces_not_merges() {
    let mut cfg = ServerConfig::default();
    cfg.games.insert(
        "old".to_string(),
        GameConfig {
            id: "old".to_string(),
            ..Default::default()
        },
    );
    let mut games = Table::new();
    games.insert(
        "new".to_string(),
        GameConfig {
            id: "new".to_string(),
            ..Default::default()
        },
    );
    let overrides = ConfigOverrides {
        games: Some(games),
        ..Default::default()
    };
    cfg.merge_overrides(overrides);
    assert!(!cfg.games.contains_key("old"));
    assert!(cfg.games.contains_key("new"));
}

#[test]
fn banned_list_is_appended_not_replaced() {
    let mut cfg = ServerConfig::default();
    cfg.banned.push("existing".to_string());
    let overrides = ConfigOverrides {
        banned: Some(vec!["new_ban".to_string()]),
        ..Default::default()
    };
    cfg.merge_overrides(overrides);
    assert_eq!(cfg.banned, vec!["existing".to_string(), "new_ban".to_string()]);
}

#[test]
fn template_inheritance_fills_missing_fields() {
    let mut cfg = ServerConfig::default();
    cfg.templates.insert(
        "default".to_string(),
        GameTemplate {
            fields: GameFields {
                crawl_binary: Some("./crawl".to_string()),
                rcfile_path: Some("./rcs/".to_string()),
                ..Default::default()
            },
            ..Default::default()
        },
    );
    cfg.games.insert(
        "dcss-web-trunk".to_string(),
        GameConfig {
            id: "dcss-web-trunk".to_string(),
            template: Some("default".to_string()),
            fields: GameFields {
                name: Some("Play".to_string()),
                ..Default::default()
            },
        },
    );

    let resolved = cfg.resolve_game("dcss-web-trunk").unwrap();
    assert_eq!(resolved.fields.name.as_deref(), Some("Play"));
    assert_eq!(resolved.fields.crawl_binary, Some("./crawl".to_string()));
    assert_eq!(resolved.fields.rcfile_path.as_deref(), Some("./rcs/"));
}

#[test]
fn template_loop_does_not_infinite_loop() {
    let mut cfg = ServerConfig::default();
    cfg.templates.insert(
        "a".to_string(),
        GameTemplate {
            template: Some("a".to_string()),
            ..Default::default()
        },
    );
    cfg.games.insert(
        "g".to_string(),
        GameConfig {
            id: "g".to_string(),
            template: Some("a".to_string()),
            fields: GameFields::default(),
        },
    );
    let resolved = cfg.resolve_game("g").unwrap();
    assert_eq!(resolved.id, "g");
}

#[test]
fn game_without_template_inherits_from_default() {
    let mut cfg = ServerConfig::default();
    cfg.templates.insert(
        "default".to_string(),
        GameTemplate {
            fields: GameFields {
                morgue_path: Some("./morgue/%n/".to_string()),
                ..Default::default()
            },
            ..Default::default()
        },
    );
    cfg.games.insert(
        "g".to_string(),
        GameConfig {
            id: "g".to_string(),
            ..Default::default()
        },
    );
    let resolved = cfg.resolve_game("g").unwrap();
    assert_eq!(resolved.fields.morgue_path.as_deref(), Some("./morgue/%n/"));
    assert_eq!(
        resolved.templated("./morgue/%n/", Some("bob")).unwrap(),
        "./morgue/bob/"
    );
}

#[test]
fn unknown_game_does_not_resolve() {
    let cfg = ServerConfig::default();
    assert!(cfg.resolve_game("nope").is_none());
}

#[test]
fn game_fields_override_template_fields() {
    let mut cfg = ServerConfig::default();
    cfg.templates.insert(
        "base".to_string(),
        GameTemplate {
            fields: GameFields {
                name: Some("Template name".to_string()),
                version: Some("0.30".to_string()),
                ..Default::default()
            },
            ..Default::default()
        },
    );
    cfg.games.insert(
        "g".to_string(),
        GameConfig {
            id: "g".to_string(),
            template: Some("base".to_string()),
            fields: GameFields {
                name: Some("Own name".to_string()),
                ..Default::default()
            },
        },
    );
    let resolved = cfg.resolve_game("g").unwrap();
    assert_eq!(resolved.fields.name.as_deref(), Some("Own name"));
    assert_eq!(resolved.fields.version.as_deref(), Some("0.30"));
    assert!(!resolved.account_restricted_flag());
}

#[test]
fn cli_port_disables_ssl() {
    let mut cfg = ServerConfig::default();
    let args = CliOverrides {
        port: Some(8081),
        ..Default::default()
    };
    cfg.apply_cli_overrides(&args);
    assert_eq!(cfg.bind_port, 8081);
    assert_eq!(cfg.bind_nonsecure, BindMode::Enabled);
    assert!(cfg.bind_pairs.is_empty());
    assert!(cfg.ssl_bind_pairs.is_empty());
}

#[test]
fn cli_ssl_port_disables_plain_http() {
    let mut cfg = ServerConfig::default();
    let args = CliOverrides {
        ssl_port: Some(8443),
        ..Default::default()
    };
    cfg.apply_cli_overrides(&args);
    assert_eq!(cfg.bind_nonsecure, BindMode::Disabled);
    assert_eq!(cfg.ssl_bind_pairs, vec![(String::new(), 8443)]);
}

#[test]
fn games_file_entries_do_not_replace_existing_ones() {
    let mut cfg = ServerConfig::default();
    cfg.games.insert(
        "g".to_string(),
        GameConfig {
            id: "g".to_string(),
            fields: GameFields {
                name: Some("first".to_string()),
                ..Default::default()
            },
            ..Default::default()
        },
    );
    let later = GameConfig {
        id: "g".to_string(),
        fields: GameFields {
            name: Some("second".to_string()),
            ..Default::default()
        },
        ..Default::default()
    };
    let other = GameConfig {
        id: "h".to_string(),
        ..Default::default()
    };
    cfg.add_games_file(vec![later, other], Vec::new());
    assert_eq!(cfg.games.get(&"g".to_string()).unwrap().fields.name.as_deref(), Some("first"));
    assert!(cfg.games.contains_key("h"));
}

#[test]
fn raw_version_strips_only_a_leading_release_prefix() {
    assert_eq!(dgl_format_str("%r", None, Some("0.31")).unwrap(), "31");
    assert_eq!(dgl_format_str("%r", None, Some("git-0.31")).unwrap(), "git-0.31");
}

#[test]
fn table_keeps_keys_once_in_increasing_order() {
    let mut t: Table<String> = Table::new();
    t.insert("trunk".to_string(), "1".to_string());
    t.insert("spr".to_string(), "2".to_string());
    t.insert("Zot".to_string(), "3".to_string());
    t.insert("spr".to_string(), "4".to_string());
    assert_eq!(t.len(), 3);
    assert_eq!(t.keys(), vec!["Zot".to_string(), "spr".to_string(), "trunk".to_string()]);
    assert_eq!(t.get(&"spr".to_string()), Some(&"4".to_string()));
}

#[test]
fn cli_port_turns_configured_ssl_off() {
    let mut cfg = ServerConfig::default();
    cfg.ssl_cert_file = Some("cert.pem".to_string());
    cfg.ssl_key_file = Some("key.pem".to_string());
    let args = CliOverrides {
        port: Some(8081),
        ..Default::default()
    };
    cfg.apply_cli_overrides(&args);
    assert_eq!(cfg.ssl_cert_file, None);
    assert_eq!(cfg.ssl_key_file, None);
}

#[test]
fn cli_ssl_port_keeps_configured_certificate() {
    let mut cfg = ServerConfig::default();
    cfg.ssl_cert_file = Some("cert.pem".to_string());
    cfg.ssl_key_file = Some("key.pem".to_string());
    let args = CliOverrides {
        ssl_port: Some(8443),
        ..Default::default()
    };
    cfg.apply_cli_overrides(&args);
    assert_eq!(cfg.ssl_cert_file.as_deref(), Some("cert.pem"));
    assert_eq!(cfg.ssl_key_file.as_deref(), Some("key.pem"));
}

#[test]
fn templating_fails_exactly_on_missing_values() {
    assert!(dgl_format_str("%n-%v", None, Some("1")).is_err());
    assert!(dgl_format_str("%V", Some("bob"), None).is_err());
    assert!(dgl_format_str("%r", Some("bob"), None).is_err());
    assert_eq!(dgl_format_str("%n", Some("bob"), None).unwrap(), "bob");
    assert_eq!(dgl_format_str("plain", None, None).unwrap(), "plain");
    assert!(matches!(dgl_format_str("%n", None, None), Err(WebtilesError::Config(_))));
}
