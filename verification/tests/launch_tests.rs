use webtiles_rs::config::{GameConfig, GameFields, ServerConfig};
use webtiles_rs::error::WebtilesError;
use webtiles_rs::launch::{
    format_timestamp, format_timestamp_of, join_path, plan_game_launch, split_command, templated_path,
};
use webtiles_rs::table::Table;

fn config_with_game() -> ServerConfig {
    let mut cfg = ServerConfig::default();
    let mut env = Table::new();
    env.insert("LANG".to_string(), "C".to_string());
    cfg.games.insert(
        "trunk".to_string(),
        GameConfig {
            id: "trunk".to_string(),
            fields: GameFields {
                name: Some("Play %v".to_string()),
                version: Some("0.34".to_string()),
                crawl_binary: Some("./crawl".to_string()),
                pre_options: vec!["-pre".to_string()],
                options: vec!["-opt".to_string(), "-tag-%n".to_string()],
                rcfile_path: Some("./rcs/%n".to_string()),
                macro_path: Some("./macros/".to_string()),
                morgue_path: Some("./morgue/%n".to_string()),
                socket_path: Some("./sockets".to_string()),
                morgue_url: Some("http://x/morgue/%n/".to_string()),
                dir_path: Some("./saves/%v".to_string()),
                env,
                ..Default::default()
            },
            ..Default::default()
        },
    );
    cfg
}

#[test]
fn format_timestamp_matches_python_strftime_shape() {
    let ts = format_timestamp();
    assert_eq!(ts.len(), 19);
    assert_eq!(ts.as_bytes()[4], b'-');
    assert_eq!(ts.as_bytes()[7], b'-');
    assert_eq!(ts.as_bytes()[10], b'.');
    assert_eq!(ts.as_bytes()[13], b':');
    assert_eq!(ts.as_bytes()[16], b':');
}

#[test]
fn timestamp_pads_each_field() {
    assert_eq!(format_timestamp_of(2024, 1, 2, 3, 4, 5), "2024-01-02.03:04:05");
    assert_eq!(format_timestamp_of(987, 12, 31, 23, 59, 59), "0987-12-31.23:59:59");
    assert_eq!(format_timestamp_of(-5, 1, 1, 0, 0, 0), "-005-01-01.00:00:00");
    assert_eq!(format_timestamp_of(12345, 1, 1, 0, 0, 0), "12345-01-01.00:00:00");
}

#[test]
fn join_path_follows_path_join() {
    assert_eq!(join_path("a", "b"), "a/b");
    assert_eq!(join_path("a/", "b"), "a/b");
    assert_eq!(join_path("", "b"), "b");
    assert_eq!(join_path("a", "/b"), "/b");
}

#[test]
fn templated_path_reports_missing_field() {
    let cfg = config_with_game();
    let resolved = cfg.resolve_game("trunk").unwrap();
    assert_eq!(templated_path(&resolved, "rcfile_path", "bob").unwrap(), "./rcs/bob");
    match templated_path(&resolved, "inprogress_path", "bob") {
        Err(WebtilesError::Config(m)) => {
            assert_eq!(m, "game is missing required field `inprogress_path`")
        }
        other => panic!("unexpected {other:?}"),
    }
}

#[test]
fn plan_builds_the_command_line() {
    let cfg = config_with_game();
    let plan = plan_game_launch(&cfg, "trunk", "bob", "2024-01-02.03:04:05").unwrap();
    assert_eq!(plan.dirs, vec!["./rcs/bob", "./macros/", "./morgue/bob", "./sockets"]);
    assert_eq!(plan.process_socket_path, "./sockets/bob:2024-01-02.03:04:05.sock");
    assert_eq!(
        plan.spawn.argv,
        vec![
            "./crawl",
            "-pre",
            "-name",
            "bob",
            "-rc",
            "./rcs/bob/bob.rc",
            "-macro",
            "./macros/bob.macro",
            "-morgue",
            "./morgue/bob",
            "-opt",
            "-tag-bob",
            "-dir",
            "./saves/0.34",
            "-webtiles-socket",
            "./sockets/bob:2024-01-02.03:04:05.sock",
            "-await-connection",
        ]
    );
    assert_eq!(plan.spawn.env, vec![("LANG".to_string(), "C".to_string())]);
    assert_eq!(plan.spawn.cwd, None);
    assert_eq!((plan.spawn.term_cols, plan.spawn.term_rows), (80, 24));
    assert_eq!(plan.morgue_url, Ok(Some("http://x/morgue/bob/".to_string())));
    assert_eq!(plan.client_path, Ok(None));
}

#[test]
fn plan_rejects_unknown_games_and_missing_binaries() {
    let mut cfg = config_with_game();
    match plan_game_launch(&cfg, "nope", "bob", "t") {
        Err(WebtilesError::Game(m)) => assert_eq!(m, "unknown game id: nope"),
        _ => panic!("expected a game error"),
    }
    cfg.games.insert(
        "bare".to_string(),
        GameConfig {
            id: "bare".to_string(),
            ..Default::default()
        },
    );
    match plan_game_launch(&cfg, "bare", "bob", "t") {
        Err(WebtilesError::Game(m)) => assert_eq!(m, "game bare has no crawl_binary configured"),
        _ => panic!("expected a game error"),
    }
}

#[test]
fn plan_defers_morgue_url_errors() {
    let mut cfg = ServerConfig::default();
    cfg.games.insert(
        "g".to_string(),
        GameConfig {
            id: "g".to_string(),
            fields: GameFields {
                crawl_binary: Some("c".to_string()),
                rcfile_path: Some("r".to_string()),
                macro_path: Some("m".to_string()),
                morgue_path: Some("o".to_string()),
                socket_path: Some("s".to_string()),
                morgue_url: Some("http://x/%v/".to_string()),
                ..Default::default()
            },
            ..Default::default()
        },
    );
    let plan = plan_game_launch(&cfg, "g", "bob", "t").unwrap();
    assert!(matches!(plan.morgue_url, Err(WebtilesError::Config(_))));
}

#[test]
fn option_templating_errors_stop_the_launch() {
    let mut cfg = ServerConfig::default();
    cfg.games.insert(
        "g".to_string(),
        GameConfig {
            id: "g".to_string(),
            fields: GameFields {
                crawl_binary: Some("c".to_string()),
                rcfile_path: Some("r".to_string()),
                macro_path: Some("m".to_string()),
                morgue_path: Some("o".to_string()),
                socket_path: Some("s".to_string()),
                options: vec!["-v%v".to_string()],
                ..Default::default()
            },
            ..Default::default()
        },
    );
    match plan_game_launch(&cfg, "g", "bob", "t") {
        Err(WebtilesError::Config(m)) => assert_eq!(m, "version used in config templating but not set: -v%v"),
        _ => panic!("expected a config error"),
    }
}

#[test]
fn socket_path_is_used_as_written() {
    let mut cfg = ServerConfig::default();
    cfg.games.insert(
        "g".to_string(),
        GameConfig {
            id: "g".to_string(),
            fields: GameFields {
                rcfile_path: Some("./rcs/%n".to_string()),
                socket_path: Some("./sockets/%n".to_string()),
                ..Default::default()
            },
            ..Default::default()
        },
    );
    let resolved = cfg.resolve_game("g").unwrap();
    assert_eq!(templated_path(&resolved, "socket_path", "bob").unwrap(), "./sockets/%n");
    assert_eq!(templated_path(&resolved, "rcfile_path", "bob").unwrap(), "./rcs/bob");
}

#[test]
fn command_line_splits_into_program_and_arguments() {
    let argv = vec!["./crawl".to_string(), "-name".to_string(), "bob".to_string()];
    assert_eq!(split_command(&argv).unwrap(), ("./crawl".to_string(), vec!["-name".to_string(), "bob".to_string()]));
    assert!(matches!(split_command(&Vec::new()), Err(WebtilesError::Process(m)) if m == "empty argv"));
}
