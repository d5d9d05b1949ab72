use webtiles_rs::auth::login_token_lifetime_ms;
use webtiles_rs::config::{BindMode, GameConfig, ServerConfig};
use webtiles_rs::gamedata::has_parent_dir;
use webtiles_rs::listen::{bind_host, bind_targets, listener_check, redirect_location, socket_server_url};

#[test]
fn empty_bind_host_means_all_interfaces() {
    assert_eq!(bind_host(""), "0.0.0.0");
    assert_eq!(bind_host("::1"), "::1");
}

#[test]
fn bind_targets_fall_back_to_the_default_pair() {
    assert_eq!(bind_targets(&Vec::new(), "", 8080), vec![("0.0.0.0".to_string(), 8080)]);
    let pairs = vec![("".to_string(), 80), ("127.0.0.1".to_string(), 81)];
    assert_eq!(
        bind_targets(&pairs, "ignored", 1),
        vec![("0.0.0.0".to_string(), 80), ("127.0.0.1".to_string(), 81)]
    );
}

#[test]
fn some_listener_must_be_configured() {
    assert!(listener_check(0, 0, BindMode::Enabled).is_err());
    assert!(listener_check(1, 0, BindMode::Redirect).is_err());
    assert!(listener_check(1, 0, BindMode::Enabled).is_ok());
    assert!(listener_check(0, 1, BindMode::Disabled).is_ok());
}

#[test]
fn redirect_keeps_host_and_path() {
    assert_eq!(redirect_location(Some("example.com:8080"), ":8443", "/x?y=1"), "https://example.com:8443/x?y=1");
    assert_eq!(redirect_location(Some("example.com"), "", "/"), "https://example.com/");
    assert_eq!(redirect_location(None, ":443", "/a"), "https://localhost:443/a");
}

#[test]
fn socket_url_follows_the_proxy_protocol() {
    assert_eq!(socket_server_url(Some("https"), Some("h:1")), "wss://h:1/socket");
    assert_eq!(socket_server_url(Some("http"), None), "ws://localhost/socket");
    assert_eq!(socket_server_url(None, Some("h")), "ws://h/socket");
}

#[test]
fn token_lifetime_in_milliseconds() {
    assert_eq!(login_token_lifetime_ms(7), Some(7 * 86_400_000));
    assert_eq!(login_token_lifetime_ms(-3), Some(0));
    assert_eq!(login_token_lifetime_ms(i64::MAX), None);
}

#[test]
fn games_dir_is_read_only_without_configured_games() {
    let mut cfg = ServerConfig::default();
    assert!(cfg.reads_games_dir());
    cfg.games.insert("g".to_string(), GameConfig { id: "g".to_string(), ..Default::default() });
    assert!(!cfg.reads_games_dir());
    cfg.use_game_yaml = Some(true);
    assert!(cfg.reads_games_dir());
}

#[test]
fn parent_segments_are_found() {
    assert!(has_parent_dir(".."));
    assert!(has_parent_dir("a/../b"));
    assert!(!has_parent_dir("a/..b/c"));
    assert!(!has_parent_dir("a/b"));
}
