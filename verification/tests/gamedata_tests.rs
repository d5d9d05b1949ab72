use webtiles_rs::gamedata::{client_version, gamedata_route, same_player_name, GameDataRoute};

#[test]
fn client_version_hashes_path_and_version() {
    assert_eq!(client_version("/x/y", Some("abc123")), "c1b53bc1538694433bf9c6dd2f3578c16bd77a13");
    assert_eq!(client_version("/x/y", None), "1d639239fb80a95ba1fae3d143e47b61fd166a6c");
}

#[test]
fn gamedata_routes_by_first_segment() {
    match gamedata_route("abc/tiles/a.png") {
        GameDataRoute::Serve { version, path } => {
            assert_eq!(version, "abc");
            assert_eq!(path, "tiles/a.png");
        }
        _ => panic!("expected a file to serve"),
    }
    assert!(matches!(gamedata_route("abc"), GameDataRoute::NotFound));
    assert!(matches!(gamedata_route("abc/../secret"), GameDataRoute::BadRequest));
    assert!(matches!(gamedata_route("abc/x/.."), GameDataRoute::BadRequest));
    assert!(matches!(gamedata_route("abc/x/..y"), GameDataRoute::Serve { .. }));
}

#[test]
fn player_names_match_ignoring_case() {
    assert!(same_player_name("Alice", "aLICE"));
    assert!(!same_player_name("Alice", "Alicia"));
    assert!(!same_player_name("Ålice", "åLICE"));
}
