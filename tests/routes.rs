use ws_relay::routes::{route, Route};

#[test]
fn upgrade_paths() {
    assert_eq!(route("/ws"), Route::Upgrade);
    assert_eq!(route("/ws/"), Route::Upgrade);
    assert_eq!(route("/ws/room/7"), Route::Upgrade);
}

#[test]
fn random_bytes_path() {
    assert_eq!(route("/csprng"), Route::RandomBytes);
}

#[test]
fn other_paths_are_not_found() {
    assert_eq!(route("/"), Route::NotFound);
    assert_eq!(route(""), Route::NotFound);
    assert_eq!(route("/wsx"), Route::NotFound);
    assert_eq!(route("/csprng/"), Route::NotFound);
    assert_eq!(route("/w"), Route::NotFound);
}
