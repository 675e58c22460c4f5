use rsweb::http::request::HTTPRequest;
use rsweb::route::{Route, Router};

#[test]
fn wildcard_route_redirects() {
    let mut router = Router::new("/index.html".to_string());
    router.route("/old/*".to_string(), "/new".to_string());
    match router.lookup("/old/x".to_string()) {
        Some(Route::Route(resp)) => {
            assert_eq!(
                resp.try_to_string().unwrap(),
                "HTTP/1.1 301 MOVED PERMANENTLY\r\nLocation: /new\r\nServer: rsweb/0.8.9\r\n\r\n"
            );
        }
        _ => panic!("expected a redirect"),
    }
}

#[test]
fn alias_without_matching_route() {
    let mut router = Router::new("/index.html".to_string());
    router.route("/old/*".to_string(), "/new".to_string());
    router.alias("/".to_string(), "/index.html".to_string());
    match router.lookup("/".to_string()) {
        Some(Route::Alias(target)) => assert_eq!(target, "/index.html"),
        _ => panic!("expected an alias"),
    }
}

#[test]
fn no_entry_matches() {
    let mut router = Router::new("/index.html".to_string());
    assert!(router.lookup("/".to_string()).is_none());
    router.route("/a".to_string(), "/b".to_string());
    router.alias("/c".to_string(), "/d".to_string());
    assert!(router.lookup("/e".to_string()).is_none());
    assert!(router.lookup("/a/".to_string()).is_none());
}

#[test]
fn route_comes_before_alias() {
    let mut router = Router::new("/index.html".to_string());
    router.alias("/x".to_string(), "/alias".to_string());
    router.route("/x".to_string(), "/route".to_string());
    assert!(matches!(router.lookup("/x".to_string()), Some(Route::Route(_))));
}

#[test]
fn last_writer_wins() {
    let mut router = Router::new("/index.html".to_string());
    router.alias("/p".to_string(), "/first".to_string());
    router.alias("/p".to_string(), "/second".to_string());
    match router.lookup("/p".to_string()) {
        Some(Route::Alias(target)) => assert_eq!(target, "/second"),
        _ => panic!("expected an alias"),
    }
}

#[test]
fn first_set_pattern_wins_a_tie() {
    let mut router = Router::new("/index.html".to_string());
    router.alias("/d/*".to_string(), "/one".to_string());
    router.alias("/d/f?".to_string(), "/two".to_string());
    router.alias("/d/*".to_string(), "/three".to_string());
    match router.lookup("/d/fx".to_string()) {
        Some(Route::Alias(target)) => assert_eq!(target, "/three"),
        _ => panic!("expected an alias"),
    }
}

#[test]
fn question_mark_stands_for_one_character() {
    let mut router = Router::new("/index.html".to_string());
    router.alias("/?".to_string(), "/one".to_string());
    assert!(router.lookup("/a".to_string()).is_some());
    assert!(router.lookup("/".to_string()).is_none());
    assert!(router.lookup("/ab".to_string()).is_none());
}

#[test]
fn star_stands_for_any_run() {
    let mut router = Router::new("/index.html".to_string());
    router.alias("*.png".to_string(), "/img".to_string());
    assert!(router.lookup(".png".to_string()).is_some());
    assert!(router.lookup("/a/b.png".to_string()).is_some());
    assert!(router.lookup("/a/b.pn".to_string()).is_none());
}

#[test]
fn router_copy_keeps_entries() {
    let mut router = Router::new("/index.html".to_string());
    router.alias("/".to_string(), "/index.html".to_string());
    let copy = router.clone();
    assert!(matches!(copy.lookup("/".to_string()), Some(Route::Alias(_))));
}

#[test]
fn request_path_feeds_the_router() {
    let mut router = Router::new("/index.html".to_string());
    router.route("/old/*".to_string(), "/new".to_string());
    let req = HTTPRequest::from_string("GET /old/page HTTP/1.1\r\n\r\n".to_string()).unwrap();
    assert!(matches!(router.lookup(req.get_path()), Some(Route::Route(_))));
}
