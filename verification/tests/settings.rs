use rsweb::cli::{Arguments, Invocation};
use rsweb::config::{log_file, parse_alias, parse_route, thread_count, Resource};
use rsweb::error::ServerError;
use rsweb::log::{file_entry, label_of, LogType};
use rsweb::route::Route;

fn words(list: &[&str]) -> Vec<String> {
    list.iter().map(|w| w.to_string()).collect()
}

fn resources() -> Resource {
    Resource {
        root: ".".to_string(),
        index: None,
        routes: None,
        aliases: None,
        resource_cache: None,
        cache_capacity: None,
        notfound_page: None,
    }
}

#[test]
fn route_entries() {
    assert_eq!(
        parse_route("/old:/new"),
        Some(("/old".to_string(), "/new".to_string()))
    );
    assert_eq!(
        parse_route("/old:http://example.org"),
        Some(("/old".to_string(), "http://example.org".to_string()))
    );
    assert_eq!(parse_route("/old"), None);
    assert_eq!(parse_route(":/new"), None);
    assert_eq!(parse_route("/old:"), None);
    assert_eq!(parse_route(""), None);
}

#[test]
fn alias_entries() {
    assert_eq!(
        parse_alias("/:/index.html"),
        Some(("/".to_string(), "/index.html".to_string()))
    );
    assert_eq!(
        parse_alias("/a:/b:/c"),
        Some(("/a".to_string(), "/b".to_string()))
    );
    assert_eq!(parse_alias("/a"), None);
    assert_eq!(parse_alias(":/b"), None);
    assert_eq!(parse_alias("/a:"), None);
    assert_eq!(parse_alias("/a::/c"), None);
}

#[test]
fn defaults() {
    assert_eq!(thread_count(None), 4);
    assert_eq!(thread_count(Some(9)), 9);
    assert_eq!(log_file(&None, &None), "/var/log/rsweb/latest.log");
    assert_eq!(log_file(&None, &Some("b.log".to_string())), "b.log");
    assert_eq!(
        log_file(&Some("a.log".to_string()), &Some("b.log".to_string())),
        "a.log"
    );
    let r = resources();
    assert_eq!(r.index_page(), "/index.html");
    assert!(r.uses_cache());
    assert_eq!(r.capacity(), 10);
    let mut set = resources();
    set.index = Some("/home.html".to_string());
    set.resource_cache = Some(false);
    set.cache_capacity = Some(3);
    assert_eq!(set.index_page(), "/home.html");
    assert!(!set.uses_cache());
    assert_eq!(set.capacity(), 3);
}

#[test]
fn router_of_settings() {
    let mut r = resources();
    r.routes = Some(words(&["/old/*:/new", "broken", "/old/*:/newer"]));
    r.aliases = Some(words(&["/:/index.html", ":/x"]));
    let router = r.router();
    match router.lookup("/old/a".to_string()) {
        Some(Route::Route(resp)) => {
            assert!(resp
                .try_to_string()
                .unwrap()
                .contains("\r\nLocation: /newer\r\n"));
        }
        _ => panic!("expected a redirect"),
    }
    match router.lookup("/".to_string()) {
        Some(Route::Alias(t)) => assert_eq!(t, "/index.html"),
        _ => panic!("expected an alias"),
    }
    assert!(router.lookup("broken".to_string()).is_none());
}

#[test]
fn command_line_options() {
    match Arguments::load(&words(&["rsweb", "-l", "out.log", "--config", "c.toml"])) {
        Invocation::Run(a) => {
            assert_eq!(a.logfile, Some("out.log".to_string()));
            assert_eq!(a.configfile, Some("c.toml".to_string()));
            assert_eq!(a.config_path(), "c.toml");
        }
        _ => panic!("expected a run"),
    }
    match Arguments::load(&words(&["rsweb"])) {
        Invocation::Run(a) => {
            assert_eq!(a.logfile, None);
            assert_eq!(a.config_path(), "/etc/rsweb/rsweb.config.toml");
        }
        _ => panic!("expected a run"),
    }
    match Arguments::load(&words(&["rsweb", "-c", "one", "-c", "two", "other"])) {
        Invocation::Run(a) => assert_eq!(a.configfile, Some("two".to_string())),
        _ => panic!("expected a run"),
    }
}

#[test]
fn command_line_exits() {
    let help = Arguments::load(&words(&["rsweb", "--help", "-l"]));
    assert!(matches!(help, Invocation::Help));
    assert_eq!(help.exit_code(), Some(0));
    let version = Arguments::load(&words(&["rsweb", "-v"]));
    assert!(matches!(version, Invocation::Version));
    assert_eq!(version.exit_code(), Some(0));
    let no_log = Arguments::load(&words(&["rsweb", "-l"]));
    assert!(matches!(no_log, Invocation::MissingLogfile));
    assert_eq!(no_log.exit_code(), Some(1));
    let no_conf = Arguments::load(&words(&["rsweb", "-l", "-c", "--config"]));
    assert!(matches!(no_conf, Invocation::MissingConfig));
    assert_eq!(no_conf.exit_code(), Some(1));
    let run = Arguments::load(&words(&["rsweb", "-l", "-h"]));
    assert!(matches!(run, Invocation::Run(_)));
    assert_eq!(run.exit_code(), None);
}

#[test]
fn server_error_message() {
    let e = ServerError::new("error creating SSL Acceptor");
    assert_eq!(e.to_string(), "error creating SSL Acceptor");
}

#[test]
fn log_lines() {
    assert_eq!(
        file_entry("01-02-2024 10:00:00", LogType::Warning, "slow"),
        "[01-02-2024 10:00:00]: Warning: slow\n"
    );
    assert_eq!(
        file_entry("t", LogType::Error, "failed to read from stream"),
        "[t]: Error: failed to read from stream\n"
    );
    assert_eq!(file_entry("t", LogType::Log, "request: GET /"), "[t]: request: GET /\n");
    assert_eq!(label_of(LogType::Log), "");
}
