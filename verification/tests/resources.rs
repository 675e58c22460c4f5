use rsweb::http::MimeType;
use rsweb::resource::{
    mime_for_extension, mime_for_path, LoadAction, LoadEvent, LoadStage, Resource, ResourceLoader,
};
use std::time::{Duration, SystemTime, UNIX_EPOCH};

#[test]
fn resource_of_parts() {
    let at = UNIX_EPOCH + Duration::from_secs(5);
    let r = Resource::new(vec![1, 2], "a.bin".to_string(), at, MimeType::Png);
    assert_eq!(r.get_content(), vec![1, 2]);
    assert_eq!(r.get_path(), "a.bin");
    assert_eq!(r.get_accessed(), at);
    assert!(matches!(r.get_mime(), MimeType::Png));
}

#[test]
fn mime_by_extension() {
    assert!(matches!(mime_for_path("index.html"), MimeType::Html));
    assert!(matches!(mime_for_path("a/b/page.htm"), MimeType::Html));
    assert!(matches!(mime_for_path("app.js"), MimeType::Javascript));
    assert!(matches!(mime_for_path("style.css"), MimeType::Css));
    assert!(matches!(mime_for_path("p.jpeg"), MimeType::Jpeg));
    assert!(matches!(mime_for_path("p.jpg"), MimeType::Jpeg));
    assert!(matches!(mime_for_path("p.png"), MimeType::Png));
    assert!(matches!(mime_for_path("d.pdf"), MimeType::Pdf));
    assert!(matches!(mime_for_path("t.txt"), MimeType::Plaintext));
    assert!(matches!(mime_for_path("archive.tar.gz"), MimeType::Plaintext));
    assert!(matches!(mime_for_path("noextension"), MimeType::Plaintext));
    assert!(matches!(mime_for_path(".html"), MimeType::Plaintext));
    assert!(matches!(mime_for_path("html"), MimeType::Plaintext));
    assert!(matches!(mime_for_extension(&None), MimeType::Plaintext));
    assert!(matches!(
        mime_for_extension(&Some("HTML".to_string())),
        MimeType::Plaintext
    ));
}

#[test]
fn file_resource_takes_type_from_path() {
    let r = Resource::load("site/index.html".to_string(), b"<p>".to_vec(), SystemTime::now());
    assert!(matches!(r.get_mime(), MimeType::Html));
    assert_eq!(r.get_path(), "site/index.html");
    assert_eq!(r.get_content(), b"<p>".to_vec());
}

#[test]
fn load_without_cache_reads_the_file() {
    let mut loader = ResourceLoader::new(10, ".".to_string(), false);
    assert!(!loader.uses_cache());
    assert_eq!(loader.root(), ".");
    let state = ResourceLoader::begin("a.txt".to_string());
    let (state, action) = loader.load(state, LoadEvent::Begin);
    assert_eq!(state.stage, LoadStage::Reading);
    assert!(matches!(action, LoadAction::ReadFile { ref path } if path == "a.txt"));
    let (state, action) = loader.load(
        state,
        LoadEvent::File(Some((b"content".to_vec(), SystemTime::now()))),
    );
    assert_eq!(state.stage, LoadStage::Finished);
    match action {
        LoadAction::Return(Some(res)) => {
            assert_eq!(res.get_content(), b"content".to_vec());
            assert!(matches!(res.get_mime(), MimeType::Plaintext));
        }
        _ => panic!("expected a resource"),
    }
}

#[test]
fn load_of_a_missing_file_is_a_miss() {
    let mut loader = ResourceLoader::new(10, ".".to_string(), true);
    let state = ResourceLoader::begin("gone.html".to_string());
    let (state, _) = loader.load(state, LoadEvent::Begin);
    let (state, action) = loader.load(state, LoadEvent::File(None));
    assert_eq!(state.stage, LoadStage::Finished);
    assert!(matches!(action, LoadAction::Return(None)));
}

#[test]
fn load_does_not_fill_the_cache() {
    let mut loader = ResourceLoader::new(10, ".".to_string(), true);
    let state = ResourceLoader::begin("a.txt".to_string());
    let (state, _) = loader.load(state, LoadEvent::Begin);
    let _ = loader.load(state, LoadEvent::File(Some((b"one".to_vec(), SystemTime::now()))));
    let state = ResourceLoader::begin("a.txt".to_string());
    let (state, action) = loader.load(state, LoadEvent::Begin);
    assert_eq!(state.stage, LoadStage::Reading);
    assert!(matches!(action, LoadAction::ReadFile { .. }));
}

#[test]
fn preload_fills_the_cache() {
    let mut loader = ResourceLoader::new(10, ".".to_string(), true);
    let at = UNIX_EPOCH + Duration::from_secs(100);
    let text = loader.preload("index.html".to_string(), Some((b"<h1>hi</h1>".to_vec(), at)));
    assert_eq!(text, "<h1>hi</h1>");
    let state = ResourceLoader::begin("index.html".to_string());
    let (state, action) = loader.load(state, LoadEvent::Begin);
    assert_eq!(state.stage, LoadStage::Checking);
    match action {
        LoadAction::MeasureAges { path, accessed } => {
            assert_eq!(path, "index.html");
            assert_eq!(accessed, at);
        }
        _ => panic!("expected a question for the ages"),
    }
}

#[test]
fn preload_without_cache_or_file_or_text() {
    let mut off = ResourceLoader::new(10, ".".to_string(), false);
    assert_eq!(
        off.preload("a".to_string(), Some((b"x".to_vec(), SystemTime::now()))),
        ""
    );
    let mut on = ResourceLoader::new(10, ".".to_string(), true);
    assert_eq!(on.preload("a".to_string(), None), "");
    assert_eq!(
        on.preload("a".to_string(), Some((vec![0xff], SystemTime::now()))),
        ""
    );
    let state = ResourceLoader::begin("a".to_string());
    let (state, _) = on.load(state, LoadEvent::Begin);
    assert_eq!(state.stage, LoadStage::Reading);
}

#[test]
fn fresh_entry_is_served_from_the_cache() {
    let mut loader = ResourceLoader::new(10, ".".to_string(), true);
    loader.preload("p.html".to_string(), Some((b"old".to_vec(), SystemTime::now())));
    let state = ResourceLoader::begin("p.html".to_string());
    let (state, _) = loader.load(state, LoadEvent::Begin);
    let (state, action) = loader.load(state, LoadEvent::Ages(Some((500, 100))));
    assert_eq!(state.stage, LoadStage::Finished);
    match action {
        LoadAction::Return(Some(res)) => assert_eq!(res.get_content(), b"old".to_vec()),
        _ => panic!("expected the cached entry"),
    }
}

#[test]
fn equal_ages_count_as_fresh() {
    let mut loader = ResourceLoader::new(10, ".".to_string(), true);
    loader.preload("p.html".to_string(), Some((b"old".to_vec(), SystemTime::now())));
    let state = ResourceLoader::begin("p.html".to_string());
    let (state, _) = loader.load(state, LoadEvent::Begin);
    let (_, action) = loader.load(state, LoadEvent::Ages(Some((100, 100))));
    assert!(matches!(action, LoadAction::Return(Some(_))));
}

#[test]
fn stale_entry_is_reloaded_and_replaced() {
    let mut loader = ResourceLoader::new(10, ".".to_string(), true);
    loader.preload("p.html".to_string(), Some((b"old".to_vec(), SystemTime::now())));
    let state = ResourceLoader::begin("p.html".to_string());
    let (state, _) = loader.load(state, LoadEvent::Begin);
    let (state, action) = loader.load(state, LoadEvent::Ages(Some((100, 500))));
    assert_eq!(state.stage, LoadStage::Reloading);
    assert!(matches!(action, LoadAction::ReadFile { ref path } if path == "p.html"));
    let (state, action) = loader.load(
        state,
        LoadEvent::File(Some((b"new".to_vec(), SystemTime::now()))),
    );
    assert_eq!(state.stage, LoadStage::Finished);
    match action {
        LoadAction::Return(Some(res)) => assert_eq!(res.get_content(), b"new".to_vec()),
        _ => panic!("expected the new content"),
    }
    let state = ResourceLoader::begin("p.html".to_string());
    let (state, _) = loader.load(state, LoadEvent::Begin);
    let (_, action) = loader.load(state, LoadEvent::Ages(Some((500, 100))));
    match action {
        LoadAction::Return(Some(res)) => assert_eq!(res.get_content(), b"new".to_vec()),
        _ => panic!("expected the replaced entry"),
    }
}

#[test]
fn stale_entry_with_unreadable_file_is_a_miss() {
    let mut loader = ResourceLoader::new(10, ".".to_string(), true);
    loader.preload("p.html".to_string(), Some((b"old".to_vec(), SystemTime::now())));
    let state = ResourceLoader::begin("p.html".to_string());
    let (state, _) = loader.load(state, LoadEvent::Begin);
    let (state, _) = loader.load(state, LoadEvent::Ages(Some((1, 2))));
    let (_, action) = loader.load(state, LoadEvent::File(None));
    assert!(matches!(action, LoadAction::Return(None)));
    let state = ResourceLoader::begin("p.html".to_string());
    let (state, _) = loader.load(state, LoadEvent::Begin);
    let (_, action) = loader.load(state, LoadEvent::Ages(None));
    match action {
        LoadAction::Return(Some(res)) => assert_eq!(res.get_content(), b"old".to_vec()),
        _ => panic!("expected the old entry"),
    }
}

#[test]
fn unasked_event_ends_the_load() {
    let mut loader = ResourceLoader::new(10, ".".to_string(), true);
    let state = ResourceLoader::begin("x".to_string());
    let (state, action) = loader.load(state, LoadEvent::Ages(Some((1, 2))));
    assert_eq!(state.stage, LoadStage::Finished);
    assert!(matches!(action, LoadAction::Return(None)));
    let (state, action) = loader.load(state, LoadEvent::Begin);
    assert_eq!(state.stage, LoadStage::Finished);
    assert!(matches!(action, LoadAction::Return(None)));
}
