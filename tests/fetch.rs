use sealer_dashboard::catalog::{classify_response, get_image_list, FetchError, Image, RegistryCatalog};
use sealer_dashboard::route::{resolve, route_path, AppRoute};
use sealer_dashboard::store::{FetchStatus, Images, Msg};

fn names(v: &[&str]) -> Vec<String> {
    v.iter().map(|s| s.to_string()).collect()
}

fn catalog(v: &[&str]) -> RegistryCatalog {
    RegistryCatalog { repositories: names(v) }
}

#[test]
fn catalog_url_appends_path() {
    assert_eq!(get_image_list("https://localhost:5000"), "https://localhost:5000/v2/_catalog");
    assert_eq!(get_image_list(""), "/v2/_catalog");
}

#[test]
fn success_keeps_order() {
    let r = classify_response(200, Ok(catalog(&["redis", "alpine", "mysql"])));
    assert_eq!(r, Ok(names(&["redis", "alpine", "mysql"])));
}

#[test]
fn success_with_empty_catalog() {
    assert_eq!(classify_response(204, Ok(catalog(&[]))), Ok(Vec::new()));
}

#[test]
fn failing_status_is_error() {
    for s in [500u16, 404, 199, 300, 0, 65535] {
        let r = classify_response(s, Ok(catalog(&["redis"])));
        assert_eq!(r, Err(FetchError::HttpStatus(s)));
    }
    assert_eq!(classify_response(500, Err("bad".to_string())), Err(FetchError::HttpStatus(500)));
}

#[test]
fn success_edges() {
    assert!(classify_response(299, Ok(catalog(&["a"]))).is_ok());
    assert!(classify_response(200, Ok(catalog(&["a"]))).is_ok());
}

#[test]
fn malformed_body_is_decode_error() {
    let r = classify_response(200, Err("missing field `repositories`".to_string()));
    assert_eq!(r, Err(FetchError::Decode("missing field `repositories`".to_string())));
}

#[test]
fn error_messages() {
    assert_eq!(
        FetchError::Transport("connection refused".to_string()).message(),
        "could not reach the registry: connection refused"
    );
    assert_eq!(FetchError::HttpStatus(500).message(), "the registry answered with an error status");
    assert_eq!(FetchError::Decode(String::new()).message(), "the catalog response is malformed: ");
}

#[test]
fn store_starts_idle() {
    let s = Images::create();
    assert_eq!(*s.current_status(), FetchStatus::Idle);
    assert!(s.image_list().is_empty());
}

#[test]
fn begin_twice_starts_one_fetch() {
    let mut s = Images::create();
    let first = s.begin_fetch_if_idle("http://r");
    let second = s.begin_fetch_if_idle("http://r");
    assert_eq!(first, Some("http://r/v2/_catalog".to_string()));
    assert_eq!(second, None);
    assert_eq!(*s.current_status(), FetchStatus::Loading);
}

#[test]
fn success_scenario() {
    let mut s = Images::create();
    assert!(s.begin_fetch_if_idle("http://r").is_some());
    let outcome = classify_response(200, Ok(catalog(&["mysql", "redis"])));
    assert!(s.update(Msg::GetRegistryCatalog(outcome)));
    assert_eq!(*s.current_status(), FetchStatus::Succeeded(names(&["mysql", "redis"])));
    let entries = s.image_list();
    assert_eq!(entries, vec![Image::new("mysql".to_string()), Image::new("redis".to_string())]);
    let target = entries[1].route();
    assert_eq!(target, AppRoute::ImageDetail("redis".to_string()));
    assert_eq!(route_path(&target), "/images/redis");
    assert_eq!(resolve("/images/redis"), AppRoute::ImageDetail("redis".to_string()));
}

#[test]
fn failure_scenario() {
    let mut s = Images::create();
    assert!(s.begin_fetch_if_idle("http://r").is_some());
    let outcome = classify_response(500, Ok(catalog(&["stale"])));
    assert!(s.on_fetch_resolved(outcome));
    match s.current_status() {
        FetchStatus::Failed(m) => assert!(!m.is_empty()),
        other => panic!("expected a failure, got {:?}", other),
    }
    assert!(s.image_list().is_empty());
}

#[test]
fn transport_failure() {
    let mut s = Images::create();
    s.begin_fetch_if_idle("http://r");
    assert!(s.on_fetch_resolved(Err(FetchError::Transport("dns".to_string()))));
    assert_eq!(
        *s.current_status(),
        FetchStatus::Failed("could not reach the registry: dns".to_string())
    );
}

#[test]
fn outcome_ignored_unless_loading() {
    let mut s = Images::create();
    assert!(!s.on_fetch_resolved(Ok(names(&["a"]))));
    assert_eq!(*s.current_status(), FetchStatus::Idle);
    s.begin_fetch_if_idle("http://r");
    assert!(s.on_fetch_resolved(Ok(names(&["a"]))));
    assert!(!s.on_fetch_resolved(Err(FetchError::HttpStatus(500))));
    assert_eq!(*s.current_status(), FetchStatus::Succeeded(names(&["a"])));
    assert_eq!(s.begin_fetch_if_idle("http://r"), None);
    assert_eq!(*s.current_status(), FetchStatus::Succeeded(names(&["a"])));
}

#[test]
fn new_entry_has_empty_body() {
    let e = Image::new("busybox".to_string());
    assert_eq!(e.name, "busybox");
    assert!(e.body.is_empty());
}
