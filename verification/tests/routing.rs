use pastex::config::Config;
use pastex::config::SocketSpec;
use pastex::db::Data;
use pastex::handlers::RawParams;
use pastex::routes::Method;
use pastex::routes::Request;
use pastex::routes::Resource;
use pastex::routes::dispatch;

fn fresh_data() -> Data {
    Data::from_config(&Config {
        socket: SocketSpec { o1: 127, o2: 0, o3: 0, o4: 1, port: 8080 },
        seed: 0,
    })
}

fn no_params() -> RawParams {
    RawParams { id: None, pwd: None }
}

fn request(method: Method, path: &[&str]) -> Request {
    Request {
        method,
        path: path.iter().map(|s| (*s).to_owned()).collect(),
        query: no_params(),
        form: no_params(),
        upgrade: false,
    }
}

#[test]
fn post_root_empty_body_reaches_editor_with_fresh_id() {
    let mut data = fresh_data();
    let r = dispatch(request(Method::Post, &[]), &mut data);
    match r {
        Resource::EditorPage { id } => {
            assert_eq!(id.chars().count(), 5);
            assert!(id.chars().all(|c| c.is_ascii_alphanumeric()));
        },
        _ => panic!("POST / with an empty body must reach the editor page"),
    }
}

#[test]
fn get_editor_sentinel_is_not_found() {
    let mut data = fresh_data();
    let r = dispatch(request(Method::Get, &["e", "pwdtest"]), &mut data);
    assert!(matches!(r, Resource::NotFoundPage));
}

#[test]
fn get_editor_sentinel_query_password_is_still_not_found() {
    // The direct editor route hands the controller no password; a password in
    // the query string does not reach it, so the sentinel is still rejected.
    let mut data = fresh_data();
    let mut req = request(Method::Get, &["e", "pwdtest"]);
    req.query = RawParams { id: None, pwd: Some("Geronimo".to_owned()) };
    let r = dispatch(req, &mut data);
    assert!(matches!(r, Resource::NotFoundPage));
}

#[test]
fn get_editor_plain_id_reaches_editor() {
    let mut data = fresh_data();
    let r = dispatch(request(Method::Get, &["e", "ab1De"]), &mut data);
    match r {
        Resource::EditorPage { id } => assert_eq!(id, "ab1De"),
        _ => panic!("a plain identifier must reach the editor page"),
    }
}

#[test]
fn unmatched_route_is_not_found() {
    let mut data = fresh_data();
    let r = dispatch(request(Method::Get, &["nonexistent", "path"]), &mut data);
    assert!(matches!(r, Resource::NotFoundPage));
    assert_eq!(pastex::handlers::not_found(), "Page non trouv\u{e9}e");
}

#[test]
fn get_root_serves_index_with_prefill() {
    let mut data = fresh_data();
    let mut req = request(Method::Get, &[]);
    req.query = RawParams { id: Some("abcde".to_owned()), pwd: None };
    let r = dispatch(req, &mut data);
    match r {
        Resource::IndexPage { id_prefill } => assert_eq!(id_prefill, "abcde"),
        _ => panic!("GET / must serve the index page"),
    }
}

#[test]
fn get_root_without_query_serves_index_with_empty_prefill() {
    let mut data = fresh_data();
    let r = dispatch(request(Method::Get, &[]), &mut data);
    match r {
        Resource::IndexPage { id_prefill } => assert_eq!(id_prefill, ""),
        _ => panic!("GET / must serve the index page"),
    }
}

#[test]
fn post_root_with_sentinel_and_secret_reaches_editor() {
    let mut data = fresh_data();
    let mut req = request(Method::Post, &[]);
    req.form = RawParams { id: Some("pwdtest".to_owned()), pwd: Some("Geronimo".to_owned()) };
    let r = dispatch(req, &mut data);
    match r {
        Resource::EditorPage { id } => assert_eq!(id, "pwdtest"),
        _ => panic!("the sentinel with its secret must reach the editor page"),
    }
}

#[test]
fn post_root_with_sentinel_and_wrong_password_is_not_found() {
    let mut data = fresh_data();
    let mut req = request(Method::Post, &[]);
    req.form = RawParams { id: Some("pwdtest".to_owned()), pwd: Some("wrong".to_owned()) };
    let r = dispatch(req, &mut data);
    assert!(matches!(r, Resource::NotFoundPage));
}

#[test]
fn view_route_serves_placeholder() {
    let mut data = fresh_data();
    let r = dispatch(request(Method::Get, &["e", "ab1De", "view"]), &mut data);
    assert!(matches!(r, Resource::ViewStatus));
    assert_eq!(pastex::handlers::pdf_view(), "heyo let me compile");
}

#[test]
fn static_route_passes_tail_segments() {
    let mut data = fresh_data();
    let r = dispatch(request(Method::Get, &["static", "css", "main.css"]), &mut data);
    match r {
        Resource::StaticAsset { path } => assert_eq!(path, vec!["css".to_owned(), "main.css".to_owned()]),
        _ => panic!("GET /static/.. must serve a static asset"),
    }
}

#[test]
fn favicon_route_serves_favicon() {
    let mut data = fresh_data();
    let r = dispatch(request(Method::Get, &["favicon.ico"]), &mut data);
    assert!(matches!(r, Resource::Favicon));
}

#[test]
fn websocket_upgrade_at_root_reaches_echo() {
    let mut data = fresh_data();
    let mut req = request(Method::Get, &[]);
    req.upgrade = true;
    let r = dispatch(req, &mut data);
    assert!(matches!(r, Resource::EchoSocket));
}

#[test]
fn post_to_non_root_is_not_found() {
    let mut data = fresh_data();
    let r = dispatch(request(Method::Post, &["e", "abc"]), &mut data);
    assert!(matches!(r, Resource::NotFoundPage));
}
