use pastex::config::Config;
use pastex::config::SocketSpec;
use pastex::db::Data;
use pastex::handlers::Credentials;
use pastex::handlers::Decision;
use pastex::handlers::RawParams;
use pastex::handlers::access_paste;
use pastex::handlers::editor_params;
use pastex::handlers::index_params;
use pastex::handlers::normalize;
use pastex::handlers::not_found;
use pastex::handlers::pdf_view;
use pastex::handlers::validate;

fn fresh_data() -> Data {
    Data::from_config(&Config {
        socket: SocketSpec { o1: 127, o2: 0, o3: 0, o4: 1, port: 8080 },
        seed: 0,
    })
}

fn creds(id: &str, pwd: Option<&str>) -> Credentials {
    Credentials { id: id.to_owned(), pwd: pwd.map(|p| p.to_owned()) }
}

#[test]
fn normalize_absent_id_becomes_empty() {
    let c = normalize(RawParams { id: None, pwd: None });
    assert_eq!(c.id, "");
    assert_eq!(c.pwd, None);
}

#[test]
fn normalize_passes_fields_through() {
    let c = normalize(RawParams { id: Some("abc".to_owned()), pwd: Some("p".to_owned()) });
    assert_eq!(c.id, "abc");
    assert_eq!(c.pwd, Some("p".to_owned()));
}

#[test]
fn empty_id_generates_and_authorizes() {
    let mut data = fresh_data();
    let d = access_paste(creds("", Some("whatever")), &mut data);
    match d {
        Decision::Authorized { id, pwd } => {
            assert_eq!(id.chars().count(), 5);
            assert!(id.chars().all(|c| c.is_ascii_alphanumeric()));
            assert_eq!(pwd, Some("whatever".to_owned()));
        },
        Decision::Rejected => panic!("empty id must be authorized"),
    }
}

#[test]
fn sentinel_with_secret_is_authorized() {
    let mut data = fresh_data();
    let d = access_paste(creds("pwdtest", Some("Geronimo")), &mut data);
    assert!(matches!(d, Decision::Authorized { .. }));
}

#[test]
fn sentinel_without_password_is_rejected() {
    let mut data = fresh_data();
    let d = access_paste(creds("pwdtest", None), &mut data);
    assert!(matches!(d, Decision::Rejected));
}

#[test]
fn sentinel_with_wrong_password_is_rejected() {
    let mut data = fresh_data();
    let d = access_paste(creds("pwdtest", Some("geronimo")), &mut data);
    assert!(matches!(d, Decision::Rejected));
}

#[test]
fn non_sentinel_is_authorized_whatever_the_password() {
    let mut data = fresh_data();
    for pwd in [None, Some("x"), Some("Geronimo")] {
        let d = access_paste(creds("hello", pwd), &mut data);
        match d {
            Decision::Authorized { id, .. } => assert_eq!(id, "hello"),
            Decision::Rejected => panic!("non-sentinel id must be authorized"),
        }
    }
}

#[test]
fn same_pair_twice_same_outcome() {
    let mut data = fresh_data();
    for (id, pwd) in [("pwdtest", None), ("pwdtest", Some("Geronimo")), ("other", Some("x"))] {
        let first = access_paste(creds(id, pwd), &mut data);
        let second = access_paste(creds(id, pwd), &mut data);
        assert_eq!(matches!(first, Decision::Rejected), matches!(second, Decision::Rejected));
        if let (Decision::Authorized { id: a, .. }, Decision::Authorized { id: b, .. }) = (
            first,
            second,
        ) {
            assert_eq!(a, b);
        }
    }
}

#[test]
fn validate_matches_gate() {
    assert!(!validate(&"pwdtest".to_owned(), &None));
    assert!(!validate(&"pwdtest".to_owned(), &Some("nope".to_owned())));
    assert!(validate(&"pwdtest".to_owned(), &Some("Geronimo".to_owned())));
    assert!(validate(&"anyid".to_owned(), &None));
}

#[test]
fn editor_params_hold_id_and_placeholder() {
    let pairs = editor_params("ab1De".to_owned());
    assert_eq!(pairs.len(), 2);
    assert_eq!(pairs[0].0, "id");
    assert_eq!(pairs[0].1, "ab1De");
    assert_eq!(pairs[1].0, "original_content");
    assert_eq!(pairs[1].1, r"\\begin{equation}\n\te^{i\\pi} + 1 = 0\n\\end{equation}");
}

#[test]
fn index_params_hold_prefill() {
    let pairs = index_params("xyz".to_owned());
    assert_eq!(pairs.len(), 1);
    assert_eq!(pairs[0].0, "id");
    assert_eq!(pairs[0].1, "xyz");
}

#[test]
fn fixed_bodies() {
    assert_eq!(not_found(), "Page non trouv\u{e9}e");
    assert_eq!(pdf_view(), "heyo let me compile");
}
