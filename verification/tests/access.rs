use webwiki::access::{
    auth_middleware, check_auth, check_page_path, grant_all, logout, require_auth,
    require_write_access, single_user_login, AuthUser, LoginRequest, Passage, USER_SESSION_KEY,
};

fn request(name: &str, password: &str) -> LoginRequest {
    LoginRequest { username: name.to_string(), password: password.to_string() }
}

#[test]
fn session_key_is_user() {
    assert_eq!(USER_SESSION_KEY, "user");
}

#[test]
fn open_paths_pass_without_a_user() {
    for path in ["/login", "/api/login", "/api/login/x", "/assets/", "/assets/app.css", "/favicon.ico"]
    {
        assert_eq!(auth_middleware(path, false), Passage::Proceed, "{}", path);
        assert_eq!(auth_middleware(path, true), Passage::Proceed, "{}", path);
    }
}

#[test]
fn signed_in_users_pass_everywhere() {
    for path in ["/", "/api/tree", "/wiki/default/index.md", "/assets", ""] {
        assert_eq!(auth_middleware(path, true), Passage::Proceed, "{}", path);
    }
}

#[test]
fn api_answers_401_and_pages_redirect() {
    assert_eq!(auth_middleware("/api/tree", false), Passage::Unauthorized);
    assert_eq!(auth_middleware("/api/", false), Passage::Unauthorized);
    assert_eq!(auth_middleware("/api/logi", false), Passage::Unauthorized);
    assert_eq!(auth_middleware("/", false), Passage::RedirectToLogin);
    assert_eq!(auth_middleware("/wiki/default/index.md", false), Passage::RedirectToLogin);
    assert_eq!(auth_middleware("/login/", false), Passage::RedirectToLogin);
    assert_eq!(auth_middleware("/assets", false), Passage::RedirectToLogin);
    assert_eq!(auth_middleware("/favicon.ico.bak", false), Passage::RedirectToLogin);
    assert_eq!(auth_middleware("/api", false), Passage::RedirectToLogin);
    assert_eq!(auth_middleware("", false), Passage::RedirectToLogin);
}

#[test]
fn status_codes() {
    assert_eq!(Passage::Proceed.status_code(), 200);
    assert_eq!(Passage::Unauthorized.status_code(), 401);
    assert_eq!(Passage::Forbidden.status_code(), 403);
    assert_eq!(Passage::RedirectToLogin.status_code(), 303);
    assert_eq!(Passage::ServerError.status_code(), 500);
}

#[test]
fn require_auth_needs_a_user() {
    assert_eq!(require_auth(true), Passage::Proceed);
    assert_eq!(require_auth(false), Passage::Unauthorized);
}

#[test]
fn write_access_needs_a_w() {
    assert_eq!(require_write_access(true, Some("rw")), Passage::Proceed);
    assert_eq!(require_write_access(true, Some("w")), Passage::Proceed);
    assert_eq!(require_write_access(true, Some("r")), Passage::Forbidden);
    assert_eq!(require_write_access(true, Some("")), Passage::Forbidden);
    assert_eq!(require_write_access(true, Some("W")), Passage::Forbidden);
    assert_eq!(require_write_access(true, None), Passage::Forbidden);
    assert_eq!(require_write_access(false, Some("rw")), Passage::Unauthorized);
    assert_eq!(require_write_access(false, None), Passage::Unauthorized);
}

#[test]
fn test_path_traversal() {
    assert_eq!(check_page_path("../secret"), Passage::Forbidden);
    assert_eq!(check_page_path("../secret").status_code(), 403);
    assert_eq!(check_page_path("a/../b"), Passage::Forbidden);
    assert_eq!(check_page_path("a..b"), Passage::Forbidden);
    assert_eq!(check_page_path(".."), Passage::Forbidden);
    assert_eq!(check_page_path("test.md"), Passage::Proceed);
    assert_eq!(check_page_path("folder/.hidden.md"), Passage::Proceed);
    assert_eq!(check_page_path(""), Passage::Proceed);
}

#[test]
fn single_user_login_answers() {
    assert_eq!(single_user_login(&request("admin", "pw"), None, Some("pw")), Passage::Proceed);
    assert_eq!(single_user_login(&request("root", "pw"), None, Some("pw")), Passage::Unauthorized);
    assert_eq!(
        single_user_login(&request("root", "pw"), Some("root"), Some("pw")),
        Passage::Proceed
    );
    assert_eq!(
        single_user_login(&request("admin", "pw"), Some("root"), Some("pw")),
        Passage::Unauthorized
    );
    assert_eq!(
        single_user_login(&request("admin", "pw "), None, Some("pw")),
        Passage::Unauthorized
    );
    assert_eq!(single_user_login(&request("admin", "pw"), None, None), Passage::ServerError);
    assert_eq!(
        single_user_login(&request("admin", ""), Some("admin"), None),
        Passage::ServerError
    );
}

#[test]
fn grant_all_gives_read_and_write_on_every_volume() {
    let volumes = vec!["default".to_string(), "work".to_string()];
    assert_eq!(
        grant_all(&volumes),
        vec![
            ("default".to_string(), "rw".to_string()),
            ("work".to_string(), "rw".to_string())
        ]
    );
    assert!(grant_all(&Vec::new()).is_empty());
}

#[test]
fn logout_and_check_auth_answers() {
    let (code, answer) = logout();
    assert_eq!((code, answer.success, answer.message.as_str()), (200, true, "Logged out"));
    let (code, answer) = check_auth(Some(AuthUser("ann".to_string())));
    assert_eq!((code, answer.success, answer.message.as_str()), (200, true, "ann"));
    let (code, answer) = check_auth(None);
    assert_eq!((code, answer.success, answer.message.as_str()), (401, false, "Not logged in"));
}
