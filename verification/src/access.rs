//! Who may pass: what stands in front of every request and of every change
//! to a volume, and the answers of the login endpoints.

use crate::auth::{password_matches, verify_password, User};
use crate::text::{begins_with, contains, contains_text, same_text, starts_with};
use vstd::prelude::*;

verus! {

/// The name under which the user is kept in a session.
pub const USER_SESSION_KEY: &'static str = "user";

/// A user who has signed in, by name.
pub struct AuthUser(pub String);

/// Name and password as a login sends them.
pub struct LoginRequest {
    pub username: String,
    pub password: String,
}

/// The answer of the login endpoints.
pub struct LoginResponse {
    pub success: bool,
    pub message: String,
}

/// What happens to a request before it is served.
#[derive(Clone, Copy, Debug, PartialEq, Eq, Structural)]
pub enum Passage {
    /// The request goes on.
    Proceed,
    /// The request is answered with 401.
    Unauthorized,
    /// The request is answered with 403.
    Forbidden,
    /// The request is sent to the login page.
    RedirectToLogin,
    /// The request is answered with 500.
    ServerError,
}

impl Passage {
    /// The status code with which a request is stopped; 200 where it goes
    /// on, 303 where it is sent to the login page.
    pub open spec fn code(self) -> u16 {
        match self {
            Passage::Proceed => 200,
            Passage::Unauthorized => 401,
            Passage::Forbidden => 403,
            Passage::RedirectToLogin => 303,
            Passage::ServerError => 500,
        }
    }

    /// Returns the status code with which the request is answered.
    pub fn status_code(self) -> (code: u16)
        ensures
            code == self.code(),
    {
        match self {
            Passage::Proceed => 200,
            Passage::Unauthorized => 401,
            Passage::Forbidden => 403,
            Passage::RedirectToLogin => 303,
            Passage::ServerError => 500,
        }
    }
}

/// Whether a path is open to everyone: the login page, the login endpoints,
/// the static assets and the site's icon.
pub open spec fn open_to_all(path: Seq<char>) -> bool {
    ||| path == "/login"@
    ||| begins_with(path, "/api/login"@)
    ||| begins_with(path, "/assets/"@)
    ||| path == "/favicon.ico"@
}

/// What happens to every request first: a path that is open to all and a
/// user who has signed in go on; anyone else gets 401 from the API and
/// is sent to the login page from everywhere else.
pub open spec fn passage_of(path: Seq<char>, signed_in: bool) -> Passage {
    if open_to_all(path) || signed_in {
        Passage::Proceed
    } else if begins_with(path, "/api/"@) {
        Passage::Unauthorized
    } else {
        Passage::RedirectToLogin
    }
}

/// Decides what happens to a request before anything else.
pub fn auth_middleware(path: &str, signed_in: bool) -> (passage: Passage)
    ensures
        passage == passage_of(path@, signed_in),
{
    if same_text(path, "/login") || starts_with(path, "/api/login") || starts_with(
        path,
        "/assets/",
    ) || same_text(path, "/favicon.ico") {
        return Passage::Proceed;
    }
    if signed_in {
        return Passage::Proceed;
    }
    if starts_with(path, "/api/") {
        return Passage::Unauthorized;
    }
    Passage::RedirectToLogin
}

/// Lets a request pass where a user has signed in.
pub fn require_auth(signed_in: bool) -> (passage: Passage)
    ensures
        passage == if signed_in {
            Passage::Proceed
        } else {
            Passage::Unauthorized
        },
{
    if signed_in {
        Passage::Proceed
    } else {
        Passage::Unauthorized
    }
}

/// What happens to a request that changes a volume: without a user it is
/// answered with 401; with one it passes where the user's permission for the
/// volume holds a `w`, and is answered with 403 where it does not or there is none.
pub open spec fn write_passage(signed_in: bool, permission: Option<&str>) -> Passage {
    if !signed_in {
        Passage::Unauthorized
    } else {
        match permission {
            Some(p) => if contains_text(p@, seq!['w']) {
                Passage::Proceed
            } else {
                Passage::Forbidden
            },
            None => Passage::Forbidden,
        }
    }
}

/// Decides whether a request may change a volume; `permission` is what the
/// user's session holds for that volume.
pub fn require_write_access(signed_in: bool, permission: Option<&str>) -> (passage: Passage)
    ensures
        passage == write_passage(signed_in, permission),
{
    if !signed_in {
        return Passage::Unauthorized;
    }
    match permission {
        Some(p) => {
            proof {
                reveal_strlit("w");
                assert("w"@ =~= seq!['w']);
            }
            if contains(p, "w") {
                Passage::Proceed
            } else {
                Passage::Forbidden
            }
        },
        None => Passage::Forbidden,
    }
}

/// What happens to a request for a page: a path that holds `..` is refused.
pub open spec fn page_passage(path: Seq<char>) -> Passage {
    if contains_text(path, seq!['.', '.']) {
        Passage::Forbidden
    } else {
        Passage::Proceed
    }
}

/// Decides whether a page may be asked for under a path.
pub fn check_page_path(path: &str) -> (passage: Passage)
    ensures
        passage == page_passage(path@),
{
    proof {
        reveal_strlit("..");
        assert(".."@ =~= seq!['.', '.']);
    }
    if contains(path, "..") {
        Passage::Forbidden
    } else {
        Passage::Proceed
    }
}

/// The name that a single configured user has: the configured one, or `admin`.
pub open spec fn expected_name(configured: Option<&str>) -> Seq<char> {
    match configured {
        Some(name) => name@,
        None => "admin"@,
    }
}

/// What a login against the one configured user does: without a configured
/// password it answers 500; with the right name and password it lets pass;
/// else it answers 401.
pub open spec fn single_user_passage(
    request: LoginRequest,
    configured_name: Option<&str>,
    configured_password: Option<&str>,
) -> Passage {
    match configured_password {
        None => Passage::ServerError,
        Some(password) => if request.username@ == expected_name(configured_name)
            && request.password@ == password@ {
            Passage::Proceed
        } else {
            Passage::Unauthorized
        },
    }
}

/// Decides a login against the one user of the process configuration.
pub fn single_user_login(
    request: &LoginRequest,
    configured_name: Option<&str>,
    configured_password: Option<&str>,
) -> (passage: Passage)
    ensures
        passage == single_user_passage(*request, configured_name, configured_password),
{
    let password = match configured_password {
        None => {
            return Passage::ServerError;
        },
        Some(password) => password,
    };
    let name = match configured_name {
        Some(name) => name,
        None => "admin",
    };
    if same_text(request.username.as_str(), name) && same_text(
        request.password.as_str(),
        password,
    ) {
        Passage::Proceed
    } else {
        Passage::Unauthorized
    }
}

/// Whether `permissions` gives read and write on each of `volumes`, in order.
pub open spec fn grants_all(permissions: Seq<(String, String)>, volumes: Seq<String>) -> bool {
    &&& permissions.len() == volumes.len()
    &&& forall|i: int|
        0 <= i < volumes.len() ==> (#[trigger] permissions[i]).0@ == volumes[i]@
            && permissions[i].1@ == "rw"@
}

/// Gives the one configured user read and write on every volume.
pub fn grant_all(volumes: &Vec<String>) -> (permissions: Vec<(String, String)>)
    ensures
        grants_all(permissions@, volumes@),
{
    let mut permissions: Vec<(String, String)> = Vec::new();
    let mut i: usize = 0;
    while i < volumes.len()
        invariant
            i <= volumes.len(),
            grants_all(permissions@, volumes@.take(i as int)),
        decreases volumes.len() - i,
    {
        permissions.push((volumes[i].clone(), "rw".to_string()));
        i += 1;
    }
    assert(volumes@.take(i as int) =~= volumes@);
    permissions
}

/// Whether the first user of that name, if there is one, has this password.
pub open spec fn accepted(users: Seq<User>, name: Seq<char>, password: Seq<char>) -> bool
    decreases users.len(),
{
    if users.len() == 0 {
        false
    } else if users[0].username@ == name {
        password_matches(password, users[0].password_hash@, users[0].salt@)
    } else {
        accepted(users.drop_first(), name, password)
    }
}

/// Checks name and password against the list of users.
pub fn authenticate(users: &Vec<User>, name: &str, password: &str) -> (good: bool)
    ensures
        good == accepted(users@, name@, password@),
{
    let mut i: usize = 0;
    assert(users@.skip(0) =~= users@);
    while i < users.len()
        invariant
            i <= users.len(),
            accepted(users@, name@, password@) == accepted(
                users@.skip(i as int),
                name@,
                password@,
            ),
        decreases users.len() - i,
    {
        let user = &users[i];
        if same_text(user.username.as_str(), name) {
            return verify_password(password, user.password_hash.as_str(), user.salt.as_str());
        }
        assert(users@.skip(i as int).drop_first() =~= users@.skip(i + 1));
        i += 1;
    }
    false
}

/// The answer to a login: 200 and `Logged in` where name and password were
/// accepted, else 401 and `Invalid credentials`.
pub fn login(users: &Vec<User>, request: &LoginRequest) -> (answer: (u16, LoginResponse))
    ensures
        answer.1.success == accepted(users@, request.username@, request.password@),
        answer.0 == if answer.1.success {
            200u16
        } else {
            401u16
        },
        answer.1.message@ == if answer.1.success {
            "Logged in"@
        } else {
            "Invalid credentials"@
        },
{
    if authenticate(users, request.username.as_str(), request.password.as_str()) {
        (200, LoginResponse { success: true, message: "Logged in".to_string() })
    } else {
        (401, LoginResponse { success: false, message: "Invalid credentials".to_string() })
    }
}

/// The answer to a logout: 200 and `Logged out`.
pub fn logout() -> (answer: (u16, LoginResponse))
    ensures
        answer.0 == 200,
        answer.1.success,
        answer.1.message@ == "Logged out"@,
{
    (200, LoginResponse { success: true, message: "Logged out".to_string() })
}

/// The answer to the question who is signed in: 200 and the user's name, or
/// 401 and `Not logged in`.
pub fn check_auth(user: Option<AuthUser>) -> (answer: (u16, LoginResponse))
    ensures
        match user {
            Some(known) => answer.0 == 200 && answer.1.success && answer.1.message@ == known.0@,
            None => answer.0 == 401 && !answer.1.success && answer.1.message@
                == "Not logged in"@,
        },
{
    match user {
        Some(known) => (200, LoginResponse { success: true, message: known.0 }),
        None => (401, LoginResponse { success: false, message: "Not logged in".to_string() }),
    }
}

} // verus!
