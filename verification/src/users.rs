//! Login accounts, their roles, and the decisions of the authentication and
//! user-management endpoints.

use vstd::prelude::*;
use vstd::utf8::encode_utf8;

use crate::ids::{hex_spec, new_id};
use crate::passwords::{hash_password, max_password_bytes, password_matches, verify_password};
use crate::text::{concat2, contains_seq, contains_str, eq_str};

verus! {

/// A login account: `role` is `"admin"` or `"member"`; `password_hash` is an
/// Argon2 PHC string.
#[derive(Debug)]
pub struct User {
    pub id: String,
    pub email: String,
    pub display_name: Option<String>,
    pub role: String,
    pub password_hash: String,
}

/// Whether the role text names an administrator.
pub open spec fn is_admin_role(role: Seq<char>) -> bool {
    role == "admin"@
}

impl User {
    /// Whether this account is an administrator.
    pub fn is_admin(&self) -> (r: bool)
        ensures
            r == is_admin_role(self.role@),
    {
        eq_str(self.role.as_str(), "admin")
    }
}

/// What a client may see of an account: never the password hash.
#[derive(Debug)]
pub struct UserView {
    pub id: String,
    pub email: String,
    pub display_name: Option<String>,
    pub role: String,
}

/// A copy of an optional string.
pub fn clone_opt(s: &Option<String>) -> (r: Option<String>)
    ensures
        r == *s,
{
    match s {
        Some(v) => Some(v.clone()),
        None => None,
    }
}

impl UserView {
    /// The public view of `u`.
    pub fn from_user(u: &User) -> (r: UserView)
        ensures
            r.id == u.id,
            r.email == u.email,
            r.display_name == u.display_name,
            r.role == u.role,
    {
        UserView {
            id: u.id.clone(),
            email: u.email.clone(),
            display_name: clone_opt(&u.display_name),
            role: u.role.clone(),
        }
    }
}

/// An error answer of the API: the HTTP status and the `error` text.
#[derive(Debug)]
pub struct ApiError {
    pub status: u16,
    pub message: String,
}

/// Whether `e` carries `status` and `message`.
pub open spec fn error_is(e: ApiError, status: u16, message: Seq<char>) -> bool {
    e.status == status && e.message@ == message
}

fn api_error(status: u16, message: &str) -> (e: ApiError)
    ensures
        error_is(e, status, message@),
{
    ApiError { status, message: message.to_owned() }
}

/// Why a request was turned away at an authentication check.
#[derive(Debug, Clone, Copy, PartialEq, Eq)]
pub enum Rejection {
    /// No valid session: 401.
    NotSignedIn,
    /// Signed in, but the route is for administrators: 403.
    AdminOnly,
}

impl Rejection {
    /// The HTTP status of the rejection.
    pub fn status(&self) -> (r: u16)
        ensures
            r == (match self {
                Rejection::NotSignedIn => 401u16,
                Rejection::AdminOnly => 403u16,
            }),
    {
        match self {
            Rejection::NotSignedIn => 401,
            Rejection::AdminOnly => 403,
        }
    }

    /// The `error` text of the rejection.
    pub fn message(&self) -> (r: String)
        ensures
            r@ == (match self {
                Rejection::NotSignedIn => "Not signed in"@,
                Rejection::AdminOnly => "Admin only"@,
            }),
    {
        match self {
            Rejection::NotSignedIn => "Not signed in".to_owned(),
            Rejection::AdminOnly => "Admin only".to_owned(),
        }
    }
}

/// The check in front of protected routes. `user` is the account the session
/// cookie resolves to, if any. Without one the request is refused as not
/// signed in; on an administrators' route a member is refused as admin-only;
/// otherwise the account passes.
pub fn authorize(user: Option<User>, admin_required: bool) -> (r: Result<User, Rejection>)
    ensures
        match user {
            None => r == Err::<User, Rejection>(Rejection::NotSignedIn),
            Some(u) => if admin_required && !is_admin_role(u.role@) {
                r == Err::<User, Rejection>(Rejection::AdminOnly)
            } else {
                r == Ok::<User, Rejection>(u)
            },
        },
{
    match user {
        None => Err(Rejection::NotSignedIn),
        Some(u) => {
            if admin_required && !u.is_admin() {
                Err(Rejection::AdminOnly)
            } else {
                Ok(u)
            }
        },
    }
}

/// The answer to a login: `found` is the account with the given e-mail, if
/// any. The account is let in only when the password matches its hash;
/// anything else is one and the same 401, so the answer does not tell
/// whether the e-mail exists.
pub fn check_login(found: Option<User>, password: &str) -> (r: Result<User, ApiError>)
    ensures
        match found {
            Some(u) => if password_matches(password@, u.password_hash@) {
                r == Ok::<User, ApiError>(u)
            } else {
                r matches Err(e) && error_is(e, 401, "Invalid email or password"@)
            },
            None => r matches Err(e) && error_is(e, 401, "Invalid email or password"@),
        },
{
    match found {
        Some(u) => {
            if verify_password(password, u.password_hash.as_str()) {
                Ok(u)
            } else {
                Err(api_error(401, "Invalid email or password"))
            }
        },
        None => Err(api_error(401, "Invalid email or password")),
    }
}

/// The role a new account gets: the requested one, `"member"` by default.
pub open spec fn requested_role(role: Option<String>) -> Seq<char> {
    match role {
        Some(r) => r@,
        None => "member"@,
    }
}

/// Whether a new password is too short: under 8 bytes.
pub open spec fn password_too_short(password: Seq<char>) -> bool {
    encode_utf8(password).len() < 8
}

/// What is wrong with a new account's role and password, if anything.
pub open spec fn new_user_problem(role: Seq<char>, password: Seq<char>) -> Option<Seq<char>> {
    if role != "admin"@ && role != "member"@ {
        Some("Invalid role"@)
    } else if password_too_short(password) {
        Some("Password must be at least 8 characters"@)
    } else {
        None
    }
}

/// The only rule on a new password is its length: a password is refused
/// exactly when it is under 8 bytes, however long it is otherwise; and a new
/// account with a known role is refused only for such a password.
pub proof fn law_password_rule_is_length_only(role: Seq<char>, password: Seq<char>)
    ensures
        password_too_short(password) <==> encode_utf8(password).len() < 8,
        (role == "admin"@ || role == "member"@) ==> (new_user_problem(role, password) is None
            <==> encode_utf8(password).len() >= 8),
        new_user_problem(role, password) is None ==> (role == "admin"@ || role == "member"@),
{
}

/// Checks a new password's length (at least 8 bytes).
pub fn check_new_password(password: &str) -> (r: Result<(), ApiError>)
    ensures
        r is Ok <==> encode_utf8(password@).len() >= 8,
        r is Ok <==> !password_too_short(password@),
        r matches Err(e) ==> error_is(e, 400, "Password must be at least 8 characters"@),
{
    if password.as_bytes().len() < 8 {
        Err(api_error(400, "Password must be at least 8 characters"))
    } else {
        Ok(())
    }
}

/// The account an administrator asks to create, with a fresh id and the
/// password hashed; or the 400 that refuses it (role first, then password).
pub fn new_user_record(
    email: String,
    password: &str,
    display_name: Option<String>,
    role: Option<String>,
) -> (r: Result<User, ApiError>)
    requires
        new_user_problem(requested_role(role), password@) is None ==> encode_utf8(password@).len()
            <= max_password_bytes(),
    ensures
        (requested_role(role) == "admin"@ || requested_role(role) == "member"@) && encode_utf8(
            password@,
        ).len() >= 8 ==> r is Ok,
        match r {
            Err(e) => e.status == 400 && new_user_problem(requested_role(role), password@) == Some(
                e.message@,
            ),
            Ok(u) => {
                &&& new_user_problem(requested_role(role), password@) is None
                &&& encode_utf8(password@).len() >= 8
                &&& u.email == email
                &&& u.display_name == display_name
                &&& u.role@ == requested_role(role)
                &&& password_matches(password@, u.password_hash@)
                &&& exists|b: Seq<u8>| b.len() == 16 && u.id@ == hex_spec(b)
            },
        },
{
    let role_text = match role {
        Some(r) => r,
        None => "member".to_owned(),
    };
    if !eq_str(role_text.as_str(), "admin") && !eq_str(role_text.as_str(), "member") {
        return Err(api_error(400, "Invalid role"));
    }
    if let Err(e) = check_new_password(password) {
        return Err(e);
    }
    let id = new_id();
    let password_hash = hash_password(password);
    Ok(User { id, email, display_name, role: role_text, password_hash })
}

/// The `error` text when the database refuses a new account: a clash on the
/// unique e-mail is told as such, anything else is passed on.
pub open spec fn create_user_error_text(db_message: Seq<char>) -> Seq<char> {
    if contains_seq(db_message, "UNIQUE"@) {
        "A user with that email already exists"@
    } else {
        "Failed to create user: "@ + db_message
    }
}

/// The 400 answer when inserting a new account fails with `db_message`.
pub fn create_user_error(db_message: &str) -> (r: ApiError)
    ensures
        error_is(r, 400, create_user_error_text(db_message@)),
{
    if contains_str(db_message, "UNIQUE") {
        api_error(400, "A user with that email already exists")
    } else {
        ApiError { status: 400, message: concat2("Failed to create user: ", db_message) }
    }
}

/// An administrator may delete any account but their own.
pub fn check_delete_user(target_id: &str, admin: &User) -> (r: Result<(), ApiError>)
    ensures
        r is Ok <==> target_id@ != admin.id@,
        r matches Err(e) ==> error_is(e, 400, "You cannot delete your own account"@),
{
    if eq_str(target_id, admin.id.as_str()) {
        Err(api_error(400, "You cannot delete your own account"))
    } else {
        Ok(())
    }
}

/// The bootstrap administrator's credentials: both given and non-empty.
pub fn bootstrap_credentials(email: Option<String>, password: Option<String>) -> (r: Option<
    (String, String),
>)
    ensures
        match (email, password) {
            (Some(e), Some(p)) => if e@.len() > 0 && p@.len() > 0 {
                r == Some((e, p))
            } else {
                r is None
            },
            _ => r is None,
        },
{
    match (email, password) {
        (Some(e), Some(p)) => {
            if !e.as_str().is_empty() && !p.as_str().is_empty() {
                Some((e, p))
            } else {
                None
            }
        },
        _ => None,
    }
}

/// The bootstrap administrator account: a fresh id, the given e-mail, no
/// display name, role `"admin"`, the password hashed.
pub fn admin_account(email: String, password: &str) -> (u: User)
    requires
        encode_utf8(password@).len() <= max_password_bytes(),
    ensures
        u.email == email,
        u.display_name is None,
        is_admin_role(u.role@),
        password_matches(password@, u.password_hash@),
        exists|b: Seq<u8>| b.len() == 16 && u.id@ == hex_spec(b),
{
    let id = new_id();
    let password_hash = hash_password(password);
    User { id, email, display_name: None, role: "admin".to_owned(), password_hash }
}

} // verus!
