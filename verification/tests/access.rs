use velo::mailboxes::{
    all_with_creds, can_access, resolve_imap, resolve_imap_checked, resolve_smtp,
    resolve_smtp_checked, row_to_creds, visible_mailboxes, MailboxRow,
};
use velo::passwords::{hash_password, verify_password};
use velo::secret::encrypt;
use velo::users::{
    admin_account, authorize, bootstrap_credentials, check_delete_user, check_login,
    check_new_password, create_user_error, new_user_record, Rejection, User, UserView,
};

fn user(id: &str, role: &str) -> User {
    User {
        id: id.to_string(),
        email: format!("{id}@example.com"),
        display_name: None,
        role: role.to_string(),
        password_hash: String::new(),
    }
}

const KEY: [u8; 32] = [9u8; 32];

fn row(id: &str, owner: &str, password: &str) -> MailboxRow {
    MailboxRow {
        id: id.to_string(),
        owner_user_id: owner.to_string(),
        email: format!("{id}@mail.example.com"),
        display_name: Some("Box".to_string()),
        imap_host: "imap.example.com".to_string(),
        imap_port: 993,
        imap_security: "tls".to_string(),
        smtp_host: "smtp.example.com".to_string(),
        smtp_port: 465,
        smtp_security: "tls".to_string(),
        username: None,
        password_enc: encrypt(&KEY, password),
        accept_invalid_certs: 1,
    }
}

#[test]
fn is_admin_reads_the_role() {
    assert!(user("a", "admin").is_admin());
    assert!(!user("m", "member").is_admin());
    assert!(!user("x", "Admin").is_admin());
}

#[test]
fn gate_rejects_as_documented() {
    assert_eq!(authorize(None, false).unwrap_err(), Rejection::NotSignedIn);
    assert_eq!(authorize(None, true).unwrap_err(), Rejection::NotSignedIn);
    assert_eq!(authorize(Some(user("m", "member")), true).unwrap_err(), Rejection::AdminOnly);
    assert_eq!(authorize(Some(user("m", "member")), false).unwrap().id, "m");
    assert_eq!(authorize(Some(user("a", "admin")), true).unwrap().id, "a");
    assert_eq!(Rejection::NotSignedIn.status(), 401);
    assert_eq!(Rejection::AdminOnly.status(), 403);
    assert_eq!(Rejection::NotSignedIn.message(), "Not signed in");
    assert_eq!(Rejection::AdminOnly.message(), "Admin only");
}

#[test]
fn passwords_hash_and_verify() {
    let h = hash_password("admin-pass-123");
    assert_ne!(h, "admin-pass-123");
    assert!(h.starts_with("$argon2"));
    assert!(verify_password("admin-pass-123", &h));
    assert!(!verify_password("wrong", &h));
    assert!(!verify_password("admin-pass-123", "not a phc string"));
}

#[test]
fn login_checks_password() {
    let mut u = user("a", "admin");
    u.password_hash = hash_password("admin-pass-123");
    let ok = check_login(Some(u), "admin-pass-123").unwrap();
    assert_eq!(ok.id, "a");
    let mut u = user("a", "admin");
    u.password_hash = hash_password("admin-pass-123");
    let e = check_login(Some(u), "wrong").unwrap_err();
    assert_eq!((e.status, e.message.as_str()), (401, "Invalid email or password"));
    let e = check_login(None, "whatever").unwrap_err();
    assert_eq!((e.status, e.message.as_str()), (401, "Invalid email or password"));
}

#[test]
fn new_users_are_validated() {
    let u = new_user_record("mark@example.com".to_string(), "mark-pass-123", None, None).unwrap();
    assert_eq!(u.role, "member");
    assert_eq!(u.email, "mark@example.com");
    assert_eq!(u.id.len(), 32);
    assert!(verify_password("mark-pass-123", &u.password_hash));
    let a = new_user_record("b@x".to_string(), "12345678", Some("B".to_string()), Some("admin".to_string())).unwrap();
    assert_eq!(a.role, "admin");
    assert_eq!(a.display_name.as_deref(), Some("B"));
    let e = new_user_record("c@x".to_string(), "short", None, Some("owner".to_string())).unwrap_err();
    assert_eq!((e.status, e.message.as_str()), (400, "Invalid role"));
    let e = new_user_record("c@x".to_string(), "short", None, None).unwrap_err();
    assert_eq!((e.status, e.message.as_str()), (400, "Password must be at least 8 characters"));
    assert!(check_new_password("1234567").is_err());
    assert!(check_new_password("12345678").is_ok());
    // Eight bytes, four characters.
    assert!(check_new_password("éééé").is_ok());
}

#[test]
fn create_errors_are_worded() {
    assert_eq!(
        create_user_error("UNIQUE constraint failed: users.email").message,
        "A user with that email already exists"
    );
    let e = create_user_error("disk I/O error");
    assert_eq!(e.status, 400);
    assert_eq!(e.message, "Failed to create user: disk I/O error");
}

#[test]
fn admins_cannot_delete_themselves() {
    let a = user("a", "admin");
    let e = check_delete_user("a", &a).unwrap_err();
    assert_eq!((e.status, e.message.as_str()), (400, "You cannot delete your own account"));
    assert!(check_delete_user("b", &a).is_ok());
}

#[test]
fn bootstrap_needs_both_values() {
    assert_eq!(
        bootstrap_credentials(Some("a@x".to_string()), Some("pw".to_string())),
        Some(("a@x".to_string(), "pw".to_string()))
    );
    assert_eq!(bootstrap_credentials(Some("".to_string()), Some("pw".to_string())), None);
    assert_eq!(bootstrap_credentials(Some("a@x".to_string()), None), None);
    let admin = admin_account("admin@example.com".to_string(), "admin-pass-123");
    assert!(admin.is_admin());
    assert_eq!(admin.display_name, None);
    assert!(verify_password("admin-pass-123", &admin.password_hash));
}

#[test]
fn user_view_drops_the_hash() {
    let mut u = user("a", "admin");
    u.password_hash = "secret".to_string();
    let v = UserView::from_user(&u);
    assert_eq!((v.id.as_str(), v.role.as_str(), v.email.as_str()), ("a", "admin", "a@example.com"));
}

#[test]
fn members_see_only_their_own_mailboxes() {
    let rows = vec![row("m1", "mark", "p1"), row("m2", "ann", "p2"), row("m3", "mark", "p3")];
    let mark = user("mark", "member");
    let seen: Vec<String> = visible_mailboxes(&mark, &rows).into_iter().map(|v| v.id).collect();
    assert_eq!(seen, vec!["m1".to_string(), "m3".to_string()]);
    let admin = user("root", "admin");
    let seen: Vec<String> = visible_mailboxes(&admin, &rows).into_iter().map(|v| v.id).collect();
    assert_eq!(seen, vec!["m1".to_string(), "m2".to_string(), "m3".to_string()]);
    assert!(can_access(&mark, &rows[0]));
    assert!(!can_access(&mark, &rows[1]));
    let v = &visible_mailboxes(&mark, &rows)[0];
    assert!(v.accept_invalid_certs);
    assert_eq!(v.imap_port, 993);
}

#[test]
fn resolving_enforces_ownership() {
    let mark = user("mark", "member");
    assert_eq!(resolve_imap(&mark, None, &KEY).unwrap_err(), "Mailbox not found");
    assert_eq!(
        resolve_imap(&mark, Some(row("m2", "ann", "p2")), &KEY).unwrap_err(),
        "Not authorized for this mailbox"
    );
    let c = resolve_imap(&mark, Some(row("m1", "mark", "secret-1")), &KEY).unwrap();
    assert_eq!(c.password, "secret-1");
    assert_eq!(c.username, "m1@mail.example.com");
    assert_eq!(c.auth_method, "password");
    assert_eq!(c.port, 993);
    let admin = user("root", "admin");
    let s = resolve_smtp(&admin, Some(row("m2", "ann", "p2")), &KEY).unwrap();
    assert_eq!(s.password, "p2");
    assert_eq!(s.port, 465);
    assert_eq!(s.host, "smtp.example.com");
    assert_eq!(
        resolve_smtp(&mark, Some(row("m2", "ann", "p2")), &KEY).unwrap_err(),
        "Not authorized for this mailbox"
    );
}

#[test]
fn checked_resolution_flags_bad_nonces() {
    let mark = user("mark", "member");
    let mut bad = row("m1", "mark", "p");
    bad.password_enc = "AAAA:AAAA".to_string();
    assert!(resolve_imap_checked(&mark, Some(bad), &KEY).is_none());
    let mut bad = row("m2", "ann", "p");
    bad.password_enc = "AAAA:AAAA".to_string();
    // Refused before the password is opened.
    assert_eq!(
        resolve_smtp_checked(&mark, Some(bad), &KEY).unwrap().unwrap_err(),
        "Not authorized for this mailbox"
    );
}

#[test]
fn creds_use_username_and_skip_unopenable_rows() {
    let mut r1 = row("m1", "mark", "p1");
    r1.username = Some("login1".to_string());
    r1.imap_port = 70000; // truncated to u16 as the stored value is cast
    let r2 = MailboxRow { password_enc: encrypt(&[1u8; 32], "other key"), ..row("m2", "ann", "x") };
    let c = row_to_creds(&r1, &KEY).unwrap();
    assert_eq!(c.imap.username, "login1");
    assert_eq!(c.smtp.username, "login1");
    assert_eq!(c.imap.port, 70000u32 as u16);
    assert_eq!(row_to_creds(&r2, &KEY).unwrap_err(), "decryption failed");
    let all = all_with_creds(&vec![r1, r2, row("m3", "mark", "p3")], &KEY).unwrap();
    let ids: Vec<&str> = all.iter().map(|c| c.id.as_str()).collect();
    assert_eq!(ids, vec!["m1", "m3"]);
    let mut bad = row("m4", "mark", "p");
    bad.password_enc = "AAAA:AAAA".to_string();
    assert!(all_with_creds(&vec![bad], &KEY).is_none());
}

#[test]
fn bootstrapped_admin_signs_in_and_members_stay_out_of_admin_routes() {
    let (email, password) = bootstrap_credentials(
        Some("admin@example.com".to_string()),
        Some("admin-pass-123".to_string()),
    )
    .unwrap();
    let admin = admin_account(email, &password);
    let signed_in = check_login(Some(admin), "admin-pass-123").unwrap();
    let me = UserView::from_user(&authorize(Some(signed_in), false).unwrap());
    assert_eq!(me.role, "admin");
    assert_eq!(me.email, "admin@example.com");

    let mark = new_user_record(
        "mark@example.com".to_string(),
        "mark-pass-123",
        None,
        Some("member".to_string()),
    )
    .unwrap();
    assert_eq!(mark.role, "member");
    let mark = check_login(Some(mark), "mark-pass-123").unwrap();
    let refused = authorize(Some(mark), true).unwrap_err();
    assert_eq!(refused.status(), 403);
}
