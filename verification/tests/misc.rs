use velo::gateway::{column_kind, gateway_error, is_begin_statement, query_snippet, ColumnKind, GatewayOp};
use velo::ids::{hex, new_id, new_token, user_data_file_name};
use velo::profile::{profile_from_row, resolve_profile, ProfileValue};
use velo::text::{contains_str, split_once_char, trim, u32_to_decimal};

#[test]
fn begin_is_detected_in_any_case() {
    assert!(is_begin_statement("BEGIN"));
    assert!(is_begin_statement("  \n begin transaction"));
    assert!(is_begin_statement("BeGiN IMMEDIATE"));
    assert!(!is_begin_statement("BEGI"));
    assert!(!is_begin_statement("SELECT 1"));
    assert!(!is_begin_statement("COMMIT"));
}

#[test]
fn gateway_errors_show_a_snippet() {
    let long: String = "x".repeat(200);
    assert_eq!(query_snippet(&long).len(), 120);
    assert_eq!(query_snippet("SELECT 1"), "SELECT 1");
    assert_eq!(
        gateway_error(GatewayOp::Select, "no such table: t", "SELECT v FROM t"),
        "select failed: no such table: t | query: SELECT v FROM t"
    );
    assert!(gateway_error(GatewayOp::Execute, "e", "q").starts_with("execute failed: e"));
}

#[test]
fn column_kinds_ignore_case() {
    assert_eq!(column_kind("text"), ColumnKind::Text);
    assert_eq!(column_kind("integer"), ColumnKind::Integer);
    assert_eq!(column_kind("Int8"), ColumnKind::Integer);
    assert_eq!(column_kind("real"), ColumnKind::Real);
    assert_eq!(column_kind("numeric"), ColumnKind::Real);
    assert_eq!(column_kind("boolean"), ColumnKind::Boolean);
    assert_eq!(column_kind("blob"), ColumnKind::Blob);
    assert_eq!(column_kind("DATETIME"), ColumnKind::Other);
    assert_eq!(column_kind("NULL"), ColumnKind::Other);
}

#[test]
fn ids_and_tokens_are_hex() {
    assert_eq!(hex(&[0x00, 0x0f, 0xab, 0xff]), "000fabff");
    let id = new_id();
    let token = new_token();
    assert_eq!(id.len(), 32);
    assert_eq!(token.len(), 64);
    assert!(id.chars().chain(token.chars()).all(|c| c.is_ascii_hexdigit() && !c.is_ascii_uppercase()));
    assert_ne!(new_id(), new_id());
}

#[test]
fn data_files_are_per_user() {
    assert_eq!(user_data_file_name("abc"), "data-abc.db");
    assert_ne!(user_data_file_name("a"), user_data_file_name("b"));
}

#[test]
fn profile_resolution_is_field_by_field() {
    let global = ProfileValue { display_name: Some("Team".to_string()), signature_html: Some("<p>g</p>".to_string()) };
    let mine = ProfileValue { display_name: Some("Mark".to_string()), signature_html: None };
    let r = resolve_profile(global, mine);
    assert_eq!(r.display_name.as_deref(), Some("Mark"));
    assert_eq!(r.signature_html.as_deref(), Some("<p>g</p>"));
    let none = resolve_profile(profile_from_row(None), profile_from_row(None));
    assert!(none.display_name.is_none() && none.signature_html.is_none());
    let row = profile_from_row(Some((Some("D".to_string()), None)));
    assert_eq!(row.display_name.as_deref(), Some("D"));
}

#[test]
fn text_helpers() {
    assert_eq!(u32_to_decimal(0), "0");
    assert_eq!(u32_to_decimal(4021), "4021");
    assert_eq!(u32_to_decimal(u32::MAX), "4294967295");
    assert_eq!(split_once_char("a:b:c", ':'), Some(("a".to_string(), "b:c".to_string())));
    assert_eq!(split_once_char("abc", ':'), None);
    assert_eq!(trim("\t x y \u{3000}"), "x y");
    assert!(contains_str("UNIQUE constraint", "UNIQUE"));
    assert!(!contains_str("unique", "UNIQUE"));
    assert!(contains_str("abc", ""));
}
