use velo::mailboxes::SmtpConfig;
use velo::smtp::{
    connection_outcome, decode_base64url, extract_envelope, plan_transport, prepare_raw_email,
    send_outcome, AuthMechanisms, SmtpSecurity,
};

#[test]
fn test_decode_base64url_valid() {
    // "Hello" in base64url
    let encoded = "SGVsbG8";
    let decoded = decode_base64url(encoded).unwrap();
    assert_eq!(decoded, b"Hello");
}

#[test]
fn test_decode_base64url_invalid() {
    let result = decode_base64url("!!!invalid!!!");
    assert!(result.is_err());
    assert!(result.unwrap_err().contains("Base64 decode error"));
}

#[test]
fn test_extract_envelope_valid() {
    let raw = b"From: alice@example.com\r\nTo: bob@example.com\r\nCc: carol@example.com\r\nSubject: Test\r\n\r\nBody";
    let envelope = extract_envelope(raw).unwrap();
    // Envelope should have from and 2 recipients (To + Cc)
    assert!(envelope.from().is_some());
    assert_eq!(envelope.to().len(), 2);
}

#[test]
fn test_extract_envelope_no_from() {
    let raw = b"To: bob@example.com\r\nSubject: Test\r\n\r\nBody";
    let result = extract_envelope(raw);
    assert!(result.is_err());
    assert!(result.unwrap_err().contains("No From address"));
}

#[test]
fn test_extract_envelope_no_recipients() {
    let raw = b"From: alice@example.com\r\nSubject: Test\r\n\r\nBody";
    let result = extract_envelope(raw);
    assert!(result.is_err());
    assert!(result.unwrap_err().contains("No recipients found"));
}

#[test]
fn test_extract_envelope_with_bcc() {
    let raw = b"From: alice@example.com\r\nTo: bob@example.com\r\nBcc: secret@example.com\r\nSubject: Test\r\n\r\nBody";
    let envelope = extract_envelope(raw).unwrap();
    assert_eq!(envelope.to().len(), 2);
}

#[test]
fn envelope_keeps_header_order_and_addresses() {
    let raw = b"From: Alice <alice@example.com>\r\nTo: bob@example.com, dave@example.com\r\nCc: carol@example.com\r\nBcc: secret@example.com\r\n\r\nBody";
    let envelope = extract_envelope(raw).unwrap();
    assert_eq!(envelope.sender, "alice@example.com");
    assert_eq!(
        envelope.recipients,
        vec![
            "bob@example.com".to_string(),
            "dave@example.com".to_string(),
            "carol@example.com".to_string(),
            "secret@example.com".to_string()
        ]
    );
}

#[test]
fn envelope_skips_recipients_lettre_refuses() {
    let raw = b"From: alice@example.com\r\nTo: not-an-address, bob@example.com\r\n\r\nBody";
    let envelope = extract_envelope(raw).unwrap();
    assert_eq!(envelope.recipients, vec!["bob@example.com".to_string()]);
}

#[test]
fn envelope_rejects_invalid_from() {
    let raw = b"From: alice@\r\nTo: bob@example.com\r\n\r\nBody";
    let err = extract_envelope(raw).unwrap_err();
    assert!(err.starts_with("Invalid From address 'alice@': "), "{err}");
}

#[test]
fn prepare_decodes_then_extracts() {
    // "From: a@b.co\r\nTo: c@d.co\r\n\r\nhi" in base64url
    let payload = "RnJvbTogYUBiLmNvDQpUbzogY0BkLmNvDQoNCmhp";
    let (bytes, env) = prepare_raw_email(payload).unwrap();
    assert_eq!(bytes, b"From: a@b.co\r\nTo: c@d.co\r\n\r\nhi");
    assert_eq!(env.sender, "a@b.co");
    assert_eq!(env.recipients, vec!["c@d.co".to_string()]);
    assert!(prepare_raw_email("%%%").unwrap_err().starts_with("Base64 decode error: "));
}

#[test]
fn outcomes_are_worded() {
    let ok = send_outcome(Ok(())).unwrap();
    assert!(ok.success);
    assert_eq!(ok.message, "Email sent successfully");
    assert_eq!(send_outcome(Err("boom".to_string())).unwrap_err(), "SMTP send error: boom");
    let t = connection_outcome(Ok(true)).unwrap();
    assert!(t.success);
    assert_eq!(t.message, "Connection successful");
    let f = connection_outcome(Ok(false)).unwrap();
    assert!(!f.success);
    assert_eq!(f.message, "Connection failed");
    assert_eq!(connection_outcome(Err("x".to_string())).unwrap_err(), "SMTP test error: x");
}

fn config(security: &str, auth: &str) -> SmtpConfig {
    SmtpConfig {
        host: "smtp.example.com".to_string(),
        port: 465,
        security: security.to_string(),
        username: "u".to_string(),
        password: "p".to_string(),
        auth_method: auth.to_string(),
        accept_invalid_certs: true,
    }
}

#[test]
fn transport_plan_follows_config() {
    let p = plan_transport(&config("tls", "password"), Some("10.0.0.1".to_string()));
    assert_eq!(p.connect_host, "10.0.0.1");
    assert_eq!(p.tls_hostname, "smtp.example.com");
    assert_eq!(p.security, SmtpSecurity::ImplicitTls);
    assert_eq!(p.mechanisms, AuthMechanisms::PlainLogin);
    assert_eq!(p.port, 465);
    assert!(p.accept_invalid_certs);
    let q = plan_transport(&config("starttls", "oauth2"), None);
    assert_eq!(q.connect_host, "smtp.example.com");
    assert_eq!(q.security, SmtpSecurity::StartTls);
    assert_eq!(q.mechanisms, AuthMechanisms::Xoauth2);
    let r = plan_transport(&config("none", "password"), None);
    assert_eq!(r.security, SmtpSecurity::Plain);
}
