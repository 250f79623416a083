use velo::notifier::{
    base64_url_encode, build_raw_email, build_raw_email_at, html_escape, message_summary,
    notification_email_at, notification_payload, notify_plan, poll_start, sender_label,
    ImapMessage, PollStart,
};
use velo::smtp::decode_base64url;

#[test]
fn raw_email_is_well_formed_multipart() {
    let raw = build_raw_email(
        "admin@ex.com",
        "mark@ex.com",
        "New email: Order #5",
        "<p>hi</p>",
        "hi",
    );
    assert!(raw.contains("From: admin@ex.com\r\n"));
    assert!(raw.contains("To: mark@ex.com\r\n"));
    assert!(raw.contains("Subject: New email: Order #5\r\n"));
    assert!(raw.contains("multipart/alternative"));
    assert!(raw.contains("text/plain"));
    assert!(raw.contains("text/html"));
}

#[test]
fn html_escaping_blocks_injection() {
    let s = html_escape("<script>&\"x\"");
    assert!(!s.contains("<script>"));
    assert!(s.contains("&lt;script&gt;"));
    assert!(s.contains("&amp;"));
}

#[test]
fn base64url_has_no_unsafe_chars() {
    let enc = base64_url_encode(b"hello>world?");
    assert!(!enc.contains('+'));
    assert!(!enc.contains('/'));
    assert!(!enc.contains('='));
}

#[test]
fn base64url_known_value_and_roundtrip() {
    assert_eq!(base64_url_encode(b"Hello"), "SGVsbG8");
    let bytes: Vec<u8> = (0u8..=255).collect();
    let enc = base64_url_encode(&bytes);
    assert_eq!(decode_base64url(&enc).unwrap(), bytes);
}

#[test]
fn html_escape_exact() {
    assert_eq!(html_escape("a<b>&c"), "a&lt;b&gt;&amp;c");
    assert_eq!(html_escape("plain \"text\""), "plain \"text\"");
    assert_eq!(html_escape(""), "");
}

#[test]
fn raw_email_exact_layout() {
    let raw = build_raw_email_at("a@x", "b@y", "S", "<p>h</p>", "t", "Thu, 01 Jan 1970 00:00:00 +0000");
    assert_eq!(
        raw,
        "From: a@x\r\nTo: b@y\r\nSubject: S\r\nDate: Thu, 01 Jan 1970 00:00:00 +0000\r\nMIME-Version: 1.0\r\nContent-Type: multipart/alternative; boundary=\"velo_notify_boundary_8f3a\"\r\n\r\n--velo_notify_boundary_8f3a\r\nContent-Type: text/plain; charset=UTF-8\r\n\r\nt\r\n--velo_notify_boundary_8f3a\r\nContent-Type: text/html; charset=UTF-8\r\n\r\n<p>h</p>\r\n--velo_notify_boundary_8f3a--\r\n"
    );
}

#[test]
fn raw_email_has_a_real_date() {
    let raw = build_raw_email("a@x", "b@y", "S", "h", "t");
    let date_line = raw.lines().find(|l| l.starts_with("Date: ")).unwrap();
    // An RFC 2822 date such as "Thu, 01 Jan 1970 00:00:00 +0000".
    assert!(date_line.ends_with("+0000"), "{date_line}");
    assert_ne!(date_line, "Date: Thu, 01 Jan 1970 00:00:00 +0000");
}

#[test]
fn summary_falls_back() {
    let m = ImapMessage { subject: None, from_name: None, from_address: Some("x@y".to_string()) };
    assert_eq!(message_summary(&m), ("(no subject)".to_string(), "x@y".to_string()));
    let m = ImapMessage { subject: Some("Hi".to_string()), from_name: Some("Ann".to_string()), from_address: Some("a@b".to_string()) };
    assert_eq!(message_summary(&m), ("Hi".to_string(), "Ann".to_string()));
    let m = ImapMessage { subject: None, from_name: None, from_address: None };
    assert_eq!(message_summary(&m).1, "Unknown sender");
    assert_eq!(sender_label("o@p"), "o@p");
}

#[test]
fn notification_links_to_the_message() {
    let raw = notification_email_at(
        "admin@ex.com",
        "mark@ex.com",
        "https://mail.example.com",
        "mb1",
        4021,
        "Order <5>",
        "Shop & Co",
        "D",
    );
    assert!(raw.contains("Subject: New email: Order <5>\r\n"));
    assert!(raw.contains("<a href=\"https://mail.example.com/#/mail/INBOX?notify=mb1:4021\">Open it in Velo</a>"));
    assert!(raw.contains("<b>Subject:</b> Order &lt;5&gt;"));
    assert!(raw.contains("<b>From:</b> Shop &amp; Co"));
    assert!(raw.contains("New email\nFrom: Shop & Co\nSubject: Order <5>\n\nOpen: https://mail.example.com/#/mail/INBOX?notify=mb1:4021"));
    assert!(raw.contains("You have a new email in <b>mark@ex.com</b>."));
}

#[test]
fn notification_payload_decodes_to_the_message() {
    let p = notification_payload("admin@ex.com", "mark@ex.com", "", "mb", 0, "s", "f");
    let raw = String::from_utf8(decode_base64url(&p).unwrap()).unwrap();
    assert!(raw.starts_with("From: admin@ex.com\r\nTo: mark@ex.com\r\nSubject: New email: s\r\n"));
    assert!(raw.contains("/#/mail/INBOX?notify=mb:0"));
}

#[test]
fn first_poll_records_without_backfill() {
    assert_eq!(poll_start(None, 101), PollStart::RecordHighWater(100));
    assert_eq!(poll_start(None, 0), PollStart::RecordHighWater(0));
    assert_eq!(poll_start(Some(100), 101), PollStart::UpToDate);
    assert_eq!(poll_start(Some(100), 105), PollStart::FetchSince(100));
}

#[test]
fn plan_notifies_and_marks() {
    let p = notify_plan(100, 104, &vec![101, 103, 102], true, true);
    assert_eq!(p.notify, vec![101, 103, 102]);
    assert_eq!(p.marker, 104);
    let p = notify_plan(100, 102, &vec![101, 107], true, true);
    assert_eq!(p.marker, 107);
    let p = notify_plan(100, 104, &vec![], true, true);
    assert!(p.notify.is_empty());
    assert_eq!(p.marker, 104);
    let p = notify_plan(100, 104, &vec![101], false, true);
    assert!(p.notify.is_empty());
    assert_eq!(p.marker, 104);
    let p = notify_plan(100, 104, &vec![101], true, false);
    assert!(p.notify.is_empty());
    assert_eq!(p.marker, 104);
}
