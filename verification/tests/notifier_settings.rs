use velo::notifier::{
    html_escape, notification_outcome, notification_summary, notifier_disabled, notify_interval,
    parse_u64, ImapMessage,
};
use velo::smtp::SmtpSendResult;

#[test]
fn notification_summary_uses_message_or_fallback() {
    let m = ImapMessage {
        subject: Some("Invoice".to_string()),
        from_name: None,
        from_address: Some("billing@shop.example".to_string()),
    };
    assert_eq!(
        notification_summary(Ok(m), "me@mail.example"),
        ("Invoice".to_string(), "billing@shop.example".to_string())
    );
    assert_eq!(
        notification_summary(Err("fetch failed".to_string()), "me@mail.example"),
        ("New message".to_string(), "me@mail.example".to_string())
    );
}

#[test]
fn notification_outcome_maps_send_results() {
    assert_eq!(notification_outcome(Err("connection refused".to_string())), Err("connection refused".to_string()));
    let ok = SmtpSendResult { success: true, message: "Email sent successfully".to_string() };
    assert_eq!(notification_outcome(Ok(ok)), Ok(()));
    let refused = SmtpSendResult { success: false, message: "550 mailbox unavailable".to_string() };
    assert_eq!(notification_outcome(Ok(refused)), Err("550 mailbox unavailable".to_string()));
}

#[test]
fn notifier_switch_reads_zero_only() {
    assert!(notifier_disabled(Some("0")));
    assert!(!notifier_disabled(Some("1")));
    assert!(!notifier_disabled(Some("")));
    assert!(!notifier_disabled(Some("00")));
    assert!(!notifier_disabled(None));
}

#[test]
fn notify_interval_defaults_and_parses() {
    assert_eq!(notify_interval(None), 120);
    assert_eq!(notify_interval(Some("30")), 30);
    assert_eq!(notify_interval(Some("+5")), 5);
    assert_eq!(notify_interval(Some("0")), 0);
    assert_eq!(notify_interval(Some("")), 120);
    assert_eq!(notify_interval(Some("+")), 120);
    assert_eq!(notify_interval(Some("-1")), 120);
    assert_eq!(notify_interval(Some("12a")), 120);
    assert_eq!(notify_interval(Some(" 12")), 120);
    assert_eq!(notify_interval(Some("18446744073709551615")), u64::MAX);
    assert_eq!(notify_interval(Some("18446744073709551616")), 120);
    assert_eq!(notify_interval(Some("99999999999999999999x")), 120);
}

#[test]
fn parse_u64_agrees_with_std() {
    let cases = [
        "", "0", "7", "+7", "++7", "-0", "007", "120", "4294967296", "18446744073709551615",
        "18446744073709551616", "1_000", "1.5", " 1", "1 ", "٣", "abc",
    ];
    for c in cases {
        assert_eq!(parse_u64(c), c.parse::<u64>().ok(), "{c:?}");
    }
}

#[test]
fn html_escape_is_undone_and_marks_every_ampersand() {
    let s = "a&b<c>d&amp;";
    let e = html_escape(s);
    assert_eq!(e, "a&amp;b&lt;c&gt;d&amp;amp;");
    let back = e.replace("&lt;", "<").replace("&gt;", ">").replace("&amp;", "&");
    assert_eq!(back, s);
    for (i, _) in e.match_indices('&') {
        let rest = &e[i..];
        assert!(rest.starts_with("&amp;") || rest.starts_with("&lt;") || rest.starts_with("&gt;"));
    }
}

#[test]
fn html_escape_changes_exactly_the_special_text() {
    assert_eq!(html_escape("plain text, 100% fine"), "plain text, 100% fine");
    for s in ["&", "<", ">", "x&y"] {
        assert_ne!(html_escape(s), s);
    }
}
