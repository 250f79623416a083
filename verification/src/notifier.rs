//! New-mail notifications: what each polling pass decides, and the e-mail
//! that tells a mailbox owner about a new message.

use vstd::prelude::*;
use vstd::utf8::encode_utf8;

use crate::codec::{base64_url_encode_bytes, base64_url_encoding, is_url_safe_base64_char, base64_url_decoding, ok_bytes};
use crate::smtp::SmtpSendResult;
use crate::text::{chars_of, decimal, eq_str, push_char, u32_to_decimal};

verus! {

/// The envelope data of a fetched message that a notification names.
#[derive(Debug)]
pub struct ImapMessage {
    pub subject: Option<String>,
    pub from_name: Option<String>,
    pub from_address: Option<String>,
}

/// The subject a notification names: the message's, else `(no subject)`.
pub open spec fn summary_subject(m: ImapMessage) -> Seq<char> {
    match m.subject {
        Some(s) => s@,
        None => "(no subject)"@,
    }
}

/// The sender a notification names: the display name, else the address,
/// else `Unknown sender`.
pub open spec fn summary_from(m: ImapMessage) -> Seq<char> {
    match m.from_name {
        Some(n) => n@,
        None => match m.from_address {
            Some(a) => a@,
            None => "Unknown sender"@,
        },
    }
}

/// The subject and sender a notification names for `m`.
pub fn message_summary(m: &ImapMessage) -> (r: (String, String))
    ensures
        r.0@ == summary_subject(*m),
        r.1@ == summary_from(*m),
{
    let subject = match &m.subject {
        Some(s) => s.clone(),
        None => "(no subject)".to_owned(),
    };
    let from = match &m.from_name {
        Some(n) => n.clone(),
        None => match &m.from_address {
            Some(a) => a.clone(),
            None => "Unknown sender".to_owned(),
        },
    };
    (subject, from)
}

/// What the notification about one new message names: the subject and
/// sender of the message where fetching it succeeded; otherwise `New
/// message`, from the mailbox's own address.
pub fn notification_summary(fetched: Result<ImapMessage, String>, mailbox_email: &str) -> (r: (
    String,
    String,
))
    ensures
        match fetched {
            Ok(m) => r.0@ == summary_subject(m) && r.1@ == summary_from(m),
            Err(_) => r.0@ == "New message"@ && r.1@ == mailbox_email@,
        },
{
    match fetched {
        Ok(m) => message_summary(&m),
        Err(_) => ("New message".to_owned(), mailbox_email.to_owned()),
    }
}

/// Whether sending a notification succeeded: an SMTP error, or a send the
/// server reported as unsuccessful, is a failure carrying its message.
pub fn notification_outcome(sent: Result<SmtpSendResult, String>) -> (r: Result<(), String>)
    ensures
        match sent {
            Err(e) => r matches Err(x) && x == e,
            Ok(res) => if res.success {
                r is Ok
            } else {
                r matches Err(x) && x == res.message
            },
        },
{
    match sent {
        Err(e) => Err(e),
        Ok(res) => if res.success {
            Ok(())
        } else {
            Err(res.message)
        },
    }
}

/// Whether the `VELO_NOTIFY` setting turns the notifier off: it does when
/// set to `0`.
pub fn notifier_disabled(setting: Option<&str>) -> (r: bool)
    ensures
        r == (match setting {
            Some(s) => s@ == "0"@,
            None => false,
        }),
{
    match setting {
        Some(s) => eq_str(s, "0"),
        None => false,
    }
}

/// The value of a run of decimal digits.
pub open spec fn digits_value(d: Seq<char>) -> nat
    decreases d.len(),
{
    if d.len() == 0 {
        0
    } else {
        digits_value(d.drop_last()) * 10 + ((d.last() as u32) - 48) as nat
    }
}

/// Whether every character is a decimal digit.
pub open spec fn all_digits(d: Seq<char>) -> bool {
    forall|i: int| 0 <= i < d.len() ==> '0' <= #[trigger] d[i] && d[i] <= '9'
}

/// What `str::parse::<u64>` gives: an optional `+`, then one or more
/// decimal digits whose value fits in 64 bits.
pub open spec fn parsed_u64(s: Seq<char>) -> Option<u64> {
    let d = if s.len() > 0 && s[0] == '+' {
        s.drop_first()
    } else {
        s
    };
    if d.len() > 0 && all_digits(d) && digits_value(d) <= u64::MAX {
        Some(digits_value(d) as u64)
    } else {
        None
    }
}

proof fn lemma_digits_value_monotone(d: Seq<char>, k: int)
    requires
        0 <= k <= d.len(),
        all_digits(d),
    ensures
        digits_value(d.subrange(0, k)) <= digits_value(d),
    decreases d.len() - k,
{
    if k < d.len() {
        lemma_digits_value_monotone(d, k + 1);
        let pre = d.subrange(0, k + 1);
        assert(pre.drop_last() =~= d.subrange(0, k));
        assert('0' <= d[k]);
    } else {
        assert(d.subrange(0, k) =~= d);
    }
}

/// `str::parse::<u64>`.
pub fn parse_u64(s: &str) -> (r: Option<u64>)
    ensures
        r == parsed_u64(s@),
{
    let cs = chars_of(s);
    let start: usize = if cs.len() > 0 && cs[0] == '+' {
        1
    } else {
        0
    };
    let n = cs.len();
    let ghost d = if s@.len() > 0 && s@[0] == '+' {
        s@.drop_first()
    } else {
        s@
    };
    assert(d =~= cs@.subrange(start as int, n as int));
    if start >= n {
        return None;
    }
    let mut v: u64 = 0;
    let mut i = start;
    while i < n
        invariant
            cs@ == s@,
            n == cs@.len(),
            start <= i <= n,
            d == cs@.subrange(start as int, n as int),
            d == (if s@.len() > 0 && s@[0] == '+' {
                s@.drop_first()
            } else {
                s@
            }),
            d.len() > 0,
            all_digits(cs@.subrange(start as int, i as int)),
            v as nat == digits_value(cs@.subrange(start as int, i as int)),
        decreases n - i,
    {
        let c = cs[i];
        let pre = Ghost(cs@.subrange(start as int, i + 1));
        proof {
            assert(pre@.drop_last() =~= cs@.subrange(start as int, i as int));
            assert(pre@.last() == c);
        }
        if !('0' <= c && c <= '9') {
            proof {
                assert(d[i - start] == c);
            }
            return None;
        }
        let digit = (c as u32 - 48) as u64;
        let next = match v.checked_mul(10) {
            Some(x) => x.checked_add(digit),
            None => None,
        };
        match next {
            Some(x) => {
                v = x;
            },
            None => {
                proof {
                    let k = i - start + 1;
                    assert(pre@ =~= d.subrange(0, k));
                    assert(digits_value(pre@) == v * 10 + digit);
                    assert(digits_value(pre@) > u64::MAX);
                    if all_digits(d) {
                        lemma_digits_value_monotone(d, k);
                    }
                }
                return None;
            },
        }
        i = i + 1;
    }
    Some(v)
}

/// Seconds between polls: the `VELO_NOTIFY_INTERVAL` setting where it parses
/// as a `u64`, else 120.
pub fn notify_interval(setting: Option<&str>) -> (r: u64)
    ensures
        r == (match setting {
            Some(s) => match parsed_u64(s@) {
                Some(v) => v,
                None => 120,
            },
            None => 120,
        }),
{
    match setting {
        Some(s) => match parse_u64(s) {
            Some(v) => v,
            None => 120,
        },
        None => 120,
    }
}

/// How a notification names the mailbox it is about: the recipient address.
pub fn sender_label(to: &str) -> (r: String)
    ensures
        r@ == to@,
{
    to.to_owned()
}

/// The HTML form of one character: `&`, `<` and `>` become entities.
pub open spec fn escape_char(c: char) -> Seq<char> {
    if c == '&' {
        seq!['&', 'a', 'm', 'p', ';']
    } else if c == '<' {
        seq!['&', 'l', 't', ';']
    } else if c == '>' {
        seq!['&', 'g', 't', ';']
    } else {
        seq![c]
    }
}

/// `s` with `&`, `<` and `>` replaced by their entities.
pub open spec fn html_escape_spec(s: Seq<char>) -> Seq<char>
    decreases s.len(),
{
    if s.len() == 0 {
        Seq::empty()
    } else {
        html_escape_spec(s.drop_last()) + escape_char(s.last())
    }
}

/// Escapes text for HTML: `&` to `&amp;`, `<` to `&lt;`, `>` to `&gt;`.
pub fn html_escape(s: &str) -> (r: String)
    ensures
        r@ == html_escape_spec(s@),
{
    let cs = chars_of(s);
    let n = cs.len();
    let mut r = String::new();
    let mut i: usize = 0;
    while i < n
        invariant
            n == cs@.len(),
            cs@ == s@,
            i <= n,
            r@ == html_escape_spec(cs@.subrange(0, i as int)),
        decreases n - i,
    {
        let c = cs[i];
        if c == '&' {
            push_char(&mut r, '&');
            push_char(&mut r, 'a');
            push_char(&mut r, 'm');
            push_char(&mut r, 'p');
            push_char(&mut r, ';');
        } else if c == '<' {
            push_char(&mut r, '&');
            push_char(&mut r, 'l');
            push_char(&mut r, 't');
            push_char(&mut r, ';');
        } else if c == '>' {
            push_char(&mut r, '&');
            push_char(&mut r, 'g');
            push_char(&mut r, 't');
            push_char(&mut r, ';');
        } else {
            push_char(&mut r, c);
        }
        proof {
            let pre = cs@.subrange(0, i + 1);
            assert(pre.drop_last() =~= cs@.subrange(0, i as int));
            assert(pre.last() == c);
            assert(r@ =~= html_escape_spec(pre));
        }
        i = i + 1;
    }
    assert(cs@.subrange(0, n as int) =~= cs@);
    r
}

/// Escaped text holds no `<` or `>`, so it cannot open or close a tag; text
/// without `&`, `<` and `>` is left as it is.
pub proof fn law_escaped_text_has_no_tags(s: Seq<char>)
    ensures
        forall|i: int|
            0 <= i < html_escape_spec(s).len() ==> #[trigger] html_escape_spec(s)[i] != '<'
                && html_escape_spec(s)[i] != '>',
        (forall|i: int| 0 <= i < s.len() ==> #[trigger] s[i] != '&' && s[i] != '<' && s[i] != '>')
            ==> html_escape_spec(s) == s,
    decreases s.len(),
{
    if s.len() > 0 {
        law_escaped_text_has_no_tags(s.drop_last());
        let h = html_escape_spec(s.drop_last());
        let e = escape_char(s.last());
        assert forall|i: int| 0 <= i < html_escape_spec(s).len() implies #[trigger] html_escape_spec(
            s,
        )[i] != '<' && html_escape_spec(s)[i] != '>' by {
            if i < h.len() {
                assert(html_escape_spec(s)[i] == h[i]);
            } else {
                assert(html_escape_spec(s)[i] == e[i - h.len()]);
            }
        }
        if forall|i: int| 0 <= i < s.len() ==> #[trigger] s[i] != '&' && s[i] != '<' && s[i] != '>' {
            assert forall|i: int| 0 <= i < s.drop_last().len() implies #[trigger] s.drop_last()[i]
                != '&' && s.drop_last()[i] != '<' && s.drop_last()[i] != '>' by {
                assert(s.drop_last()[i] == s[i]);
            }
            assert(s[s.len() - 1] == s.last());
            assert(s.drop_last().push(s.last()) =~= s);
            assert(h + e =~= s);
        }
    }
}

/// Whether one of the three entities that escaping writes starts at index
/// `i` of `t`.
pub open spec fn entity_at(t: Seq<char>, i: int) -> bool {
    ||| (i + 5 <= t.len() && t[i] == '&' && t[i + 1] == 'a' && t[i + 2] == 'm' && t[i + 3] == 'p'
        && t[i + 4] == ';')
    ||| (i + 4 <= t.len() && t[i] == '&' && t[i + 1] == 'l' && t[i + 2] == 't' && t[i + 3] == ';')
    ||| (i + 4 <= t.len() && t[i] == '&' && t[i + 1] == 'g' && t[i + 2] == 't' && t[i + 3] == ';')
}

/// Reading escaped text back, left to right: `&amp;`, `&lt;` and `&gt;`
/// become `&`, `<` and `>`; every other character stands for itself.
pub open spec fn html_unescape(t: Seq<char>) -> Seq<char>
    decreases t.len(),
{
    if t.len() == 0 {
        Seq::empty()
    } else if 5 <= t.len() && t[0] == '&' && t[1] == 'a' && t[2] == 'm' && t[3] == 'p' && t[4]
        == ';' {
        seq!['&'] + html_unescape(t.subrange(5, t.len() as int))
    } else if 4 <= t.len() && t[0] == '&' && t[1] == 'l' && t[2] == 't' && t[3] == ';' {
        seq!['<'] + html_unescape(t.subrange(4, t.len() as int))
    } else if 4 <= t.len() && t[0] == '&' && t[1] == 'g' && t[2] == 't' && t[3] == ';' {
        seq!['>'] + html_unescape(t.subrange(4, t.len() as int))
    } else {
        seq![t[0]] + html_unescape(t.subrange(1, t.len() as int))
    }
}

/// Whether a character is one that escaping replaces.
pub open spec fn is_html_special(c: char) -> bool {
    c == '&' || c == '<' || c == '>'
}

proof fn lemma_escape_concat(a: Seq<char>, b: Seq<char>)
    ensures
        html_escape_spec(a + b) == html_escape_spec(a) + html_escape_spec(b),
    decreases b.len(),
{
    if b.len() == 0 {
        assert(a + b =~= a);
        assert(html_escape_spec(a) + html_escape_spec(b) =~= html_escape_spec(a));
    } else {
        lemma_escape_concat(a, b.drop_last());
        assert((a + b).drop_last() =~= a + b.drop_last());
        assert((a + b).last() == b.last());
        assert(html_escape_spec(a + b) =~= html_escape_spec(a) + html_escape_spec(b));
    }
}

proof fn lemma_escape_first(s: Seq<char>)
    requires
        s.len() > 0,
    ensures
        html_escape_spec(s) == escape_char(s[0]) + html_escape_spec(s.drop_first()),
{
    let one = seq![s[0]];
    assert(one + s.drop_first() =~= s);
    lemma_escape_concat(one, s.drop_first());
    assert(one.drop_last() =~= Seq::<char>::empty());
    assert(html_escape_spec(one.drop_last()) =~= Seq::<char>::empty());
    assert(one.last() == s[0]);
    assert(html_escape_spec(one) =~= escape_char(s[0]));
}

proof fn lemma_escape_length(s: Seq<char>)
    ensures
        html_escape_spec(s).len() >= s.len(),
        html_escape_spec(s).len() == s.len() ==> forall|i: int|
            0 <= i < s.len() ==> !is_html_special(#[trigger] s[i]),
    decreases s.len(),
{
    if s.len() > 0 {
        lemma_escape_length(s.drop_last());
        if html_escape_spec(s).len() == s.len() {
            assert forall|i: int| 0 <= i < s.len() implies !is_html_special(#[trigger] s[i]) by {
                if i < s.len() - 1 {
                    assert(s[i] == s.drop_last()[i]);
                }
            }
        }
    }
}

/// Escaping can be undone: reading the escaped text back left to right
/// gives the original text.
pub proof fn law_escape_round_trip(s: Seq<char>)
    ensures
        html_unescape(html_escape_spec(s)) == s,
    decreases s.len(),
{
    if s.len() > 0 {
        law_escape_round_trip(s.drop_first());
        lemma_escape_first(s);
        let rest = html_escape_spec(s.drop_first());
        let t = html_escape_spec(s);
        let c = s[0];
        if c == '&' {
            assert(t.subrange(5, t.len() as int) =~= rest);
        } else if c == '<' {
            assert(t.subrange(4, t.len() as int) =~= rest);
        } else if c == '>' {
            assert(t.subrange(4, t.len() as int) =~= rest);
        } else {
            assert(t[0] == c);
            assert(t.subrange(1, t.len() as int) =~= rest);
        }
        assert(seq![c] + s.drop_first() =~= s);
    }
}

/// Every `&` in escaped text starts `&amp;`, `&lt;` or `&gt;`.
pub proof fn law_escaped_ampersands_start_entities(s: Seq<char>)
    ensures
        forall|i: int|
            0 <= i < html_escape_spec(s).len() && #[trigger] html_escape_spec(s)[i] == '&'
                ==> entity_at(html_escape_spec(s), i),
    decreases s.len(),
{
    if s.len() > 0 {
        law_escaped_ampersands_start_entities(s.drop_last());
        let h = html_escape_spec(s.drop_last());
        let x = escape_char(s.last());
        let t = html_escape_spec(s);
        assert(t == h + x);
        assert forall|i: int| 0 <= i < t.len() && #[trigger] t[i] == '&' implies entity_at(t, i) by {
            if i < h.len() {
                assert(t[i] == h[i]);
                assert(entity_at(h, i));
                if i + 1 < h.len() {
                    assert(t[i + 1] == h[i + 1]);
                }
                if i + 2 < h.len() {
                    assert(t[i + 2] == h[i + 2]);
                }
                if i + 3 < h.len() {
                    assert(t[i + 3] == h[i + 3]);
                }
                if i + 4 < h.len() {
                    assert(t[i + 4] == h[i + 4]);
                }
            } else {
                assert(t[i] == x[i - h.len()]);
                assert(i == h.len());
            }
        }
    }
}

/// Escaping leaves text unchanged exactly when the text holds none of `&`,
/// `<` and `>`.
pub proof fn law_escape_unchanged_iff_plain(s: Seq<char>)
    ensures
        html_escape_spec(s) == s <==> forall|i: int|
            0 <= i < s.len() ==> !is_html_special(#[trigger] s[i]),
{
    lemma_escape_length(s);
    law_escaped_text_has_no_tags(s);
    if forall|i: int| 0 <= i < s.len() ==> !is_html_special(#[trigger] s[i]) {
        assert forall|i: int| 0 <= i < s.len() implies #[trigger] s[i] != '&' && s[i] != '<' && s[i]
            != '>' by {
            assert(!is_html_special(s[i]));
        }
    }
}

/// The multipart boundary of notification e-mails.
pub open spec fn boundary() -> Seq<char> {
    "velo_notify_boundary_8f3a"@
}

/// The raw RFC 822 notification message: headers, then a plain-text and an
/// HTML alternative.
pub open spec fn raw_email_spec(
    from: Seq<char>,
    to: Seq<char>,
    subject: Seq<char>,
    html: Seq<char>,
    text: Seq<char>,
    date: Seq<char>,
) -> Seq<char> {
    "From: "@ + from + "\r\nTo: "@ + to + "\r\nSubject: "@ + subject + "\r\nDate: "@ + date
        + "\r\nMIME-Version: 1.0\r\nContent-Type: multipart/alternative; boundary=\""@ + boundary()
        + "\"\r\n\r\n--"@ + boundary() + "\r\nContent-Type: text/plain; charset=UTF-8\r\n\r\n"@
        + text + "\r\n--"@ + boundary() + "\r\nContent-Type: text/html; charset=UTF-8\r\n\r\n"@
        + html + "\r\n--"@ + boundary() + "--\r\n"@
}

/// The raw notification message dated `date`.
pub fn build_raw_email_at(
    from: &str,
    to: &str,
    subject: &str,
    html: &str,
    text: &str,
    date: &str,
) -> (r: String)
    ensures
        r@ == raw_email_spec(from@, to@, subject@, html@, text@, date@),
{
    let b = "velo_notify_boundary_8f3a";
    let mut r = "From: ".to_owned();
    r.append(from);
    r.append("\r\nTo: ");
    r.append(to);
    r.append("\r\nSubject: ");
    r.append(subject);
    r.append("\r\nDate: ");
    r.append(date);
    r.append("\r\nMIME-Version: 1.0\r\nContent-Type: multipart/alternative; boundary=\"");
    r.append(b);
    r.append("\"\r\n\r\n--");
    r.append(b);
    r.append("\r\nContent-Type: text/plain; charset=UTF-8\r\n\r\n");
    r.append(text);
    r.append("\r\n--");
    r.append(b);
    r.append("\r\nContent-Type: text/html; charset=UTF-8\r\n\r\n");
    r.append(html);
    r.append("\r\n--");
    r.append(b);
    r.append("--\r\n");
    r
}

/// A `Date:` header value: the RFC 2822 form of some UTC instant, or the
/// epoch's date used where formatting fails.
pub open spec fn header_date(d: Seq<char>) -> bool {
    d == "Thu, 01 Jan 1970 00:00:00 +0000"@ || exists|t: i64| #[trigger] rfc2822_utc(t) == Some(d)
}

/// The raw notification message, dated now.
pub fn build_raw_email(from: &str, to: &str, subject: &str, html: &str, text: &str) -> (r: String)
    ensures
        exists|date: Seq<char>|
            header_date(date) && r@ == #[trigger] raw_email_spec(from@, to@, subject@, html@, text@, date),
{
    let date = httpdate_now();
    build_raw_email_at(from, to, subject, html, text, date.as_str())
}

/// What the `time` crate's RFC 2822 formatting gives for the UTC instant
/// `unix_seconds`, or `None` where it cannot format it.
pub uninterp spec fn rfc2822_utc(unix_seconds: i64) -> Option<Seq<char>>;

/// `time::OffsetDateTime::now_utc().unix_timestamp()`. Nothing is claimed:
/// the result is the current time.
#[verifier::external_body]
fn unix_now() -> i64 {
    time::OffsetDateTime::now_utc().unix_timestamp()
}

/// `OffsetDateTime::format(&Rfc2822)` of the UTC instant `unix_seconds`
/// (built with `from_unix_timestamp`), `None` where either fails. Claimed:
/// the result is the named formatting.
#[verifier::external_body]
fn format_rfc2822(unix_seconds: i64) -> (r: Option<String>)
    ensures
        match r {
            Some(s) => rfc2822_utc(unix_seconds) == Some(s@),
            None => rfc2822_utc(unix_seconds) is None,
        },
{
    time::OffsetDateTime::from_unix_timestamp(unix_seconds).ok()?.format(
        &time::format_description::well_known::Rfc2822,
    ).ok()
}

/// The current time as an RFC 2822 date for the `Date:` header; the epoch's
/// date where it cannot be formatted.
pub fn httpdate_now() -> (r: String)
    ensures
        exists|t: i64| #[trigger] rfc2822_utc(t) == Some(r@) || (rfc2822_utc(t) is None && r@ == "Thu, 01 Jan 1970 00:00:00 +0000"@),
        header_date(r@),
{
    let t = unix_now();
    match format_rfc2822(t) {
        Some(s) => s,
        None => "Thu, 01 Jan 1970 00:00:00 +0000".to_owned(),
    }
}

/// `bytes` in URL-safe Base64 without padding.
pub fn base64_url_encode(bytes: &[u8]) -> (r: String)
    ensures
        r@ == base64_url_encoding(bytes@),
        forall|i: int| 0 <= i < r@.len() ==> is_url_safe_base64_char(#[trigger] r@[i]),
        base64_url_decoding(r@) == ok_bytes(bytes@),
{
    proof {
        crate::codec::lemma_b64_alphabet(bytes@);
    }
    base64_url_encode_bytes(bytes)
}

/// The link that opens message `uid` of mailbox `mailbox_id` in the web app.
pub open spec fn notify_link(base: Seq<char>, mailbox_id: Seq<char>, uid: u32) -> Seq<char> {
    base + "/#/mail/INBOX?notify="@ + mailbox_id + seq![':'] + decimal(uid as nat)
}

/// The HTML body of a notification.
pub open spec fn notify_html(
    to: Seq<char>,
    subject: Seq<char>,
    from: Seq<char>,
    link: Seq<char>,
) -> Seq<char> {
    "<p>You have a new email in <b>"@ + html_escape_spec(to) + "</b>.</p><p><b>From:</b> "@
        + html_escape_spec(from) + "<br><b>Subject:</b> "@ + html_escape_spec(subject)
        + "</p><p><a href=\""@ + link + "\">Open it in Velo</a></p>"@
}

/// The plain-text body of a notification.
pub open spec fn notify_text(subject: Seq<char>, from: Seq<char>, link: Seq<char>) -> Seq<char> {
    "New email\nFrom: "@ + from + "\nSubject: "@ + subject + "\n\nOpen: "@ + link
}

/// The raw notification about message `uid` of mailbox `mailbox_id`, sent
/// from `sender_email` to `to`, dated `date`.
pub open spec fn notification_spec(
    sender_email: Seq<char>,
    to: Seq<char>,
    base: Seq<char>,
    mailbox_id: Seq<char>,
    uid: u32,
    subject: Seq<char>,
    from: Seq<char>,
    date: Seq<char>,
) -> Seq<char> {
    let link = notify_link(base, mailbox_id, uid);
    raw_email_spec(
        sender_email,
        to,
        "New email: "@ + subject,
        notify_html(to, subject, from, link),
        notify_text(subject, from, link),
        date,
    )
}

/// The raw notification message, dated `date`, about message `uid` of
/// mailbox `mailbox_id`; `base` is the public URL of the web app.
pub fn notification_email_at(
    sender_email: &str,
    to: &str,
    base: &str,
    mailbox_id: &str,
    uid: u32,
    subject: &str,
    from: &str,
    date: &str,
) -> (r: String)
    ensures
        r@ == notification_spec(sender_email@, to@, base@, mailbox_id@, uid, subject@, from@, date@),
{
    let mut link = base.to_owned();
    link.append("/#/mail/INBOX?notify=");
    link.append(mailbox_id);
    push_char(&mut link, ':');
    let n = u32_to_decimal(uid);
    link.append(n.as_str());
    let label = sender_label(to);
    let mut html = "<p>You have a new email in <b>".to_owned();
    html.append(html_escape(label.as_str()).as_str());
    html.append("</b>.</p><p><b>From:</b> ");
    html.append(html_escape(from).as_str());
    html.append("<br><b>Subject:</b> ");
    html.append(html_escape(subject).as_str());
    html.append("</p><p><a href=\"");
    html.append(link.as_str());
    html.append("\">Open it in Velo</a></p>");
    let mut text = "New email\nFrom: ".to_owned();
    text.append(from);
    text.append("\nSubject: ");
    text.append(subject);
    text.append("\n\nOpen: ");
    text.append(link.as_str());
    let mut subject_line = "New email: ".to_owned();
    subject_line.append(subject);
    build_raw_email_at(sender_email, to, subject_line.as_str(), html.as_str(), text.as_str(), date)
}

/// The notification, dated now, in the URL-safe Base64 form the SMTP sender
/// takes.
pub fn notification_payload(
    sender_email: &str,
    to: &str,
    base: &str,
    mailbox_id: &str,
    uid: u32,
    subject: &str,
    from: &str,
) -> (r: String)
    ensures
        exists|date: Seq<char>|
            {
                let raw = encode_utf8(
                    #[trigger] notification_spec(sender_email@, to@, base@, mailbox_id@, uid, subject@, from@, date),
                );
                &&& header_date(date)
                &&& r@ == base64_url_encoding(raw)
                &&& base64_url_decoding(r@) == ok_bytes(raw)
            },
{
    let date = httpdate_now();
    let raw = notification_email_at(sender_email, to, base, mailbox_id, uid, subject, from, date.as_str());
    base64_url_encode(raw.as_str().as_bytes())
}


/// The highest UID in a folder whose next UID is `uidnext`.
pub open spec fn high_water(uidnext: u32) -> u32 {
    if uidnext == 0 {
        0
    } else {
        (uidnext - 1) as u32
    }
}

/// The first decision of a polling pass over one mailbox.
#[derive(Debug, PartialEq, Eq)]
pub enum PollStart {
    /// The mailbox was never polled: store this high-water mark and notify
    /// nothing (no backfill).
    RecordHighWater(u32),
    /// Nothing arrived since the stored mark.
    UpToDate,
    /// Fetch the UIDs above this stored mark.
    FetchSince(u32),
}

/// The first decision of a pass: `last` is the stored mark, if any, and
/// `uidnext` the INBOX's next UID.
pub fn poll_start(last: Option<u32>, uidnext: u32) -> (r: PollStart)
    ensures
        match last {
            None => r == PollStart::RecordHighWater(high_water(uidnext)),
            Some(l) => if high_water(uidnext) <= l {
                r == PollStart::UpToDate
            } else {
                r == PollStart::FetchSince(l)
            },
        },
{
    let high = if uidnext == 0 {
        0
    } else {
        uidnext - 1
    };
    match last {
        None => PollStart::RecordHighWater(high),
        Some(l) => if high <= l {
            PollStart::UpToDate
        } else {
            PollStart::FetchSince(l)
        },
    }
}

/// The largest of `start` and the UIDs in `uids`.
pub open spec fn fold_max(start: u32, uids: Seq<u32>) -> u32
    decreases uids.len(),
{
    if uids.len() == 0 {
        start
    } else {
        let m = fold_max(start, uids.drop_last());
        if uids.last() > m {
            uids.last()
        } else {
            m
        }
    }
}

/// What a pass does once the new UIDs are fetched: which messages to
/// notify about, and the mark to store afterwards.
#[derive(Debug)]
pub struct NotifyPlan {
    pub notify: Vec<u32>,
    pub marker: u32,
}

/// The rest of a pass: `last` is the stored mark, `high` the INBOX's highest
/// UID, `new_uids` the UIDs fetched above `last`; `has_recipient` and
/// `has_sender` tell whether the owner's login address and an administrator
/// mailbox to send from exist. With no new UIDs, no recipient or no sender
/// nothing is sent and the mark moves to `high`; otherwise every new UID is
/// notified, in order, and the mark moves to the largest of `last`, the new
/// UIDs and `high`. The mark never falls below `high`, nor below `last`
/// when anything is notified, and it covers every notified UID, so a later
/// pass (which fetches only UIDs above the mark) does not notify about the
/// same message again.
pub fn notify_plan(
    last: u32,
    high: u32,
    new_uids: &Vec<u32>,
    has_recipient: bool,
    has_sender: bool,
) -> (r: NotifyPlan)
    ensures
        if new_uids@.len() == 0 || !has_recipient || !has_sender {
            r.notify@.len() == 0 && r.marker == high
        } else {
            r.notify@ == new_uids@ && r.marker == (if fold_max(last, new_uids@) > high {
                fold_max(last, new_uids@)
            } else {
                high
            })
        },
        high <= r.marker,
        r.notify@.len() > 0 ==> last <= r.marker,
        forall|i: int| 0 <= i < r.notify@.len() ==> #[trigger] r.notify@[i] <= r.marker,
{
    proof {
        lemma_fold_max_bounds(last, new_uids@);
    }
    if new_uids.len() == 0 || !has_recipient || !has_sender {
        return NotifyPlan { notify: Vec::new(), marker: high };
    }
    let n = new_uids.len();
    let mut notify: Vec<u32> = Vec::new();
    let mut max_uid = last;
    let mut i: usize = 0;
    while i < n
        invariant
            n == new_uids@.len(),
            i <= n,
            notify@ == new_uids@.subrange(0, i as int),
            max_uid == fold_max(last, new_uids@.subrange(0, i as int)),
        decreases n - i,
    {
        let uid = new_uids[i];
        proof {
            let pre = new_uids@.subrange(0, i + 1);
            assert(pre.drop_last() =~= new_uids@.subrange(0, i as int));
            assert(pre.last() == uid);
        }
        if uid > max_uid {
            max_uid = uid;
        }
        notify.push(uid);
        i = i + 1;
        assert(notify@ =~= new_uids@.subrange(0, i as int));
    }
    assert(new_uids@.subrange(0, n as int) =~= new_uids@);
    let marker = if max_uid > high {
        max_uid
    } else {
        high
    };
    NotifyPlan { notify, marker }
}

/// `fold_max` bounds `start` and every UID it folds.
pub proof fn lemma_fold_max_bounds(start: u32, uids: Seq<u32>)
    ensures
        start <= fold_max(start, uids),
        forall|i: int| 0 <= i < uids.len() ==> uids[i] <= fold_max(start, uids),
    decreases uids.len(),
{
    if uids.len() > 0 {
        lemma_fold_max_bounds(start, uids.drop_last());
        assert forall|i: int| 0 <= i < uids.len() implies uids[i] <= fold_max(start, uids) by {
            if i < uids.len() - 1 {
                assert(uids.drop_last()[i] == uids[i]);
            }
        }
    }
}

} // verus!
