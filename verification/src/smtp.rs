//! Sending pre-built messages over SMTP: decoding the Base64url payload,
//! taking the SMTP envelope from the message headers, choosing how to reach
//! the server, and wording the outcome.

use vstd::prelude::*;

use crate::codec::{base64_url_decode_text, base64_url_decoding};
use crate::mailboxes::SmtpConfig;
use crate::text::{concat2, eq_str};

verus! {

/// The addresses of one header line: `None` when the header is absent (or
/// holds no address list); else, for each mailbox in it, its address if it
/// has one.
pub type HeaderList = Option<Vec<Option<String>>>;

/// The address headers of a parsed message.
#[derive(Debug)]
pub struct HeaderAddresses {
    pub from: HeaderList,
    pub to: HeaderList,
    pub cc: HeaderList,
    pub bcc: HeaderList,
}

/// One header's addresses, as sequences.
pub type HeaderModel = Option<Seq<Option<Seq<char>>>>;

/// An optional string, as a sequence.
pub open spec fn opt_text(a: Option<String>) -> Option<Seq<char>> {
    match a {
        Some(s) => Some(s@),
        None => None,
    }
}

/// One header's addresses, as sequences.
pub open spec fn header_model(l: HeaderList) -> HeaderModel {
    match l {
        Some(v) => Some(v@.map_values(|a: Option<String>| opt_text(a))),
        None => None,
    }
}

/// The From, To, Cc and Bcc addresses of a parsed message, as sequences.
pub open spec fn headers_model(h: Option<HeaderAddresses>) -> Option<
    (HeaderModel, HeaderModel, HeaderModel, HeaderModel),
> {
    match h {
        Some(x) => Some((header_model(x.from), header_model(x.to), header_model(x.cc), header_model(x.bcc))),
        None => None,
    }
}

/// What `mail_parser::MessageParser::default().parse(raw)` gives, read as
/// the addresses of its From, To, Cc and Bcc headers (`None` when the bytes
/// do not parse as a message).
pub uninterp spec fn parsed_header_addresses(raw: Seq<u8>) -> Option<
    (HeaderModel, HeaderModel, HeaderModel, HeaderModel),
>;

/// `mail_parser::MessageParser::default().parse(raw)`, read through
/// `Message::from`, `to`, `cc` and `bcc`, each address list taken in
/// `Address::iter` order with `Addr::address`. Claimed: the result is the
/// named reading.
#[verifier::external_body]
fn parse_header_addresses(raw: &[u8]) -> (r: Option<HeaderAddresses>)
    ensures
        headers_model(r) == parsed_header_addresses(raw@),
{
    let m = mail_parser::MessageParser::default().parse(raw)?;
    let conv = |a: Option<&mail_parser::Address>| {
        a.map(|l| l.iter().map(|x| x.address().map(|s| s.to_string())).collect::<Vec<_>>())
    };
    Some(HeaderAddresses { from: conv(m.from()), to: conv(m.to()), cc: conv(m.cc()), bcc: conv(m.bcc()) })
}

/// What `text.parse::<lettre::Address>()` says: `None` when lettre accepts
/// the text as an e-mail address, else the text of its `AddressError`.
pub uninterp spec fn lettre_address_error(text: Seq<char>) -> Option<Seq<char>>;

/// `text.parse::<lettre::Address>()`, keeping only the answer: the address
/// lettre builds holds `text` unchanged, so the text stands for it. Claimed:
/// the result is the named answer.
#[verifier::external_body]
fn lettre_address_check(text: &str) -> (r: Option<String>)
    ensures
        opt_text(r) == lettre_address_error(text@),
{
    text.parse::<lettre::Address>().err().map(|e| e.to_string())
}

/// Decodes a Base64url (no padding) payload; the error text says so.
pub fn decode_base64url(input: &str) -> (r: Result<Vec<u8>, String>)
    ensures
        match base64_url_decoding(input@) {
            Ok(b) => r matches Ok(v) && v@ == b,
            Err(e) => r matches Err(x) && x@ == "Base64 decode error: "@ + e,
        },
{
    match base64_url_decode_text(input) {
        Ok(v) => Ok(v),
        Err(e) => Err(concat2("Base64 decode error: ", e.as_str())),
    }
}

/// The SMTP envelope of a message: who it is from, who receives it.
#[derive(Debug)]
pub struct MailEnvelope {
    pub sender: String,
    pub recipients: Vec<String>,
}

impl MailEnvelope {
    /// The envelope sender.
    pub fn from(&self) -> (r: Option<&String>)
        ensures
            r == Some(&self.sender),
    {
        Some(&self.sender)
    }

    /// The envelope recipients.
    pub fn to(&self) -> (r: &Vec<String>)
        ensures
            r == &self.recipients,
    {
        &self.recipients
    }
}

/// The addresses of a header that lettre accepts, in order.
pub open spec fn accepted_addresses(l: Seq<Option<Seq<char>>>) -> Seq<Seq<char>>
    decreases l.len(),
{
    if l.len() == 0 {
        Seq::empty()
    } else {
        let rest = accepted_addresses(l.drop_last());
        match l.last() {
            Some(a) => if lettre_address_error(a) is None {
                rest.push(a)
            } else {
                rest
            },
            None => rest,
        }
    }
}

/// The accepted addresses of an optional header.
pub open spec fn accepted_of(h: HeaderModel) -> Seq<Seq<char>> {
    match h {
        Some(l) => accepted_addresses(l),
        None => Seq::empty(),
    }
}

/// The first address of the From header, if any.
pub open spec fn first_from(h: HeaderModel) -> Option<Seq<char>> {
    match h {
        Some(l) => if l.len() > 0 {
            l[0]
        } else {
            None
        },
        None => None,
    }
}

/// The envelope taken from raw message bytes: the sender, and the accepted
/// To, Cc and Bcc addresses in that order; or the error text.
pub open spec fn envelope_spec(raw: Seq<u8>) -> Result<(Seq<char>, Seq<Seq<char>>), Seq<char>> {
    match parsed_header_addresses(raw) {
        None => Err("Failed to parse email for envelope extraction"@),
        Some(h) => match first_from(h.0) {
            None => Err("No From address found in email"@),
            Some(f) => match lettre_address_error(f) {
                Some(e) => Err("Invalid From address '"@ + f + "': "@ + e),
                None => {
                    let rcpt = accepted_of(h.1) + accepted_of(h.2) + accepted_of(h.3);
                    if rcpt.len() == 0 {
                        Err("No recipients found in email"@)
                    } else {
                        Ok((f, rcpt))
                    }
                },
            },
        },
    }
}

/// The envelope's recipients are every To, Cc and Bcc address that lettre
/// accepts, in header order, whatever the From address is (the sender's own
/// address included); a message with a parsable, acceptable From and at
/// least one such address always has an envelope.
pub proof fn law_envelope_takes_every_accepted_recipient(raw: Seq<u8>)
    ensures
        match parsed_header_addresses(raw) {
            None => envelope_spec(raw) is Err,
            Some(h) => {
                let all = accepted_of(h.1) + accepted_of(h.2) + accepted_of(h.3);
                &&& envelope_spec(raw) matches Ok((f, rcpt)) ==> (rcpt == all && first_from(h.0)
                    == Some(f))
                &&& match first_from(h.0) {
                    Some(f) => lettre_address_error(f) is None && all.len() > 0 ==> (envelope_spec(
                        raw,
                    ) matches Ok(x) && x == (f, all)),
                    None => true,
                }
                &&& envelope_spec(raw) matches Ok((f, rcpt)) ==> forall|a: Seq<char>|
                    #![trigger rcpt.contains(a)]
                    accepted_of(h.1).contains(a) || accepted_of(h.2).contains(a) || accepted_of(
                        h.3,
                    ).contains(a) ==> rcpt.contains(a)
            },
        },
{
    if let Some(h) = parsed_header_addresses(raw) {
        let t = accepted_of(h.1);
        let c = accepted_of(h.2);
        let b = accepted_of(h.3);
        let all = t + c + b;
        assert forall|a: Seq<char>| t.contains(a) || c.contains(a) || b.contains(a) implies all.contains(
            a,
        ) by {
            if t.contains(a) {
                let k = choose|k: int| 0 <= k < t.len() && t[k] == a;
                assert(all[k] == a);
            } else if c.contains(a) {
                let k = choose|k: int| 0 <= k < c.len() && c[k] == a;
                assert(all[t.len() + k] == a);
            } else {
                let k = choose|k: int| 0 <= k < b.len() && b[k] == a;
                assert(all[t.len() + c.len() + k] == a);
            }
        }
    }
}

/// Strings, as sequences.
pub open spec fn texts(v: Seq<String>) -> Seq<Seq<char>> {
    v.map_values(|s: String| s@)
}

/// Appends to `out` the addresses of `list` that lettre accepts.
fn collect_accepted(list: &HeaderList, out: &mut Vec<String>)
    ensures
        texts(final(out)@) == texts(old(out)@) + accepted_of(header_model(*list)),
{
    if let Some(v) = list {
        let ghost start = texts(out@);
        let ghost model = v@.map_values(|a: Option<String>| opt_text(a));
        let n = v.len();
        let mut i: usize = 0;
        while i < n
            invariant
                n == v@.len(),
                model == v@.map_values(|a: Option<String>| opt_text(a)),
                i <= n,
                texts(out@) == start + accepted_addresses(model.subrange(0, i as int)),
            decreases n - i,
        {
            proof {
                let pre = model.subrange(0, i + 1);
                assert(pre.drop_last() =~= model.subrange(0, i as int));
                assert(pre.last() == opt_text(v@[i as int]));
            }
            if let Some(a) = &v[i] {
                if lettre_address_check(a.as_str()).is_none() {
                    let ghost before = out@;
                    out.push(a.clone());
                    proof {
                        assert(texts(out@) =~= texts(before).push(a@));
                    }
                }
            }
            i = i + 1;
        }
        assert(model.subrange(0, n as int) =~= model);
    } else {
        assert(texts(out@) =~= texts(out@) + Seq::<Seq<char>>::empty());
    }
}

/// The SMTP envelope of raw message bytes: the first From address (which
/// lettre must accept) and every To, Cc and Bcc address that lettre accepts
/// (others are skipped); an error when the message does not parse, has no
/// From address, has an invalid one, or has no acceptable recipient.
pub fn extract_envelope(raw: &[u8]) -> (r: Result<MailEnvelope, String>)
    ensures
        r matches Ok(env) ==> (parsed_header_addresses(raw@) matches Some(h) && texts(
            env.recipients@,
        ) == accepted_of(h.1) + accepted_of(h.2) + accepted_of(h.3) && first_from(h.0) == Some(
            env.sender@,
        )),
        parsed_header_addresses(raw@) matches Some(h) && first_from(h.0) matches Some(f)
            && lettre_address_error(f) is None && (accepted_of(h.1) + accepted_of(h.2)
            + accepted_of(h.3)).len() > 0 ==> r is Ok,
        match envelope_spec(raw@) {
            Ok((f, rcpt)) => r matches Ok(env) && env.sender@ == f && texts(env.recipients@) == rcpt,
            Err(e) => r matches Err(x) && x@ == e,
        },
{
    let h = match parse_header_addresses(raw) {
        Some(h) => h,
        None => return Err("Failed to parse email for envelope extraction".to_owned()),
    };
    let from: String = match &h.from {
        Some(l) => {
            if l.len() > 0 {
                match &l[0] {
                    Some(a) => a.clone(),
                    None => return Err("No From address found in email".to_owned()),
                }
            } else {
                return Err("No From address found in email".to_owned());
            }
        },
        None => return Err("No From address found in email".to_owned()),
    };
    if let Some(e) = lettre_address_check(from.as_str()) {
        let mut msg = "Invalid From address '".to_owned();
        msg.append(from.as_str());
        msg.append("': ");
        msg.append(e.as_str());
        return Err(msg);
    }
    let mut recipients: Vec<String> = Vec::new();
    assert(texts(recipients@) =~= Seq::<Seq<char>>::empty());
    collect_accepted(&h.to, &mut recipients);
    collect_accepted(&h.cc, &mut recipients);
    collect_accepted(&h.bcc, &mut recipients);
    if recipients.len() == 0 {
        return Err("No recipients found in email".to_owned());
    }
    Ok(MailEnvelope { sender: from, recipients })
}

/// Decodes a Base64url payload and takes its envelope: the raw bytes to send
/// and the envelope to send them with.
pub fn prepare_raw_email(raw_email_base64url: &str) -> (r: Result<(Vec<u8>, MailEnvelope), String>)
    ensures
        r matches Ok((b, env)) ==> (parsed_header_addresses(b@) matches Some(h) && texts(
            env.recipients@,
        ) == accepted_of(h.1) + accepted_of(h.2) + accepted_of(h.3)),
        match base64_url_decoding(raw_email_base64url@) {
            Err(e) => r matches Err(x) && x@ == "Base64 decode error: "@ + e,
            Ok(bytes) => match envelope_spec(bytes) {
                Ok((f, rcpt)) => r matches Ok((b, env)) && b@ == bytes && env.sender@ == f && texts(
                    env.recipients@,
                ) == rcpt,
                Err(e) => r matches Err(x) && x@ == e,
            },
        },
{
    let raw = match decode_base64url(raw_email_base64url) {
        Ok(b) => b,
        Err(e) => return Err(e),
    };
    let env = match extract_envelope(raw.as_slice()) {
        Ok(env) => env,
        Err(e) => return Err(e),
    };
    Ok((raw, env))
}

/// The result of an SMTP operation: whether it succeeded, and its message.
#[derive(Debug)]
pub struct SmtpSendResult {
    pub success: bool,
    pub message: String,
}

/// The answer to a send: `sent` is what the transport reported (its error as
/// text).
pub fn send_outcome(sent: Result<(), String>) -> (r: Result<SmtpSendResult, String>)
    ensures
        match sent {
            Ok(_) => r matches Ok(s) && s.success && s.message@ == "Email sent successfully"@,
            Err(e) => r matches Err(x) && x@ == "SMTP send error: "@ + e@,
        },
{
    match sent {
        Ok(_) => Ok(SmtpSendResult { success: true, message: "Email sent successfully".to_owned() }),
        Err(e) => Err(concat2("SMTP send error: ", e.as_str())),
    }
}

/// The answer to a connection test: `tested` is what the transport reported.
pub fn connection_outcome(tested: Result<bool, String>) -> (r: Result<SmtpSendResult, String>)
    ensures
        match tested {
            Ok(ok) => r matches Ok(s) && s.success == ok && s.message@ == (if ok {
                "Connection successful"@
            } else {
                "Connection failed"@
            }),
            Err(e) => r matches Err(x) && x@ == "SMTP test error: "@ + e@,
        },
{
    match tested {
        Ok(ok) => Ok(
            SmtpSendResult {
                success: ok,
                message: if ok {
                    "Connection successful".to_owned()
                } else {
                    "Connection failed".to_owned()
                },
            },
        ),
        Err(e) => Err(concat2("SMTP test error: ", e.as_str())),
    }
}

/// How the connection to the SMTP server is secured.
#[derive(Debug, Clone, Copy, PartialEq, Eq)]
pub enum SmtpSecurity {
    /// TLS from the first byte (typically port 465).
    ImplicitTls,
    /// STARTTLS, required (typically port 587).
    StartTls,
    /// No encryption.
    Plain,
}

/// Which SASL mechanisms the transport may use.
#[derive(Debug, Clone, Copy, PartialEq, Eq)]
pub enum AuthMechanisms {
    /// XOAUTH2 only (OAuth2 accounts).
    Xoauth2,
    /// PLAIN, then LOGIN (password accounts).
    PlainLogin,
}

/// Everything needed to build the SMTP transport for a configuration.
#[derive(Debug)]
pub struct TransportPlan {
    /// The host to connect to: the resolved IPv4 address, else the host name.
    pub connect_host: String,
    pub port: u16,
    pub security: SmtpSecurity,
    /// The host name TLS checks (SNI and certificate): always the configured
    /// one, even when connecting by address.
    pub tls_hostname: String,
    /// Whether TLS accepts invalid certificates and host names.
    pub accept_invalid_certs: bool,
    pub mechanisms: AuthMechanisms,
    pub username: String,
    pub password: String,
}

/// The security a configuration's `security` text asks for.
pub open spec fn security_of(s: Seq<char>) -> SmtpSecurity {
    if s == "tls"@ {
        SmtpSecurity::ImplicitTls
    } else if s == "starttls"@ {
        SmtpSecurity::StartTls
    } else {
        SmtpSecurity::Plain
    }
}

/// The transport for `config`; `resolved_ipv4` is the host's IPv4 address
/// where one was found.
pub fn plan_transport(config: &SmtpConfig, resolved_ipv4: Option<String>) -> (r: TransportPlan)
    ensures
        r.connect_host@ == (match resolved_ipv4 {
            Some(ip) => ip@,
            None => config.host@,
        }),
        r.port == config.port,
        r.security == security_of(config.security@),
        r.tls_hostname == config.host,
        r.accept_invalid_certs == config.accept_invalid_certs,
        r.mechanisms == (if config.auth_method@ == "oauth2"@ {
            AuthMechanisms::Xoauth2
        } else {
            AuthMechanisms::PlainLogin
        }),
        r.username == config.username,
        r.password == config.password,
{
    let mechanisms = if eq_str(config.auth_method.as_str(), "oauth2") {
        AuthMechanisms::Xoauth2
    } else {
        AuthMechanisms::PlainLogin
    };
    let security = if eq_str(config.security.as_str(), "tls") {
        SmtpSecurity::ImplicitTls
    } else if eq_str(config.security.as_str(), "starttls") {
        SmtpSecurity::StartTls
    } else {
        SmtpSecurity::Plain
    };
    let connect_host = match resolved_ipv4 {
        Some(ip) => ip,
        None => config.host.clone(),
    };
    TransportPlan {
        connect_host,
        port: config.port,
        security,
        tls_hostname: config.host.clone(),
        accept_invalid_certs: config.accept_invalid_certs,
        mechanisms,
        username: config.username.clone(),
        password: config.password.clone(),
    }
}

} // verus!
