//! Provisioned IMAP/SMTP mailboxes: who may see and use which, and how a
//! stored mailbox becomes a connection configuration with its password
//! opened.

use vstd::prelude::*;

use crate::secret::{decrypt, nonce_misfit, opened_text, try_decrypt};
use crate::text::eq_str;
use crate::users::{clone_opt, is_admin_role, User};

verus! {

/// A stored mailbox, as the control database holds it. `password_enc` is the
/// sealed password; `accept_invalid_certs` is 0 or 1.
#[derive(Debug)]
pub struct MailboxRow {
    pub id: String,
    pub owner_user_id: String,
    pub email: String,
    pub display_name: Option<String>,
    pub imap_host: String,
    pub imap_port: i64,
    pub imap_security: String,
    pub smtp_host: String,
    pub smtp_port: i64,
    pub smtp_security: String,
    pub username: Option<String>,
    pub password_enc: String,
    pub accept_invalid_certs: i64,
}

/// What a client may see of a mailbox: everything but the password.
#[derive(Debug)]
pub struct MailboxView {
    pub id: String,
    pub owner_user_id: String,
    pub email: String,
    pub display_name: Option<String>,
    pub imap_host: String,
    pub imap_port: i64,
    pub imap_security: String,
    pub smtp_host: String,
    pub smtp_port: i64,
    pub smtp_security: String,
    pub username: Option<String>,
    pub accept_invalid_certs: bool,
}

/// An IMAP connection configuration.
#[derive(Debug)]
pub struct ImapConfig {
    pub host: String,
    pub port: u16,
    pub security: String,
    pub username: String,
    pub password: String,
    pub auth_method: String,
    pub accept_invalid_certs: bool,
}

/// An SMTP connection configuration.
#[derive(Debug)]
pub struct SmtpConfig {
    pub host: String,
    pub port: u16,
    pub security: String,
    pub username: String,
    pub password: String,
    pub auth_method: String,
    pub accept_invalid_certs: bool,
}

/// A mailbox with its owner, address and both configurations, password
/// opened (server-internal).
#[derive(Debug)]
pub struct MailboxCreds {
    pub id: String,
    pub owner_user_id: String,
    pub email: String,
    pub imap: ImapConfig,
    pub smtp: SmtpConfig,
}

/// `v` shows `m`: the same fields, the certificate flag as a boolean.
pub open spec fn view_of(v: MailboxView, m: MailboxRow) -> bool {
    &&& v.id == m.id
    &&& v.owner_user_id == m.owner_user_id
    &&& v.email == m.email
    &&& v.display_name == m.display_name
    &&& v.imap_host == m.imap_host
    &&& v.imap_port == m.imap_port
    &&& v.imap_security == m.imap_security
    &&& v.smtp_host == m.smtp_host
    &&& v.smtp_port == m.smtp_port
    &&& v.smtp_security == m.smtp_security
    &&& v.username == m.username
    &&& v.accept_invalid_certs == (m.accept_invalid_certs != 0)
}

impl MailboxView {
    /// The public view of `m`.
    pub fn from_row(m: &MailboxRow) -> (v: MailboxView)
        ensures
            view_of(v, *m),
            v.imap_host == m.imap_host && v.imap_port == m.imap_port && v.imap_security
                == m.imap_security,
            v.smtp_host == m.smtp_host && v.smtp_port == m.smtp_port && v.smtp_security
                == m.smtp_security,
    {
        MailboxView {
            id: m.id.clone(),
            owner_user_id: m.owner_user_id.clone(),
            email: m.email.clone(),
            display_name: clone_opt(&m.display_name),
            imap_host: m.imap_host.clone(),
            imap_port: m.imap_port,
            imap_security: m.imap_security.clone(),
            smtp_host: m.smtp_host.clone(),
            smtp_port: m.smtp_port,
            smtp_security: m.smtp_security.clone(),
            username: clone_opt(&m.username),
            accept_invalid_certs: m.accept_invalid_certs != 0,
        }
    }
}

/// Whether `user` may operate on `m`: an administrator may use any mailbox,
/// a member only their own.
pub open spec fn may_access(user: User, m: MailboxRow) -> bool {
    is_admin_role(user.role@) || m.owner_user_id@ == user.id@
}

/// Whether `user` may operate on mailbox `m`.
pub fn can_access(user: &User, m: &MailboxRow) -> (r: bool)
    ensures
        r == may_access(*user, *m),
{
    user.is_admin() || eq_str(m.owner_user_id.as_str(), user.id.as_str())
}

/// The login name of a mailbox: its user name, else its address.
pub open spec fn login_name(m: MailboxRow) -> Seq<char> {
    match m.username {
        Some(u) => u@,
        None => m.email@,
    }
}

/// `c` is the IMAP side of `m` with password `password`.
pub open spec fn imap_config_of(c: ImapConfig, m: MailboxRow, password: Seq<char>) -> bool {
    &&& c.host == m.imap_host
    &&& c.port == m.imap_port as u16
    &&& c.security == m.imap_security
    &&& c.username@ == login_name(m)
    &&& c.password@ == password
    &&& c.auth_method@ == "password"@
    &&& c.accept_invalid_certs == (m.accept_invalid_certs != 0)
}

/// `c` is the SMTP side of `m` with password `password`.
pub open spec fn smtp_config_of(c: SmtpConfig, m: MailboxRow, password: Seq<char>) -> bool {
    &&& c.host == m.smtp_host
    &&& c.port == m.smtp_port as u16
    &&& c.security == m.smtp_security
    &&& c.username@ == login_name(m)
    &&& c.password@ == password
    &&& c.auth_method@ == "password"@
    &&& c.accept_invalid_certs == (m.accept_invalid_certs != 0)
}

/// `c` is `m` with both configurations and password `password`.
pub open spec fn creds_of(c: MailboxCreds, m: MailboxRow, password: Seq<char>) -> bool {
    &&& c.id == m.id
    &&& c.owner_user_id == m.owner_user_id
    &&& c.email == m.email
    &&& imap_config_of(c.imap, m, password)
    &&& smtp_config_of(c.smtp, m, password)
}

fn login_name_of(m: &MailboxRow) -> (r: String)
    ensures
        r@ == login_name(*m),
{
    match &m.username {
        Some(u) => u.clone(),
        None => m.email.clone(),
    }
}

fn imap_of(m: &MailboxRow, password: String) -> (c: ImapConfig)
    ensures
        imap_config_of(c, *m, password@),
{
    ImapConfig {
        host: m.imap_host.clone(),
        port: m.imap_port as u16,
        security: m.imap_security.clone(),
        username: login_name_of(m),
        password,
        auth_method: "password".to_owned(),
        accept_invalid_certs: m.accept_invalid_certs != 0,
    }
}

fn smtp_of(m: &MailboxRow, password: String) -> (c: SmtpConfig)
    ensures
        smtp_config_of(c, *m, password@),
{
    SmtpConfig {
        host: m.smtp_host.clone(),
        port: m.smtp_port as u16,
        security: m.smtp_security.clone(),
        username: login_name_of(m),
        password,
        auth_method: "password".to_owned(),
        accept_invalid_certs: m.accept_invalid_certs != 0,
    }
}

/// The stored mailbox `m` with its password opened under `key`, or the
/// error of opening it.
pub fn row_to_creds(m: &MailboxRow, key: &[u8]) -> (r: Result<MailboxCreds, String>)
    requires
        key@.len() == 32,
        !nonce_misfit(m.password_enc@),
    ensures
        r matches Ok(c) ==> c.imap.host == m.imap_host && c.imap.port == m.imap_port as u16
            && c.imap.security == m.imap_security && c.smtp.host == m.smtp_host && c.smtp.port
            == m.smtp_port as u16 && c.smtp.security == m.smtp_security,
        match opened_text(key@, m.password_enc@) {
            Ok(p) => r matches Ok(c) && creds_of(c, *m, p),
            Err(e) => r matches Err(x) && x@ == e,
        },
{
    let password = match decrypt(key, m.password_enc.as_str()) {
        Ok(p) => p,
        Err(e) => return Err(e),
    };
    Ok(
        MailboxCreds {
            id: m.id.clone(),
            owner_user_id: m.owner_user_id.clone(),
            email: m.email.clone(),
            imap: imap_of(m, password.clone()),
            smtp: smtp_of(m, password),
        },
    )
}

/// The rows of `rows` whose passwords open under `key`, in order.
pub open spec fn openable_rows(rows: Seq<MailboxRow>, key: Seq<u8>) -> Seq<MailboxRow>
    decreases rows.len(),
{
    if rows.len() == 0 {
        Seq::empty()
    } else {
        let rest = openable_rows(rows.drop_last(), key);
        if opened_text(key, rows.last().password_enc@) is Ok {
            rest.push(rows.last())
        } else {
            rest
        }
    }
}

/// Whether opening any row of `rows` would panic on a misfit nonce.
pub open spec fn some_nonce_misfit(rows: Seq<MailboxRow>) -> bool {
    exists|i: int| 0 <= i < rows.len() && nonce_misfit(#[trigger] rows[i].password_enc@)
}

/// Every provisioned mailbox whose password opens, with its configurations
/// (mailboxes whose password does not open are left out); `None` where
/// opening some row would panic on a misfit nonce.
pub fn all_with_creds(rows: &Vec<MailboxRow>, key: &[u8]) -> (r: Option<Vec<MailboxCreds>>)
    requires
        key@.len() == 32,
    ensures
        r is None <==> some_nonce_misfit(rows@),
        r matches Some(v) ==> {
            let ok = openable_rows(rows@, key@);
            &&& v@.len() == ok.len()
            &&& forall|i: int|
                0 <= i < ok.len() ==> creds_of(
                    #[trigger] v@[i],
                    ok[i],
                    opened_text(key@, ok[i].password_enc@)->Ok_0,
                )
        },
{
    let n = rows.len();
    let mut out: Vec<MailboxCreds> = Vec::new();
    let mut i: usize = 0;
    while i < n
        invariant
            n == rows@.len(),
            key@.len() == 32,
            i <= n,
            forall|j: int| 0 <= j < i ==> !nonce_misfit(#[trigger] rows@[j].password_enc@),
            out@.len() == openable_rows(rows@.subrange(0, i as int), key@).len(),
            forall|j: int|
                0 <= j < out@.len() ==> creds_of(
                    #[trigger] out@[j],
                    openable_rows(rows@.subrange(0, i as int), key@)[j],
                    opened_text(
                        key@,
                        openable_rows(rows@.subrange(0, i as int), key@)[j].password_enc@,
                    )->Ok_0,
                ),
        decreases n - i,
    {
        let row = &rows[i];
        match try_decrypt(key, row.password_enc.as_str()) {
            None => {
                return None;
            },
            Some(_) => {},
        }
        let ghost before = openable_rows(rows@.subrange(0, i as int), key@);
        proof {
            let pre = rows@.subrange(0, i + 1);
            assert(pre.drop_last() =~= rows@.subrange(0, i as int));
            assert(pre.last() == rows@[i as int]);
        }
        match row_to_creds(row, key) {
            Ok(c) => {
                out.push(c);
            },
            Err(_) => {},
        }
        i = i + 1;
    }
    assert(rows@.subrange(0, n as int) =~= rows@);
    Some(out)
}

/// Turns `found` (the mailbox with the requested id, if any) into the IMAP
/// configuration `user` may use: `"Mailbox not found"` without a mailbox,
/// `"Not authorized for this mailbox"` when the user neither administers
/// nor owns it, else the configuration with the opened password, or the
/// error of opening it.
pub fn resolve_imap(user: &User, found: Option<MailboxRow>, key: &[u8]) -> (r: Result<
    ImapConfig,
    String,
>)
    requires
        key@.len() == 32,
        !resolve_would_panic(*user, found),
    ensures
        r matches Ok(c) ==> (found matches Some(m) && c.host == m.imap_host && c.port
            == m.imap_port as u16 && c.security == m.imap_security),
        match found {
            None => r matches Err(e) && e@ == "Mailbox not found"@,
            Some(m) => if !may_access(*user, m) {
                r matches Err(e) && e@ == "Not authorized for this mailbox"@
            } else {
                match opened_text(key@, m.password_enc@) {
                    Ok(p) => r matches Ok(c) && imap_config_of(c, m, p),
                    Err(e) => r matches Err(x) && x@ == e,
                }
            },
        },
{
    let m = match found {
        Some(m) => m,
        None => return Err("Mailbox not found".to_owned()),
    };
    if !can_access(user, &m) {
        return Err("Not authorized for this mailbox".to_owned());
    }
    let password = match decrypt(key, m.password_enc.as_str()) {
        Ok(p) => p,
        Err(e) => return Err(e),
    };
    Ok(imap_of(&m, password))
}

/// Turns `found` into the SMTP configuration `user` may use, with the same
/// refusals as [`resolve_imap`].
pub fn resolve_smtp(user: &User, found: Option<MailboxRow>, key: &[u8]) -> (r: Result<
    SmtpConfig,
    String,
>)
    requires
        key@.len() == 32,
        !resolve_would_panic(*user, found),
    ensures
        r matches Ok(c) ==> (found matches Some(m) && c.host == m.smtp_host && c.port
            == m.smtp_port as u16 && c.security == m.smtp_security),
        match found {
            None => r matches Err(e) && e@ == "Mailbox not found"@,
            Some(m) => if !may_access(*user, m) {
                r matches Err(e) && e@ == "Not authorized for this mailbox"@
            } else {
                match opened_text(key@, m.password_enc@) {
                    Ok(p) => r matches Ok(c) && smtp_config_of(c, m, p),
                    Err(e) => r matches Err(x) && x@ == e,
                }
            },
        },
{
    let m = match found {
        Some(m) => m,
        None => return Err("Mailbox not found".to_owned()),
    };
    if !can_access(user, &m) {
        return Err("Not authorized for this mailbox".to_owned());
    }
    let password = match decrypt(key, m.password_enc.as_str()) {
        Ok(p) => p,
        Err(e) => return Err(e),
    };
    Ok(smtp_of(&m, password))
}

/// Whether resolving `found` for `user` would panic on a misfit nonce.
pub open spec fn resolve_would_panic(user: User, found: Option<MailboxRow>) -> bool {
    found matches Some(m) && may_access(user, m) && nonce_misfit(m.password_enc@)
}

/// [`resolve_imap`] where it cannot panic: `None` exactly where it would.
pub fn resolve_imap_checked(user: &User, found: Option<MailboxRow>, key: &[u8]) -> (r: Option<
    Result<ImapConfig, String>,
>)
    requires
        key@.len() == 32,
    ensures
        r is None <==> resolve_would_panic(*user, found),
        r matches Some(Ok(c)) ==> (found matches Some(m) && c.host == m.imap_host && c.port
            == m.imap_port as u16 && c.security == m.imap_security),
        r matches Some(res) ==> match found {
            None => res matches Err(e) && e@ == "Mailbox not found"@,
            Some(m) => if !may_access(*user, m) {
                res matches Err(e) && e@ == "Not authorized for this mailbox"@
            } else {
                match opened_text(key@, m.password_enc@) {
                    Ok(p) => res matches Ok(c) && imap_config_of(c, m, p),
                    Err(e) => res matches Err(x) && x@ == e,
                }
            },
        },
{
    if let Some(m) = &found {
        if can_access(user, m) && try_decrypt(key, m.password_enc.as_str()).is_none() {
            return None;
        }
    }
    Some(resolve_imap(user, found, key))
}

/// [`resolve_smtp`] where it cannot panic: `None` exactly where it would.
pub fn resolve_smtp_checked(user: &User, found: Option<MailboxRow>, key: &[u8]) -> (r: Option<
    Result<SmtpConfig, String>,
>)
    requires
        key@.len() == 32,
    ensures
        r is None <==> resolve_would_panic(*user, found),
        r matches Some(Ok(c)) ==> (found matches Some(m) && c.host == m.smtp_host && c.port
            == m.smtp_port as u16 && c.security == m.smtp_security),
        r matches Some(res) ==> match found {
            None => res matches Err(e) && e@ == "Mailbox not found"@,
            Some(m) => if !may_access(*user, m) {
                res matches Err(e) && e@ == "Not authorized for this mailbox"@
            } else {
                match opened_text(key@, m.password_enc@) {
                    Ok(p) => res matches Ok(c) && smtp_config_of(c, m, p),
                    Err(e) => res matches Err(x) && x@ == e,
                }
            },
        },
{
    if let Some(m) = &found {
        if can_access(user, m) && try_decrypt(key, m.password_enc.as_str()).is_none() {
            return None;
        }
    }
    Some(resolve_smtp(user, found, key))
}

/// The rows of `rows` that `user` may see, in order.
pub open spec fn visible_rows(user: User, rows: Seq<MailboxRow>) -> Seq<MailboxRow>
    decreases rows.len(),
{
    if rows.len() == 0 {
        Seq::empty()
    } else {
        let rest = visible_rows(user, rows.drop_last());
        if may_access(user, rows.last()) {
            rest.push(rows.last())
        } else {
            rest
        }
    }
}

/// The mailboxes `user` may list, without passwords: an administrator sees
/// all of `rows`, a member only those they own, in the order of `rows`.
pub fn visible_mailboxes(user: &User, rows: &Vec<MailboxRow>) -> (r: Vec<MailboxView>)
    ensures
        r@.len() == visible_rows(*user, rows@).len(),
        forall|i: int|
            0 <= i < r@.len() ==> view_of(#[trigger] r@[i], visible_rows(*user, rows@)[i]),
        forall|i: int|
            #![trigger r@[i]]
            0 <= i < r@.len() ==> r@[i].imap_host == visible_rows(*user, rows@)[i].imap_host
                && r@[i].imap_port == visible_rows(*user, rows@)[i].imap_port
                && r@[i].imap_security == visible_rows(*user, rows@)[i].imap_security
                && r@[i].smtp_host == visible_rows(*user, rows@)[i].smtp_host
                && r@[i].smtp_port == visible_rows(*user, rows@)[i].smtp_port
                && r@[i].smtp_security == visible_rows(*user, rows@)[i].smtp_security,
{
    let n = rows.len();
    let mut out: Vec<MailboxView> = Vec::new();
    let mut i: usize = 0;
    while i < n
        invariant
            n == rows@.len(),
            i <= n,
            out@.len() == visible_rows(*user, rows@.subrange(0, i as int)).len(),
            forall|j: int|
                0 <= j < out@.len() ==> view_of(
                    #[trigger] out@[j],
                    visible_rows(*user, rows@.subrange(0, i as int))[j],
                ),
        decreases n - i,
    {
        proof {
            let pre = rows@.subrange(0, i + 1);
            assert(pre.drop_last() =~= rows@.subrange(0, i as int));
            assert(pre.last() == rows@[i as int]);
        }
        if can_access(user, &rows[i]) {
            out.push(MailboxView::from_row(&rows[i]));
        }
        i = i + 1;
    }
    assert(rows@.subrange(0, n as int) =~= rows@);
    assert forall|i: int| 0 <= i < out@.len() implies view_of(#[trigger] out@[i], visible_rows(*user, rows@)[i]) by {}
    out
}

/// A member sees exactly the mailboxes they own and an administrator sees
/// every mailbox: what `user` may list is what `user` may access, and every
/// mailbox `user` may access is listed.
pub proof fn law_listing_is_access(user: User, rows: Seq<MailboxRow>)
    ensures
        forall|m: MailboxRow| visible_rows(user, rows).contains(m) <==> (rows.contains(m) && may_access(user, m)),
        is_admin_role(user.role@) ==> visible_rows(user, rows) == rows,
    decreases rows.len(),
{
    if rows.len() > 0 {
        law_listing_is_access(user, rows.drop_last());
        let rest = visible_rows(user, rows.drop_last());
        assert forall|m: MailboxRow| visible_rows(user, rows).contains(m) <==> (rows.contains(m)
            && may_access(user, m)) by {
            if rows.contains(m) {
                let k = choose|k: int| 0 <= k < rows.len() && rows[k] == m;
                if k < rows.len() - 1 {
                    assert(rows.drop_last()[k] == m);
                }
            }
            if rows.drop_last().contains(m) {
                let k = choose|k: int| 0 <= k < rows.drop_last().len() && rows.drop_last()[k] == m;
                assert(rows[k] == m);
            }
            if may_access(user, rows.last()) {
                assert(rest.push(rows.last())[rest.len() as int] == rows.last());
                if rest.push(rows.last()).contains(m) {
                    let k = choose|k: int| 0 <= k < rest.len() + 1 && rest.push(rows.last())[k] == m;
                    if k < rest.len() {
                        assert(rest[k] == m);
                    }
                }
                if rest.contains(m) {
                    let k = choose|k: int| 0 <= k < rest.len() && rest[k] == m;
                    assert(rest.push(rows.last())[k] == m);
                }
            }
            assert(rows[rows.len() - 1] == rows.last());
        }
        if is_admin_role(user.role@) {
            assert(rows.drop_last().push(rows.last()) =~= rows);
        }
    } else {
        assert(visible_rows(user, rows) =~= rows);
    }
}

/// The IMAP and SMTP configurations of one stored mailbox each reach their
/// own side of it: the IMAP one the stored IMAP host, port and security,
/// the SMTP one the stored SMTP host, port and security. So the two point at
/// different hosts exactly when the stored hosts differ, and they log in
/// with the same name and password.
pub proof fn law_each_config_reaches_its_own_server(
    imap: ImapConfig,
    smtp: SmtpConfig,
    m: MailboxRow,
    password: Seq<char>,
)
    requires
        imap_config_of(imap, m, password),
        smtp_config_of(smtp, m, password),
    ensures
        imap.host == m.imap_host && imap.port == m.imap_port as u16 && imap.security
            == m.imap_security,
        smtp.host == m.smtp_host && smtp.port == m.smtp_port as u16 && smtp.security
            == m.smtp_security,
        (imap.host@ == smtp.host@) <==> (m.imap_host@ == m.smtp_host@),
        (imap.security@ == smtp.security@) <==> (m.imap_security@ == m.smtp_security@),
        imap.username@ == smtp.username@ && imap.password@ == smtp.password@,
        imap.password@ == password && smtp.password@ == password,
        imap.username@ == (match m.username {
            Some(u) => u@,
            None => m.email@,
        }),
        imap.accept_invalid_certs == smtp.accept_invalid_certs,
        imap.accept_invalid_certs == (m.accept_invalid_certs != 0),
{
}

/// What a listing shows of a mailbox is what a connection to it uses: the
/// view's IMAP host, port and security are those the IMAP configuration
/// connects with, and likewise for SMTP; each copied from the same side of
/// the stored row.
pub proof fn law_listing_shows_what_connections_use(
    v: MailboxView,
    c: MailboxCreds,
    m: MailboxRow,
    password: Seq<char>,
)
    requires
        view_of(v, m),
        creds_of(c, m, password),
    ensures
        v.imap_host == m.imap_host && v.imap_port == m.imap_port && v.imap_security
            == m.imap_security,
        v.smtp_host == m.smtp_host && v.smtp_port == m.smtp_port && v.smtp_security
            == m.smtp_security,
        v.imap_host == c.imap.host && v.imap_security == c.imap.security,
        v.smtp_host == c.smtp.host && v.smtp_security == c.smtp.security,
        v.imap_port as u16 == c.imap.port && v.smtp_port as u16 == c.smtp.port,
        v.id == c.id && v.owner_user_id == c.owner_user_id && v.email == c.email,
{
}

} // verus!
