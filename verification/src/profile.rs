//! Outgoing display name and signature, set by administrators globally or
//! per user, and resolved field by field for each user.

use vstd::prelude::*;

verus! {

/// A display name and signature, each possibly unset.
#[derive(Debug)]
pub struct ProfileValue {
    pub display_name: Option<String>,
    pub signature_html: Option<String>,
}

/// `mine` where it is set, else `global`.
pub open spec fn or_else(mine: Option<String>, global: Option<String>) -> Option<String> {
    match mine {
        Some(v) => Some(v),
        None => global,
    }
}

/// A stored scope's settings: `row` is its row, if any; no row means
/// nothing is set.
pub fn profile_from_row(row: Option<(Option<String>, Option<String>)>) -> (r: ProfileValue)
    ensures
        match row {
            Some((dn, sig)) => r.display_name == dn && r.signature_html == sig,
            None => r.display_name is None && r.signature_html is None,
        },
{
    match row {
        Some((dn, sig)) => ProfileValue { display_name: dn, signature_html: sig },
        None => ProfileValue { display_name: None, signature_html: None },
    }
}

/// A user's profile: each field from the user's own settings where set,
/// else from the global settings, else unset.
pub fn resolve_profile(global: ProfileValue, mine: ProfileValue) -> (r: ProfileValue)
    ensures
        r.display_name == or_else(mine.display_name, global.display_name),
        r.signature_html == or_else(mine.signature_html, global.signature_html),
{
    let display_name = match mine.display_name {
        Some(v) => Some(v),
        None => global.display_name,
    };
    let signature_html = match mine.signature_html {
        Some(v) => Some(v),
        None => global.signature_html,
    };
    ProfileValue { display_name, signature_html }
}

} // verus!
