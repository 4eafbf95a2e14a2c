//! Credentials: what makes a usable email and password.
use vstd::prelude::*;

use crate::text::{concat3, trim_str};

verus! {

/// Checks credentials: the email is trimmed and must not be empty, nor may
/// the password.
pub fn validate_auth(email: &str, password: &str) -> (r: Result<(String, String), String>)
    ensures
        match r {
            Ok((e, p)) => e@ == crate::text::spec_trim(email@) && e@.len() > 0 && p@ == password@
                && p@.len() > 0,
            Err(m) => (crate::text::spec_trim(email@).len() == 0 && m@ == "Missing auth email."@)
                || (crate::text::spec_trim(email@).len() > 0 && password@.len() == 0 && m@
                == "Missing auth password."@),
        },
{
    let email = trim_str(email);
    let password = password.to_owned();
    if email.as_str().is_empty() {
        proof {
            reveal_strlit("Missing auth email.");
        }
        return Err("Missing auth email.".to_owned());
    }
    if password.as_str().is_empty() {
        proof {
            reveal_strlit("Missing auth password.");
        }
        return Err("Missing auth password.".to_owned());
    }
    Ok((email, password))
}

/// Credentials from the configured email and password (either may be
/// unset); `path` is the auth file named in the messages.
pub fn load_auth(email: Option<String>, password: Option<String>, path: &str) -> (r: Result<(String, String), String>)
    ensures
        match email {
            None => r matches Err(m) && m@ == "Missing auth email. Set THINGS3_EMAIL or run `things3 set-auth` to create "@
                + path@ + "."@,
            Some(e) => match password {
                None => r matches Err(m) && m@
                    == "Missing auth password. Set THINGS3_PASSWORD or run `things3 set-auth` to update "@
                    + path@ + "."@,
                Some(p) => match r {
                    Ok((e2, p2)) => e2@ == crate::text::spec_trim(e@) && e2@.len() > 0 && p2@ == p@
                        && p2@.len() > 0,
                    Err(m) => (crate::text::spec_trim(e@).len() == 0 && m@ == "Missing auth email."@)
                        || (crate::text::spec_trim(e@).len() > 0 && p@.len() == 0 && m@
                        == "Missing auth password."@),
                },
            },
        },
{
    let email = match email {
        Some(e) => e,
        None => {
            return Err(
                concat3(
                    "Missing auth email. Set THINGS3_EMAIL or run `things3 set-auth` to create ",
                    path,
                    ".",
                ),
            );
        },
    };
    let password = match password {
        Some(p) => p,
        None => {
            return Err(
                concat3(
                    "Missing auth password. Set THINGS3_PASSWORD or run `things3 set-auth` to update ",
                    path,
                    ".",
                ),
            );
        },
    };
    validate_auth(email.as_str(), password.as_str())
}

} // verus!
