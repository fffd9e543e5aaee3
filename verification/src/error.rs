//! Everything that can go wrong while resolving credentials, with user-facing text and hints.

use crate::text::{chars_of, contains, contains_str, push_str, string_of};
use vstd::prelude::*;

verus! {

broadcast use vstd::string::group_string_axioms;

#[derive(Debug, Clone)]
pub enum AuthError {
    /// The OS credential store cannot be used on this machine.
    SecretStoreUnavailable(String),
    /// The credential store failed for a specific entry.
    Secret(String),
    /// Talking to the identity provider failed at the HTTP level.
    Http(String),
    /// The identity provider returned an OAuth error object.
    Provider { error: String, description: String },
    /// A silent path (cached/refresh token) is exhausted; the user must sign in again.
    InteractionRequired(String),
    Cancelled,
    Timeout,
    AzureCli(String),
    MissingClientId,
    Other(String),
}

pub const MISSING_CLIENT_ID_TEXT: &'static str = "no Entra client ID is configured — set one under Settings → Connections → Entra client ID";

/// The text shown for an error.
pub open spec fn error_text(e: AuthError) -> Seq<char> {
    match e {
        AuthError::SecretStoreUnavailable(m) => "the OS credential store is unavailable: "@ + m@,
        AuthError::Secret(m) => "credential store error: "@ + m@,
        AuthError::Http(m) => "HTTP error talking to the identity provider: "@ + m@,
        AuthError::Provider { error, description } => error@ + ": "@ + description@,
        AuthError::InteractionRequired(m) => "interactive sign-in required: "@ + m@,
        AuthError::Cancelled => "sign-in cancelled"@,
        AuthError::Timeout => "timed out waiting for sign-in"@,
        AuthError::AzureCli(m) => "Azure CLI: "@ + m@,
        AuthError::MissingClientId => MISSING_CLIENT_ID_TEXT@,
        AuthError::Other(m) => m@,
    }
}

pub const HINT_CONDITIONAL_ACCESS: &'static str = "This tenant's Conditional Access or MFA policy rejected a plain browser sign-in. Try the Azure CLI (az login) or device-code method.";
pub const HINT_CLIENT_ID: &'static str = "The app (client) ID isn't registered in this tenant, or the tenant is wrong. Check Settings → Connections → Entra client ID and the profile's tenant.";
pub const HINT_REDIRECT: &'static str = "The app registration needs `http://localhost` as a Mobile and desktop redirect URI.";
pub const HINT_CONSENT: &'static str = "Consent was not granted for Azure SQL Database access. An admin may need to grant it for this app.";
pub const HINT_PUBLIC_CLIENT: &'static str = "The app registration must be a public client (\"Allow public client flows\" = Yes).";
pub const HINT_DECLINED: &'static str = "The sign-in was declined in the browser.";
pub const HINT_EXPIRED: &'static str = "The device code expired before it was entered. Start again.";
pub const HINT_DENIED: &'static str = "Access was denied by the identity provider or the user.";
pub const HINT_SECRET_STORE: &'static str = "Install a Secret Service provider (gnome-keyring or KWallet) or enable the encrypted-file fallback in Settings.";
pub const HINT_SET_CLIENT_ID: &'static str = "Set an Entra app (client) ID under Settings → Connections.";
pub const HINT_SIGN_IN_AGAIN: &'static str = "Sign in again in the browser.";
pub const HINT_TIMEOUT: &'static str = "Try again, or use the device-code method if the browser can't reach this machine.";
pub const HINT_INSTALL_CLI: &'static str = "Install the Azure CLI (https://aka.ms/azcli) and run `az login`.";
pub const HINT_RUN_AZ_LOGIN: &'static str = "Run `az login` (add `--tenant <id>` for a specific directory) and try again.";

/// AADSTS codes that mean "this public client can't satisfy the tenant's policy".
pub open spec fn mentions_conditional_access(d: Seq<char>) -> bool {
    ||| contains(d, "AADSTS53000"@)
    ||| contains(d, "AADSTS53001"@)
    ||| contains(d, "AADSTS53003"@)
    ||| contains(d, "AADSTS530032"@)
    ||| contains(d, "AADSTS50076"@)
    ||| contains(d, "AADSTS50079"@)
    ||| contains(d, "AADSTS50074"@)
}

/// Advice for an OAuth error from the identity provider.
pub open spec fn provider_hint_spec(error: Seq<char>, d: Seq<char>) -> Option<Seq<char>> {
    if mentions_conditional_access(d) {
        Some(HINT_CONDITIONAL_ACCESS@)
    } else if contains(d, "AADSTS700016"@) || contains(d, "AADSTS90002"@) {
        Some(HINT_CLIENT_ID@)
    } else if contains(d, "AADSTS50011"@) {
        Some(HINT_REDIRECT@)
    } else if contains(d, "AADSTS65001"@) || contains(d, "AADSTS65004"@) {
        Some(HINT_CONSENT@)
    } else if contains(d, "AADSTS7000218"@) {
        Some(HINT_PUBLIC_CLIENT@)
    } else if error == "authorization_declined"@ {
        Some(HINT_DECLINED@)
    } else if error == "expired_token"@ {
        Some(HINT_EXPIRED@)
    } else if error == "access_denied"@ {
        Some(HINT_DENIED@)
    } else {
        None
    }
}

/// Short, actionable advice for an error, if there is any.
pub open spec fn hint_spec(e: AuthError) -> Option<Seq<char>> {
    match e {
        AuthError::SecretStoreUnavailable(_) => Some(HINT_SECRET_STORE@),
        AuthError::MissingClientId => Some(HINT_SET_CLIENT_ID@),
        AuthError::InteractionRequired(_) => Some(HINT_SIGN_IN_AGAIN@),
        AuthError::Timeout => Some(HINT_TIMEOUT@),
        AuthError::AzureCli(m) => if contains(m@, "not found"@) || contains(m@, "not installed"@) {
            Some(HINT_INSTALL_CLI@)
        } else {
            Some(HINT_RUN_AZ_LOGIN@)
        },
        AuthError::Provider { error, description } => provider_hint_spec(error@, description@),
        _ => None,
    }
}

pub open spec fn opt_static(o: Option<&'static str>) -> Option<Seq<char>> {
    match o {
        Some(s) => Some(s@),
        None => None,
    }
}

/// Advice for an OAuth error from the identity provider.
pub fn provider_hint(error: &str, description: &str) -> (r: Option<&'static str>)
    ensures
        opt_static(r) == provider_hint_spec(error@, description@),
{
    let d = chars_of(description);
    if contains_str(&d, "AADSTS53000") || contains_str(&d, "AADSTS53001") || contains_str(
        &d,
        "AADSTS53003",
    ) || contains_str(&d, "AADSTS530032") || contains_str(&d, "AADSTS50076") || contains_str(
        &d,
        "AADSTS50079",
    ) || contains_str(&d, "AADSTS50074") {
        return Some(HINT_CONDITIONAL_ACCESS);
    }
    if contains_str(&d, "AADSTS700016") || contains_str(&d, "AADSTS90002") {
        return Some(HINT_CLIENT_ID);
    }
    if contains_str(&d, "AADSTS50011") {
        return Some(HINT_REDIRECT);
    }
    if contains_str(&d, "AADSTS65001") || contains_str(&d, "AADSTS65004") {
        return Some(HINT_CONSENT);
    }
    if contains_str(&d, "AADSTS7000218") {
        return Some(HINT_PUBLIC_CLIENT);
    }
    let e = chars_of(error);
    if crate::text::eq_str(&e, "authorization_declined") {
        Some(HINT_DECLINED)
    } else if crate::text::eq_str(&e, "expired_token") {
        Some(HINT_EXPIRED)
    } else if crate::text::eq_str(&e, "access_denied") {
        Some(HINT_DENIED)
    } else {
        None
    }
}

impl AuthError {
    pub fn provider(error: &str, description: &str) -> (r: Self)
        ensures
            r matches AuthError::Provider { error: e, description: d } && e@ == error@ && d@
                == description@,
    {
        AuthError::Provider { error: error.to_owned(), description: description.to_owned() }
    }

    pub fn other(msg: &str) -> (r: Self)
        ensures
            r matches AuthError::Other(m) && m@ == msg@,
    {
        AuthError::Other(msg.to_owned())
    }

    /// Whether the UI should re-run the interactive flow rather than show a hard failure.
    pub fn needs_interaction(&self) -> (r: bool)
        ensures
            r == (self is InteractionRequired),
    {
        match self {
            AuthError::InteractionRequired(_) => true,
            _ => false,
        }
    }

    /// Short, actionable advice for the UI to show under the error message.
    pub fn hint(&self) -> (r: Option<&'static str>)
        ensures
            opt_static(r) == hint_spec(*self),
    {
        match self {
            AuthError::SecretStoreUnavailable(_) => Some(HINT_SECRET_STORE),
            AuthError::MissingClientId => Some(HINT_SET_CLIENT_ID),
            AuthError::InteractionRequired(_) => Some(HINT_SIGN_IN_AGAIN),
            AuthError::Timeout => Some(HINT_TIMEOUT),
            AuthError::AzureCli(msg) => {
                let m = chars_of(msg.as_str());
                if contains_str(&m, "not found") || contains_str(&m, "not installed") {
                    Some(HINT_INSTALL_CLI)
                } else {
                    Some(HINT_RUN_AZ_LOGIN)
                }
            },
            AuthError::Provider { error, description } => provider_hint(
                error.as_str(),
                description.as_str(),
            ),
            _ => None,
        }
    }

    /// The text shown to the user.
    pub fn message(&self) -> (r: String)
        ensures
            r@ == error_text(*self),
    {
        let v = match self {
            AuthError::SecretStoreUnavailable(m) => {
                let mut v = chars_of("the OS credential store is unavailable: ");
                push_str(&mut v, m.as_str());
                v
            },
            AuthError::Secret(m) => {
                let mut v = chars_of("credential store error: ");
                push_str(&mut v, m.as_str());
                v
            },
            AuthError::Http(m) => {
                let mut v = chars_of("HTTP error talking to the identity provider: ");
                push_str(&mut v, m.as_str());
                v
            },
            AuthError::Provider { error, description } => {
                let mut v = chars_of(error.as_str());
                push_str(&mut v, ": ");
                push_str(&mut v, description.as_str());
                v
            },
            AuthError::InteractionRequired(m) => {
                let mut v = chars_of("interactive sign-in required: ");
                push_str(&mut v, m.as_str());
                v
            },
            AuthError::Cancelled => chars_of("sign-in cancelled"),
            AuthError::Timeout => chars_of("timed out waiting for sign-in"),
            AuthError::AzureCli(m) => {
                let mut v = chars_of("Azure CLI: ");
                push_str(&mut v, m.as_str());
                v
            },
            AuthError::MissingClientId => chars_of(MISSING_CLIENT_ID_TEXT),
            AuthError::Other(m) => chars_of(m.as_str()),
        };
        string_of(&v)
    }
}

} // verus!
