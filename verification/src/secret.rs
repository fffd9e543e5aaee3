//! References to secrets in the credential store, and in-memory secret values.

use crate::ids::ProfileId;
use crate::text::{push_str, string_of};
use vstd::prelude::*;

verus! {

/// A reference to a secret held in the OS credential store, never the secret itself.
///
/// `key` is conventionally `"{profile_id}:{kind}"` where kind is `password`, `refresh_token`,
/// or `client_secret`.
#[derive(Clone, PartialEq, Eq, Hash, Debug)]
pub struct SecretRef {
    pub key: String,
}

impl SecretRef {
    /// An equal copy.
    pub fn duplicate(&self) -> (r: Self)
        ensures
            r == *self,
    {
        SecretRef { key: self.key.clone() }
    }

    /// The reference for one kind of secret of one profile.
    pub fn for_profile(profile: &ProfileId, kind: &str) -> (r: Self)
        ensures
            r.key@ == profile.text() + seq![':'] + kind@,
    {
        let mut v = crate::ids::id_chars(profile);
        v.push(':');
        push_str(&mut v, kind);
        SecretRef { key: string_of(&v) }
    }

    /// The reference as it is shown in diagnostics: `SecretRef(key)`.
    pub fn debug_text(&self) -> (r: String)
        ensures
            r@ == "SecretRef("@ + self.key@ + ")"@,
    {
        let mut v = crate::text::chars_of("SecretRef(");
        push_str(&mut v, self.key.as_str());
        push_str(&mut v, ")");
        string_of(&v)
    }
}

/// An in-memory secret value. It has no `Debug`, so it never shows up in logs; its diagnostic
/// text is [`Secret::debug_text`], which hides the value.
#[derive(Clone, PartialEq, Eq)]
pub struct Secret(String);

impl Secret {
    pub closed spec fn value(&self) -> Seq<char> {
        self.0@
    }

    pub fn new(s: &str) -> (r: Self)
        ensures
            r.value() == s@,
    {
        Secret(s.to_owned())
    }

    /// Wrap an owned string.
    pub fn from_string(s: String) -> (r: Self)
        ensures
            r.value() == s@,
    {
        Secret(s)
    }

    /// An equal copy.
    pub fn duplicate(&self) -> (r: Self)
        ensures
            r == *self,
    {
        Secret(self.0.clone())
    }

    pub fn expose(&self) -> (r: &str)
        ensures
            r@ == self.value(),
    {
        self.0.as_str()
    }

    pub fn is_empty(&self) -> (r: bool)
        ensures
            r == (self.value().len() == 0),
    {
        self.0.as_str().is_empty()
    }

    /// How the secret is shown in diagnostics: `Secret(***)`, whatever it holds.
    pub fn debug_text(&self) -> (r: String)
        ensures
            r@ == "Secret(***)"@,
    {
        "Secret(***)".to_string()
    }
}

impl Default for Secret {
    /// The empty secret.
    fn default() -> (r: Self)
        ensures
            r.value() == Seq::<char>::empty(),
    {
        Secret(String::new())
    }
}

impl From<String> for Secret {
    fn from(s: String) -> (r: Self)
        ensures
            r.value() == s@,
    {
        Secret(s)
    }
}

impl vstd::std_specs::convert::FromSpecImpl<String> for Secret {
    open spec fn obeys_from_spec() -> bool {
        true
    }

    closed spec fn from_spec(s: String) -> Self {
        Secret(s)
    }
}

} // verus!
