//! Stable identifiers for saved connections and server groups.

use crate::text::{hex_fixed_lower, hex_lower_u128, push_all, string_of};
use vstd::prelude::*;

verus! {

/// 16 bytes from the operating system's random source (`OsRng::try_fill_bytes`) read as a
/// `u128`, or `None` when that source fails. Nothing is claimed of the value.
#[verifier::external_body]
fn random_u128() -> Option<u128> {
    let mut b = [0u8; 16];
    rand::RngCore::try_fill_bytes(&mut rand::rngs::OsRng, &mut b).ok()?;
    Some(u128::from_le_bytes(b))
}

/// Identifies a saved connection profile. Rendered as 32 lower-case hexadecimal digits in
/// `8-4-4-4-12` groups.
#[derive(Clone, Copy, Debug, PartialEq, Eq, Hash, Structural)]
pub struct ProfileId(pub u128);

/// Identifies a server group.
#[derive(Clone, Copy, Debug, PartialEq, Eq, Hash, Structural)]
pub struct GroupId(pub u128);

/// The `8-4-4-4-12` text of a 128-bit identifier.
pub open spec fn id_text(v: u128) -> Seq<char> {
    let n = v as nat;
    hex_fixed_lower(n / 0x1_0000_0000_0000_0000_0000_0000, 8) + seq!['-'] + hex_fixed_lower(
        n / 0x1_0000_0000_0000_0000_0000,
        4,
    ) + seq!['-'] + hex_fixed_lower(n / 0x1_0000_0000_0000_0000, 4) + seq!['-']
        + hex_fixed_lower(n / 0x1_0000_0000_0000, 4) + seq!['-'] + hex_fixed_lower(n, 12)
}

fn id_text_exec(v: u128) -> (r: Vec<char>)
    ensures
        r@ == id_text(v),
{
    let mut r = hex_lower_u128(v / 0x1_0000_0000_0000_0000_0000_0000, 8);
    r.push('-');
    let b = hex_lower_u128(v / 0x1_0000_0000_0000_0000_0000, 4);
    push_all(&mut r, &b);
    r.push('-');
    let c = hex_lower_u128(v / 0x1_0000_0000_0000_0000, 4);
    push_all(&mut r, &c);
    r.push('-');
    let d = hex_lower_u128(v / 0x1_0000_0000_0000, 4);
    push_all(&mut r, &d);
    r.push('-');
    let e = hex_lower_u128(v, 12);
    push_all(&mut r, &e);
    r
}

/// The text of a profile identifier, as characters.
pub fn id_chars(p: &ProfileId) -> (r: Vec<char>)
    ensures
        r@ == p.text(),
{
    id_text_exec(p.0)
}

impl ProfileId {
    /// A fresh random identifier, or `None` when the operating system's random source fails.
    pub fn new() -> Option<Self> {
        match random_u128() {
            Some(v) => Some(ProfileId(v)),
            None => None,
        }
    }

    pub open spec fn text(self) -> Seq<char> {
        id_text(self.0)
    }

    /// The identifier as text.
    pub fn to_text(&self) -> (r: String)
        ensures
            r@ == self.text(),
    {
        let v = id_text_exec(self.0);
        string_of(&v)
    }
}

impl GroupId {
    /// A fresh random identifier, or `None` when the operating system's random source fails.
    pub fn new() -> Option<Self> {
        match random_u128() {
            Some(v) => Some(GroupId(v)),
            None => None,
        }
    }

    pub open spec fn text(self) -> Seq<char> {
        id_text(self.0)
    }

    /// The identifier as text.
    pub fn to_text(&self) -> (r: String)
        ensures
            r@ == self.text(),
    {
        let v = id_text_exec(self.0);
        string_of(&v)
    }
}

} // verus!
