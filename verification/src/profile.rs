//! Saved connection profiles, authentication methods, connection options, server groups and
//! colors, and the ADO.NET / SqlClient connection-string reader.

use crate::ids::{GroupId, ProfileId};
use crate::secret::{Secret, SecretRef};
use crate::text::{
    ascii_lower, chars_of, contains, contains_str, dec, eq_ignore_case, eq_str, find_char,
    hex_fixed, hex_u64, is_blank, lower_chars, matches_at, matches_at_exec, parse_uint,
    parse_uint_exec, push_all, rfind_char, slice, starts_with, string_of, trim, trim_chars,
    trimmed_of,
};
use vstd::prelude::*;

verus! {

broadcast use vstd::string::group_string_axioms;

// ---------------------------------------------------------------------------------------------
// Types

/// Whether and how strictly TLS is used.
#[derive(Clone, Copy, Debug, PartialEq, Eq, Structural)]
pub enum Encrypt {
    /// TDS 8.0 strict TLS.
    Strict,
    /// TLS required (SqlClient "Mandatory"/true); the default.
    Mandatory,
    /// Encrypt only if the server insists.
    Optional,
}

/// SqlClient `ApplicationIntent`.
#[derive(Clone, Copy, Debug, PartialEq, Eq, Structural)]
pub enum ApplicationIntent {
    ReadWrite,
    ReadOnly,
}

/// Per-profile driver options.
#[derive(Clone, Debug)]
pub struct ConnectionOptions {
    pub encrypt: Encrypt,
    pub trust_server_certificate: bool,
    pub host_name_in_certificate: Option<String>,
    pub application_name: String,
    pub connect_timeout_secs: u32,
    /// 0 = no timeout.
    pub command_timeout_secs: u32,
    pub application_intent: ApplicationIntent,
    pub mars: bool,
    pub packet_size: Option<u32>,
    pub multi_subnet_failover: bool,
}

/// How a profile authenticates.
#[allow(inconsistent_fields)]
#[derive(Clone, Debug)]
pub enum AuthMethod {
    SqlLogin {
        user: String,
        /// `None` = prompt every time.
        password: Option<SecretRef>,
    },
    /// Browser-based OAuth2 auth-code + PKCE with loopback redirect.
    EntraInteractive {
        tenant: Option<String>,
        /// Sign-in hint (UPN) to preselect the account.
        account_hint: Option<String>,
    },
    EntraDeviceCode { tenant: Option<String> },
    /// Reuse `az login`.
    AzureCli { tenant: Option<String> },
    /// SSPI / Kerberos.
    WindowsIntegrated,
    EntraServicePrincipal { tenant: String, client_id: String, secret: Option<SecretRef> },
}

/// sRGB color, no alpha; written as `#RRGGBB`.
#[derive(Clone, Copy, Debug, PartialEq, Eq, Hash, Structural)]
pub struct Color(pub u8, pub u8, pub u8);

/// A saved connection. Secrets live in the credential store, not here.
#[derive(Clone, Debug)]
pub struct ConnectionProfile {
    pub id: ProfileId,
    /// Friendly name; when `None`, display `server`.
    pub name: Option<String>,
    /// Host name, `host,port`, `host\instance`, or a Fabric endpoint host.
    pub server: String,
    pub port: Option<u16>,
    pub database: Option<String>,
    pub auth: AuthMethod,
    pub group: Option<GroupId>,
    /// Overrides the group color when set.
    pub color: Option<Color>,
    pub options: ConnectionOptions,
    /// Ask before running non-read statements on this connection.
    pub read_only_guard: bool,
    /// Last use, in milliseconds since the Unix epoch.
    pub last_used: Option<i64>,
}

/// Secrets found in a pasted connection string (never stored on the profile).
#[derive(Clone, Debug)]
pub struct ConnStringSecrets {
    pub password: Option<String>,
    pub client_secret: Option<String>,
    /// Keys that were not understood, for a note to the user.
    pub ignored: Vec<String>,
}

/// Credentials resolved just before connecting.
pub enum ResolvedCredentials {
    SqlLogin { user: String, password: Secret },
    /// A bearer access token for `https://database.windows.net/`; expiry in milliseconds since
    /// the Unix epoch.
    EntraToken { token: Secret, expires_at: Option<i64> },
    WindowsIntegrated,
}

/// A folder of profiles in the Servers tree.
#[derive(Clone, Debug)]
pub struct ServerGroup {
    pub id: GroupId,
    pub name: String,
    pub color: Color,
    pub parent: Option<GroupId>,
    pub description: Option<String>,
    pub sort_order: i32,
}

// ---------------------------------------------------------------------------------------------
// Views

pub open spec fn opt_view(o: Option<String>) -> Option<Seq<char>> {
    match o {
        Some(s) => Some(s@),
        None => None,
    }
}

pub open spec fn ref_view(o: Option<SecretRef>) -> Option<Seq<char>> {
    match o {
        Some(r) => Some(r.key@),
        None => None,
    }
}

pub open spec fn strs(v: Seq<String>) -> Seq<Seq<char>> {
    v.map_values(|s: String| s@)
}

pub struct OptionsView {
    pub encrypt: Encrypt,
    pub trust_server_certificate: bool,
    pub host_name_in_certificate: Option<Seq<char>>,
    pub application_name: Seq<char>,
    pub connect_timeout_secs: u32,
    pub command_timeout_secs: u32,
    pub application_intent: ApplicationIntent,
    pub mars: bool,
    pub packet_size: Option<u32>,
    pub multi_subnet_failover: bool,
}

#[allow(inconsistent_fields)]
pub enum AuthView {
    SqlLogin { user: Seq<char>, password: Option<Seq<char>> },
    EntraInteractive { tenant: Option<Seq<char>>, account_hint: Option<Seq<char>> },
    EntraDeviceCode { tenant: Option<Seq<char>> },
    AzureCli { tenant: Option<Seq<char>> },
    WindowsIntegrated,
    EntraServicePrincipal { tenant: Seq<char>, client_id: Seq<char>, secret: Option<Seq<char>> },
}

pub struct ProfileView {
    pub id: ProfileId,
    pub name: Option<Seq<char>>,
    pub server: Seq<char>,
    pub port: Option<u16>,
    pub database: Option<Seq<char>>,
    pub auth: AuthView,
    pub group: Option<GroupId>,
    pub color: Option<Color>,
    pub options: OptionsView,
    pub read_only_guard: bool,
    pub last_used: Option<i64>,
}

pub struct SecretsView {
    pub password: Option<Seq<char>>,
    pub client_secret: Option<Seq<char>>,
    pub ignored: Seq<Seq<char>>,
}

impl View for ConnectionOptions {
    type V = OptionsView;

    open spec fn view(&self) -> OptionsView {
        OptionsView {
            encrypt: self.encrypt,
            trust_server_certificate: self.trust_server_certificate,
            host_name_in_certificate: opt_view(self.host_name_in_certificate),
            application_name: self.application_name@,
            connect_timeout_secs: self.connect_timeout_secs,
            command_timeout_secs: self.command_timeout_secs,
            application_intent: self.application_intent,
            mars: self.mars,
            packet_size: self.packet_size,
            multi_subnet_failover: self.multi_subnet_failover,
        }
    }
}

impl View for AuthMethod {
    type V = AuthView;

    open spec fn view(&self) -> AuthView {
        match self {
            AuthMethod::SqlLogin { user, password } => AuthView::SqlLogin {
                user: user@,
                password: ref_view(*password),
            },
            AuthMethod::EntraInteractive { tenant, account_hint } => AuthView::EntraInteractive {
                tenant: opt_view(*tenant),
                account_hint: opt_view(*account_hint),
            },
            AuthMethod::EntraDeviceCode { tenant } => AuthView::EntraDeviceCode {
                tenant: opt_view(*tenant),
            },
            AuthMethod::AzureCli { tenant } => AuthView::AzureCli { tenant: opt_view(*tenant) },
            AuthMethod::WindowsIntegrated => AuthView::WindowsIntegrated,
            AuthMethod::EntraServicePrincipal { tenant, client_id, secret } =>
                AuthView::EntraServicePrincipal {
                tenant: tenant@,
                client_id: client_id@,
                secret: ref_view(*secret),
            },
        }
    }
}

impl View for ConnectionProfile {
    type V = ProfileView;

    open spec fn view(&self) -> ProfileView {
        ProfileView {
            id: self.id,
            name: opt_view(self.name),
            server: self.server@,
            port: self.port,
            database: opt_view(self.database),
            auth: self.auth@,
            group: self.group,
            color: self.color,
            options: self.options@,
            read_only_guard: self.read_only_guard,
            last_used: self.last_used,
        }
    }
}

impl View for ConnStringSecrets {
    type V = SecretsView;

    open spec fn view(&self) -> SecretsView {
        SecretsView {
            password: opt_view(self.password),
            client_secret: opt_view(self.client_secret),
            ignored: strs(self.ignored@),
        }
    }
}

// ---------------------------------------------------------------------------------------------
// Defaults and small queries

/// The options of a new profile.
pub open spec fn default_options() -> OptionsView {
    OptionsView {
        encrypt: Encrypt::Mandatory,
        trust_server_certificate: false,
        host_name_in_certificate: None,
        application_name: "Cobalt SQL Works"@,
        connect_timeout_secs: 30,
        command_timeout_secs: 0,
        application_intent: ApplicationIntent::ReadWrite,
        mars: false,
        packet_size: None,
        multi_subnet_failover: false,
    }
}

impl ConnectionOptions {
    /// The defaults of a new profile.
    pub fn default() -> (r: Self)
        ensures
            r@ == default_options(),
            r@ == (OptionsView {
                encrypt: Encrypt::Mandatory,
                trust_server_certificate: false,
                host_name_in_certificate: None,
                application_name: "Cobalt SQL Works"@,
                connect_timeout_secs: 30,
                command_timeout_secs: 0,
                application_intent: ApplicationIntent::ReadWrite,
                mars: false,
                packet_size: None,
                multi_subnet_failover: false,
            }),
    {
        ConnectionOptions {
            encrypt: Encrypt::Mandatory,
            trust_server_certificate: false,
            host_name_in_certificate: None,
            application_name: "Cobalt SQL Works".to_owned(),
            connect_timeout_secs: 30,
            command_timeout_secs: 0,
            application_intent: ApplicationIntent::ReadWrite,
            mars: false,
            packet_size: None,
            multi_subnet_failover: false,
        }
    }
}

impl ConnectionProfile {
    /// A new profile for `server` with default options and a fresh id, or `None` when no
    /// fresh id can be drawn (the operating system's random source failed).
    pub fn new(server: &str, auth: AuthMethod) -> (r: Option<Self>)
        ensures
            r matches Some(p) ==> {
                &&& p.name is None
                &&& p.server@ == server@
                &&& p.port is None
                &&& p.database is None
                &&& p.auth == auth
                &&& p.group is None
                &&& p.color is None
                &&& p.options@ == default_options()
                &&& !p.read_only_guard
                &&& p.last_used is None
            },
    {
        let id = match ProfileId::new() {
            Some(i) => i,
            None => return None,
        };
        Some(ConnectionProfile {
            id,
            name: None,
            server: server.to_owned(),
            port: None,
            database: None,
            auth,
            group: None,
            color: None,
            options: ConnectionOptions::default(),
            read_only_guard: false,
            last_used: None,
        })
    }

    /// What to show in trees and tabs: the name unless it is blank, else the server.
    pub fn display_name(&self) -> (r: String)
        ensures
            r@ == match self.name {
                Some(n) if trim(n@).len() > 0 => n@,
                _ => self.server@,
            },
    {
        match &self.name {
            Some(n) => {
                let v = chars_of(n.as_str());
                if !is_blank(&v) {
                    n.clone()
                } else {
                    self.server.clone()
                }
            },
            None => self.server.clone(),
        }
    }

    /// Fabric hosts look like `xxx.datawarehouse.fabric.microsoft.com` or
    /// `*.pbidedicated.windows.net`.
    pub fn looks_like_fabric(&self) -> (r: bool)
        ensures
            r == (contains(ascii_lower(self.server@), ".fabric.microsoft.com"@) || contains(
                ascii_lower(self.server@),
                ".pbidedicated.windows.net"@,
            )),
    {
        let s = crate::text::lower_of(self.server.as_str());
        contains_str(&s, ".fabric.microsoft.com") || contains_str(&s, ".pbidedicated.windows.net")
    }

    /// Azure SQL, Synapse, or Fabric host names.
    pub fn looks_like_azure(&self) -> (r: bool)
        ensures
            r == (contains(ascii_lower(self.server@), ".database.windows.net"@) || contains(
                ascii_lower(self.server@),
                ".sql.azuresynapse.net"@,
            ) || contains(ascii_lower(self.server@), ".fabric.microsoft.com"@) || contains(
                ascii_lower(self.server@),
                ".pbidedicated.windows.net"@,
            )),
    {
        let s = crate::text::lower_of(self.server.as_str());
        contains_str(&s, ".database.windows.net") || contains_str(&s, ".sql.azuresynapse.net")
            || self.looks_like_fabric()
    }
}

impl AuthMethod {
    pub fn label(&self) -> (r: &'static str)
        ensures
            r@ == match self {
                AuthMethod::SqlLogin { .. } => "SQL Login"@,
                AuthMethod::EntraInteractive { .. } => "Microsoft Entra ID (interactive)"@,
                AuthMethod::EntraDeviceCode { .. } => "Microsoft Entra ID (device code)"@,
                AuthMethod::AzureCli { .. } => "Azure CLI (az login)"@,
                AuthMethod::WindowsIntegrated => "Windows Authentication"@,
                AuthMethod::EntraServicePrincipal { .. } => "Entra service principal"@,
            },
    {
        match self {
            AuthMethod::SqlLogin { .. } => "SQL Login",
            AuthMethod::EntraInteractive { .. } => "Microsoft Entra ID (interactive)",
            AuthMethod::EntraDeviceCode { .. } => "Microsoft Entra ID (device code)",
            AuthMethod::AzureCli { .. } => "Azure CLI (az login)",
            AuthMethod::WindowsIntegrated => "Windows Authentication",
            AuthMethod::EntraServicePrincipal { .. } => "Entra service principal",
        }
    }

    /// Whether the method signs in through Microsoft Entra ID.
    pub fn is_entra(&self) -> (r: bool)
        ensures
            r == (self is EntraInteractive || self is EntraDeviceCode || self is AzureCli
                || self is EntraServicePrincipal),
    {
        match self {
            AuthMethod::EntraInteractive { .. } | AuthMethod::EntraDeviceCode { .. }
            | AuthMethod::AzureCli { .. } | AuthMethod::EntraServicePrincipal { .. } => true,
            _ => false,
        }
    }

    /// The user shown for the profile: the SQL login, or the Entra account hint.
    pub fn user_name(&self) -> (r: Option<&str>)
        ensures
            match r {
                Some(u) => match self {
                    AuthMethod::SqlLogin { user, .. } => u@ == user@,
                    AuthMethod::EntraInteractive { account_hint, .. } => account_hint.is_some()
                        && u@ == account_hint.unwrap()@,
                    _ => false,
                },
                None => match self {
                    AuthMethod::EntraInteractive { account_hint, .. } => account_hint.is_none(),
                    AuthMethod::SqlLogin { .. } => false,
                    _ => true,
                },
            },
    {
        match self {
            AuthMethod::SqlLogin { user, .. } => Some(user.as_str()),
            AuthMethod::EntraInteractive { account_hint, .. } => match account_hint {
                Some(h) => Some(h.as_str()),
                None => None,
            },
            _ => None,
        }
    }
}

impl ServerGroup {
    /// A new top-level group with a fresh id, or `None` when no fresh id can be drawn (the
    /// operating system's random source failed).
    pub fn new(name: &str, color: Color) -> (r: Option<Self>)
        ensures
            r matches Some(g) ==> {
                &&& g.name@ == name@
                &&& g.color == color
                &&& g.parent is None
                &&& g.description is None
                &&& g.sort_order == 0
            },
    {
        let id = match GroupId::new() {
            Some(i) => i,
            None => return None,
        };
        Some(ServerGroup { id, name: name.to_owned(), color, parent: None, description: None, sort_order: 0 })
    }
}

// ---------------------------------------------------------------------------------------------
// Colors

/// `#RRGGBB` in upper-case hexadecimal.
pub open spec fn color_hex(c: Color) -> Seq<char> {
    seq!['#'] + hex_fixed(c.0 as nat, 2) + hex_fixed(c.1 as nat, 2) + hex_fixed(c.2 as nat, 2)
}

/// Value of a hexadecimal digit.
pub open spec fn hex_value(c: char) -> Option<nat> {
    if '0' <= c && c <= '9' {
        Some(((c as u32) - ('0' as u32)) as nat)
    } else if 'a' <= c && c <= 'f' {
        Some(((c as u32) - ('a' as u32) + 10) as nat)
    } else if 'A' <= c && c <= 'F' {
        Some(((c as u32) - ('A' as u32) + 10) as nat)
    } else {
        None
    }
}

/// Value of a string of hexadecimal digits, if every character is one.
pub open spec fn hex_digits_value(s: Seq<char>) -> Option<nat>
    decreases s.len(),
{
    if s.len() == 0 {
        Some(0)
    } else {
        match (hex_digits_value(s.drop_last()), hex_value(s.last())) {
            (Some(h), Some(d)) => Some(h * 16 + d),
            _ => None,
        }
    }
}

/// `u32::from_str_radix(s, 16)` on a six-character string: an optional `+`, then hex digits.
pub open spec fn parse_hex6(s: Seq<char>) -> Option<nat> {
    let body = if s.len() > 0 && s[0] == '+' {
        s.drop_first()
    } else {
        s
    };
    if body.len() > 0 {
        hex_digits_value(body)
    } else {
        None
    }
}

/// Strip every leading occurrence of `c`.
pub open spec fn strip_leading(s: Seq<char>, c: char) -> Seq<char>
    decreases s.len(),
{
    if s.len() > 0 && s[0] == c {
        strip_leading(s.drop_first(), c)
    } else {
        s
    }
}

/// What `Color::parse` accepts: trimmed, leading `#`s removed, exactly six characters that read
/// as a hexadecimal number.
pub open spec fn color_parse(s: Seq<char>) -> Option<Color> {
    let t = strip_leading(trim(s), '#');
    if t.len() != 6 {
        None
    } else {
        match parse_hex6(t) {
            Some(v) => Some(Color((v / 65536 % 256) as u8, (v / 256 % 256) as u8, (v % 256) as u8)),
            None => None,
        }
    }
}

proof fn lemma_hex_fixed_len(n: nat, w: nat)
    ensures
        hex_fixed(n, w).len() == w,
    decreases w,
{
    if w > 0 {
        lemma_hex_fixed_len(n / 16, (w - 1) as nat);
    }
}

proof fn lemma_hex_roundtrip(n: nat, w: nat)
    ensures
        hex_digits_value(hex_fixed(n, w)) == Some(n % pow16(w as int)),
    decreases w,
{
    if w == 0 {
        assert(hex_fixed(n, w) =~= Seq::<char>::empty());
    } else {
        let w1 = (w - 1) as nat;
        lemma_hex_roundtrip(n / 16, w1);
        let s = hex_fixed(n, w);
        assert(s.drop_last() == hex_fixed(n / 16, w1));
        let d = n % 16;
        assert(hex_value(s.last()) == Some(d));
        lemma_pow16_pos(w1 as int);
        let p1 = pow16(w1 as int);
        assert(pow16(w as int) == 16 * p1);
        vstd::arithmetic::div_mod::lemma_breakdown(n as int, 16, p1 as int);
        let q = (n / 16) % p1;
        assert((n as int) % (16 * (p1 as int)) == 16 * (q as int) + (n as int) % 16);
        assert(q * 16 == 16 * q) by (nonlinear_arith);
    }
}

proof fn lemma_pow16_pos(k: int)
    ensures
        pow16(k) > 0,
    decreases k,
{
    if k > 0 {
        lemma_pow16_pos(k - 1);
    }
}

proof fn lemma_hex_fixed_chars(n: nat, w: nat)
    ensures
        forall|i: int| 0 <= i < w ==> #[trigger] hex_value(hex_fixed(n, w)[i]) is Some,
    decreases w,
{
    lemma_hex_fixed_len(n, w);
    if w > 0 {
        lemma_hex_fixed_chars(n / 16, (w - 1) as nat);
        lemma_hex_fixed_len(n / 16, (w - 1) as nat);
        let s = hex_fixed(n, w);
        assert forall|i: int| 0 <= i < w implies #[trigger] hex_value(s[i]) is Some by {
            if i < w - 1 {
                assert(s[i] == hex_fixed(n / 16, (w - 1) as nat)[i]);
            }
        }
    }
}

/// Every color reads back from its own `#RRGGBB` text.
pub proof fn lemma_color_roundtrip(c: Color)
    ensures
        color_parse(color_hex(c)) == Some(c),
{
    let h = color_hex(c);
    lemma_hex_fixed_len(c.0 as nat, 2);
    lemma_hex_fixed_len(c.1 as nat, 2);
    lemma_hex_fixed_len(c.2 as nat, 2);
    assert(h.len() == 7);
    lemma_hex_fixed_chars(c.0 as nat, 2);
    lemma_hex_fixed_chars(c.2 as nat, 2);
    assert(hex_value(hex_fixed(c.0 as nat, 2)[0]) is Some);
    assert(hex_value(hex_fixed(c.2 as nat, 2)[1]) is Some);
    // Trimming does nothing: the first and last characters are not whitespace.
    assert(trim(h) == h) by {
        assert(h[0] == '#');
        let last = h[6];
        assert(last == hex_fixed(c.2 as nat, 2)[1]);
        reveal_with_fuel(crate::text::trim_start, 2);
        reveal_with_fuel(crate::text::trim_end, 2);
    }
    let body = hex_fixed(c.0 as nat, 2) + hex_fixed(c.1 as nat, 2) + hex_fixed(c.2 as nat, 2);
    assert(h.drop_first() =~= body);
    assert(body[0] == hex_fixed(c.0 as nat, 2)[0]);
    assert(body[0] != '#');
    reveal_with_fuel(strip_leading, 3);
    assert(strip_leading(h, '#') == body);
    assert(body[0] != '+');
    let v = (c.0 as nat) * 65536 + (c.1 as nat) * 256 + (c.2 as nat);
    lemma_hex_concat(v, c);
}

proof fn lemma_hex_concat(v: nat, c: Color)
    requires
        v == (c.0 as nat) * 65536 + (c.1 as nat) * 256 + (c.2 as nat),
    ensures
        hex_digits_value(
            hex_fixed(c.0 as nat, 2) + hex_fixed(c.1 as nat, 2) + hex_fixed(c.2 as nat, 2),
        ) == Some(v),
        (v / 65536 % 256) as u8 == c.0,
        (v / 256 % 256) as u8 == c.1,
        (v % 256) as u8 == c.2,
{
    let a = hex_fixed(c.0 as nat, 2);
    let b = hex_fixed(c.1 as nat, 2);
    let d = hex_fixed(c.2 as nat, 2);
    lemma_hex_fixed_len(c.0 as nat, 2);
    lemma_hex_fixed_len(c.1 as nat, 2);
    lemma_hex_fixed_len(c.2 as nat, 2);
    lemma_hex_roundtrip(c.0 as nat, 2);
    lemma_hex_roundtrip(c.1 as nat, 2);
    lemma_hex_roundtrip(c.2 as nat, 2);
    assert(pow16(2) == 256) by {
        reveal_with_fuel(pow16, 3);
    }
    assert(hex_digits_value(a) == Some(c.0 as nat));
    assert(hex_digits_value(b) == Some(c.1 as nat));
    assert(hex_digits_value(d) == Some(c.2 as nat));
    lemma_hex_append(a, b);
    lemma_hex_append(a + b, d);
    assert(v / 65536 == c.0 as nat) by (nonlinear_arith)
        requires
            v == (c.0 as nat) * 65536 + (c.1 as nat) * 256 + (c.2 as nat),
            c.1 < 256,
            c.2 < 256,
    ;
    assert(v / 256 % 256 == c.1 as nat) by (nonlinear_arith)
        requires
            v == (c.0 as nat) * 65536 + (c.1 as nat) * 256 + (c.2 as nat),
            c.1 < 256,
            c.2 < 256,
    ;
    assert(v % 256 == c.2 as nat) by (nonlinear_arith)
        requires
            v == (c.0 as nat) * 65536 + (c.1 as nat) * 256 + (c.2 as nat),
            c.2 < 256,
    ;
}

proof fn lemma_hex_append(a: Seq<char>, b: Seq<char>)
    requires
        b.len() == 2,
        hex_digits_value(a) is Some,
        hex_digits_value(b) is Some,
    ensures
        hex_digits_value(a + b) == Some(
            hex_digits_value(a).unwrap() * 256 + hex_digits_value(b).unwrap(),
        ),
{
    let ab = a + b;
    assert(ab.drop_last() =~= a.push(b[0]));
    assert(ab.last() == b[1]);
    assert(a.push(b[0]).drop_last() =~= a);
    assert(a.push(b[0]).last() == b[0]);
    assert(b.drop_last().drop_last() =~= Seq::<char>::empty());
    assert(b.drop_last().last() == b[0]);
    assert(b.last() == b[1]);
    reveal_with_fuel(hex_digits_value, 3);
    let x = hex_digits_value(a).unwrap();
    let d0 = hex_value(b[0]).unwrap();
    let d1 = hex_value(b[1]).unwrap();
    assert((x * 16 + d0) * 16 + d1 == x * 256 + (d0 * 16 + d1)) by (nonlinear_arith);
}

impl Color {
    pub open spec fn spec_hex(self) -> Seq<char> {
        color_hex(self)
    }

    /// `#RRGGBB`.
    pub fn hex(&self) -> (r: String)
        ensures
            r@ == color_hex(*self),
    {
        let mut v: Vec<char> = Vec::new();
        v.push('#');
        let a = hex_u64(self.0 as u64, 2);
        push_all(&mut v, &a);
        let b = hex_u64(self.1 as u64, 2);
        push_all(&mut v, &b);
        let c = hex_u64(self.2 as u64, 2);
        push_all(&mut v, &c);
        proof {
            assert(v@ =~= color_hex(*self));
        }
        string_of(&v)
    }

    /// Read `#RRGGBB` (the `#` optional, surrounding whitespace ignored).
    pub fn parse(s: &str) -> (r: Option<Self>)
        ensures
            r == color_parse(s@),
    {
        let v = trimmed_of(s);
        let mut i: usize = 0;
        assert(v@.skip(0) =~= v@);
        while i < v.len() && v[i] == '#'
            invariant
                i <= v.len(),
                strip_leading(v@.skip(i as int), '#') == strip_leading(trim(s@), '#'),
                v@ == trim(s@),
            decreases v.len() - i,
        {
            assert(v@.skip(i as int).drop_first() =~= v@.skip(i + 1));
            i = i + 1;
        }
        let t = slice(&v, i, v.len());
        proof {
            assert(t@ =~= v@.skip(i as int));
            if i < v.len() {
                assert(t@[0] != '#');
            }
            assert(strip_leading(t@, '#') == t@);
        }
        if t.len() != 6 {
            return None;
        }
        let start: usize = if t[0] == '+' {
            1
        } else {
            0
        };
        let ghost body = if t@[0] == '+' {
            t@.drop_first()
        } else {
            t@
        };
        assert(body =~= t@.subrange(start as int, 6));
        if start >= 6 {
            return None;
        }
        let mut acc: u32 = 0;
        let mut k = start;
        assert(pow16(5) == 1048576) by {
            reveal_with_fuel(pow16, 6);
        }
        while k < 6
            invariant
                start <= k <= 6,
                t@.len() == 6,
                t@ == strip_leading(trim(s@), '#'),
                body =~= t@.subrange(start as int, 6),
                body == (if t@[0] == '+' {
                    t@.drop_first()
                } else {
                    t@
                }),
                start == (if t@[0] == '+' {
                    1usize
                } else {
                    0usize
                }),
                pow16(5) == 1048576,
                hex_digits_value(body.take(k - start)) == Some(acc as nat),
                acc < pow16(k - start),
            decreases 6 - k,
        {
            let c = t[k];
            let d: u32 = if '0' <= c && c <= '9' {
                c as u32 - '0' as u32
            } else if 'a' <= c && c <= 'f' {
                c as u32 - 'a' as u32 + 10
            } else if 'A' <= c && c <= 'F' {
                c as u32 - 'A' as u32 + 10
            } else {
                proof {
                    assert(body[k - start] == c);
                    lemma_hex_prefix_none(body, k + 1 - start);
                }
                return None;
            };
            let ghost p = body.take(k + 1 - start);
            assert(p.drop_last() =~= body.take(k - start));
            assert(p.last() == c);
            assert(pow16(k + 1 - start) == pow16(k - start) * 16);
            assert(acc * 16 + d < pow16(k - start) * 16) by (nonlinear_arith)
                requires
                    acc < pow16(k - start),
                    d < 16,
            ;
            assert(pow16(k - start) <= pow16(5)) by {
                lemma_pow16_mono(k - start, 5);
            }
            acc = acc * 16 + d;
            k = k + 1;
        }
        assert(body.take(6 - start) =~= body);
        assert(pow16(5) == 1048576) by {
            reveal_with_fuel(pow16, 6);
        }
        assert((acc >> 16) & 0xff == (acc / 65536) % 256) by (bit_vector);
        assert((acc >> 8) & 0xff == (acc / 256) % 256) by (bit_vector);
        assert(acc & 0xff == acc % 256) by (bit_vector);
        Some(Color(((acc >> 16) & 0xff) as u8, ((acc >> 8) & 0xff) as u8, (acc & 0xff) as u8))
    }
}

pub open spec fn pow16(k: int) -> nat
    decreases k,
{
    if k <= 0 {
        1
    } else {
        16 * pow16(k - 1)
    }
}

proof fn lemma_pow16_mono(a: int, b: int)
    requires
        0 <= a <= b,
    ensures
        pow16(a) <= pow16(b),
    decreases b - a,
{
    if a < b {
        lemma_pow16_mono(a, b - 1);
    }
}

proof fn lemma_hex_prefix_none(s: Seq<char>, k: int)
    requires
        0 < k <= s.len(),
        hex_value(s[k - 1]) is None,
    ensures
        hex_digits_value(s) is None,
    decreases s.len() - k,
{
    if k < s.len() {
        assert(s.drop_last()[k - 1] == s[k - 1]);
        lemma_hex_prefix_none(s.drop_last(), k);
    }
}

} // verus!
