pub mod text;
pub mod ids;
pub mod secret;
pub mod profile;
pub mod connstr;
pub mod sqltype;
pub mod catalog;
pub mod engine;
pub mod message;
pub mod settings;
pub mod error;
pub mod entra;
pub mod cancel;
pub mod loopback;
pub mod pkce;
pub mod token;
pub mod secrets;
pub mod flows;
pub mod provider;
pub mod update;
pub mod viewer;
pub mod palette;
pub mod fuzzy_laws;
pub mod editor;
pub mod history;
pub mod grid;
pub mod theme;

use vstd::prelude::*;

verus! {

/// Application identity used for config dirs, keyring service names, pipe names.
pub const APP_QUALIFIER: &'static str = "dev";

pub const APP_ORG: &'static str = "Cobalt";

pub const APP_NAME: &'static str = "Cobalt SQL Works";

pub const KEYRING_SERVICE: &'static str = "cobalt-sqlworks";

pub const AGENT_PIPE_NAME: &'static str = "cobalt.agent";

} // verus!
