//! The verified core of a desktop SSH tunnel manager: tunnels and their port forwards,
//! how they are stored, the trust-on-first-use store of SSH host keys, the settings, the
//! decisions taken while connecting chains of jump tunnels, the life of a running tunnel,
//! and the tray menu.

use vstd::prelude::*;

pub mod connect;
pub mod counting;
pub mod events;
pub mod ids;
pub mod known_hosts;
pub mod model;
pub mod registry;
pub mod rows;
pub mod run;
pub mod settings;
pub mod text;
pub mod tray;

verus! {

/// Whether a tunnel's local SOCKS listener is on when nothing says otherwise.
pub fn default_socks_enabled() -> (enabled: bool)
    ensures
        enabled,
{
    true
}

} // verus!
