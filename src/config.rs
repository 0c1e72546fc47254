//! Configuration as the dashboard consumes it. Reading and parsing the file
//! is the caller's business; these are the values it hands over.

use vstd::prelude::*;
use crate::proxmox::auth_header;

verus! {

/// Command-line arguments.
pub struct Args {
    /// Path of the configuration file.
    pub config: String,
}

pub struct Config {
    pub general: GeneralConfig,
    pub providers: ProvidersConfig,
}

pub struct GeneralConfig {
    pub refresh_rate: String,
}

pub struct ProvidersConfig {
    pub proxmox: Option<Vec<ProxmoxConfig>>,
}

/// One virtualization host to poll.
pub struct ProxmoxConfig {
    pub name: String,
    pub host: String,
    pub user: String,
    pub token_id: String,
    pub token_secret: String,
}

impl ProxmoxConfig {
    /// The authorization header built from this host's API token.
    pub fn auth_header(&self) -> (r: String)
        ensures
            r@ == "PVEAPIToken="@ + self.token_id@ + "="@ + self.token_secret@,
    {
        auth_header(self.token_id.as_str(), self.token_secret.as_str())
    }
}

} // verus!
