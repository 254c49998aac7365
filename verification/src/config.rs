//! The bot's configuration.
use crate::storage::Storage;
use vstd::prelude::*;

verus! {

/// Settings read from the configuration file.
#[derive(Debug, Clone)]
pub struct Config {
    pub file_storage_path: String,
    /// In bytes.
    pub max_attachment_size: u64,
    pub max_attachment_count: u64,
    pub minecraft_server_ping: MinecraftServerPingConfig,
}

impl Config {
    /// The file store rooted at the configured path.
    pub fn storage<'a>(&'a self) -> (r: Storage<'a>)
        ensures
            r.root() == self.file_storage_path@,
    {
        Storage::new(self.file_storage_path.as_str())
    }
}

/// # Configuration for the trusted users and guilds
///
/// These users are privileged to use commands, which upload attachments to the server
#[derive(Debug, Clone)]
pub struct TrustedConfig {
    /// User IDs that are trusted as admins
    pub users: Vec<u64>,
    /// Guild IDs, in which all commands are treated as privileged
    pub guilds: Vec<u64>,
}

/// Whether and how often the Minecraft server is pinged.
#[derive(Debug, Clone)]
pub struct MinecraftServerPingConfig {
    pub enabled: bool,
    pub ping_timeout_ms: u64,
    pub ping_interval_ms: u64,
}

/// Pinging is off unless configured.
pub fn default_enabled() -> (r: bool)
    ensures
        r == false,
{
    false
}

/// Five seconds.
pub fn default_ping_timeout_ms() -> (r: u64)
    ensures
        r == 5_000,
{
    5_000
}

/// Ten seconds.
pub fn default_ping_interval_ms() -> (r: u64)
    ensures
        r == 10_000,
{
    10_000
}

/// Key under which the configuration is shared.
pub struct ConfigKey;

} // verus!
