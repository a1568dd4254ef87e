//! The wallet's configuration: what the command line sets, and the fixed
//! names and defaults.

use vstd::prelude::*;
use vstd::string::StringExecFns;

use crate::hash::Hash256;
use crate::sync::{SyncEvent, SyncEventView};

verus! {

/// The directory under which every wallet has a directory of its own.
pub const DIR_PATH: &'static str = "wallets/";

/// The address of the node to follow where none is given.
pub const DEFAULT_DAEMON_ADDRESS: &'static str = "http://127.0.0.1:8080";

/// The name of the log file where none is given.
pub const DEFAULT_LOG_FILENAME: &'static str = "xelis-wallet.log";

/// What the command line sets.
#[derive(Debug)]
pub struct Config {
    /// Daemon address to use.
    pub daemon_address: String,
    /// Stay offline.
    pub offline_mode: bool,
    /// Enable the debug mode.
    pub debug: bool,
    /// Disable the log file.
    pub disable_file_logging: bool,
    /// Log filename.
    pub filename_log: String,
    /// Name of the wallet, which names its directory.
    pub name: String,
    /// Password used to open the wallet.
    pub password: String,
}

/// The asset that a command means where it names none: the network's native
/// asset, whose identifier is all zero.
pub fn native_asset() -> (asset: Hash256)
    ensures
        asset@ == Seq::new(32, |i: int| 0u8),
{
    Hash256::zero()
}

impl Config {
    /// The configuration for a wallet name and a password, with everything
    /// else as it is where the command line leaves it out.
    pub fn new(name: String, password: String) -> (config: Config)
        ensures
            config.name == name,
            config.password == password,
            config.daemon_address@ == DEFAULT_DAEMON_ADDRESS@,
            config.filename_log@ == DEFAULT_LOG_FILENAME@,
            !config.offline_mode,
            !config.debug,
            !config.disable_file_logging,
    {
        Config {
            daemon_address: String::from_str(DEFAULT_DAEMON_ADDRESS),
            offline_mode: false,
            debug: false,
            disable_file_logging: false,
            filename_log: String::from_str(DEFAULT_LOG_FILENAME),
            name,
            password,
        }
    }

    /// The directory of the wallet: [`DIR_PATH`] followed by its name.
    pub fn wallet_dir(&self) -> (dir: String)
        ensures
            dir@ == DIR_PATH@ + self.name@,
    {
        String::from_str(DIR_PATH).concat(self.name.as_str())
    }

    /// The event with which synchronisation starts: none in offline mode,
    /// and otherwise the request to go online with the configured node.
    pub fn startup_event(&self) -> (event: Option<SyncEvent>)
        ensures
            match event {
                Some(e) => !self.offline_mode && e@ == SyncEventView::Enable(self.daemon_address@),
                None => self.offline_mode,
            },
    {
        if self.offline_mode {
            None
        } else {
            Some(SyncEvent::Enable(self.daemon_address.clone()))
        }
    }
}

} // verus!
