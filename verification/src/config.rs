//! Process configuration, fixed at startup and passed explicitly into every
//! component.

use vstd::prelude::*;

verus! {

/// Deployment configuration. `folder_path` is the sandbox root: an absolute,
/// canonical directory path (no trailing separator) that every file operation
/// is confined to.
pub struct Config {
    /// Sandbox root directory.
    pub folder_path: String,
    /// Location of the persistent store.
    pub database_path: String,
    /// Listen address of the server.
    pub listen_addr: String,
    /// Whether new accounts may register.
    pub can_register: bool,
    /// Salt material for signing; must be overridden in real deployments.
    pub salt: String,
}

impl Config {
    /// The built-in defaults.
    pub fn new() -> (c: Config)
        ensures
            c.folder_path@ == "./files"@,
            c.database_path@ == "./database.db"@,
            c.listen_addr@ == "127.0.0.1:5000"@,
            c.can_register == true,
            c.salt@ == "AAAABBBBCCCCDDDD"@,
    {
        Config {
            folder_path: String::from_str("./files"),
            database_path: String::from_str("./database.db"),
            listen_addr: String::from_str("127.0.0.1:5000"),
            can_register: true,
            salt: String::from_str("AAAABBBBCCCCDDDD"),
        }
    }
}

} // verus!
