//! Recognized configuration options and their defaults.
//!
//! Loading the file, reading the environment and resolving the home
//! directory are outside work; the defaults here are the path fragments
//! under the home (or chain-root) directory, and the plain numeric
//! defaults.

use vstd::prelude::*;

verus! {

/// The indexer's configuration.
pub struct Config {
    /// Directory of the store, relative to the home directory.
    pub db_path: String,
    /// The upstream block-store file, relative to the chain root.
    pub blockchain_db_path: String,
    /// TLS client certificate, relative to the chain root.
    pub cert_path: String,
    /// TLS client key, relative to the chain root.
    pub key_path: String,
    /// Port the query surface listens on.
    pub port: u16,
    /// Heights per sync window.
    pub batch_size: u32,
}

/// Directory of the store, under the home directory.
pub fn default_db_path() -> (r: String)
    ensures
        r@ == ".xchdev/db"@,
{
    ".xchdev/db".to_owned()
}

/// The upstream block-store file, under the chain root.
pub fn default_blockchain_db_path() -> (r: String)
    ensures
        r@ == "db/blockchain_v2_mainnet.sqlite"@,
{
    "db/blockchain_v2_mainnet.sqlite".to_owned()
}

/// TLS client certificate, under the chain root.
pub fn default_cert_path() -> (r: String)
    ensures
        r@ == "config/ssl/daemon/private_daemon.crt"@,
{
    "config/ssl/daemon/private_daemon.crt".to_owned()
}

/// TLS client key, under the chain root.
pub fn default_key_path() -> (r: String)
    ensures
        r@ == "config/ssl/daemon/private_daemon.key"@,
{
    "config/ssl/daemon/private_daemon.key".to_owned()
}

/// The default listening port.
pub fn default_port() -> (r: u16)
    ensures
        r == 3000,
{
    3000
}

/// The default sync window, in heights.
pub fn default_batch_size() -> (r: u32)
    ensures
        r == 1000,
{
    1000
}

/// The default page size of a blocks range query.
pub fn default_limit() -> (r: usize)
    ensures
        r == 50,
{
    50
}

impl Default for Config {
    fn default() -> (r: Config)
        ensures
            r.port == 3000,
            r.batch_size == 1000,
            r.db_path@ == ".xchdev/db"@,
            r.blockchain_db_path@ == "db/blockchain_v2_mainnet.sqlite"@,
            r.cert_path@ == "config/ssl/daemon/private_daemon.crt"@,
            r.key_path@ == "config/ssl/daemon/private_daemon.key"@,
    {
        Config {
            db_path: default_db_path(),
            blockchain_db_path: default_blockchain_db_path(),
            cert_path: default_cert_path(),
            key_path: default_key_path(),
            port: default_port(),
            batch_size: default_batch_size(),
        }
    }
}

} // verus!
