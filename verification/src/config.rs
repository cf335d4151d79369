//! Configuration of the dashboard's session layer.
//!
//! The values are plain data; loading them from files or the environment is
//! the unverified shell's job. The session layer only reads them.

use vstd::prelude::*;

verus! {

/// Settings the session layer depends on: whether connections require a
/// bearer token (`pass`), the shared signing secret, the hash of the
/// pre-shared login password, and the token lifetime in seconds (`expiry`).
pub struct Config {
    pub log_level: String,

    pub port: u16,

    pub tls: bool,
    pub cert: String,
    pub key: String,

    pub pass: bool,
    pub hash: String,
    pub secret: String,
    pub expiry: u64,
}

impl Default for Config {
    /// Password protection off, no TLS, and a one-hour token lifetime.
    fn default() -> (c: Config)
        ensures
            c.log_level@ == "info"@,
            c.port == 5252,
            !c.tls,
            c.cert@ =~= Seq::<char>::empty(),
            c.key@ =~= Seq::<char>::empty(),
            !c.pass,
            c.hash@ =~= Seq::<char>::empty(),
            c.secret@ =~= Seq::<char>::empty(),
            c.expiry == 3600,
    {
        Config {
            log_level: "info".to_owned(),

            port: 5252,

            tls: false,
            cert: String::new(),
            key: String::new(),

            pass: false,
            hash: String::new(),
            secret: String::new(),
            expiry: 3600,
        }
    }
}

} // verus!
