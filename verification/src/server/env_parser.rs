//! The server's validated run configuration.
//!
//! The environment is read outside the library; the raw values are handed
//! in here, where the testcase name is held against the recognized set.
//! An unrecognized testcase refuses the whole configuration, and the
//! process must then exit with status 127 before any network activity.

use vstd::prelude::*;

use crate::testcase::spec_testcase_of;
use crate::testcase::Testcase;

verus! {

/// Why a configuration was refused.
#[derive(Clone, Copy, Debug, PartialEq, Eq, Structural)]
pub enum ConfigError {
    /// The testcase name is not in the recognized set.
    UnknownTestcase,
}

/// Serde default for the qlog directory: qlog output is optional.
pub fn mucco() -> (r: String)
    ensures
        r@ == Seq::<char>::empty(),
{
    String::new()
}

/// The server's immutable run configuration, constructed once at process
/// start and read-only thereafter.
pub struct Config {
    /// Path and name of the NSS-format key log file, needed to decrypt
    /// traces when a test run is verified.
    pub sslkeylogfile: String,
    /// Directory for qlog output; optional and possibly empty.
    pub qlogdir: String,
    /// Directory for the server's general logs.
    pub logs: String,
    /// Name of the testcase; always one of the recognized set.
    pub testcase: String,
    /// The served root: the directory tree files are answered from.
    pub www: String,
    /// Directory holding `cert.pem` and `priv.key`.
    pub certs: String,
    /// IP the server listens on.
    pub ip: String,
    /// Port the server listens on.
    pub port: u16,
}

impl Config {
    /// Builds the configuration from the values the environment supplied,
    /// refusing any testcase name outside the recognized set.
    pub fn new(
        sslkeylogfile: String,
        qlogdir: String,
        logs: String,
        testcase: String,
        www: String,
        certs: String,
        ip: String,
        port: u16,
    ) -> (r: Result<Config, ConfigError>)
        ensures
            match r {
                Ok(c) => {
                    &&& spec_testcase_of(testcase@) is Some
                    &&& c.sslkeylogfile@ == sslkeylogfile@
                    &&& c.qlogdir@ == qlogdir@
                    &&& c.logs@ == logs@
                    &&& c.testcase@ == testcase@
                    &&& c.www@ == www@
                    &&& c.certs@ == certs@
                    &&& c.ip@ == ip@
                    &&& c.port == port
                },
                Err(e) => spec_testcase_of(testcase@) is None && e
                    == ConfigError::UnknownTestcase,
            },
    {
        if Testcase::from_name(&testcase).is_none() {
            return Err(ConfigError::UnknownTestcase);
        }
        Ok(Config { sslkeylogfile, qlogdir, logs, testcase, www, certs, ip, port })
    }
}

} // verus!
