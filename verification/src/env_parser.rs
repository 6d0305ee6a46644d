//! The combined run configuration record.
//!
//! This record packs the raw environment values without validating them;
//! the server and client configurations under their own modules are the
//! validated ones. The environment itself is read outside the library.

use vstd::prelude::*;

verus! {

/// The raw run configuration, one field per recognized environment
/// variable, packed as handed in.
pub struct QuicImplementationConfig {
    /// Path and name of the NSS-format key log file, needed to decrypt
    /// traces when a test run is verified.
    pub sslkeylogfile: String,
    /// Directory for qlog output; optional and possibly empty.
    pub qlogdir: String,
    /// Directory for the server's general logs.
    pub logs: String,
    /// Name of the testcase.
    pub testcase: String,
    /// The served root: the directory tree files are answered from.
    pub www: String,
    /// Directory holding the certificate and private-key files.
    pub certs: String,
    /// IP the server listens on.
    pub ip: String,
    /// Port the server listens on, still unparsed.
    pub port: String,
}

impl QuicImplementationConfig {
    /// Packs the values the environment supplied into the record, field
    /// for field.
    pub fn new(
        sslkeylogfile: String,
        qlogdir: String,
        logs: String,
        testcase: String,
        www: String,
        certs: String,
        ip: String,
        port: String,
    ) -> (r: QuicImplementationConfig)
        ensures
            r.sslkeylogfile@ == sslkeylogfile@,
            r.qlogdir@ == qlogdir@,
            r.logs@ == logs@,
            r.testcase@ == testcase@,
            r.www@ == www@,
            r.certs@ == certs@,
            r.ip@ == ip@,
            r.port@ == port@,
    {
        QuicImplementationConfig { sslkeylogfile, qlogdir, logs, testcase, www, certs, ip, port }
    }
}

} // verus!
