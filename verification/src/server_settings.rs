//! Server-side settings: the listen port and the upload size ceiling.
//!
//! Reading these from the environment is transport-side work; the library
//! only defines the shape of the settings and their default values.

use vstd::prelude::*;

verus! {

/// Settings for the server.
pub struct Settings {
    /// The port to bind the server to.
    pub port: u16,
    /// The maximum upload size, in bytes, accepted by the upload bridge.
    pub max_file_size: u64,
}

/// The default listen port.
pub fn default_port() -> (r: u16)
    ensures
        r == 3000u16,
{
    3000
}

/// The default upload size ceiling: 10 MiB.
pub fn default_max_file_size() -> (r: u64)
    ensures
        r == 10485760u64,
{
    10 * 1024 * 1024
}

impl Default for Settings {
    /// A settings value holding the two defaults.
    fn default() -> (r: Self)
        ensures
            r.port == 3000u16,
            r.max_file_size == 10485760u64,
    {
        Settings { port: default_port(), max_file_size: default_max_file_size() }
    }
}

} // verus!
