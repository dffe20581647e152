//! Client-side settings: the base URL of the relay server.
//!
//! Loading and persisting these under the user's configuration directory is
//! transport-side work; the library only defines the shape and the default.

use vstd::prelude::*;

verus! {

/// Settings for the downloading client.
pub struct Settings {
    /// Base URL of the relay server, e.g. `http://localhost:8080`.
    pub bastion_server_url: String,
}

impl Default for Settings {
    /// The default server URL, `http://localhost:8080`.
    fn default() -> (r: Self)
        ensures
            r.bastion_server_url@ == "http://localhost:8080"@,
    {
        Settings { bastion_server_url: "http://localhost:8080".to_owned() }
    }
}

} // verus!
