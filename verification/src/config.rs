use vstd::prelude::*;

verus! {

/// Settings of the client: the key sent in the `Authorization` header and
/// the address (host and port) of the server.
pub struct Config {
    pub apikey: String,
    pub server: String,
}

impl Config {
    /// A configuration from its two settings.
    pub fn new(apikey: String, server: String) -> (c: Config)
        ensures
            c.apikey == apikey,
            c.server == server,
    {
        Config { apikey, server }
    }
}

} // verus!
