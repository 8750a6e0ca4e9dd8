//! What a session is configured with.

use vstd::prelude::*;

verus! {

/// The settings of one run.
#[derive(Clone, Debug)]
pub struct Config {
    /// The private exponent of the key exchange, in hexadecimal.
    pub priv_key: String,
    /// The user agent sent with every request.
    pub ua: String,
    /// The request templates.
    pub api: ApiEntries,
    /// Skips the pause before the key is requested.
    pub no_delay: bool,
}

/// The URL template of each request the transport makes.
#[derive(Clone, Debug)]
pub struct ApiEntries {
    /// Where the identifier of today's item is asked for.
    pub today: String,
    /// Where the second-layer key is asked for.
    pub key: String,
    /// Where the envelope is downloaded from.
    pub file: String,
}

} // verus!
