//! The server's own configuration file.
use vstd::prelude::*;

verus! {

/// Where the wiki is and the port the server listens on.
#[derive(Debug)]
pub struct Config {
    pub wiki_location: String,
    pub port: u16,
}

/// The configuration written when there is none.
pub fn default_config_text() -> (r: String)
    ensures
        r@ == "wiki_location = \"~/wiki\"\nport = 6683"@,
{
    String::from_str("wiki_location = \"~/wiki\"\nport = 6683")
}

} // verus!
