use crate::text::{decimal, push_decimal};
use vstd::prelude::*;
use vstd::string::*;

verus! {

/// Where the web server listens and which directory it serves.
#[derive(Debug)]
pub struct ServerConfig {
    pub host: String,
    pub port: u32,
    pub document_root: String,
}

impl ServerConfig {
    /// `host:port`, the address to listen on.
    pub fn address(&self) -> (r: String)
        ensures
            r@ == self.host@ + ":"@ + decimal(self.port as nat),
    {
        let mut r = self.host.clone();
        r.append(":");
        push_decimal(&mut r, self.port as u64);
        r
    }
}

} // verus!
