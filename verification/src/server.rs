use vstd::prelude::*;
use vstd::string::*;
use crate::config::Config;
use crate::strutil::dec_str;
use crate::strutil::u16_to_string;

verus! {

/// Where the bridge listens.
pub struct ServerState {
    pub port: u16,
    pub host: String,
}

/// The address the bridge binds to.
pub fn bind_address(state: &ServerState) -> (r: String)
    ensures
        r@ == state.host@ + ":"@ + dec_str(state.port as nat),
{
    let mut addr = state.host.clone();
    addr.append(":");
    let digits = u16_to_string(state.port);
    addr.append(digits.as_str());
    addr
}

/// The static model catalog the listing endpoint serves; no backend call is
/// made for it.
pub fn model_catalog() -> (r: Vec<String>)
    ensures
        r@.len() == 4,
        r@[0]@ == "gemini-2.5-flash"@,
        r@[1]@ == "gemini-2.5-pro"@,
        r@[2]@ == "gemini-3-flash-preview"@,
        r@[3]@ == "gemini-3-pro-preview"@,
{
    let mut v: Vec<String> = Vec::new();
    v.push(String::from_str("gemini-2.5-flash"));
    v.push(String::from_str("gemini-2.5-pro"));
    v.push(String::from_str("gemini-3-flash-preview"));
    v.push(String::from_str("gemini-3-pro-preview"));
    v
}

/// What the health endpoint reports as `authenticated`: a credential exists;
/// no refresh is attempted for the report.
pub fn health_authenticated(config: &Config) -> (r: bool)
    ensures
        r == (config.auth is Some),
{
    config.auth.is_some()
}

} // verus!
