//! Fixed values shared by the service.
use vstd::prelude::*;

verus! {

pub const APPLICATION_JSON: &'static str = "application/json";

pub const TEXT_HTML: &'static str = "text/html";

pub const USER_AGENT_REGEX: &'static str = "regexes.yaml";

pub const REMOTE_ADDR: &'static str = "Remote-Addr";

/// Tokens the admission gate holds when no rate limit is configured.
pub const DEFAULT_CAPACITY: usize = 10;

/// Tokens per second the admission gate regains when no rate limit is configured.
pub const DEFAULT_FILL_RATE: usize = 2;

/// The address of the geolocation lookup for an IP address.
pub fn get_ip_url(ip: String) -> (r: String)
    ensures
        r@ == "http://ip-api.com/json/"@ + ip@,
{
    let mut url = String::from_str("http://ip-api.com/json/");
    url.append(ip.as_str());
    url
}

} // verus!
