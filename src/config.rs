//! Where the global configuration lives, and which network proxy it asks for.
use vstd::prelude::*;
use vstd::string::*;
use crate::route::GlobalConfig;

verus! {

/// The configuration file under the home directory `home`.
pub open spec fn config_path_under(home: Seq<char>) -> Seq<char> {
    home + "/.duckcoding/config.json"@
}

/// The path of the global configuration file, given the home directory if
/// one is known.
pub fn global_config_path(home: Option<&str>) -> (r: Result<String, String>)
    ensures
        match home {
            Some(h) => r is Ok && r->Ok_0@ == config_path_under(h@),
            None => r is Err && r->Err_0@ == "Failed to get home directory"@,
        },
{
    match home {
        Some(h) => {
            let mut p = h.to_owned();
            p.append("/.duckcoding/config.json");
            Ok(p)
        },
        None => Err(String::from_str("Failed to get home directory")),
    }
}

/// The proxy URL that outbound traffic must take under `config`: the
/// configured network proxy when it is enabled and names a URL.
pub open spec fn proxy_of(config: Option<&GlobalConfig>) -> Option<Seq<char>> {
    match config {
        Some(c) => match c.network_proxy {
            Some(p) => if p.enabled && p.url@.len() > 0 {
                Some(p.url@)
            } else {
                None
            },
            None => None,
        },
        None => None,
    }
}

/// The network proxy to apply to the process, if the configuration asks
/// for one; with none, the process settings stay as they are.
pub fn apply_proxy_if_configured(config: Option<&GlobalConfig>) -> (r: Option<String>)
    ensures
        match r {
            Some(u) => proxy_of(config) == Some(u@),
            None => proxy_of(config) is None,
        },
{
    match config {
        Some(c) => match &c.network_proxy {
            Some(p) => if p.enabled && !p.url.as_str().is_empty() {
                Some(p.url.clone())
            } else {
                None
            },
            None => None,
        },
        None => None,
    }
}

} // verus!
