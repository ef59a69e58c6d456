//! A popularity-aware, size-bounded cache for generated audio artifacts,
//! together with the disk-quota evictor that keeps the on-disk byte usage
//! of the cache directory under a configured budget.

pub mod cache;
pub mod cache_manager;
pub mod common;
pub mod config;
pub mod converter;
pub mod festvox;
pub mod hexstr;
pub mod phrase_package;
pub mod quota_index;
pub mod response;
pub mod strutil;
pub mod usage_index;
pub mod utils;

use vstd::prelude::*;

verus! {

/// The base url of the program. This is just a catch-all for those who
/// stumble across the api without knowing what it does.
pub fn index(cfg: &config::Config) -> (r: String)
    ensures
        r@ == "Welcome to "@ + cfg.api_name@ + "'s TTS API."@,
{
    let mut s = String::from_str("Welcome to ");
    s.append(cfg.API_NAME().as_str());
    s.append("'s TTS API.");
    proof {
        assert(s@ =~= "Welcome to "@ + cfg.api_name@ + "'s TTS API."@);
    }
    s
}

} // verus!
