//! Addresses of the services this server talks to.

use vstd::prelude::*;
use vstd::string::StringExecFns;

verus! {

/// Addresses of the services this server talks to.
#[derive(Debug)]
pub struct Urls {
    pub ad_service_ad_link: String,
}

impl Urls {
    /// The addresses, given the ad service's base address and the path of
    /// its link endpoint: the link address is the base followed by the path.
    pub fn from_parts(ad_service_base: String, ad_service_ad_link_path: &str) -> (urls: Self)
        ensures
            urls.ad_service_ad_link@ == ad_service_base@ + ad_service_ad_link_path@,
    {
        Self { ad_service_ad_link: ad_service_base.concat(ad_service_ad_link_path) }
    }
}

} // verus!
