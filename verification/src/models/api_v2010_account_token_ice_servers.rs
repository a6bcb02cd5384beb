//! An ICE server that a token grants the use of.

use vstd::prelude::*;

verus! {

#[derive(Clone, Debug)]
pub struct ApiV2010AccountTokenIceServers {
    pub credential: Option<String>,
    pub url: Option<String>,
    pub urls: Option<String>,
    pub username: Option<String>,
}

impl ApiV2010AccountTokenIceServers {
    /// A record with no field filled in.
    pub fn new() -> (made: ApiV2010AccountTokenIceServers)
        ensures
            made.credential is None,
            made.url is None,
            made.urls is None,
            made.username is None,
    {
        ApiV2010AccountTokenIceServers { credential: None, url: None, urls: None, username: None }
    }
}

} // verus!
