//! Whether a phone number can receive calls or messages.

use vstd::prelude::*;

verus! {

#[derive(Clone, Debug)]
pub struct ApiV2010AccountIncomingPhoneNumberCapabilities {
    pub fax: Option<bool>,
    pub mms: Option<bool>,
    pub sms: Option<bool>,
    pub voice: Option<bool>,
}

impl ApiV2010AccountIncomingPhoneNumberCapabilities {
    /// A record that states no capability.
    pub fn new() -> (made: ApiV2010AccountIncomingPhoneNumberCapabilities)
        ensures
            made.fax is None,
            made.mms is None,
            made.sms is None,
            made.voice is None,
    {
        ApiV2010AccountIncomingPhoneNumberCapabilities {
            fax: None,
            mms: None,
            sms: None,
            voice: None,
        }
    }
}

} // verus!
