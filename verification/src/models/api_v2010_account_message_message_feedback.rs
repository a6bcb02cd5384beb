//! Feedback on whether a message arrived.

use vstd::prelude::*;

verus! {

#[derive(Clone, Debug)]
pub struct ApiV2010AccountMessageMessageFeedback {
    /// The SID of the account that created the resource.
    pub account_sid: Option<String>,
    /// When the resource was created, as an RFC 2822 date in GMT.
    pub date_created: Option<String>,
    /// When the resource was last updated, as an RFC 2822 date in GMT.
    pub date_updated: Option<String>,
    /// The SID of the message that the feedback is on.
    pub message_sid: Option<String>,
    /// Whether the feedback has arrived.
    pub outcome: Option<Outcome>,
    /// The URI of the resource, relative to the service's root.
    pub uri: Option<String>,
}

impl ApiV2010AccountMessageMessageFeedback {
    /// A record with no field filled in.
    pub fn new() -> (made: ApiV2010AccountMessageMessageFeedback)
        ensures
            made.account_sid is None,
            made.date_created is None,
            made.date_updated is None,
            made.message_sid is None,
            made.outcome is None,
            made.uri is None,
    {
        ApiV2010AccountMessageMessageFeedback {
            account_sid: None,
            date_created: None,
            date_updated: None,
            message_sid: None,
            outcome: None,
            uri: None,
        }
    }
}

/// Whether the feedback has arrived.
#[derive(Clone, Copy, Debug, Eq, PartialEq, Structural, Hash)]
pub enum Outcome {
    Confirmed,
    Unconfirmed,
}

impl Default for Outcome {
    fn default() -> (outcome: Outcome)
        ensures
            outcome == Outcome::Confirmed,
    {
        Outcome::Confirmed
    }
}

} // verus!
