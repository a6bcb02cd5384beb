//! Records of the messaging service's REST interface.

pub mod api_v2010_account_incoming_phone_number_capabilities;
pub mod api_v2010_account_message_message_feedback;
pub mod api_v2010_account_token_ice_servers;
