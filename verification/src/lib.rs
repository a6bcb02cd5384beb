//! Device-dispatch core of a networked door intercom.

pub mod device;
pub mod dispatch;
pub mod message;
pub mod models;
pub mod request;
pub mod requests_and_responses;
pub mod text;
pub mod web_relay;
pub mod web_requests;
