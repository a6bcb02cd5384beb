//! Every request a device answers, every response it gives, and the
//! resource that each request is for.

use crate::device::door::{Door, DoorState};
use crate::device::keypad::{Code, KeyPad, PhoneNumberText};
use crate::device::nfc::{NFCdev, NFCids};
use crate::device::terminal::{Terminal, Text};
use crate::request::{
    BasicGetRequest, BasicGetResponse, BasicSetRequest, BasicSetResponse, ID,
};
use std::marker::PhantomData;
use vstd::prelude::*;

verus! {

/// The peripherals that answer requests.
#[derive(Debug, Copy, Clone, PartialEq, Eq, Structural)]
pub enum Resource {
    Terminal,
    Door,
    KeyPad,
    NFC,
}

/// A request from outside, with the connection its response goes back on.
pub struct ThreadRequest<S>(pub Requests, pub S);

/// A request that one device sends another; nothing answers it.
pub struct InternalThreadRequest(pub Requests);

pub enum Requests {
    TerminalGetText(BasicGetRequest<Terminal, Text>),
    TerminalSetText(BasicSetRequest<Terminal, Text>),
    NFCGetID(BasicGetRequest<NFCdev, NFCids>),
    NFCSetID(BasicSetRequest<NFCdev, NFCids>),
    DoorGetState(BasicGetRequest<Door, DoorState>),
    DoorSetState(BasicSetRequest<Door, DoorState>),
    KeyPadGetCode(BasicGetRequest<KeyPad, Code>),
    KeyPadSetCode(BasicSetRequest<KeyPad, Code>),
    PhoneGet(BasicGetRequest<KeyPad, PhoneNumberText>),
    PhoneSet(BasicSetRequest<KeyPad, PhoneNumberText>),
}

pub enum Responses {
    TerminalGetText(BasicGetResponse<Terminal, Text>),
    TerminalSetText(BasicSetResponse<Terminal, Text>),
    NFCGetID(BasicGetResponse<NFCdev, NFCids>),
    NFCSetID(BasicSetResponse<NFCdev, NFCids>),
    DoorGetState(BasicGetResponse<Door, DoorState>),
    DoorSetState(BasicSetResponse<Door, DoorState>),
    KeyPadGetCode(BasicGetResponse<KeyPad, Code>),
    KeyPadSetCode(BasicSetResponse<KeyPad, Code>),
    PhoneGet(BasicGetResponse<KeyPad, PhoneNumberText>),
    PhoneSet(BasicSetResponse<KeyPad, PhoneNumberText>),
}

impl Requests {
    /// The identifier the request was minted with.
    pub open spec fn id(&self) -> ID {
        match self {
            Requests::TerminalGetText(x) => x.0,
            Requests::TerminalSetText(x) => x.0,
            Requests::NFCGetID(x) => x.0,
            Requests::NFCSetID(x) => x.0,
            Requests::DoorGetState(x) => x.0,
            Requests::DoorSetState(x) => x.0,
            Requests::KeyPadGetCode(x) => x.0,
            Requests::KeyPadSetCode(x) => x.0,
            Requests::PhoneGet(x) => x.0,
            Requests::PhoneSet(x) => x.0,
        }
    }

    /// The resource that answers the request.
    pub open spec fn resource(&self) -> Resource {
        match self {
            Requests::TerminalGetText(_) | Requests::TerminalSetText(_) => Resource::Terminal,
            Requests::NFCGetID(_) | Requests::NFCSetID(_) => Resource::NFC,
            Requests::DoorGetState(_) | Requests::DoorSetState(_) => Resource::Door,
            Requests::KeyPadGetCode(_) | Requests::KeyPadSetCode(_) | Requests::PhoneGet(_)
            | Requests::PhoneSet(_) => Resource::KeyPad,
        }
    }

    pub fn get_id(&self) -> (id: ID)
        ensures
            id == self.id(),
    {
        match self {
            Requests::TerminalGetText(x) => x.0,
            Requests::TerminalSetText(x) => x.0,
            Requests::NFCGetID(x) => x.0,
            Requests::NFCSetID(x) => x.0,
            Requests::DoorGetState(x) => x.0,
            Requests::DoorSetState(x) => x.0,
            Requests::KeyPadGetCode(x) => x.0,
            Requests::KeyPadSetCode(x) => x.0,
            Requests::PhoneGet(x) => x.0,
            Requests::PhoneSet(x) => x.0,
        }
    }

    /// The resource whose device the request is to be handed to.
    pub fn target(&self) -> (resource: Resource)
        ensures
            resource == self.resource(),
    {
        match self {
            Requests::TerminalGetText(_) => Resource::Terminal,
            Requests::TerminalSetText(_) => Resource::Terminal,
            Requests::NFCGetID(_) => Resource::NFC,
            Requests::NFCSetID(_) => Resource::NFC,
            Requests::DoorGetState(_) => Resource::Door,
            Requests::DoorSetState(_) => Resource::Door,
            Requests::KeyPadGetCode(_) => Resource::KeyPad,
            Requests::KeyPadSetCode(_) => Resource::KeyPad,
            Requests::PhoneGet(_) => Resource::KeyPad,
            Requests::PhoneSet(_) => Resource::KeyPad,
        }
    }
}

impl Responses {
    /// The identifier of the request that the response answers.
    pub open spec fn id(&self) -> ID {
        match self {
            Responses::TerminalGetText(x) => x.0,
            Responses::TerminalSetText(x) => x.0,
            Responses::NFCGetID(x) => x.0,
            Responses::NFCSetID(x) => x.0,
            Responses::DoorGetState(x) => x.0,
            Responses::DoorSetState(x) => x.0,
            Responses::KeyPadGetCode(x) => x.0,
            Responses::KeyPadSetCode(x) => x.0,
            Responses::PhoneGet(x) => x.0,
            Responses::PhoneSet(x) => x.0,
        }
    }

    /// The resource that gave the response.
    pub open spec fn resource(&self) -> Resource {
        match self {
            Responses::TerminalGetText(_) | Responses::TerminalSetText(_) => Resource::Terminal,
            Responses::NFCGetID(_) | Responses::NFCSetID(_) => Resource::NFC,
            Responses::DoorGetState(_) | Responses::DoorSetState(_) => Resource::Door,
            Responses::KeyPadGetCode(_) | Responses::KeyPadSetCode(_) | Responses::PhoneGet(_)
            | Responses::PhoneSet(_) => Resource::KeyPad,
        }
    }

    pub fn get_id(&self) -> (id: ID)
        ensures
            id == self.id(),
    {
        match self {
            Responses::TerminalGetText(x) => x.0,
            Responses::TerminalSetText(x) => x.0,
            Responses::NFCGetID(x) => x.0,
            Responses::NFCSetID(x) => x.0,
            Responses::DoorGetState(x) => x.0,
            Responses::DoorSetState(x) => x.0,
            Responses::KeyPadGetCode(x) => x.0,
            Responses::KeyPadSetCode(x) => x.0,
            Responses::PhoneGet(x) => x.0,
            Responses::PhoneSet(x) => x.0,
        }
    }
}

impl InternalThreadRequest {
    /// The request by which the keypad and the card reader have the door
    /// unlocked.
    pub fn unlock_door() -> (request: InternalThreadRequest)
        ensures
            request.0 matches Requests::DoorSetState(set) && set.0 == ID(0) && set.1
                == DoorState::Unlock,
    {
        InternalThreadRequest(
            Requests::DoorSetState(BasicSetRequest(ID(0), DoorState::Unlock, PhantomData)),
        )
    }
}

} // verus!
