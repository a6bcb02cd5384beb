//! The gateway's side of a request: from a browser's command to a request
//! for a device, and from the device's response to what the browser is
//! told.

use crate::device::door::DoorState;
use crate::device::keypad::{Code, PhoneNumberText};
use crate::device::nfc::NFCids;
use crate::device::terminal::Text;
use crate::request::{BasicGetRequest, BasicSetRequest, Error, ID};
use crate::requests_and_responses::{Requests, Responses};
use crate::web_requests::{Commands, WebRequests};
use std::marker::PhantomData;
use vstd::prelude::*;

verus! {

/// Mints correlation identifiers, each one above the last.
#[derive(Clone, Copy, Debug)]
pub struct IDManage {
    pub id: u128,
}

impl IDManage {
    /// The next identifier. After the largest one, counting starts again
    /// at zero.
    pub fn get_id(&mut self) -> (id: u128)
        ensures
            id == old(self).id,
            final(self).id == if old(self).id == u128::MAX {
                0
            } else {
                old(self).id + 1
            },
    {
        let id_num = self.id;
        self.id = if id_num == u128::MAX {
            0
        } else {
            id_num + 1
        };
        id_num
    }
}

/// What the text of a browser's request was read as.
pub enum Parsed {
    /// The text as it came.
    Nothing,
    Door(DoorState),
    Code(Code),
    Phone(PhoneNumberText),
}

/// What a browser is told in answer.
pub enum Reply {
    Text(String),
    Door(DoorState),
    Code(Code),
    Phone(PhoneNumberText),
    Ids(NFCids),
}

impl Commands {
    /// Whether the command stores a value that its text has to be read
    /// as, and `parsed` is not of that kind.
    pub open spec fn lacks(self, parsed: Parsed) -> bool {
        match self {
            Commands::DoorSet => !(parsed is Door),
            Commands::KeypadSetCode => !(parsed is Code),
            Commands::PhoneSet => !(parsed is Phone),
            _ => false,
        }
    }

    /// The request for a device that a browser's command amounts to,
    /// under the given identifier. Commands that read carry nothing;
    /// commands that store carry the text, or what it was read as.
    /// A command for no device becomes a text for the terminal.
    pub fn set_command(&self, request: WebRequests, id: u128, parsed: Parsed) -> (made: Result<
        (Requests, u128),
        Error,
    >)
        ensures
            self.lacks(parsed) ==> (made matches Err(reason) && reason.0@ == "Invalid message"@),
            !self.lacks(parsed) ==> (made matches Ok(pair) && pair.1 == id && pair.0.id() == ID(id)
                && match *self {
                Commands::TerminalGet => pair.0 is TerminalGetText,
                Commands::DoorGet => pair.0 is DoorGetState,
                Commands::NFCGet => pair.0 is NFCGetID,
                Commands::KeypadGetCode => pair.0 is KeyPadGetCode,
                Commands::PhoneGet => pair.0 is PhoneGet,
                Commands::DoorSet => pair.0 matches Requests::DoorSetState(set) && set.1
                    == parsed->Door_0,
                Commands::KeypadSetCode => pair.0 matches Requests::KeyPadSetCode(set) && set.1
                    == parsed->Code_0,
                Commands::PhoneSet => pair.0 matches Requests::PhoneSet(set) && set.1
                    == parsed->Phone_0,
                Commands::NFCSet => pair.0 matches Requests::NFCSetID(set) && set.1.0@
                    == request.1.0@,
                _ => pair.0 matches Requests::TerminalSetText(set) && set.1.0@ == request.1.0@,
            }),
    {
        let msg = request.get_msg().0;
        let made = match self {
            Commands::TerminalGet => Requests::TerminalGetText(
                BasicGetRequest(ID(id), PhantomData, PhantomData),
            ),
            Commands::DoorGet => Requests::DoorGetState(
                BasicGetRequest(ID(id), PhantomData, PhantomData),
            ),
            Commands::NFCGet => Requests::NFCGetID(
                BasicGetRequest(ID(id), PhantomData, PhantomData),
            ),
            Commands::KeypadGetCode => Requests::KeyPadGetCode(
                BasicGetRequest(ID(id), PhantomData, PhantomData),
            ),
            Commands::PhoneGet => Requests::PhoneGet(
                BasicGetRequest(ID(id), PhantomData, PhantomData),
            ),
            Commands::DoorSet => match parsed {
                Parsed::Door(state) => Requests::DoorSetState(
                    BasicSetRequest(ID(id), state, PhantomData),
                ),
                _ => { return Err(Error("Invalid message".to_owned())); },
            },
            Commands::KeypadSetCode => match parsed {
                Parsed::Code(code) => Requests::KeyPadSetCode(
                    BasicSetRequest(ID(id), code, PhantomData),
                ),
                _ => { return Err(Error("Invalid message".to_owned())); },
            },
            Commands::PhoneSet => match parsed {
                Parsed::Phone(number) => Requests::PhoneSet(
                    BasicSetRequest(ID(id), number, PhantomData),
                ),
                _ => { return Err(Error("Invalid message".to_owned())); },
            },
            Commands::NFCSet => Requests::NFCSetID(
                BasicSetRequest(ID(id), NFCids(msg), PhantomData),
            ),
            _ => Requests::TerminalSetText(BasicSetRequest(ID(id), Text(msg), PhantomData)),
        };
        Ok((made, id))
    }
}

/// What a browser is told of a response: what a read gave, or what a
/// write was asked to store. A response under another identifier than
/// the one awaited, and a read that failed, give the reason instead.
pub fn match_intercom_response(response: Responses, id: u128) -> (reply: Result<Reply, Error>)
    ensures
        response.id() != ID(id) ==> (reply matches Err(reason) && reason.0@
            == "Mismatched response"@),
        response.id() == ID(id) ==> match response {
            Responses::TerminalGetText(got) => match got.1 {
                Ok(text) => reply matches Ok(Reply::Text(told)) && told@ == text.0@,
                Err(why) => reply matches Err(reason) && reason == why,
            },
            Responses::TerminalSetText(set) => reply matches Ok(Reply::Text(told)) && told@
                == set.1.0@,
            Responses::DoorGetState(got) => match got.1 {
                Ok(state) => reply matches Ok(Reply::Door(told)) && told == state,
                Err(why) => reply matches Err(reason) && reason == why,
            },
            Responses::DoorSetState(set) => reply matches Ok(Reply::Door(told)) && told == set.1,
            Responses::KeyPadGetCode(got) => match got.1 {
                Ok(code) => reply matches Ok(Reply::Code(told)) && told == code,
                Err(why) => reply matches Err(reason) && reason == why,
            },
            Responses::KeyPadSetCode(set) => reply matches Ok(Reply::Code(told)) && told == set.1,
            Responses::PhoneGet(got) => match got.1 {
                Ok(number) => reply matches Ok(Reply::Phone(told)) && told == number,
                Err(why) => reply matches Err(reason) && reason == why,
            },
            Responses::PhoneSet(set) => reply matches Ok(Reply::Phone(told)) && told == set.1,
            Responses::NFCGetID(got) => match got.1 {
                Ok(ids) => reply matches Ok(Reply::Ids(told)) && told == ids,
                Err(why) => reply matches Err(reason) && reason == why,
            },
            Responses::NFCSetID(set) => reply matches Ok(Reply::Text(told)) && told@ == set.1.0@,
        },
{
    if response.get_id().0 != id {
        return Err(Error("Mismatched response".to_owned()));
    }
    match response {
        Responses::TerminalGetText(got) => match got.1 {
            Ok(text) => Ok(Reply::Text(text.0)),
            Err(why) => Err(why),
        },
        Responses::TerminalSetText(set) => Ok(Reply::Text(set.1.0)),
        Responses::DoorGetState(got) => match got.1 {
            Ok(state) => Ok(Reply::Door(state)),
            Err(why) => Err(why),
        },
        Responses::DoorSetState(set) => Ok(Reply::Door(set.1)),
        Responses::KeyPadGetCode(got) => match got.1 {
            Ok(code) => Ok(Reply::Code(code)),
            Err(why) => Err(why),
        },
        Responses::KeyPadSetCode(set) => Ok(Reply::Code(set.1)),
        Responses::PhoneGet(got) => match got.1 {
            Ok(number) => Ok(Reply::Phone(number)),
            Err(why) => Err(why),
        },
        Responses::PhoneSet(set) => Ok(Reply::Phone(set.1)),
        Responses::NFCGetID(got) => match got.1 {
            Ok(ids) => Ok(Reply::Ids(ids)),
            Err(why) => Err(why),
        },
        Responses::NFCSetID(set) => Ok(Reply::Text(set.1.0)),
    }
}

} // verus!
