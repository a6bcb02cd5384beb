//! What a browser asks of the gateway.

use vstd::prelude::*;

verus! {

/// The operations a browser may ask for.
#[derive(Debug, Copy, Clone, PartialEq, Eq, Structural)]
pub enum Commands {
    RtcSession,
    RtcAudioSession,
    DoorGet,
    DoorSet,
    Ping,
    TerminalGet,
    TerminalSet,
    NFCGet,
    NFCSet,
    KeypadGetCode,
    KeypadSetCode,
    PhoneGet,
    PhoneSet,
    Unknown,
}

#[derive(Debug, Clone)]
pub struct DeviceCommand(pub Commands);

#[derive(Debug, Clone)]
pub struct Message(pub String);

/// A command with the text that came with it.
#[derive(Debug, Clone)]
pub struct WebRequests(pub DeviceCommand, pub Message);

impl WebRequests {
    pub fn get_device_command(&self) -> (command: DeviceCommand)
        ensures
            command.0 == self.0.0,
    {
        DeviceCommand(self.0.0)
    }

    pub fn get_msg(&self) -> (message: Message)
        ensures
            message.0@ == self.1.0@,
    {
        Message(self.1.0.clone())
    }
}

/// A request as it arrives on a browser's socket.
#[derive(Debug, Clone)]
pub struct WebSocketRequest {
    pub id: String,
    pub command: Commands,
    pub message: String,
}

} // verus!
