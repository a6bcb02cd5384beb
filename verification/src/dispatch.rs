//! Routing: every request goes to the mailbox of the device that owns its
//! resource, together with the connection it came on.

use crate::device::door::Door;
use crate::device::keypad::KeyPad;
use crate::device::nfc::NFCdev;
use crate::device::terminal::Terminal;
use crate::message::{delivery, Error, Parcel, ThreadSender};
use std::marker::PhantomData;
use crate::requests_and_responses::{Requests, Resource, ThreadRequest};
use vstd::prelude::*;

verus! {

/// One sending end for each device's mailbox.
#[verifier::reject_recursive_types(S)]
pub struct Dispatcher<S> {
    terminal_channel: ThreadSender<ThreadRequest<S>, Terminal>,
    nfc_channel: ThreadSender<ThreadRequest<S>, NFCdev>,
    door_channel: ThreadSender<ThreadRequest<S>, Door>,
    keypad_channel: ThreadSender<ThreadRequest<S>, KeyPad>,
}

impl<S> Clone for Dispatcher<S> {
    fn clone(&self) -> (copy: Dispatcher<S>) {
        Dispatcher {
            terminal_channel: self.terminal_channel.clone(),
            nfc_channel: self.nfc_channel.clone(),
            door_channel: self.door_channel.clone(),
            keypad_channel: self.keypad_channel.clone(),
        }
    }
}

/// What a dispatcher holds: for each device, the sending end of its
/// mailbox.
#[verifier::reject_recursive_types(S)]
pub struct Channels<S> {
    pub terminal: ThreadSender<ThreadRequest<S>, Terminal>,
    pub nfc: ThreadSender<ThreadRequest<S>, NFCdev>,
    pub door: ThreadSender<ThreadRequest<S>, Door>,
    pub keypad: ThreadSender<ThreadRequest<S>, KeyPad>,
}

impl<S> View for Dispatcher<S> {
    type V = Channels<S>;

    closed spec fn view(&self) -> Channels<S> {
        Channels {
            terminal: self.terminal_channel,
            nfc: self.nfc_channel,
            door: self.door_channel,
            keypad: self.keypad_channel,
        }
    }
}

impl<S> Dispatcher<S> {
    /// A dispatcher that reaches each device through the sending end given
    /// for it.
    pub fn new(
        terminal_channel: ThreadSender<ThreadRequest<S>, Terminal>,
        door_channel: ThreadSender<ThreadRequest<S>, Door>,
        keypad_channel: ThreadSender<ThreadRequest<S>, KeyPad>,
        nfc_channel: ThreadSender<ThreadRequest<S>, NFCdev>,
    ) -> (dispatcher: Dispatcher<S>)
        ensures
            dispatcher@ == (Channels {
                terminal: terminal_channel,
                nfc: nfc_channel,
                door: door_channel,
                keypad: keypad_channel,
            }),
    {
        Dispatcher { terminal_channel, door_channel, keypad_channel, nfc_channel }
    }

    /// Hands the request and its connection to the device that owns the
    /// request's resource: what is sent is the parcel that `address`
    /// makes, to the mailbox of the device it is addressed to. Says which
    /// device that is, and whether its mailbox took the parcel; a mailbox
    /// refuses only when its device is gone.
    pub fn dispatch(&self, request: Requests, stream: S) -> (routed: (Resource, Result<(), Error>))
        ensures
            routed.0 == request.resource(),
            routed.1 == delivery(true) || routed.1 == delivery(false),
    {
        match address(request, stream) {
            Addressed::Terminal(parcel) => (
                Resource::Terminal,
                self.terminal_channel.deliver(parcel),
            ),
            Addressed::NFC(parcel) => (Resource::NFC, self.nfc_channel.deliver(parcel)),
            Addressed::Door(parcel) => (Resource::Door, self.door_channel.deliver(parcel)),
            Addressed::KeyPad(parcel) => (Resource::KeyPad, self.keypad_channel.deliver(parcel)),
        }
    }
}

/// A request and its connection, addressed to the device that is to
/// answer.
pub enum Addressed<S> {
    Terminal(Parcel<ThreadRequest<S>, Terminal>),
    NFC(Parcel<ThreadRequest<S>, NFCdev>),
    Door(Parcel<ThreadRequest<S>, Door>),
    KeyPad(Parcel<ThreadRequest<S>, KeyPad>),
}

impl<S> Addressed<S> {
    /// The resource whose device the parcel is for.
    pub open spec fn resource(&self) -> Resource {
        match self {
            Addressed::Terminal(_) => Resource::Terminal,
            Addressed::NFC(_) => Resource::NFC,
            Addressed::Door(_) => Resource::Door,
            Addressed::KeyPad(_) => Resource::KeyPad,
        }
    }

    /// What the parcel holds.
    pub open spec fn content(&self) -> ThreadRequest<S> {
        match self {
            Addressed::Terminal(parcel) => parcel.0,
            Addressed::NFC(parcel) => parcel.0,
            Addressed::Door(parcel) => parcel.0,
            Addressed::KeyPad(parcel) => parcel.0,
        }
    }
}

/// Addresses a request and its connection to the device that owns the
/// request's resource.
pub fn address<S>(request: Requests, stream: S) -> (parcel: Addressed<S>)
    ensures
        parcel.resource() == request.resource(),
        parcel.content() == ThreadRequest(request, stream),
{
    match request.target() {
        Resource::Terminal => Addressed::Terminal(
            Parcel(ThreadRequest(request, stream), PhantomData),
        ),
        Resource::NFC => Addressed::NFC(Parcel(ThreadRequest(request, stream), PhantomData)),
        Resource::Door => Addressed::Door(Parcel(ThreadRequest(request, stream), PhantomData)),
        Resource::KeyPad => Addressed::KeyPad(Parcel(ThreadRequest(request, stream), PhantomData)),
    }
}

} // verus!
