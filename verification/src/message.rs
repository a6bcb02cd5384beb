//! Moving requests and responses: mailboxes between threads, and frames
//! on a byte stream.
//!
//! A frame is the payload's length in bytes as eight little-endian bytes,
//! then the payload, which is UTF-8 text.

use std::marker::PhantomData;
use std::sync::mpsc;
use vstd::bytes::{
    lemma_auto_spec_u64_to_from_le_bytes, spec_u64_from_le_bytes, spec_u64_to_le_bytes,
    u64_from_le_bytes, u64_to_le_bytes,
};
use vstd::prelude::*;
use vstd::slice::slice_subrange;
use vstd::utf8::{decode_utf8, encode_utf8, valid_utf8};

verus! {

/// Why nothing was received, or nothing sent.
#[derive(Debug, Copy, Clone, PartialEq, Eq, Structural)]
pub enum Error {
    /// The mailbox is empty for now.
    NotReady,
    /// The other end of the mailbox is gone.
    Closed,
}

pub trait Send<Type> {
    fn send(&mut self, target: Type) -> Result<(), Error>;
}

pub trait Receive<Type> {
    fn receive(&mut self) -> Result<Type, Error>;
}

#[verifier::external_type_specification]
#[verifier::external_body]
#[verifier::reject_recursive_types(T)]
pub struct ExSender<T>(mpsc::Sender<T>);

#[verifier::external_type_specification]
#[verifier::external_body]
#[verifier::reject_recursive_types(T)]
pub struct ExReceiver<T>(mpsc::Receiver<T>);

/// Calls `Sender::send`, which queues the value unless the receiver is
/// gone. Says whether the value was queued; that depends on the other
/// thread, so nothing is promised of it.
#[verifier::external_body]
fn channel_send<T>(sender: &mpsc::Sender<T>, value: T) -> (queued: bool) {
    sender.send(value).is_ok()
}

/// Calls `Receiver::try_recv`, which never blocks: a value if one waits,
/// else whether the mailbox is merely empty or all its senders are gone.
/// Which of these comes depends on the other threads.
#[verifier::external_body]
fn channel_try_recv<T>(receiver: &mpsc::Receiver<T>) -> (got: Result<T, Error>) {
    match receiver.try_recv() {
        Ok(value) => Ok(value),
        Err(mpsc::TryRecvError::Empty) => Err(Error::NotReady),
        Err(mpsc::TryRecvError::Disconnected) => Err(Error::Closed),
    }
}

/// Calls `Sender::clone`, which makes another handle to the same mailbox.
#[verifier::external_body]
fn channel_clone<T>(sender: &mpsc::Sender<T>) -> (handle: mpsc::Sender<T>) {
    sender.clone()
}

/// The sending end of the mailbox of the device `To`.
#[verifier::reject_recursive_types(Type)]
pub struct ThreadSender<Type, To>(pub mpsc::Sender<Type>, pub PhantomData<To>);

impl<Type, To> Clone for ThreadSender<Type, To> {
    fn clone(&self) -> (handle: ThreadSender<Type, To>) {
        ThreadSender(channel_clone(&self.0), PhantomData)
    }
}

/// What a sender reports of a value: success when the mailbox queued it,
/// and that the mailbox is closed when it did not.
pub open spec fn delivery(queued: bool) -> Result<(), Error> {
    if queued {
        Ok(())
    } else {
        Err(Error::Closed)
    }
}

/// What a sender reports of a value, given whether the mailbox queued it.
pub fn report_delivery(queued: bool) -> (sent: Result<(), Error>)
    ensures
        sent == delivery(queued),
{
    if queued {
        Ok(())
    } else {
        Err(Error::Closed)
    }
}

/// A value on its way to the mailbox of the device `To`.
pub struct Parcel<Type, To>(pub Type, pub PhantomData<To>);

impl<Type, To> ThreadSender<Type, To> {
    /// Queues what a parcel for this mailbox's device holds, or reports
    /// that the mailbox is closed. Which of the two happens is up to the
    /// receiving end.
    pub fn deliver(&self, parcel: Parcel<Type, To>) -> (sent: Result<(), Error>)
        ensures
            sent == delivery(true) || sent == delivery(false),
    {
        self.post(parcel.0)
    }

    /// Queues the value, or reports that the mailbox is closed. Which of
    /// the two happens is up to the receiving end.
    pub fn post(&self, target: Type) -> (sent: Result<(), Error>)
        ensures
            sent == delivery(true) || sent == delivery(false),
    {
        report_delivery(channel_send(&self.0, target))
    }
}

impl<Type, To> Send<Type> for ThreadSender<Type, To> {
    /// Queues the value, or reports that the mailbox is closed. The handle
    /// stays as it was.
    fn send(&mut self, target: Type) -> (sent: Result<(), Error>)
        ensures
            sent == delivery(true) || sent == delivery(false),
            *final(self) == *old(self),
    {
        self.post(target)
    }
}

/// The receiving end of a mailbox filled by `From`.
#[verifier::reject_recursive_types(Type)]
pub struct ThreadReceiver<Type, From>(pub mpsc::Receiver<Type>, pub PhantomData<From>);

impl<Type, From> Receive<Type> for ThreadReceiver<Type, From> {
    /// Takes the next value without waiting for one. The handle stays as
    /// it was.
    fn receive(&mut self) -> (got: Result<Type, Error>)
        ensures
            *final(self) == *old(self),
    {
        channel_try_recv(&self.0)
    }
}

/// Why a byte stream does not start with a frame.
#[derive(Debug, Copy, Clone, PartialEq, Eq, Structural)]
pub enum FrameError {
    /// Fewer than eight bytes: no length.
    ShortHeader,
    /// Fewer bytes after the length than it announces.
    ShortPayload,
    /// The payload is not UTF-8.
    InvalidUtf8,
}

/// Bytes of the length field.
pub const HEADER_LEN: usize = 8;

/// The frame of a payload.
pub open spec fn frame_of(payload: Seq<u8>) -> Seq<u8> {
    spec_u64_to_le_bytes(payload.len() as u64) + payload
}

/// The length that a stream of at least eight bytes announces.
pub open spec fn announced_len(stream: Seq<u8>) -> int {
    spec_u64_from_le_bytes(stream.subrange(0, HEADER_LEN as int)) as int
}

/// The length that a frame's first eight bytes announce.
pub fn payload_len(header: &[u8; 8]) -> (len: u64)
    ensures
        len == spec_u64_from_le_bytes(header@),
{
    u64_from_le_bytes(header.as_slice())
}

/// The payload of the frame that a stream starts with.
pub open spec fn payload_of(stream: Seq<u8>) -> Result<Seq<u8>, FrameError> {
    if stream.len() < HEADER_LEN {
        Err(FrameError::ShortHeader)
    } else if announced_len(stream) > stream.len() - HEADER_LEN {
        Err(FrameError::ShortPayload)
    } else {
        Ok(stream.subrange(HEADER_LEN as int, HEADER_LEN + announced_len(stream)))
    }
}

/// The text of the frame that a stream starts with.
pub open spec fn text_of(stream: Seq<u8>) -> Result<Seq<char>, FrameError> {
    match payload_of(stream) {
        Ok(payload) => if valid_utf8(payload) {
            Ok(decode_utf8(payload))
        } else {
            Err(FrameError::InvalidUtf8)
        },
        Err(fault) => Err(fault),
    }
}

/// Calls `String::from_utf8`, which gives the string that the bytes
/// encode when they are valid UTF-8 and fails when they are not.
#[verifier::external_body]
fn string_from_utf8(bytes: Vec<u8>) -> (text: Option<String>)
    ensures
        match text {
            Some(text) => valid_utf8(bytes@) && text@ == decode_utf8(bytes@),
            None => !valid_utf8(bytes@),
        },
{
    String::from_utf8(bytes).ok()
}

/// Frames a payload.
pub fn encode_frame(payload: &[u8]) -> (frame: Vec<u8>)
    ensures
        frame@ == frame_of(payload@),
{
    let mut frame = u64_to_le_bytes(payload.len() as u64);
    let ghost header = frame@;
    let n: usize = payload.len();
    let mut i: usize = 0;
    while i < n
        invariant
            n == payload@.len(),
            0 <= i <= n,
            frame@ == header + payload@.subrange(0, i as int),
        decreases n - i,
    {
        frame.push(payload[i]);
        i = i + 1;
        assert(frame@ =~= header + payload@.subrange(0, i as int));
    }
    assert(payload@.subrange(0, n as int) =~= payload@);
    frame
}

/// Takes the frame that a stream starts with apart: its payload, and how
/// many bytes of the stream the frame takes.
pub fn decode_frame(stream: &[u8]) -> (frame: Result<(Vec<u8>, usize), FrameError>)
    ensures
        match payload_of(stream@) {
            Ok(payload) => frame matches Ok(found) && found.0@ == payload && found.1
                == HEADER_LEN + payload.len(),
            Err(fault) => frame == Err::<(Vec<u8>, usize), FrameError>(fault),
        },
{
    let n: usize = stream.len();
    if n < HEADER_LEN {
        return Err(FrameError::ShortHeader);
    }
    let announced: u64 = u64_from_le_bytes(slice_subrange(stream, 0, HEADER_LEN));
    if announced > (n - HEADER_LEN) as u64 {
        return Err(FrameError::ShortPayload);
    }
    let len: usize = announced as usize;
    let mut payload: Vec<u8> = Vec::new();
    let mut i: usize = 0;
    while i < len
        invariant
            n == stream@.len(),
            len <= n - HEADER_LEN,
            0 <= i <= len,
            payload@ == stream@.subrange(HEADER_LEN as int, HEADER_LEN + i),
        decreases len - i,
    {
        payload.push(stream[HEADER_LEN + i]);
        i = i + 1;
        assert(payload@ =~= stream@.subrange(HEADER_LEN as int, HEADER_LEN + i));
    }
    Ok((payload, HEADER_LEN + len))
}

/// Appends the frame of a text to a stream.
pub fn write_to_stream(stream: &mut Vec<u8>, json: &str)
    ensures
        final(stream)@ == old(stream)@ + frame_of(encode_utf8(json@)),
{
    let mut frame = encode_frame(json.as_bytes());
    stream.append(&mut frame);
}

/// Reads the frame that a stream starts with: its text, and how many
/// bytes of the stream the frame takes.
pub fn read_from_stream(stream: &[u8]) -> (frame: Result<(String, usize), FrameError>)
    ensures
        match text_of(stream@) {
            Ok(text) => frame matches Ok(found) && found.0@ == text && found.1 == HEADER_LEN
                + encode_utf8(text).len(),
            Err(fault) => frame == Err::<(String, usize), FrameError>(fault),
        },
{
    match decode_frame(stream) {
        Ok((payload, taken)) => {
            let ghost bytes = payload@;
            match string_from_utf8(payload) {
                Some(text) => {
                    proof {
                        vstd::utf8::decode_utf8_encode_utf8(bytes);
                    }
                    Ok((text, taken))
                },
                None => Err(FrameError::InvalidUtf8),
            }
        },
        Err(fault) => Err(fault),
    }
}

/// A frame read back gives the payload that was framed and takes the
/// whole frame, whatever follows it on the stream. Its length field
/// holds the payload's length.
pub proof fn lemma_frame_roundtrip(payload: Seq<u8>, rest: Seq<u8>)
    requires
        payload.len() <= u64::MAX,
    ensures
        frame_of(payload).len() == HEADER_LEN + payload.len(),
        announced_len(frame_of(payload) + rest) == payload.len(),
        payload_of(frame_of(payload) + rest) == Ok::<Seq<u8>, FrameError>(payload),
{
    lemma_auto_spec_u64_to_from_le_bytes();
    let header = spec_u64_to_le_bytes(payload.len() as u64);
    let stream = frame_of(payload) + rest;
    assert(stream.subrange(0, HEADER_LEN as int) =~= header);
    assert(stream.subrange(HEADER_LEN as int, HEADER_LEN + payload.len()) =~= payload);
}

/// A text written to a stream and read back is the same text.
pub proof fn lemma_text_roundtrip(text: Seq<char>, rest: Seq<u8>)
    requires
        encode_utf8(text).len() <= u64::MAX,
    ensures
        text_of(frame_of(encode_utf8(text)) + rest) == Ok::<Seq<char>, FrameError>(text),
{
    lemma_frame_roundtrip(encode_utf8(text), rest);
    vstd::utf8::encode_utf8_valid_utf8(text);
    vstd::utf8::encode_utf8_decode_utf8(text);
}

} // verus!
