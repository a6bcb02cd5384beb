//! The PN532 card reader: command framing, acknowledgement and response
//! scanning, UID extraction, and the list of enrolled cards.
//!
//! Nothing here touches the bus. A caller writes the frames built here to
//! the reader, hands back the chunks it read, and acts on the verdicts.

use crate::device::Shutdown;
use crate::request::{Error, Get, GetRequest, Put, SetRequest};
use crate::requests_and_responses::{InternalThreadRequest, Requests, Resource, Responses};
use vstd::pervasive::unreached;
use crate::text::{bracketed, hex_list, push_hex_list};
use vstd::prelude::*;

verus! {

/// PN532 command codes used by the reader.
pub const SAM_CONFIGURATION: u8 = 0x14;

pub const IN_LIST_PASSIVE_TARGET: u8 = 0x4A;

/// ISO/IEC 14443 type A at 106 kbps.
pub const ISO_TYPE_A: u8 = 0x00;

/// Frame identifier of a host-to-reader frame.
pub const TFI: u8 = 0xD4;

/// Most payload bytes one frame carries: its length byte counts them and
/// the frame identifier.
pub const MAX_COMMAND_LEN: usize = 254;

/// Size of one read from the bus.
pub const CHUNK_LEN: usize = 128;

/// Time between two polls of the reader, in milliseconds.
pub const TICK_PERIOD: u64 = 200;

/// How long the reader rests after it had the door unlocked, and between
/// two reads made for enrollment, in milliseconds.
pub const DEBOUNCE: u64 = 1000;

/// Reads granted to find an acknowledgement.
pub const SYNC_ATTEMPTS: usize = 5;

/// Reads granted to find a response frame.
pub const RECEIVE_ATTEMPTS: usize = 10;

/// Why an exchange with the reader failed.
#[derive(Debug, Clone, Copy, PartialEq, Eq, Structural)]
pub enum NfcError {
    /// The start code of an acknowledgement was not where it had to be.
    AckStart,
    /// The reader refused the command.
    Nack,
    /// The reader reported an application-level error.
    App,
    /// No frame turned up within the reads granted.
    Timeout,
    /// The start code of a response was not where it had to be.
    ResponseStart,
    /// A response announced a payload that its chunk does not hold.
    Malformed,
    /// A command has more bytes than one frame carries.
    TooLong,
}

/// Sum of the bytes of `bytes`.
pub open spec fn byte_sum(bytes: Seq<u8>) -> int
    decreases bytes.len(),
{
    if bytes.len() == 0 {
        0
    } else {
        byte_sum(bytes.drop_last()) + bytes.last()
    }
}

/// The byte that brings `total` to a multiple of 256.
pub open spec fn complement(total: int) -> u8 {
    ((256 - total % 256) % 256) as u8
}

/// The frame that carries the command bytes `data` to the reader:
/// preamble, start code, length and its checksum, frame identifier, the
/// bytes, their checksum, postamble.
pub open spec fn command_frame(data: Seq<u8>) -> Seq<u8> {
    seq![0x00u8, 0x00u8, 0xFFu8, (data.len() + 1) as u8, complement(data.len() as int + 1), TFI] + data
        + seq![complement(TFI + byte_sum(data)), 0x00u8]
}

/// Every frame's length and length checksum sum to zero modulo 256, and so
/// do its frame identifier, command bytes and data checksum.
pub proof fn lemma_frame_checksums(data: Seq<u8>)
    requires
        data.len() <= MAX_COMMAND_LEN,
    ensures
        command_frame(data).len() == data.len() + 8,
        command_frame(data)[3] == data.len() + 1,
        (command_frame(data)[3] + command_frame(data)[4]) % 256 == 0,
        command_frame(data)[5] == TFI,
        command_frame(data).subrange(6, 6 + data.len() as int) == data,
        (TFI + byte_sum(data) + command_frame(data)[6 + data.len() as int]) % 256 == 0,
{
    let frame = command_frame(data);
    assert(frame.subrange(6, 6 + data.len() as int) =~= data);
    let total = TFI + byte_sum(data);
    lemma_byte_sum_nonnegative(data);
    assert((total + complement(total)) % 256 == 0);
    assert(frame[6 + data.len() as int] == complement(total));
}

proof fn lemma_byte_sum_nonnegative(bytes: Seq<u8>)
    ensures
        byte_sum(bytes) >= 0,
    decreases bytes.len(),
{
    if bytes.len() > 0 {
        lemma_byte_sum_nonnegative(bytes.drop_last());
    }
}

/// Builds the frame for the command bytes `data`, or refuses them when they
/// do not fit one frame.
pub fn send_command_to_nfcdev(data: &[u8]) -> (frame: Result<Vec<u8>, NfcError>)
    ensures
        data@.len() <= MAX_COMMAND_LEN ==> frame is Ok && frame->Ok_0@ == command_frame(data@),
        data@.len() > MAX_COMMAND_LEN ==> frame == Err::<Vec<u8>, NfcError>(NfcError::TooLong),
{
    if data.len() > MAX_COMMAND_LEN {
        Err(NfcError::TooLong)
    } else {
        Ok(frame_command(data))
    }
}

/// Builds the frame for command bytes that fit one.
fn frame_command(data: &[u8]) -> (frame: Vec<u8>)
    requires
        data@.len() <= MAX_COMMAND_LEN,
    ensures
        frame@ == command_frame(data@),
{
    let n: usize = data.len();
    let length: u8 = (n + 1) as u8;
    let mut frame: Vec<u8> = Vec::new();
    frame.push(0x00);
    frame.push(0x00);
    frame.push(0xFF);
    frame.push(length);
    frame.push(complement_of(length as u32));
    frame.push(TFI);
    let mut sum: u32 = TFI as u32;
    let mut i: usize = 0;
    while i < n
        invariant
            n == data@.len(),
            n <= MAX_COMMAND_LEN,
            0 <= i <= n,
            sum < 256,
            sum == (TFI + byte_sum(data@.subrange(0, i as int))) % 256,
            frame@ == seq![0x00u8, 0x00u8, 0xFFu8, (n + 1) as u8, complement(n as int + 1), TFI]
                + data@.subrange(0, i as int),
        decreases n - i,
    {
        let byte: u8 = data[i];
        proof {
            let before = data@.subrange(0, i as int);
            let after = data@.subrange(0, i + 1);
            assert(after.drop_last() =~= before);
            assert(after.last() == byte);
            lemma_byte_sum_nonnegative(before);
        }
        sum = (sum + byte as u32) % 256;
        frame.push(byte);
        i = i + 1;
        assert(frame@ =~= seq![0x00u8, 0x00u8, 0xFFu8, (n + 1) as u8, complement(n as int + 1), TFI]
            + data@.subrange(0, i as int));
    }
    assert(data@.subrange(0, n as int) =~= data@);
    proof {
        lemma_byte_sum_nonnegative(data@);
    }
    frame.push(complement_of(sum));
    frame.push(0x00);
    assert(frame@ =~= command_frame(data@));
    frame
}

/// The byte that brings `total` to a multiple of 256.
fn complement_of(total: u32) -> (byte: u8)
    requires
        total < 512,
    ensures
        byte == complement(total as int),
{
    ((256 - total % 256) % 256) as u8
}

/// Either a verdict, or the request to read the bus once more.
#[derive(Debug, Clone, PartialEq, Eq)]
pub enum Progress<T> {
    Done(T),
    Again,
}

/// What one chunk says about the acknowledgement of a command.
#[derive(Debug, Clone, Copy, PartialEq, Eq, Structural)]
pub enum Ack {
    /// Start code, then `00`: the command was taken.
    Ack,
    /// Start code, then `FF`: the command was refused.
    Nack,
    /// Start code, then `01`: the reader reports an application error.
    AppError,
    /// Two preamble bytes were not followed by the start code.
    BadStart,
    /// The chunk ends before any of these shows.
    Pending,
}

/// Reads the chunk from position `at` on. `matched` says how far the
/// start of a frame has been seen just before: not at all (0), one
/// preamble byte `00` (1), two of them (2), or the start code `FF` behind
/// one or two preamble bytes (3). Before a preamble byte, any byte is
/// passed over; behind a single one, a byte that is neither `00` nor `FF`
/// starts the search afresh; behind two, only the start code may follow.
/// Behind the start code, bytes are passed over until one is a code.
pub open spec fn ack_scan(chunk: Seq<u8>, at: int, matched: int) -> Ack
    decreases chunk.len() - at,
{
    if at < 0 || at >= chunk.len() {
        Ack::Pending
    } else if matched <= 0 {
        ack_scan(chunk, at + 1, if chunk[at] == 0x00 { 1 } else { 0 })
    } else if matched == 1 {
        ack_scan(
            chunk,
            at + 1,
            if chunk[at] == 0x00 {
                2
            } else if chunk[at] == 0xFF {
                3
            } else {
                0
            },
        )
    } else if matched == 2 {
        if chunk[at] == 0xFF {
            ack_scan(chunk, at + 1, 3)
        } else {
            Ack::BadStart
        }
    } else if chunk[at] == 0x00 {
        Ack::Ack
    } else if chunk[at] == 0xFF {
        Ack::Nack
    } else if chunk[at] == 0x01 {
        Ack::AppError
    } else {
        ack_scan(chunk, at + 1, 3)
    }
}

/// What a chunk read while waiting for an acknowledgement amounts to on
/// the given attempt, attempts being counted from zero.
pub open spec fn sync_verdict(chunk: Seq<u8>, attempt: int) -> Progress<Result<(), NfcError>> {
    match ack_scan(chunk, 0, 0) {
        Ack::Ack => Progress::Done(Ok(())),
        Ack::Nack => Progress::Done(Err(NfcError::Nack)),
        Ack::AppError => Progress::Done(Err(NfcError::App)),
        Ack::BadStart => Progress::Done(Err(NfcError::AckStart)),
        Ack::Pending => if attempt + 1 >= SYNC_ATTEMPTS {
            Progress::Done(Err(NfcError::Timeout))
        } else {
            Progress::Again
        },
    }
}

/// Looks for an acknowledgement in one chunk.
pub fn read_ack(chunk: &[u8]) -> (ack: Ack)
    ensures
        ack == ack_scan(chunk@, 0, 0),
{
    let n: usize = chunk.len();
    let mut matched: u8 = 0;
    let mut j: usize = 0;
    while j < n
        invariant
            n == chunk@.len(),
            0 <= j <= n,
            0 <= matched <= 3,
            ack_scan(chunk@, 0, 0) == ack_scan(chunk@, j as int, matched as int),
        decreases n - j,
    {
        let byte: u8 = chunk[j];
        if matched == 0 {
            if byte == 0x00 {
                matched = 1;
            }
        } else if matched == 1 {
            if byte == 0x00 {
                matched = 2;
            } else if byte == 0xFF {
                matched = 3;
            } else {
                matched = 0;
            }
        } else if matched == 2 {
            if byte == 0xFF {
                matched = 3;
            } else {
                return Ack::BadStart;
            }
        } else if byte == 0x00 {
            return Ack::Ack;
        } else if byte == 0xFF {
            return Ack::Nack;
        } else if byte == 0x01 {
            return Ack::AppError;
        }
        j = j + 1;
    }
    Ack::Pending
}

/// Judges the chunk read on the given attempt at finding the
/// acknowledgement of a command: done with the reader's answer, done with
/// a timeout when the last attempt found nothing, or read again.
pub fn sync_packets(chunk: &[u8], attempt: usize) -> (step: Progress<Result<(), NfcError>>)
    ensures
        step == sync_verdict(chunk@, attempt as int),
{
    match read_ack(chunk) {
        Ack::Ack => Progress::Done(Ok(())),
        Ack::Nack => Progress::Done(Err(NfcError::Nack)),
        Ack::AppError => Progress::Done(Err(NfcError::App)),
        Ack::BadStart => Progress::Done(Err(NfcError::AckStart)),
        Ack::Pending => if attempt >= SYNC_ATTEMPTS - 1 {
            Progress::Done(Err(NfcError::Timeout))
        } else {
            Progress::Again
        },
    }
}

/// What one chunk says about the response to a command.
pub enum Reply {
    /// A frame, and the bytes that follow its frame identifier.
    Payload(Seq<u8>),
    /// A frame of length one: the reader reports an application error.
    AppError,
    /// Two preamble bytes were not followed by the start code.
    BadStart,
    /// A frame whose length is zero or reaches past the chunk.
    Malformed,
    /// The chunk ends before the start sequence is complete.
    Pending,
}

/// Reads the chunk from position `at` on, `matched` bytes of the start
/// sequence `00 00 FF` having been seen just before. A response, unlike
/// an acknowledgement, starts with exactly two preamble bytes: a single
/// `00` followed by anything else starts the search afresh. The byte after
/// the sequence is the frame's length; its checksum and the frame
/// identifier follow, then the payload, one byte shorter than the length.
pub open spec fn reply_scan(chunk: Seq<u8>, at: int, matched: int) -> Reply
    decreases chunk.len() - at,
{
    if at < 0 || at >= chunk.len() {
        Reply::Pending
    } else if matched < 2 {
        reply_scan(chunk, at + 1, if chunk[at] == 0x00 { matched + 1 } else { 0 })
    } else if matched == 2 {
        if chunk[at] == 0xFF {
            reply_scan(chunk, at + 1, 3)
        } else {
            Reply::BadStart
        }
    } else if chunk[at] == 0x01 {
        Reply::AppError
    } else if chunk[at] == 0x00 || at + 2 + chunk[at] > chunk.len() {
        Reply::Malformed
    } else {
        Reply::Payload(chunk.subrange(at + 3, at + 2 + chunk[at]))
    }
}

/// What a chunk read while waiting for a response amounts to on the given
/// attempt, attempts being counted from zero.
pub open spec fn receive_verdict(chunk: Seq<u8>, attempt: int) -> Progress<
    Result<Seq<u8>, NfcError>,
> {
    match reply_scan(chunk, 0, 0) {
        Reply::Payload(payload) => Progress::Done(Ok(payload)),
        Reply::AppError => Progress::Done(Err(NfcError::App)),
        Reply::BadStart => Progress::Done(Err(NfcError::ResponseStart)),
        Reply::Malformed => Progress::Done(Err(NfcError::Malformed)),
        Reply::Pending => if attempt + 1 >= RECEIVE_ATTEMPTS {
            Progress::Done(Err(NfcError::Timeout))
        } else {
            Progress::Again
        },
    }
}

/// The bytes of `source` from `from` up to `to`.
fn copy_bytes(source: &[u8], from: usize, to: usize) -> (bytes: Vec<u8>)
    requires
        from <= to <= source@.len(),
    ensures
        bytes@ == source@.subrange(from as int, to as int),
{
    let mut bytes: Vec<u8> = Vec::new();
    let mut i: usize = from;
    while i < to
        invariant
            from <= i <= to <= source@.len(),
            bytes@ == source@.subrange(from as int, i as int),
        decreases to - i,
    {
        bytes.push(source[i]);
        i = i + 1;
        assert(bytes@ =~= source@.subrange(from as int, i as int));
    }
    bytes
}

/// Judges the chunk read on the given attempt at finding the response to a
/// command: done with the frame's payload or with the fault found, done
/// with a timeout when the last attempt found nothing, or read again.
pub fn receive_from_nfcdev(chunk: &[u8], attempt: usize) -> (step: Progress<
    Result<Vec<u8>, NfcError>,
>)
    ensures
        match receive_verdict(chunk@, attempt as int) {
            Progress::Done(Ok(payload)) => step matches Progress::Done(Ok(bytes)) && bytes@
                == payload,
            Progress::Done(Err(fault)) => step == Progress::Done(
                Err::<Vec<u8>, NfcError>(fault),
            ),
            Progress::Again => step == Progress::<Result<Vec<u8>, NfcError>>::Again,
        },
{
    let n: usize = chunk.len();
    let mut matched: u8 = 0;
    let mut j: usize = 0;
    while j < n
        invariant
            n == chunk@.len(),
            0 <= j <= n,
            0 <= matched <= 3,
            reply_scan(chunk@, 0, 0) == reply_scan(chunk@, j as int, matched as int),
        decreases n - j,
    {
        let byte: u8 = chunk[j];
        if matched < 2 {
            if byte == 0x00 {
                matched = matched + 1;
            } else {
                matched = 0;
            }
        } else if matched == 2 {
            if byte == 0xFF {
                matched = 3;
            } else {
                return Progress::Done(Err(NfcError::ResponseStart));
            }
        } else if byte == 0x01 {
            return Progress::Done(Err(NfcError::App));
        } else if byte == 0x00 || byte as usize + 2 > n - j {
            return Progress::Done(Err(NfcError::Malformed));
        } else {
            return Progress::Done(Ok(copy_bytes(chunk, j + 3, j + 2 + byte as usize)));
        }
        j = j + 1;
    }
    if attempt >= RECEIVE_ATTEMPTS - 1 {
        Progress::Done(Err(NfcError::Timeout))
    } else {
        Progress::Again
    }
}

/// The UID that a response to `InListPassiveTarget` announces: its length
/// stands at offset 6 of the payload and its bytes follow. A payload too
/// short for that announces none.
pub open spec fn uid_in(reply: Seq<u8>) -> Option<Seq<u8>> {
    if reply.len() > 6 && 7 + reply[6] <= reply.len() {
        Some(reply.subrange(7, 7 + reply[6]))
    } else {
        None
    }
}

/// The enrolled cards rendered for display: the word `ids`, an equals
/// sign, and the list of UIDs, each a list of hexadecimal numbers.
pub open spec fn render_ids(ids: Seq<Seq<u8>>) -> Seq<char> {
    seq!['i', 'd', 's', ' ', '=', ' '] + bracketed(ids.map_values(|uid: Seq<u8>| hex_list(uid)))
}

/// Whether a poll that read `uids` is to unlock the door: it read a UID,
/// and the first one is enrolled.
pub open spec fn unlock_on_match(enrolled: Seq<Seq<u8>>, uids: Seq<Seq<u8>>) -> bool {
    uids.len() > 0 && enrolled.contains(uids[0])
}

/// Enrolled UIDs in their string form.
#[derive(Debug, Clone)]
pub struct NFCids(pub String);

/// The reader's memory: the cards enrolled so far, in the order of their
/// enrollment, and the card presented for enrollment, if any.
#[derive(Clone)]
pub struct NFCdev {
    ids: Vec<Vec<u8>>,
    presented: Option<Vec<u8>>,
}

impl NFCdev {
    /// The enrolled UIDs, oldest first.
    pub closed spec fn enrolled(&self) -> Seq<Seq<u8>> {
        self.ids@.map_values(|uid: Vec<u8>| uid@)
    }

    /// The UID waiting to be enrolled.
    pub closed spec fn presented(&self) -> Option<Seq<u8>> {
        match self.presented {
            Some(uid) => Some(uid@),
            None => None,
        }
    }

    /// A reader that knows no card.
    pub fn new() -> (nfc: Self)
        ensures
            nfc.enrolled() == Seq::<Seq<u8>>::empty(),
            nfc.presented() is None,
    {
        let nfc = NFCdev { ids: Vec::new(), presented: None };
        assert(nfc.enrolled() =~= Seq::<Seq<u8>>::empty());
        nfc
    }

    /// Enrolls a UID.
    pub fn push(&mut self, new_id: Vec<u8>)
        ensures
            final(self).enrolled() == old(self).enrolled().push(new_id@),
            final(self).presented() == old(self).presented(),
    {
        self.ids.push(new_id);
        assert(self.enrolled() =~= old(self).enrolled().push(new_id@));
    }

    /// The frame that sets the reader to normal mode.
    pub fn init_nfc() -> (frame: Vec<u8>)
        ensures
            frame@ == command_frame(seq![SAM_CONFIGURATION, 0x01u8]),
    {
        let command: [u8; 2] = [SAM_CONFIGURATION, 0x01];
        assert(command@ =~= seq![SAM_CONFIGURATION, 0x01u8]);
        frame_command(command.as_slice())
    }

    /// The frame that asks the reader for one type A card in its field.
    pub fn poll_command() -> (frame: Vec<u8>)
        ensures
            frame@ == command_frame(seq![IN_LIST_PASSIVE_TARGET, 0x01u8, ISO_TYPE_A]),
    {
        let command: [u8; 3] = [IN_LIST_PASSIVE_TARGET, 0x01, ISO_TYPE_A];
        assert(command@ =~= seq![IN_LIST_PASSIVE_TARGET, 0x01u8, ISO_TYPE_A]);
        frame_command(command.as_slice())
    }

    /// The UIDs that a response payload announces: one, or none when no
    /// card is in the field.
    pub fn get_uid(reply: &[u8]) -> (uids: Vec<Vec<u8>>)
        ensures
            match uid_in(reply@) {
                Some(uid) => uids@.len() == 1 && uids@[0]@ == uid,
                None => uids@.len() == 0,
            },
    {
        let n: usize = reply.len();
        let mut uids: Vec<Vec<u8>> = Vec::new();
        if n > 6 {
            let id_length: usize = reply[6] as usize;
            if id_length <= n - 7 {
                uids.push(copy_bytes(reply, 7, 7 + id_length));
            }
        }
        uids
    }

    /// Whether a UID is enrolled.
    pub fn is_enrolled(&self, uid: &[u8]) -> (found: bool)
        ensures
            found == self.enrolled().contains(uid@),
    {
        let n: usize = self.ids.len();
        let mut i: usize = 0;
        while i < n
            invariant
                n == self.ids@.len(),
                0 <= i <= n,
                forall|k: int| 0 <= k < i ==> self.enrolled()[k] != uid@,
            decreases n - i,
        {
            if same_bytes(self.ids[i].as_slice(), uid) {
                assert(self.enrolled()[i as int] == uid@);
                return true;
            }
            i = i + 1;
        }
        false
    }

    /// Judges a poll: whether the first UID read belongs to an enrolled
    /// card, so that the door is to be unlocked.
    pub fn should_unlock(&self, uids: &Vec<Vec<u8>>) -> (unlock: bool)
        ensures
            unlock == unlock_on_match(self.enrolled(), uids@.map_values(|uid: Vec<u8>| uid@)),
    {
        if uids.len() > 0 {
            self.is_enrolled(uids[0].as_slice())
        } else {
            false
        }
    }

    /// Takes note of a read made for enrollment: its first UID, if it has
    /// one, waits to be enrolled. Says whether there was one.
    pub fn present(&mut self, uids: &Vec<Vec<u8>>) -> (seen: bool)
        ensures
            seen == (uids@.len() > 0),
            final(self).enrolled() == old(self).enrolled(),
            seen ==> final(self).presented() == Some(uids@[0]@),
            !seen ==> final(self).presented() == old(self).presented(),
    {
        if uids.len() > 0 {
            let first = &uids[0];
            self.presented = Some(copy_bytes(first.as_slice(), 0, first.len()));
            assert(uids@[0]@.subrange(0, uids@[0]@.len() as int) =~= uids@[0]@);
            true
        } else {
            false
        }
    }

    /// The enrolled UIDs in their string form.
    pub fn render(&self) -> (text: String)
        ensures
            text@ == render_ids(self.enrolled()),
    {
        let ghost parts = self.enrolled().map_values(|uid: Seq<u8>| hex_list(uid));
        let mut text = String::new();
        text.push('i');
        text.push('d');
        text.push('s');
        text.push(' ');
        text.push('=');
        text.push(' ');
        text.push('[');
        let ghost head = text@;
        assert(head =~= seq!['i', 'd', 's', ' ', '=', ' '] + seq!['[']);
        let n: usize = self.ids.len();
        let mut i: usize = 0;
        while i < n
            invariant
                n == self.ids@.len(),
                0 <= i <= n,
                parts == self.enrolled().map_values(|uid: Seq<u8>| hex_list(uid)),
                text@ == head + crate::text::joined(parts.subrange(0, i as int)),
            decreases n - i,
        {
            if i > 0 {
                text.push(',');
                text.push(' ');
            }
            push_hex_list(&mut text, self.ids[i].as_slice());
            proof {
                let before = parts.subrange(0, i as int);
                let after = parts.subrange(0, i + 1);
                assert(after.drop_last() =~= before);
                assert(after.last() == hex_list(self.ids@[i as int]@));
                assert(text@ =~= head + crate::text::joined(after));
            }
            i = i + 1;
        }
        text.push(']');
        proof {
            assert(parts.subrange(0, n as int) =~= parts);
            assert(text@ =~= render_ids(self.enrolled()));
        }
        text
    }
}

/// Whether two byte strings are the same.
fn same_bytes(left: &[u8], right: &[u8]) -> (same: bool)
    ensures
        same == (left@ == right@),
{
    if left.len() != right.len() {
        return false;
    }
    let n: usize = left.len();
    let mut i: usize = 0;
    while i < n
        invariant
            n == left@.len(),
            n == right@.len(),
            0 <= i <= n,
            forall|k: int| 0 <= k < i ==> left@[k] == right@[k],
        decreases n - i,
    {
        if left[i] != right[i] {
            return false;
        }
        i = i + 1;
    }
    assert(left@ =~= right@);
    true
}

impl Get<NFCdev, NFCids> for NFCdev {
    /// Reading answers with the enrolled UIDs in their string form.
    open spec fn may_get(&self, result: Result<NFCids, Error>) -> bool {
        result matches Ok(ids) && ids.0@ == render_ids(self.enrolled())
    }

    fn get(&self) -> (result: Result<NFCids, Error>) {
        Ok(NFCids(self.render()))
    }
}

impl Put<NFCdev, NFCids> for NFCdev {
    /// Setting enrolls the card presented and is refused when none was;
    /// the candidate itself is not read.
    open spec fn may_set(&self, target: &NFCids, after: &Self, result: Result<(), Error>) -> bool {
        match self.presented() {
            Some(uid) => {
                &&& result is Ok
                &&& after.enrolled() == self.enrolled().push(uid)
                &&& after.presented() is None
            },
            None => {
                &&& result matches Err(reason)
                &&& reason.0@ == "No card presented"@
                &&& after.enrolled() == self.enrolled()
                &&& after.presented() is None
            },
        }
    }

    fn set(&mut self, target: &NFCids) -> (result: Result<(), Error>) {
        match self.presented.take() {
            Some(uid) => {
                self.push(uid);
                Ok(())
            },
            None => Err(Error("No card presented".to_owned())),
        }
    }
}

impl NFCdev {
    /// Answers a request for the reader and goes on running. A read
    /// answers with the enrolled UIDs in their string form; a write
    /// enrolls the card presented. The response carries the request's
    /// identifier.
    pub fn handle_command(&mut self, request: Requests) -> (answer: (Responses, Shutdown))
        requires
            request.resource() == Resource::NFC,
        ensures
            answer.0.id() == request.id(),
            answer.1 == Shutdown(false),
            match request {
                Requests::NFCGetID(get) => {
                    &&& answer.0 matches Responses::NFCGetID(response)
                    &&& response.1 matches Ok(ids)
                    &&& ids.0@ == render_ids(old(self).enrolled())
                    &&& final(self).enrolled() == old(self).enrolled()
                    &&& final(self).presented() == old(self).presented()
                },
                Requests::NFCSetID(set) => {
                    &&& answer.0 matches Responses::NFCSetID(response)
                    &&& response.1 == set.1
                    &&& old(self).may_set(&set.1, final(self), response.2)
                },
                _ => true,
            },
    {
        let response = match request {
            Requests::NFCGetID(get) => Responses::NFCGetID(get.get_response(&*self)),
            Requests::NFCSetID(set) => Responses::NFCSetID(set.get_response(self)),
            _ => unreached(),
        };
        (response, Shutdown(false))
    }

    /// One tick, given the UIDs that the poll read: the request to send
    /// the door when the first of them is enrolled, and none otherwise.
    pub fn step(&self, uids: &Vec<Vec<u8>>) -> (unlock: Option<InternalThreadRequest>)
        ensures
            unlock is Some == unlock_on_match(
                self.enrolled(),
                uids@.map_values(|uid: Vec<u8>| uid@),
            ),
            unlock matches Some(request) ==> request.0 matches Requests::DoorSetState(set)
                && set.0 == crate::request::ID(0) && set.1
                == crate::device::door::DoorState::Unlock,
    {
        if self.should_unlock(uids) {
            Some(InternalThreadRequest::unlock_door())
        } else {
            None
        }
    }
}

/// The verdict that the byte after a start sequence stands for.
pub open spec fn ack_for(code: u8) -> Ack {
    if code == 0x00 {
        Ack::Ack
    } else if code == 0xFF {
        Ack::Nack
    } else {
        Ack::AppError
    }
}

/// An acknowledgement is found behind any bytes that the reader sends
/// ahead of it, as long as none of them is `00`, and whether one or two
/// preamble bytes lead it in: the chunk's verdict is that of the byte
/// after the first start code.
pub proof fn lemma_ack_behind_status_bytes(ahead: Seq<u8>, code: u8, rest: Seq<u8>)
    requires
        forall|i: int| 0 <= i < ahead.len() ==> ahead[i] != 0x00,
        code == 0x00 || code == 0xFF || code == 0x01,
    ensures
        ack_scan(ahead + seq![0x00u8, 0xFFu8, code] + rest, 0, 0) == ack_for(code),
        ack_scan(ahead + seq![0x00u8, 0x00u8, 0xFFu8, code] + rest, 0, 0) == ack_for(code),
{
    lemma_ack_from(ahead, seq![0x00u8, 0xFFu8, code], code, rest, 0);
    lemma_ack_from(ahead, seq![0x00u8, 0x00u8, 0xFFu8, code], code, rest, 0);
}

proof fn lemma_ack_from(ahead: Seq<u8>, frame: Seq<u8>, code: u8, rest: Seq<u8>, at: int)
    requires
        forall|i: int| 0 <= i < ahead.len() ==> ahead[i] != 0x00,
        code == 0x00 || code == 0xFF || code == 0x01,
        frame == seq![0x00u8, 0xFFu8, code] || frame == seq![0x00u8, 0x00u8, 0xFFu8, code],
        0 <= at <= ahead.len(),
    ensures
        ack_scan(ahead + frame + rest, at, 0) == ack_for(code),
    decreases ahead.len() - at,
{
    let chunk = ahead + frame + rest;
    let n = ahead.len() as int;
    if at < n {
        assert(chunk[at] == ahead[at]);
        lemma_ack_from(ahead, frame, code, rest, at + 1);
    } else if frame.len() == 3 {
        assert(chunk[n] == frame[0]);
        assert(chunk[n + 1] == frame[1]);
        assert(chunk[n + 2] == frame[2]);
        assert(ack_scan(chunk, n + 2, 3) == ack_for(code));
        assert(ack_scan(chunk, n + 1, 1) == ack_for(code));
    } else {
        assert(chunk[n] == frame[0]);
        assert(chunk[n + 1] == frame[1]);
        assert(chunk[n + 2] == frame[2]);
        assert(chunk[n + 3] == frame[3]);
        assert(ack_scan(chunk, n + 3, 3) == ack_for(code));
        assert(ack_scan(chunk, n + 2, 2) == ack_for(code));
        assert(ack_scan(chunk, n + 1, 1) == ack_for(code));
    }
}

/// A response frame is found behind any bytes that the reader sends ahead
/// of it, as long as none of them is `00`: the payload is what stands
/// between the frame identifier and the data checksum.
pub proof fn lemma_reply_behind_status_bytes(
    ahead: Seq<u8>,
    checksum: u8,
    identifier: u8,
    payload: Seq<u8>,
    rest: Seq<u8>,
)
    requires
        forall|i: int| 0 <= i < ahead.len() ==> ahead[i] != 0x00,
        1 <= payload.len() <= 254,
    ensures
        reply_scan(
            ahead + seq![0x00u8, 0x00u8, 0xFFu8, (payload.len() + 1) as u8, checksum, identifier]
                + payload + rest,
            0,
            0,
        ) == Reply::Payload(payload),
{
    lemma_reply_from(ahead, checksum, identifier, payload, rest, 0);
}

proof fn lemma_reply_from(
    ahead: Seq<u8>,
    checksum: u8,
    identifier: u8,
    payload: Seq<u8>,
    rest: Seq<u8>,
    at: int,
)
    requires
        forall|i: int| 0 <= i < ahead.len() ==> ahead[i] != 0x00,
        1 <= payload.len() <= 254,
        0 <= at <= ahead.len(),
    ensures
        reply_scan(
            ahead + seq![0x00u8, 0x00u8, 0xFFu8, (payload.len() + 1) as u8, checksum, identifier]
                + payload + rest,
            at,
            0,
        ) == Reply::Payload(payload),
    decreases ahead.len() - at,
{
    let chunk = ahead + seq![
        0x00u8,
        0x00u8,
        0xFFu8,
        (payload.len() + 1) as u8,
        checksum,
        identifier,
    ] + payload + rest;
    let n = ahead.len() as int;
    if at < n {
        assert(chunk[at] == ahead[at]);
        lemma_reply_from(ahead, checksum, identifier, payload, rest, at + 1);
    } else {
        assert(chunk[n] == 0x00);
        assert(chunk[n + 1] == 0x00);
        assert(chunk[n + 2] == 0xFF);
        assert(chunk[n + 3] == payload.len() + 1);
        assert(chunk.subrange(n + 6, n + 6 + payload.len()) =~= payload);
        assert(reply_scan(chunk, n + 3, 3) == Reply::Payload(payload));
        assert(reply_scan(chunk, n + 2, 2) == Reply::Payload(payload));
        assert(reply_scan(chunk, n + 1, 1) == Reply::Payload(payload));
    }
}

} // verus!
