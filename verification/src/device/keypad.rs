//! The 4×4 keypad: matrix layout, release-edge detection, the candidate
//! buffer and its parsing, the entry code, and the ring throttle.
//!
//! Key sets are vectors of characters. What is kept of one never holds a
//! character twice, whatever the caller passed, and keys released in the
//! same tick are appended in the order in which they were held, which is
//! the same from run to run.

use crate::device::clock::{elapsed, elapsed_between, later};
use crate::device::Shutdown;
use crate::request::{Error, Get, GetRequest, Put, SetRequest};
use crate::requests_and_responses::{Requests, Resource, Responses};
use vstd::pervasive::unreached;
use vstd::slice::slice_subrange;
use crate::text::{chars_of, string_of};
use std::collections::VecDeque;
use std::fmt::Write;
use vstd::prelude::*;

verus! {

/// The key that ends a candidate.
pub const ENDING_KEY: char = '#';

/// The matrix wiring and the key at each crossing.
pub struct KeyPadMatrix;

/// The key at the crossing of a row and a column, both counted from zero.
pub open spec fn key_at(row: int, col: int) -> char {
    seq![
        seq!['1', '2', '3', 'A'],
        seq!['4', '5', '6', 'B'],
        seq!['7', '8', '9', 'C'],
        seq!['*', '0', '#', 'D'],
    ][row][col]
}

/// The keys among the first `count` crossings, taken row by row, whose
/// column read low while their row was driven low.
pub open spec fn pressed_among(levels: Seq<Seq<u8>>, count: int) -> Seq<char>
    decreases count,
{
    if count <= 0 {
        Seq::empty()
    } else {
        let before = pressed_among(levels, count - 1);
        if levels[(count - 1) / 4][(count - 1) % 4] == 0 {
            before.push(key_at((count - 1) / 4, (count - 1) % 4))
        } else {
            before
        }
    }
}

/// The keys that a scan finds pressed.
pub open spec fn pressed_keys(levels: Seq<Seq<u8>>) -> Seq<char> {
    pressed_among(levels, 16)
}

/// The levels of a scan as sequences.
pub open spec fn scan_levels(levels: [[u8; 4]; 4]) -> Seq<Seq<u8>> {
    Seq::new(4, |row: int| levels@[row]@)
}

impl KeyPadMatrix {
    /// GPIO lines of the four columns, left to right.
    pub fn col_pins() -> (pins: [u64; 4])
        ensures
            pins@ == seq![66u64, 67u64, 69u64, 68u64],
    {
        let pins: [u64; 4] = [66, 67, 69, 68];
        assert(pins@ =~= seq![66u64, 67u64, 69u64, 68u64]);
        pins
    }

    /// GPIO lines of the four rows, top to bottom.
    pub fn row_pins() -> (pins: [u64; 4])
        ensures
            pins@ == seq![3u64, 2u64, 15u64, 115u64],
    {
        let pins: [u64; 4] = [3, 2, 15, 115];
        assert(pins@ =~= seq![3u64, 2u64, 15u64, 115u64]);
        pins
    }

    /// The key at a crossing.
    pub fn key(row: usize, col: usize) -> (key: char)
        requires
            row < 4,
            col < 4,
        ensures
            key == key_at(row as int, col as int),
    {
        if row == 0 {
            if col == 0 { '1' } else if col == 1 { '2' } else if col == 2 { '3' } else { 'A' }
        } else if row == 1 {
            if col == 0 { '4' } else if col == 1 { '5' } else if col == 2 { '6' } else { 'B' }
        } else if row == 2 {
            if col == 0 { '7' } else if col == 1 { '8' } else if col == 2 { '9' } else { 'C' }
        } else {
            if col == 0 { '*' } else if col == 1 { '0' } else if col == 2 { '#' } else { 'D' }
        }
    }

    /// The keys pressed according to a scan: `levels[i][j]` is the level
    /// read on column `j` while row `i` alone was driven low.
    pub fn get_keys_pressed(levels: &[[u8; 4]; 4]) -> (keys: Vec<char>)
        ensures
            keys@ == pressed_keys(scan_levels(*levels)),
    {
        let mut keys: Vec<char> = Vec::new();
        let mut k: usize = 0;
        while k < 16
            invariant
                0 <= k <= 16,
                keys@ == pressed_among(scan_levels(*levels), k as int),
            decreases 16 - k,
        {
            let row: usize = k / 4;
            let col: usize = k % 4;
            if levels[row][col] == 0 {
                keys.push(KeyPadMatrix::key(row, col));
            }
            k = k + 1;
        }
        keys
    }
}

/// The keys without repetition, each where it first stands.
pub open spec fn distinct(keys: Seq<char>) -> Seq<char>
    decreases keys.len(),
{
    if keys.len() == 0 {
        Seq::empty()
    } else {
        let before = distinct(keys.drop_last());
        if before.contains(keys.last()) {
            before
        } else {
            before.push(keys.last())
        }
    }
}

/// The keys of `held` that are not among `keys`, in the order of `held`.
pub open spec fn released(held: Seq<char>, keys: Seq<char>) -> Seq<char>
    decreases held.len(),
{
    if held.len() == 0 {
        Seq::empty()
    } else {
        let before = released(held.drop_last(), keys);
        if keys.contains(held.last()) {
            before
        } else {
            before.push(held.last())
        }
    }
}

/// The last `capacity` characters, or all of them if there are fewer.
pub open spec fn keep_last(chars: Seq<char>, capacity: nat) -> Seq<char> {
    if chars.len() > capacity {
        chars.subrange(chars.len() - capacity, chars.len() as int)
    } else {
        chars
    }
}

/// The candidates in a buffer: its runs of characters that an ending key
/// closes, in order and without that key.
pub open spec fn candidates(buffer: Seq<char>) -> Seq<Seq<char>>
    decreases buffer.len(),
{
    if buffer.len() == 0 {
        Seq::empty()
    } else if buffer.last() == ENDING_KEY {
        candidates(buffer.drop_last()).push(residue(buffer.drop_last()))
    } else {
        candidates(buffer.drop_last())
    }
}

/// What follows the last ending key of a buffer.
pub open spec fn residue(buffer: Seq<char>) -> Seq<char>
    decreases buffer.len(),
{
    if buffer.len() == 0 {
        Seq::empty()
    } else if buffer.last() == ENDING_KEY {
        Seq::empty()
    } else {
        residue(buffer.drop_last()).push(buffer.last())
    }
}

/// The candidates written out again, each with its ending key.
pub open spec fn terminated(runs: Seq<Seq<char>>) -> Seq<char>
    decreases runs.len(),
{
    if runs.len() == 0 {
        Seq::empty()
    } else {
        terminated(runs.drop_last()) + runs.last().push(ENDING_KEY)
    }
}

/// The views of a sequence of strings.
pub open spec fn texts(strings: Seq<String>) -> Seq<Seq<char>> {
    strings.map_values(|text: String| text@)
}

/// Whether `ch` is among `keys`.
fn contains_key(keys: &Vec<char>, ch: char) -> (found: bool)
    ensures
        found == keys@.contains(ch),
{
    let n: usize = keys.len();
    let mut i: usize = 0;
    while i < n
        invariant
            n == keys@.len(),
            0 <= i <= n,
            forall|k: int| 0 <= k < i ==> keys@[k] != ch,
        decreases n - i,
    {
        if keys[i] == ch {
            return true;
        }
        i = i + 1;
    }
    false
}

/// The keys without repetition.
fn without_repeats(keys: &Vec<char>) -> (kept: Vec<char>)
    ensures
        kept@ == distinct(keys@),
{
    let mut kept: Vec<char> = Vec::new();
    let n: usize = keys.len();
    let mut i: usize = 0;
    while i < n
        invariant
            n == keys@.len(),
            0 <= i <= n,
            kept@ == distinct(keys@.subrange(0, i as int)),
        decreases n - i,
    {
        let ch: char = keys[i];
        proof {
            assert(keys@.subrange(0, i + 1).drop_last() =~= keys@.subrange(0, i as int));
        }
        if !contains_key(&kept, ch) {
            kept.push(ch);
        }
        i = i + 1;
    }
    assert(keys@.subrange(0, n as int) =~= keys@);
    kept
}

/// What a candidate buffer holds.
pub struct CandidateView {
    /// The released keys not yet consumed, oldest first.
    pub buffer: Seq<char>,
    /// The keys that the last scan found pressed.
    pub held: Seq<char>,
    /// Whether a scan has been seen since the buffer was made or cleared.
    pub primed: bool,
    /// The most characters the buffer keeps.
    pub capacity: nat,
}

impl CandidateView {
    /// Whether the buffer holds no more characters than its capacity.
    pub open spec fn fits(self) -> bool {
        self.buffer.len() <= self.capacity
    }
}

/// Released keys waiting to be read as candidates. The buffer never holds
/// more characters than its capacity.
pub struct CandidateKey {
    data: VecDeque<char>,
    previous_pressed_keys: Vec<char>,
    is_pressed_keys_initialized: bool,
    capacity: usize,
}

impl View for CandidateKey {
    type V = CandidateView;

    closed spec fn view(&self) -> CandidateView {
        CandidateView {
            buffer: self.data@,
            held: self.previous_pressed_keys@,
            primed: self.is_pressed_keys_initialized,
            capacity: self.capacity as nat,
        }
    }
}

impl Clone for CandidateKey {
    /// A buffer that holds what this one holds.
    fn clone(&self) -> (copy: CandidateKey)
        ensures
            copy@ == self@,
    {
        proof {
            use_type_invariant(self);
        }
        let mut data: VecDeque<char> = VecDeque::new();
        let n: usize = self.data.len();
        let mut i: usize = 0;
        while i < n
            invariant
                n == self.data@.len(),
                0 <= i <= n,
                data@ == self.data@.subrange(0, i as int),
            decreases n - i,
        {
            data.push_back(self.data[i]);
            i = i + 1;
            assert(data@ =~= self.data@.subrange(0, i as int));
        }
        assert(self.data@.subrange(0, n as int) =~= self.data@);
        let mut held: Vec<char> = Vec::new();
        let m: usize = self.previous_pressed_keys.len();
        let mut j: usize = 0;
        while j < m
            invariant
                m == self.previous_pressed_keys@.len(),
                0 <= j <= m,
                held@ == self.previous_pressed_keys@.subrange(0, j as int),
            decreases m - j,
        {
            held.push(self.previous_pressed_keys[j]);
            j = j + 1;
            assert(held@ =~= self.previous_pressed_keys@.subrange(0, j as int));
        }
        assert(self.previous_pressed_keys@.subrange(0, m as int) =~= self.previous_pressed_keys@);
        CandidateKey {
            data,
            previous_pressed_keys: held,
            is_pressed_keys_initialized: self.is_pressed_keys_initialized,
            capacity: self.capacity,
        }
    }
}

impl CandidateKey {
    /// Capacity of the buffer a keypad is built with.
    pub const INITIAL_CAPACITY: usize = 256;

    #[verifier::type_invariant]
    spec fn within_capacity(&self) -> bool {
        self.data@.len() <= self.capacity
    }

    /// An empty buffer that has seen no scan.
    pub fn new(capacity: usize) -> (made: CandidateKey)
        ensures
            made@ == (CandidateView {
                buffer: Seq::empty(),
                held: Seq::empty(),
                primed: false,
                capacity: capacity as nat,
            }),
            made@.fits(),
    {
        CandidateKey {
            data: VecDeque::new(),
            previous_pressed_keys: Vec::new(),
            is_pressed_keys_initialized: false,
            capacity,
        }
    }

    /// Takes in a scan. The first scan only records which keys are held.
    /// Every later one appends the keys held before and no longer held
    /// now, then drops from the front what exceeds the capacity.
    pub fn add_keys(&mut self, keys: Vec<char>)
        ensures
            final(self)@ == old(self)@.scanned(keys@),
            final(self)@.fits(),
    {
        proof {
            use_type_invariant(&*self);
        }
        let kept = without_repeats(&keys);
        if !self.is_pressed_keys_initialized {
            self.is_pressed_keys_initialized = true;
            self.previous_pressed_keys = kept;
            return;
        }
        let ghost before = self.data@;
        let ghost held = self.previous_pressed_keys@;
        let mut data: VecDeque<char> = VecDeque::new();
        std::mem::swap(&mut data, &mut self.data);
        let n: usize = self.previous_pressed_keys.len();
        let mut i: usize = 0;
        while i < n
            invariant
                n == held.len(),
                0 <= i <= n,
                self.previous_pressed_keys@ == held,
                data@ == before + released(held.subrange(0, i as int), keys@),
            decreases n - i,
        {
            let ch: char = self.previous_pressed_keys[i];
            proof {
                assert(held.subrange(0, i + 1).drop_last() =~= held.subrange(0, i as int));
            }
            if !contains_key(&keys, ch) {
                data.push_back(ch);
                assert(data@ =~= before + released(held.subrange(0, i + 1), keys@));
            }
            i = i + 1;
        }
        assert(held.subrange(0, n as int) =~= held);
        let ghost full = data@;
        let capacity: usize = self.capacity;
        while data.len() > capacity
            invariant
                data@.len() <= full.len(),
                data@.len() == full.len() || data@.len() >= capacity,
                data@ == full.subrange(full.len() - data@.len(), full.len() as int),
            decreases data@.len(),
        {
            let ghost now = data@;
            data.pop_front();
            assert(data@ =~= full.subrange(full.len() - (now.len() - 1), full.len() as int));
        }
        assert(data@ =~= keep_last(full, capacity as nat));
        self.data = data;
        self.previous_pressed_keys = kept;
    }

    /// Takes the candidates out of the buffer and leaves what follows the
    /// last ending key.
    pub fn get_candidate_keys(&mut self) -> (found: Vec<String>)
        ensures
            texts(found@) == candidates(old(self)@.buffer),
            final(self)@ == old(self)@.parsed(),
            final(self)@.fits(),
    {
        proof {
            use_type_invariant(&*self);
        }
        let ghost buffer = self.data@;
        let n: usize = self.data.len();
        let mut found: Vec<String> = Vec::new();
        let mut current: Vec<char> = Vec::new();
        let mut start: usize = 0;
        let mut i: usize = 0;
        while i < n
            invariant
                n == buffer.len(),
                self.data@ == buffer,
                0 <= start <= i <= n,
                texts(found@) == candidates(buffer.subrange(0, i as int)),
                current@ == residue(buffer.subrange(0, i as int)),
                current@ == buffer.subrange(start as int, i as int),
            decreases n - i,
        {
            let ch: char = self.data[i];
            proof {
                assert(buffer.subrange(0, i + 1).drop_last() =~= buffer.subrange(0, i as int));
            }
            if ch == ENDING_KEY {
                let candidate = string_of(current.as_slice());
                let ghost earlier = found@;
                found.push(candidate);
                assert(texts(found@) =~= texts(earlier).push(candidate@));
                current = Vec::new();
                start = i + 1;
                assert(current@ =~= buffer.subrange(start as int, i + 1));
            } else {
                current.push(ch);
                assert(current@ =~= buffer.subrange(start as int, i + 1));
            }
            i = i + 1;
        }
        assert(buffer.subrange(0, n as int) =~= buffer);
        let mut data: VecDeque<char> = VecDeque::new();
        std::mem::swap(&mut data, &mut self.data);
        let mut k: usize = 0;
        while k < start
            invariant
                0 <= k <= start <= buffer.len(),
                data@ == buffer.subrange(k as int, buffer.len() as int),
            decreases start - k,
        {
            data.pop_front();
            k = k + 1;
            assert(data@ =~= buffer.subrange(k as int, buffer.len() as int));
        }
        self.data = data;
        found
    }

    /// Empties the buffer and forgets which keys were held.
    pub fn clear(&mut self)
        ensures
            final(self)@ == old(self)@.cleared(),
            final(self)@.fits(),
    {
        self.data = VecDeque::new();
        self.previous_pressed_keys = Vec::new();
        self.is_pressed_keys_initialized = false;
    }
}

/// Time between two scans of the matrix, in milliseconds.
pub const TICK_PERIOD: u64 = 50;

/// How long the keypad may stay untouched before its input is forgotten,
/// in milliseconds.
pub const RESET_TIMER: u64 = 5000;

/// The shortest time between two ring notifications, in milliseconds.
pub const RING_TIMER: u64 = 5000;

/// The code that a keypad starts with when none was stored.
pub const DEFAULT_CODE: &'static str = "0000";

/// What a candidate turned out to be.
#[derive(Copy, Clone, Debug, PartialEq, Eq, Structural)]
pub enum CodeType {
    Code,
    Ring,
    Invalid,
}

/// Whether a character may stand in a code.
pub open spec fn valid_char(ch: char) -> bool {
    ch == 'A' || ch == 'B' || ch == 'C' || ch == 'D' || ch == '1' || ch == '2' || ch == '3' || ch
        == '4' || ch == '5' || ch == '6' || ch == '7' || ch == '8' || ch == '9' || ch == '0'
}

/// Whether a text is a code: made of digits and the letters A to D alone.
pub open spec fn valid_code(text: Seq<char>) -> bool {
    forall|i: int| 0 <= i < text.len() ==> valid_char(#[trigger] text[i])
}

/// The verdict on the candidates of one tick: that on the last of them.
/// The code wins over the ring sequence; with no candidate, nothing is
/// valid.
pub open spec fn judged(code: Seq<char>, found: Seq<Seq<char>>) -> CodeType {
    if found.len() == 0 {
        CodeType::Invalid
    } else if found.last() == code {
        CodeType::Code
    } else if found.last() == "***"@ {
        CodeType::Ring
    } else {
        CodeType::Invalid
    }
}

/// The code that opens the door.
#[derive(Debug, Clone)]
pub struct Code {
    pub data: String,
}

fn is_valid_char(ch: char) -> (valid: bool)
    ensures
        valid == valid_char(ch),
{
    ch == 'A' || ch == 'B' || ch == 'C' || ch == 'D' || ch == '1' || ch == '2' || ch == '3' || ch
        == '4' || ch == '5' || ch == '6' || ch == '7' || ch == '8' || ch == '9' || ch == '0'
}

impl Code {
    /// Whether a text is made of code characters alone.
    pub fn validate_string(string: &str) -> (valid: bool)
        ensures
            valid == valid_code(string@),
    {
        let chars = chars_of(string);
        let n: usize = chars.len();
        let mut i: usize = 0;
        while i < n
            invariant
                n == chars@.len(),
                chars@ == string@,
                0 <= i <= n,
                forall|k: int| 0 <= k < i ==> valid_char(#[trigger] chars@[k]),
            decreases n - i,
        {
            if !is_valid_char(chars[i]) {
                return false;
            }
            i = i + 1;
        }
        true
    }

    /// The code with the given text, if the text is a code.
    pub fn from_string(string: &str) -> (made: Result<Code, Error>)
        ensures
            match made {
                Ok(code) => valid_code(string@) && code.data@ == string@,
                Err(reason) => !valid_code(string@) && reason.0@ == "Invalid code format"@,
            },
    {
        if Code::validate_string(string) {
            Ok(Code { data: string.to_owned() })
        } else {
            Err(Error("Invalid code format".to_owned()))
        }
    }

    /// Whether a candidate is this code.
    pub fn is_candidate_valid(&self, candidate: &str) -> (valid: bool)
        ensures
            valid == (candidate@ == self.data@),
    {
        candidate.to_owned() == self.data
    }

    /// The code a keypad starts with: what was stored, without the white
    /// space around it, or the default when nothing was stored.
    pub fn new(stored: Option<&str>) -> (code: Code)
        ensures
            code.data@ == match stored {
                Some(text) => trimmed(text@),
                None => DEFAULT_CODE@,
            },
    {
        match stored {
            Some(text) => Code { data: trim(text) },
            None => Code { data: DEFAULT_CODE.to_owned() },
        }
    }
}

/// Whether a character is white space, as Unicode defines it.
pub open spec fn is_space(ch: char) -> bool {
    ch == '\u{9}' || ch == '\u{a}' || ch == '\u{b}' || ch == '\u{c}' || ch == '\u{d}' || ch
        == '\u{20}' || ch == '\u{85}' || ch == '\u{a0}' || ch == '\u{1680}' || ch == '\u{2000}'
        || ch == '\u{2001}' || ch == '\u{2002}' || ch == '\u{2003}' || ch == '\u{2004}' || ch
        == '\u{2005}' || ch == '\u{2006}' || ch == '\u{2007}' || ch == '\u{2008}' || ch
        == '\u{2009}' || ch == '\u{200a}' || ch == '\u{2028}' || ch == '\u{2029}' || ch
        == '\u{202f}' || ch == '\u{205f}' || ch == '\u{3000}'
}

/// The text without the white space it starts with.
pub open spec fn trim_start(text: Seq<char>) -> Seq<char>
    decreases text.len(),
{
    if text.len() > 0 && is_space(text[0]) {
        trim_start(text.drop_first())
    } else {
        text
    }
}

/// The text without the white space it ends with.
pub open spec fn trim_end(text: Seq<char>) -> Seq<char>
    decreases text.len(),
{
    if text.len() > 0 && is_space(text.last()) {
        trim_end(text.drop_last())
    } else {
        text
    }
}

/// The text without the white space around it.
pub open spec fn trimmed(text: Seq<char>) -> Seq<char> {
    trim_end(trim_start(text))
}

fn is_space_char(ch: char) -> (space: bool)
    ensures
        space == is_space(ch),
{
    ch == '\u{9}' || ch == '\u{a}' || ch == '\u{b}' || ch == '\u{c}' || ch == '\u{d}' || ch
        == '\u{20}' || ch == '\u{85}' || ch == '\u{a0}' || ch == '\u{1680}' || ch == '\u{2000}'
        || ch == '\u{2001}' || ch == '\u{2002}' || ch == '\u{2003}' || ch == '\u{2004}' || ch
        == '\u{2005}' || ch == '\u{2006}' || ch == '\u{2007}' || ch == '\u{2008}' || ch
        == '\u{2009}' || ch == '\u{200a}' || ch == '\u{2028}' || ch == '\u{2029}' || ch
        == '\u{202f}' || ch == '\u{205f}' || ch == '\u{3000}'
}

/// The text without the white space around it.
pub fn trim(text: &str) -> (kept: String)
    ensures
        kept@ == trimmed(text@),
{
    let chars = chars_of(text);
    let n: usize = chars.len();
    let mut from: usize = 0;
    assert(chars@.subrange(0, n as int) =~= chars@);
    while from < n && is_space_char(chars[from])
        invariant
            n == chars@.len(),
            0 <= from <= n,
            trim_start(chars@) == trim_start(chars@.subrange(from as int, n as int)),
        decreases n - from,
    {
        assert(chars@.subrange(from as int, n as int)[0] == chars@[from as int]);
        assert(chars@.subrange(from as int, n as int).drop_first() =~= chars@.subrange(
            from + 1,
            n as int,
        ));
        from = from + 1;
    }
    let ghost body = chars@.subrange(from as int, n as int);
    assert(body.len() > 0 ==> body[0] == chars@[from as int]);
    assert(trim_start(chars@) == body);
    let mut to: usize = n;
    while to > from && is_space_char(chars[to - 1])
        invariant
            n == chars@.len(),
            0 <= from <= to <= n,
            body == chars@.subrange(from as int, n as int),
            trim_end(body) == trim_end(chars@.subrange(from as int, to as int)),
        decreases to - from,
    {
        assert(chars@.subrange(from as int, to as int).last() == chars@[to - 1]);
        assert(chars@.subrange(from as int, to as int).drop_last() =~= chars@.subrange(
            from as int,
            to - 1,
        ));
        to = to - 1;
    }
    assert(to > from ==> chars@.subrange(from as int, to as int).last() == chars@[to - 1]);
    string_of(slice_subrange(chars.as_slice(), from, to))
}

/// A code comes back from storage as it went in: there is no white space
/// in it to trim.
pub proof fn lemma_stored_code_is_read_back(code: Seq<char>)
    requires
        valid_code(code),
    ensures
        trimmed(code) == code,
{
    if code.len() > 0 {
        assert(valid_char(code[0]));
        assert(valid_char(code[code.len() - 1]));
    }
}

/// A phone number as text.
#[derive(Debug, Clone)]
pub struct PhoneNumberText(pub String);

/// Whether `phonenumber::is_viable` finds that the text could be a phone
/// number.
pub uninterp spec fn viable_number(text: Seq<char>) -> bool;

/// The E.164 form of the number that `phonenumber::parse` reads in the
/// text when given no default region; none if it reads no number or the
/// number has no such form. Two functions of that crate stand behind this
/// name, one after the other: `parse`, and the `Display` of the number it
/// gives. Both depend on the text alone.
pub uninterp spec fn canonical_number(text: Seq<char>) -> Option<Seq<char>>;

/// The canonical form under which a text is taken as the number to
/// notify: that of a viable text, where it has one.
pub open spec fn accepted_number(text: Seq<char>) -> Option<Seq<char>> {
    if viable_number(text) {
        canonical_number(text)
    } else {
        None
    }
}

/// Calls `phonenumber::is_viable`, a syntactic check of the text alone:
/// the result is the same for the same text.
#[verifier::external_body]
fn is_viable(text: &str) -> (viable: bool)
    ensures
        viable == viable_number(text@),
{
    phonenumber::is_viable(text)
}

/// Calls `phonenumber::parse` without a default region and writes the
/// number out through its `Display`, which formats as E.164. Both read
/// only the text and the metadata compiled into the crate, so the result
/// is the same for the same text. A text that does not parse, or a number
/// whose country code the metadata lacks, gives none.
#[verifier::external_body]
fn parse(text: &str) -> (number: Option<String>)
    ensures
        match number {
            Some(canonical) => canonical_number(text@) == Some(canonical@),
            None => canonical_number(text@) is None,
        },
{
    match phonenumber::parse(None, text) {
        Ok(number) => {
            let mut canonical = String::new();
            match write!(canonical, "{}", number) {
                Ok(()) => Some(canonical),
                Err(_) => None,
            }
        },
        Err(_) => None,
    }
}

/// What a keypad holds.
pub struct KeyPadView {
    /// The text of the code that opens the door.
    pub code: Seq<char>,
    /// The candidate buffer.
    pub keys: CandidateView,
    /// When a key was last seen pressed.
    pub last_pressed: u64,
    /// When a ring was last notified, if ever.
    pub last_rang: Option<u64>,
    /// The number to notify, in canonical form.
    pub phone: Seq<char>,
    /// The time of the tick in progress.
    pub now: u64,
}

impl CandidateView {
    /// The buffer after a scan that found `keys` pressed.
    pub open spec fn scanned(self, keys: Seq<char>) -> CandidateView {
        CandidateView {
            buffer: if self.primed {
                keep_last(self.buffer + released(self.held, keys), self.capacity)
            } else {
                self.buffer
            },
            held: distinct(keys),
            primed: true,
            ..self
        }
    }

    /// The buffer after its candidates were taken out.
    pub open spec fn parsed(self) -> CandidateView {
        CandidateView { buffer: residue(self.buffer), ..self }
    }

    /// The buffer after a reset.
    pub open spec fn cleared(self) -> CandidateView {
        CandidateView { buffer: Seq::empty(), held: Seq::empty(), primed: false, ..self }
    }
}

/// What a tick asks of the world outside the keypad.
#[derive(Debug, Clone)]
pub enum KeypadAction {
    /// Nothing.
    Nothing,
    /// Send the door an unlock request.
    UnlockDoor,
    /// Notify the given number that someone rings.
    Notify(String),
}

impl KeyPadView {
    /// The keypad after the clock was read.
    pub open spec fn advanced(self, now: u64) -> KeyPadView {
        KeyPadView { now: later(self.now, now), ..self }
    }

    /// The keypad after a scan that found `keys` pressed: any pressed key
    /// renews the time of the last press.
    pub open spec fn scanned(self, keys: Seq<char>) -> KeyPadView {
        KeyPadView {
            keys: self.keys.scanned(keys),
            last_pressed: if keys.len() != 0 { self.now } else { self.last_pressed },
            ..self
        }
    }

    /// The verdict on the candidates now in the buffer.
    pub open spec fn verdict(self) -> CodeType {
        judged(self.code, candidates(self.keys.buffer))
    }

    /// The keypad after its candidates were taken out.
    pub open spec fn checked(self) -> KeyPadView {
        KeyPadView { keys: self.keys.parsed(), ..self }
    }

    /// Whether a ring may be notified now: none was yet, or the last one
    /// is at least the ring timer old.
    pub open spec fn ring_due(self) -> bool {
        match self.last_rang {
            None => true,
            Some(then) => elapsed(self.now, then) >= RING_TIMER,
        }
    }

    /// Whether the keypad has been untouched for the reset timer.
    pub open spec fn idle(self) -> bool {
        elapsed(self.now, self.last_pressed) >= RESET_TIMER
    }

    /// Whether the tick that takes in `keys` notifies a ring.
    pub open spec fn rings(self, keys: Seq<char>) -> bool {
        self.scanned(keys).verdict() == CodeType::Ring && self.ring_due()
    }

    /// The keypad after the tick that takes in `keys`: scan, verdict on
    /// the candidates, note of a notified ring, reset when idle.
    pub open spec fn stepped(self, keys: Seq<char>) -> KeyPadView {
        let checked = self.scanned(keys).checked();
        let rung = if self.rings(keys) {
            KeyPadView { last_rang: Some(self.now), ..checked }
        } else {
            checked
        };
        if rung.idle() {
            KeyPadView { keys: rung.keys.cleared(), ..rung }
        } else {
            rung
        }
    }
}

/// The keypad: its code, its candidate buffer, and its timers.
pub struct KeyPad {
    code: Code,
    potential_key: CandidateKey,
    last_pressed: u64,
    last_rang: Option<u64>,
    phonenumber: String,
    now: u64,
}

impl View for KeyPad {
    type V = KeyPadView;

    closed spec fn view(&self) -> KeyPadView {
        KeyPadView {
            code: self.code.data@,
            keys: self.potential_key@,
            last_pressed: self.last_pressed,
            last_rang: self.last_rang,
            phone: self.phonenumber@,
            now: self.now,
        }
    }
}

impl KeyPad {
    /// A keypad whose clock stands at the time of the last press and that
    /// has not rung yet, if the number to notify has a canonical form.
    pub fn new(code: Code, potential_key: CandidateKey, last_pressed: u64, phonenumber: &str) -> (made:
        Result<KeyPad, Error>)
        ensures
            match canonical_number(phonenumber@) {
                Some(canonical) => made matches Ok(pad) && pad@.keys.fits() && pad@ == (KeyPadView {
                    code: code.data@,
                    keys: potential_key@,
                    last_pressed,
                    last_rang: None,
                    phone: canonical,
                    now: last_pressed,
                }),
                None => made matches Err(reason) && reason.0@ == "Invalid phonenumber"@,
            },
    {
        match parse(phonenumber) {
            Some(canonical) => Ok(
                KeyPad::with_phone_number(code, potential_key, last_pressed, canonical),
            ),
            None => Err(Error("Invalid phonenumber".to_owned())),
        }
    }

    /// A keypad that notifies the given number, taken as it is.
    pub fn with_phone_number(
        code: Code,
        potential_key: CandidateKey,
        last_pressed: u64,
        canonical: String,
    ) -> (pad: KeyPad)
        ensures
            pad@ == (KeyPadView {
                code: code.data@,
                keys: potential_key@,
                last_pressed,
                last_rang: None,
                phone: canonical@,
                now: last_pressed,
            }),
            pad@.keys.fits(),
    {
        proof {
            use_type_invariant(&potential_key);
        }
        KeyPad {
            code,
            potential_key,
            last_pressed,
            last_rang: None,
            phonenumber: canonical,
            now: last_pressed,
        }
    }

    /// Sets the clock to `now`, unless it already stands later.
    pub fn advance(&mut self, now: u64)
        ensures
            final(self)@ == old(self)@.advanced(now),
    {
        if now > self.now {
            self.now = now;
        }
    }

    /// Takes in a scan.
    pub fn add_keys(&mut self, keys: Vec<char>)
        ensures
            final(self)@ == old(self)@.scanned(keys@),
            final(self)@.keys.fits(),
    {
        if keys.len() != 0 {
            self.last_pressed = self.now;
        }
        self.potential_key.add_keys(keys);
    }

    /// Takes the candidates out of the buffer and judges the last one.
    pub fn check_candidates(&mut self) -> (kind: CodeType)
        ensures
            kind == old(self)@.verdict(),
            final(self)@ == old(self)@.checked(),
            final(self)@.keys.fits(),
    {
        let found = self.potential_key.get_candidate_keys();
        let n: usize = found.len();
        if n == 0 {
            return CodeType::Invalid;
        }
        let last = &found[n - 1];
        assert(texts(found@).last() == last@);
        if self.code.is_candidate_valid(last.as_str()) {
            CodeType::Code
        } else if *last == "***".to_owned() {
            CodeType::Ring
        } else {
            CodeType::Invalid
        }
    }

    /// When a key was last seen pressed.
    pub fn get_last_pressed(&self) -> (at: u64)
        ensures
            at == self@.last_pressed,
    {
        self.last_pressed
    }

    /// Forgets the input so far.
    pub fn reset_input_keys(&mut self)
        ensures
            final(self)@ == (KeyPadView { keys: old(self)@.keys.cleared(), ..old(self)@ }),
            final(self)@.keys.fits(),
    {
        self.potential_key.clear();
    }

    /// One tick: takes in the scan, judges the candidates, and says what
    /// to do. The code asks for the door to be unlocked. The ring
    /// sequence asks for a notification if one is due, and is passed over
    /// otherwise. An idle keypad is reset in the end.
    pub fn step(&mut self, keys: Vec<char>) -> (action: KeypadAction)
        ensures
            final(self)@ == old(self)@.stepped(keys@),
            final(self)@.keys.fits(),
            match old(self)@.scanned(keys@).verdict() {
                CodeType::Code => action is UnlockDoor,
                CodeType::Ring => if old(self)@.ring_due() {
                    action matches KeypadAction::Notify(to) && to@ == old(self)@.phone
                } else {
                    action is Nothing
                },
                CodeType::Invalid => action is Nothing,
            },
    {
        self.add_keys(keys);
        let kind = self.check_candidates();
        let due = match self.last_rang {
            None => true,
            Some(then) => elapsed_between(self.now, then) >= RING_TIMER,
        };
        let action = match kind {
            CodeType::Code => KeypadAction::UnlockDoor,
            CodeType::Ring => if due {
                self.last_rang = Some(self.now);
                KeypadAction::Notify(self.phonenumber.clone())
            } else {
                KeypadAction::Nothing
            },
            CodeType::Invalid => KeypadAction::Nothing,
        };
        if elapsed_between(self.now, self.last_pressed) >= RESET_TIMER {
            self.reset_input_keys();
        }
        action
    }

    /// Takes a phone number as the one to notify, given what the checks
    /// of the text said: whether it is viable, and its canonical form if
    /// it has one. Without both, the number is refused and nothing
    /// changes.
    pub fn store_phone_number(&mut self, viable: bool, canonical: Option<String>) -> (result:
        Result<(), Error>)
        ensures
            if viable && canonical is Some {
                result is Ok && final(self)@ == (KeyPadView {
                    phone: canonical->0@,
                    ..old(self)@
                })
            } else {
                result matches Err(reason) && reason.0@ == "Invalid phonenumber"@ && final(self)@
                    == old(self)@
            },
    {
        if !viable {
            return Err(Error("Invalid phonenumber".to_owned()));
        }
        match canonical {
            Some(number) => {
                self.phonenumber = number;
                Ok(())
            },
            None => Err(Error("Invalid phonenumber".to_owned())),
        }
    }
}

/// What is to be written to the code's store once a request was answered:
/// the code that was set, when the response says that a new code was
/// taken, and nothing after any other response.
pub fn code_to_store(response: &Responses) -> (text: Option<String>)
    ensures
        match *response {
            Responses::KeyPadSetCode(set) => if set.2 is Ok {
                text matches Some(stored) && stored@ == set.1.data@
            } else {
                text is None
            },
            _ => text is None,
        },
{
    match response {
        Responses::KeyPadSetCode(set) => if set.2.is_ok() {
            Some(set.1.data.clone())
        } else {
            None
        },
        _ => None,
    }
}

impl Get<KeyPad, Code> for KeyPad {
    /// Reading answers with the code.
    open spec fn may_get(&self, result: Result<Code, Error>) -> bool {
        result matches Ok(code) && code.data@ == self@.code
    }

    fn get(&self) -> (result: Result<Code, Error>) {
        Ok(Code { data: self.code.data.clone() })
    }
}

impl Put<KeyPad, Code> for KeyPad {
    /// Setting takes a candidate that is a code and refuses any other,
    /// which changes nothing.
    open spec fn may_set(&self, target: &Code, after: &Self, result: Result<(), Error>) -> bool {
        if valid_code(target.data@) {
            result is Ok && after@ == (KeyPadView { code: target.data@, ..self@ })
        } else {
            result matches Err(reason) && reason.0@ == "Invalid code format"@ && after@ == self@
        }
    }

    fn set(&mut self, target: &Code) -> (result: Result<(), Error>) {
        match Code::from_string(target.data.as_str()) {
            Ok(code) => {
                self.code = code;
                Ok(())
            },
            Err(reason) => Err(reason),
        }
    }
}

impl Get<KeyPad, PhoneNumberText> for KeyPad {
    /// Reading answers with the number to notify.
    open spec fn may_get(&self, result: Result<PhoneNumberText, Error>) -> bool {
        result matches Ok(number) && number.0@ == self@.phone
    }

    fn get(&self) -> (result: Result<PhoneNumberText, Error>) {
        Ok(PhoneNumberText(self.phonenumber.clone()))
    }
}

impl Put<KeyPad, PhoneNumberText> for KeyPad {
    /// Setting takes a viable number in its canonical form and refuses
    /// any other, which changes nothing.
    open spec fn may_set(&self, target: &PhoneNumberText, after: &Self, result: Result<(), Error>)
        -> bool {
        match accepted_number(target.0@) {
            Some(canonical) => result is Ok && after@ == (KeyPadView { phone: canonical, ..self@ }),
            None => result matches Err(reason) && reason.0@ == "Invalid phonenumber"@ && after@
                == self@,
        }
    }

    fn set(&mut self, target: &PhoneNumberText) -> (result: Result<(), Error>) {
        let viable = is_viable(target.0.as_str());
        let canonical = if viable {
            parse(target.0.as_str())
        } else {
            None
        };
        self.store_phone_number(viable, canonical)
    }
}

impl KeyPad {
    /// Answers a request for the keypad and goes on running. Reads answer
    /// with the code or the number to notify; writes change them if the
    /// candidate is accepted and say why if it is not. The response
    /// carries the request's identifier.
    pub fn handle_command(&mut self, request: Requests) -> (answer: (Responses, Shutdown))
        requires
            request.resource() == Resource::KeyPad,
        ensures
            answer.0.id() == request.id(),
            answer.1 == Shutdown(false),
            match request {
                Requests::KeyPadGetCode(get) => {
                    &&& answer.0 matches Responses::KeyPadGetCode(response)
                    &&& response.1 matches Ok(code)
                    &&& code.data@ == old(self)@.code
                    &&& final(self)@ == old(self)@
                },
                Requests::KeyPadSetCode(set) => {
                    &&& answer.0 matches Responses::KeyPadSetCode(response)
                    &&& response.1 == set.1
                    &&& old(self).may_set(&set.1, final(self), response.2)
                },
                Requests::PhoneGet(get) => {
                    &&& answer.0 matches Responses::PhoneGet(response)
                    &&& response.1 matches Ok(number)
                    &&& number.0@ == old(self)@.phone
                    &&& final(self)@ == old(self)@
                },
                Requests::PhoneSet(set) => {
                    &&& answer.0 matches Responses::PhoneSet(response)
                    &&& response.1 == set.1
                    &&& old(self).may_set(&set.1, final(self), response.2)
                },
                _ => true,
            },
    {
        let response = match request {
            Requests::KeyPadGetCode(get) => Responses::KeyPadGetCode(get.get_response(&*self)),
            Requests::KeyPadSetCode(set) => Responses::KeyPadSetCode(set.get_response(self)),
            Requests::PhoneGet(get) => Responses::PhoneGet(get.get_response(&*self)),
            Requests::PhoneSet(set) => Responses::PhoneSet(set.get_response(self)),
            _ => unreached(),
        };
        (response, Shutdown(false))
    }
}

/// No key stands at two crossings.
proof fn lemma_one_crossing_for_each_key(row: int, col: int, other_row: int, other_col: int)
    requires
        0 <= row < 4,
        0 <= col < 4,
        0 <= other_row < 4,
        0 <= other_col < 4,
        key_at(row, col) == key_at(other_row, other_col),
    ensures
        row == other_row,
        col == other_col,
{
    let layout = seq![
        seq!['1', '2', '3', 'A'],
        seq!['4', '5', '6', 'B'],
        seq!['7', '8', '9', 'C'],
        seq!['*', '0', '#', 'D'],
    ];
    assert(layout[0] == seq!['1', '2', '3', 'A']);
    assert(layout[1] == seq!['4', '5', '6', 'B']);
    assert(layout[2] == seq!['7', '8', '9', 'C']);
    assert(layout[3] == seq!['*', '0', '#', 'D']);
}

proof fn lemma_pressed_among(levels: Seq<Seq<u8>>, count: int, row: int, col: int)
    requires
        0 <= count <= 16,
        0 <= row < 4,
        0 <= col < 4,
    ensures
        pressed_among(levels, count).contains(key_at(row, col)) <==> 4 * row + col < count
            && levels[row][col] == 0,
    decreases count,
{
    if count > 0 {
        let at = count - 1;
        lemma_pressed_among(levels, at, row, col);
        lemma_push_contains(pressed_among(levels, at), key_at(at / 4, at % 4), key_at(row, col));
        if key_at(at / 4, at % 4) == key_at(row, col) {
            lemma_one_crossing_for_each_key(at / 4, at % 4, row, col);
        }
    } else {
        assert(pressed_among(levels, count) =~= Seq::<char>::empty());
    }
}

/// A scan finds a key pressed exactly when the column of its crossing
/// read low while its row was driven low.
pub proof fn lemma_pressed_keys(levels: Seq<Seq<u8>>, row: int, col: int)
    requires
        0 <= row < 4,
        0 <= col < 4,
    ensures
        pressed_keys(levels).contains(key_at(row, col)) <==> levels[row][col] == 0,
{
    lemma_pressed_among(levels, 16, row, col);
}

/// What a sequence holds once a character is appended.
proof fn lemma_push_contains(chars: Seq<char>, last: char, ch: char)
    ensures
        chars.push(last).contains(ch) <==> (chars.contains(ch) || last == ch),
{
    let longer = chars.push(last);
    if chars.contains(ch) {
        let i = choose|i: int| 0 <= i < chars.len() && chars[i] == ch;
        assert(longer[i] == ch);
    }
    if last == ch {
        assert(longer[chars.len() as int] == ch);
    }
    if longer.contains(ch) {
        let j = choose|j: int| 0 <= j < longer.len() && longer[j] == ch;
        if j < chars.len() {
            assert(chars[j] == ch);
        }
    }
}

/// The keys kept of a scan are those of the scan, each once.
pub proof fn lemma_distinct(keys: Seq<char>)
    ensures
        distinct(keys).no_duplicates(),
        forall|ch: char| #[trigger] distinct(keys).contains(ch) <==> keys.contains(ch),
    decreases keys.len(),
{
    if keys.len() > 0 {
        let before = keys.drop_last();
        let last = keys.last();
        let kept = distinct(before);
        lemma_distinct(before);
        assert(before.push(last) =~= keys);
        assert forall|ch: char| #[trigger] distinct(keys).contains(ch) <==> keys.contains(ch) by {
            lemma_push_contains(before, last, ch);
            lemma_push_contains(kept, last, ch);
            assert(kept.contains(ch) <==> before.contains(ch));
        }
        if !kept.contains(last) {
            assert forall|i: int, j: int|
                0 <= i < kept.push(last).len() && 0 <= j < kept.push(last).len() && i
                    != j implies kept.push(last)[i] != kept.push(last)[j] by {
                if i < kept.len() && j == kept.len() {
                    assert(kept.contains(kept[i]));
                }
                if j < kept.len() && i == kept.len() {
                    assert(kept.contains(kept[j]));
                }
            }
        }
    }
}

/// A key is released by a scan exactly when it was held and the scan does
/// not find it pressed.
pub proof fn lemma_released(held: Seq<char>, keys: Seq<char>)
    ensures
        forall|ch: char| #[trigger]
            released(held, keys).contains(ch) <==> held.contains(ch) && !keys.contains(ch),
    decreases held.len(),
{
    if held.len() > 0 {
        let before = held.drop_last();
        let last = held.last();
        let earlier = released(before, keys);
        lemma_released(before, keys);
        assert(before.push(last) =~= held);
        assert forall|ch: char| #[trigger]
            released(held, keys).contains(ch) <==> held.contains(ch) && !keys.contains(ch) by {
            lemma_push_contains(before, last, ch);
            lemma_push_contains(earlier, last, ch);
            assert(earlier.contains(ch) <==> before.contains(ch) && !keys.contains(ch));
        }
    }
}

/// Keys that stay pressed append nothing: when every key held before is
/// still found pressed, a scan leaves the buffer as it was.
pub proof fn lemma_held_keys_append_nothing(view: CandidateView, keys: Seq<char>)
    requires
        view.fits(),
        forall|ch: char| #[trigger] view.held.contains(ch) ==> keys.contains(ch),
    ensures
        view.scanned(keys).buffer == view.buffer,
{
    lemma_released(view.held, keys);
    let gone = released(view.held, keys);
    if gone.len() > 0 {
        let ch = gone[0];
        assert(gone.contains(ch));
        assert(view.held.contains(ch) && !keys.contains(ch));
    }
    assert(view.buffer + gone =~= view.buffer);
}

/// The candidates of a buffer, each with its ending key, and then the
/// residue make up the buffer. No ending key stands in a candidate or in
/// the residue.
pub proof fn lemma_candidates_partition(buffer: Seq<char>)
    ensures
        terminated(candidates(buffer)) + residue(buffer) == buffer,
        !residue(buffer).contains(ENDING_KEY),
        forall|i: int|
            0 <= i < candidates(buffer).len() ==> !(#[trigger] candidates(buffer)[i]).contains(
                ENDING_KEY,
            ),
    decreases buffer.len(),
{
    if buffer.len() > 0 {
        let before = buffer.drop_last();
        lemma_candidates_partition(before);
        if buffer.last() == ENDING_KEY {
            assert(candidates(buffer).drop_last() =~= candidates(before));
            assert(terminated(candidates(buffer)) + residue(buffer) =~= (terminated(
                candidates(before),
            ) + residue(before)).push(ENDING_KEY));
            assert(before.push(ENDING_KEY) =~= buffer);
        } else {
            assert(terminated(candidates(buffer)) + residue(buffer) =~= (terminated(
                candidates(before),
            ) + residue(before)).push(buffer.last()));
            assert(before.push(buffer.last()) =~= buffer);
            let rest = residue(before);
            assert forall|k: int| 0 <= k < residue(buffer).len() implies residue(buffer)[k]
                != ENDING_KEY by {
                if k < rest.len() {
                    assert(rest.contains(rest[k]));
                }
            }
        }
    } else {
        assert(terminated(candidates(buffer)) + residue(buffer) =~= buffer);
    }
}

/// Parsing twice finds nothing new: what is left after the candidates
/// were taken out holds no candidate and stays as it is.
pub proof fn lemma_parsing_is_idempotent(buffer: Seq<char>)
    ensures
        candidates(residue(buffer)) == Seq::<Seq<char>>::empty(),
        residue(residue(buffer)) == residue(buffer),
{
    lemma_candidates_partition(buffer);
    lemma_no_ending_key(residue(buffer));
}

proof fn lemma_no_ending_key(text: Seq<char>)
    requires
        !text.contains(ENDING_KEY),
    ensures
        candidates(text) == Seq::<Seq<char>>::empty(),
        residue(text) == text,
    decreases text.len(),
{
    if text.len() > 0 {
        let before = text.drop_last();
        assert(text.contains(text.last()));
        assert forall|k: int| 0 <= k < before.len() implies before[k] != ENDING_KEY by {
            assert(text.contains(text[k]));
        }
        lemma_no_ending_key(before);
        assert(before.push(text.last()) =~= text);
    } else {
        assert(residue(text) =~= text);
    }
}

/// Candidates that arrive one after the other come out in that order: a
/// buffer that ends with an ending key, followed by more input, holds its
/// own candidates and then those of the input.
pub proof fn lemma_candidates_in_order(first: Seq<char>, second: Seq<char>)
    requires
        first.len() > 0,
        first.last() == ENDING_KEY,
    ensures
        candidates(first + second) == candidates(first) + candidates(second),
        residue(first + second) == residue(second),
    decreases second.len(),
{
    if second.len() == 0 {
        assert(first + second =~= first);
        assert(candidates(first) + candidates(second) =~= candidates(first));
    } else {
        let before = second.drop_last();
        lemma_candidates_in_order(first, before);
        assert((first + second).drop_last() =~= first + before);
        if second.last() == ENDING_KEY {
            assert(candidates(first + second) =~= candidates(first) + candidates(second));
        }
    }
}

/// The ring throttle: once a tick has notified a ring, a later tick that
/// finds the ring sequence notifies again exactly when the ring timer has
/// run out since.
pub proof fn lemma_ring_throttle(pad: KeyPadView, keys: Seq<char>, tick: u64, more: Seq<char>)
    requires
        pad.rings(keys),
    ensures
        ({
            let next = pad.stepped(keys).advanced(tick);
            next.scanned(more).verdict() == CodeType::Ring ==> (next.rings(more) <==> elapsed(
                next.now,
                pad.now,
            ) >= RING_TIMER)
        }),
{
}

/// A code entered after an ending key, or into an empty buffer, and
/// closed by an ending key is the last candidate: the verdict is that the
/// code was entered.
pub proof fn lemma_entered_code_is_recognised(pad: KeyPadView, before: Seq<char>)
    requires
        !pad.code.contains(ENDING_KEY),
        before.len() == 0 || before.last() == ENDING_KEY,
        pad.keys.buffer == before + pad.code.push(ENDING_KEY),
    ensures
        pad.verdict() == CodeType::Code,
        pad.checked().keys.buffer == Seq::<char>::empty(),
{
    let entered = before + pad.code;
    assert(pad.keys.buffer.drop_last() =~= entered);
    lemma_residue_of_tail(before, pad.code);
    assert(residue(before) + pad.code =~= pad.code);
}

/// What follows the last ending key when the input ends with a run that
/// holds none: that run, after what was left before it.
proof fn lemma_residue_of_tail(before: Seq<char>, run: Seq<char>)
    requires
        !run.contains(ENDING_KEY),
    ensures
        residue(before + run) == residue(before) + run,
    decreases run.len(),
{
    if run.len() == 0 {
        assert(before + run =~= before);
        assert(residue(before) + run =~= residue(before));
    } else {
        let shorter = run.drop_last();
        assert(run.contains(run.last()));
        assert forall|k: int| 0 <= k < shorter.len() implies shorter[k] != ENDING_KEY by {
            assert(run.contains(run[k]));
        }
        lemma_residue_of_tail(before, shorter);
        assert((before + run).drop_last() =~= before + shorter);
        assert(residue(before) + run =~= (residue(before) + shorter).push(run.last()));
    }
}

/// A text with a character that is neither a digit nor a letter from A to
/// D is no code.
pub proof fn lemma_code_alphabet(text: Seq<char>, at: int)
    requires
        0 <= at < text.len(),
        !valid_char(text[at]),
    ensures
        !valid_code(text),
{
}

} // verus!
