//! Building strings one character at a time.

use vstd::prelude::*;
use vstd::std_specs::iter::IteratorSpec;

verus! {

/// `String::push` appends the character to the end of the string.
pub assume_specification[ String::push ](text: &mut String, ch: char)
    ensures
        final(text)@ == old(text)@.push(ch),
;

/// The characters of a string slice, in order.
pub fn chars_of(text: &str) -> (chars: Vec<char>)
    ensures
        chars@ == text@,
{
    let mut chars: Vec<char> = Vec::new();
    let mut rest = text.chars();
    loop
        invariant
            rest.obeys_prophetic_iter_laws(),
            rest.decrease() is Some,
            chars@ + rest.remaining() == text@,
        decreases rest.decrease()->0,
    {
        match rest.next() {
            Some(ch) => {
                chars.push(ch);
                assert(chars@ + rest.remaining() =~= text@);
            },
            None => {
                assert(chars@ =~= text@);
                return chars;
            },
        }
    }
}

/// The string made of the given characters, in order.
pub fn string_of(chars: &[char]) -> (text: String)
    ensures
        text@ == chars@,
{
    let mut text = String::new();
    let n: usize = chars.len();
    let mut i: usize = 0;
    while i < n
        invariant
            n == chars@.len(),
            0 <= i <= n,
            text@ == chars@.subrange(0, i as int),
        decreases n - i,
    {
        text.push(chars[i]);
        i = i + 1;
        assert(text@ =~= chars@.subrange(0, i as int));
    }
    assert(chars@.subrange(0, n as int) =~= chars@);
    text
}

/// The parts, with a comma and a space between neighbours.
pub open spec fn joined(parts: Seq<Seq<char>>) -> Seq<char>
    decreases parts.len(),
{
    if parts.len() == 0 {
        Seq::empty()
    } else if parts.len() == 1 {
        parts[0]
    } else {
        joined(parts.drop_last()) + seq![',', ' '] + parts.last()
    }
}

/// The parts as a list: joined, between square brackets.
pub open spec fn bracketed(parts: Seq<Seq<char>>) -> Seq<char> {
    seq!['['] + joined(parts) + seq![']']
}

/// The lower-case hexadecimal digit for a value below sixteen.
pub open spec fn hex_digit(value: int) -> char {
    seq!['0', '1', '2', '3', '4', '5', '6', '7', '8', '9', 'a', 'b', 'c', 'd', 'e', 'f'][value]
}

/// A byte in lower-case hexadecimal, without leading zero.
pub open spec fn hex_byte(byte: u8) -> Seq<char> {
    if byte < 16 {
        seq![hex_digit(byte as int)]
    } else {
        seq![hex_digit(byte as int / 16), hex_digit(byte as int % 16)]
    }
}

/// A byte string as a list of hexadecimal numbers.
pub open spec fn hex_list(bytes: Seq<u8>) -> Seq<char> {
    bracketed(bytes.map_values(|byte: u8| hex_byte(byte)))
}

fn hex_digit_of(value: u8) -> (digit: char)
    requires
        value < 16,
    ensures
        digit == hex_digit(value as int),
{
    match value {
        0 => '0',
        1 => '1',
        2 => '2',
        3 => '3',
        4 => '4',
        5 => '5',
        6 => '6',
        7 => '7',
        8 => '8',
        9 => '9',
        10 => 'a',
        11 => 'b',
        12 => 'c',
        13 => 'd',
        14 => 'e',
        _ => 'f',
    }
}

/// Appends a byte in lower-case hexadecimal.
pub fn push_hex_byte(out: &mut String, byte: u8)
    ensures
        final(out)@ == old(out)@ + hex_byte(byte),
{
    if byte >= 16 {
        out.push(hex_digit_of(byte / 16));
    }
    out.push(hex_digit_of(byte % 16));
    assert(out@ =~= old(out)@ + hex_byte(byte));
}

/// Appends a byte string as a list of hexadecimal numbers.
pub fn push_hex_list(out: &mut String, bytes: &[u8])
    ensures
        final(out)@ == old(out)@ + hex_list(bytes@),
{
    let ghost parts = bytes@.map_values(|byte: u8| hex_byte(byte));
    out.push('[');
    let n: usize = bytes.len();
    let mut i: usize = 0;
    while i < n
        invariant
            n == bytes@.len(),
            0 <= i <= n,
            parts == bytes@.map_values(|byte: u8| hex_byte(byte)),
            out@ == old(out)@ + seq!['['] + joined(parts.subrange(0, i as int)),
        decreases n - i,
    {
        if i > 0 {
            out.push(',');
            out.push(' ');
        }
        push_hex_byte(out, bytes[i]);
        proof {
            let before = parts.subrange(0, i as int);
            let after = parts.subrange(0, i + 1);
            assert(after.drop_last() =~= before);
            assert(after.last() == hex_byte(bytes@[i as int]));
            assert(out@ =~= old(out)@ + seq!['['] + joined(after));
        }
        i = i + 1;
    }
    out.push(']');
    proof {
        assert(parts.subrange(0, n as int) =~= parts);
        assert(out@ =~= old(out)@ + hex_list(bytes@));
    }
}

} // verus!
