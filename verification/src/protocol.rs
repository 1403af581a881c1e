use vstd::prelude::*;

verus! {

/// Prefix byte of a RESP simple string reply, `+`.
pub const SIMPLE_STRING_PREFIX: u8 = 43;

/// Prefix byte of a RESP bulk string, `$`.
pub const BULK_STRING_PREFIX: u8 = 36;

/// Prefix byte of a RESP error reply, `-`.
pub const ERROR_PREFIX: u8 = 45;

/// Prefix byte of a RESP array, `*`.
pub const ARRAY_PREFIX: u8 = 42;

/// Carriage return, the first byte of the line terminator.
pub const CR: u8 = 13;

/// Line feed, the second byte of the line terminator.
pub const LF: u8 = 10;

/// The line terminator as text, for the character-level wire specification.
pub open spec fn crlf_chars() -> Seq<char> {
    seq!['\r', '\n']
}

} // verus!
