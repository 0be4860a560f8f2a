use vstd::prelude::*;
use vstd::string::StringExecFns;

verus! {

/// Why a byte fed to the parser ended its frame without a message.
#[derive(Clone, Copy, Debug, PartialEq, Eq, Structural)]
pub enum ParseError {
    /// The frame grew past the receive buffer's capacity.
    SizeOverrun,
    /// A complete frame whose trailer (found) differs from the checksum of
    /// its bytes (expected); each packed as `low + high * 256`.
    ChecksumError(u16, u16),
    /// A checksummed frame whose id is not in the catalog.
    UnknownPacketId(u8),
    /// A payload too short for the fields of its message kind.
    DeserializationError,
}

/// The lowercase hexadecimal digit of `d`, below 16.
pub open spec fn hex_digit(d: int) -> Seq<char> {
    if d == 0 { "0"@ } else if d == 1 { "1"@ } else if d == 2 { "2"@ } else if d == 3 { "3"@ }
    else if d == 4 { "4"@ } else if d == 5 { "5"@ } else if d == 6 { "6"@ } else if d == 7 { "7"@ }
    else if d == 8 { "8"@ } else if d == 9 { "9"@ } else if d == 10 { "a"@ } else if d == 11 { "b"@ }
    else if d == 12 { "c"@ } else if d == 13 { "d"@ } else if d == 14 { "e"@ } else { "f"@ }
}

/// `n` in lowercase hexadecimal, without leading zeros.
pub open spec fn hex_text(n: nat) -> Seq<char>
    decreases n,
{
    if n < 16 {
        hex_digit(n as int)
    } else {
        hex_text(n / 16) + hex_digit((n % 16) as int)
    }
}

/// The text that describes an error.
pub open spec fn description(e: ParseError) -> Seq<char> {
    match e {
        ParseError::SizeOverrun => "Tried to parse packet longer than max length"@,
        ParseError::ChecksumError(found, exp) => "Mismatched checksum. Found "@ + hex_text(
            found as nat,
        ) + ", expected "@ + hex_text(exp as nat),
        ParseError::UnknownPacketId(id) => "Found unrecognized packet id 0x"@ + hex_text(id as nat),
        ParseError::DeserializationError => "Failed parsing payload into packet struct"@,
    }
}

fn hex_digit_str(d: u16) -> (r: &'static str)
    requires
        d < 16,
    ensures
        r@ == hex_digit(d as int),
{
    if d == 0 { "0" } else if d == 1 { "1" } else if d == 2 { "2" } else if d == 3 { "3" }
    else if d == 4 { "4" } else if d == 5 { "5" } else if d == 6 { "6" } else if d == 7 { "7" }
    else if d == 8 { "8" } else if d == 9 { "9" } else if d == 10 { "a" } else if d == 11 { "b" }
    else if d == 12 { "c" } else if d == 13 { "d" } else if d == 14 { "e" } else { "f" }
}

fn append_hex(s: &mut String, n: u16)
    ensures
        final(s)@ == old(s)@ + hex_text(n as nat),
    decreases n,
{
    if n >= 16 {
        append_hex(s, n / 16);
    }
    s.append(hex_digit_str(n % 16));
}

impl ParseError {
    /// A sentence that says what went wrong.
    pub fn describe(&self) -> (r: String)
        ensures
            r@ == description(*self),
    {
        match self {
            ParseError::SizeOverrun => String::from_str("Tried to parse packet longer than max length"),
            ParseError::ChecksumError(found, exp) => {
                let mut s = String::from_str("Mismatched checksum. Found ");
                append_hex(&mut s, *found);
                s.append(", expected ");
                append_hex(&mut s, *exp);
                s
            },
            ParseError::UnknownPacketId(id) => {
                let mut s = String::from_str("Found unrecognized packet id 0x");
                append_hex(&mut s, *id as u16);
                s
            },
            ParseError::DeserializationError => String::from_str(
                "Failed parsing payload into packet struct",
            ),
        }
    }
}

} // verus!
