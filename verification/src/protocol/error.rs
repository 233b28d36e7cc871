//! Errors that decoding a framed packet can report, and their text.
use vstd::prelude::*;
use vstd::string::StringExecFns;

verus! {

/// Protocol decoding errors.
#[derive(Debug, Clone, PartialEq, Eq)]
#[non_exhaustive]
pub enum ProtocolError {
    PacketTooShort { expected: usize, got: usize },
    UnknownPacketId(u8),
    InvalidUtf8,
    IncompletePayload { expected: usize, got: usize },
}

/// The character of a digit, for digits up to fifteen (`a` to `f` above
/// nine).
pub open spec fn digit_char(d: nat) -> char {
    if d == 0 {
        '0'
    } else if d == 1 {
        '1'
    } else if d == 2 {
        '2'
    } else if d == 3 {
        '3'
    } else if d == 4 {
        '4'
    } else if d == 5 {
        '5'
    } else if d == 6 {
        '6'
    } else if d == 7 {
        '7'
    } else if d == 8 {
        '8'
    } else if d == 9 {
        '9'
    } else if d == 10 {
        'a'
    } else if d == 11 {
        'b'
    } else if d == 12 {
        'c'
    } else if d == 13 {
        'd'
    } else if d == 14 {
        'e'
    } else {
        'f'
    }
}

/// A number in decimal, without leading zeros.
pub open spec fn decimal(n: nat) -> Seq<char>
    decreases n,
{
    if n < 10 {
        seq![digit_char(n)]
    } else {
        decimal(n / 10).push(digit_char(n % 10))
    }
}

/// A byte as two lowercase hexadecimal digits.
pub open spec fn hex2(b: u8) -> Seq<char> {
    seq![digit_char(b as nat / 16), digit_char(b as nat % 16)]
}

/// The text of an error.
pub open spec fn error_text(e: ProtocolError) -> Seq<char> {
    match e {
        ProtocolError::PacketTooShort { expected, got } => "packet too short: expected at least "@
            + decimal(expected as nat) + " bytes, got "@ + decimal(got as nat),
        ProtocolError::UnknownPacketId(id) => "unknown packet id: 0x"@ + hex2(id),
        ProtocolError::InvalidUtf8 => "invalid UTF-8 encoding"@,
        ProtocolError::IncompletePayload { expected, got } => "incomplete payload: expected "@
            + decimal(expected as nat) + " bytes, got "@ + decimal(got as nat),
    }
}

/// The one-character text of a digit up to fifteen.
fn digit_str(d: usize) -> (s: &'static str)
    requires
        d < 16,
    ensures
        s@ == seq![digit_char(d as nat)],
{
    proof {
        reveal_strlit("0");
        reveal_strlit("1");
        reveal_strlit("2");
        reveal_strlit("3");
        reveal_strlit("4");
        reveal_strlit("5");
        reveal_strlit("6");
        reveal_strlit("7");
        reveal_strlit("8");
        reveal_strlit("9");
        reveal_strlit("a");
        reveal_strlit("b");
        reveal_strlit("c");
        reveal_strlit("d");
        reveal_strlit("e");
        reveal_strlit("f");
    }
    if d == 0 {
        "0"
    } else if d == 1 {
        "1"
    } else if d == 2 {
        "2"
    } else if d == 3 {
        "3"
    } else if d == 4 {
        "4"
    } else if d == 5 {
        "5"
    } else if d == 6 {
        "6"
    } else if d == 7 {
        "7"
    } else if d == 8 {
        "8"
    } else if d == 9 {
        "9"
    } else if d == 10 {
        "a"
    } else if d == 11 {
        "b"
    } else if d == 12 {
        "c"
    } else if d == 13 {
        "d"
    } else if d == 14 {
        "e"
    } else {
        "f"
    }
}

/// A number in decimal.
pub fn decimal_text(n: usize) -> (s: String)
    ensures
        s@ == decimal(n as nat),
    decreases n,
{
    if n < 10 {
        digit_str(n).to_owned()
    } else {
        decimal_text(n / 10).concat(digit_str(n % 10))
    }
}

/// A byte as two lowercase hexadecimal digits.
pub fn hex_text(b: u8) -> (s: String)
    ensures
        s@ == hex2(b),
{
    let high = digit_str((b / 16) as usize);
    let low = digit_str((b % 16) as usize);
    high.to_owned().concat(low)
}

impl ProtocolError {
    /// The error's text.
    pub fn message(&self) -> (text: String)
        ensures
            text@ == error_text(*self),
    {
        match self {
            ProtocolError::PacketTooShort { expected, got } => {
                proof {
                    reveal_strlit("packet too short: expected at least ");
                    reveal_strlit(" bytes, got ");
                }
                "packet too short: expected at least ".to_owned().concat(
                    decimal_text(*expected).as_str(),
                ).concat(" bytes, got ").concat(decimal_text(*got).as_str())
            },
            ProtocolError::UnknownPacketId(id) => {
                proof {
                    reveal_strlit("unknown packet id: 0x");
                }
                "unknown packet id: 0x".to_owned().concat(hex_text(*id).as_str())
            },
            ProtocolError::InvalidUtf8 => "invalid UTF-8 encoding".to_owned(),
            ProtocolError::IncompletePayload { expected, got } => {
                proof {
                    reveal_strlit("incomplete payload: expected ");
                    reveal_strlit(" bytes, got ");
                }
                "incomplete payload: expected ".to_owned().concat(
                    decimal_text(*expected).as_str(),
                ).concat(" bytes, got ").concat(decimal_text(*got).as_str())
            },
        }
    }
}

} // verus!
