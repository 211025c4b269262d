//! The errors that reading a pattern can end in, and the words for them.

use crate::text::{as_chars, decimal, hex_digit, push_char, push_decimal, push_hex_digit};
use vstd::prelude::*;
use vstd::string::StringExecFns;

verus! {

/// The kinds of fault that a pattern file can have.
#[derive(Clone, Copy, Debug, PartialEq, Eq, Structural)]
pub enum ParseErrorType {
    /// A newline was expected, but another character was found.
    ExpectedNewline,
    /// The parsed height is not between -50 and 50.
    InvalidHeightValue,
    /// There are two negative signs in the parsed height.
    DuplicateNegative,
    /// A number in parentheses starts with a zero.
    LeadingZero,
    /// An unexpected character was found while parsing a height.
    InvalidHeightChar,
    /// An invalid prefab byte was found while parsing prefabs.
    InvalidPrefab,
}

/// Error type which is returned when trying to parse invalid data.
/// `line` and `column` count from 1; `char` is the byte that was found there.
#[derive(Clone, Copy, Debug, PartialEq, Eq, Structural)]
pub struct ParseError {
    pub line: u32,
    pub column: u32,
    pub kind: ParseErrorType,
    pub char: u8,
}

/// `std::io::Error`, the failure of an operation on a file. Nothing is
/// stated of what such a value holds: it is only handed on.
#[verifier::external_type_specification]
#[verifier::external_body]
pub struct ExIoError(std::io::Error);

/// Error type for reading a pattern from a file: either the file could
/// not be read, or what was read is no pattern.
#[derive(Debug)]
pub enum IoError {
    Io(std::io::Error),
    Parse(ParseError),
}

/// Whether a byte is shown as the character it is the code of: those from
/// 32 to 126 and from 161 on are.
pub open spec fn is_shown_as_char(byte: u8) -> bool {
    32 <= byte <= 126 || 161 <= byte
}

/// How a byte is shown in a message: as its character between double
/// quotes, or as `0x` and its two digits of base sixteen.
pub open spec fn shown_byte(byte: u8) -> Seq<char> {
    if is_shown_as_char(byte) {
        seq!['"', byte as char, '"']
    } else {
        "0x"@ + seq![hex_digit(byte as int / 16), hex_digit(byte as int % 16)]
    }
}

impl ParseErrorType {
    /// The words for a kind of fault, as they stand in a message.
    pub open spec fn spec_description(self) -> Seq<char> {
        match self {
            ParseErrorType::ExpectedNewline => "Expected newline but got"@,
            ParseErrorType::InvalidHeightChar => "Invalid height char"@,
            ParseErrorType::InvalidHeightValue => "Extreme height value:"@,
            ParseErrorType::LeadingZero => "Leading zero in parentheses"@,
            ParseErrorType::InvalidPrefab => "Invalid prefab character"@,
            ParseErrorType::DuplicateNegative => "Duplicate negative symbol"@,
        }
    }

    /// The words for this kind of fault, as they stand in a message.
    pub fn description(&self) -> (words: &'static str)
        ensures
            words@ == self.spec_description(),
    {
        match self {
            ParseErrorType::ExpectedNewline => "Expected newline but got",
            ParseErrorType::InvalidHeightChar => "Invalid height char",
            ParseErrorType::InvalidHeightValue => "Extreme height value:",
            ParseErrorType::LeadingZero => "Leading zero in parentheses",
            ParseErrorType::InvalidPrefab => "Invalid prefab character",
            ParseErrorType::DuplicateNegative => "Duplicate negative symbol",
        }
    }
}

impl ParseError {
    /// The message for this error: the line and the column, the words for
    /// the kind of fault, and the byte that was found.
    pub open spec fn spec_message(self) -> Seq<char> {
        "Error parsing line "@ + as_chars(decimal(self.line as nat)) + ", column "@ + as_chars(
            decimal(self.column as nat),
        ) + ": "@ + self.kind.spec_description() + " "@ + shown_byte(self.char)
    }

    /// The message for this error, such as
    /// `Error parsing line 1, column 3: Invalid prefab character "g"`.
    /// A byte that has no character to show it is given as in `0x0b`.
    pub fn message(&self) -> (text: String)
        ensures
            text@ == self.spec_message(),
    {
        let mut text = String::from_str("Error parsing line ");
        push_decimal(&mut text, self.line);
        text.append(", column ");
        push_decimal(&mut text, self.column);
        text.append(": ");
        text.append(self.kind.description());
        text.append(" ");
        let ghost before = text@;
        if (32 <= self.char && self.char <= 126) || 161 <= self.char {
            push_char(&mut text, '"');
            push_char(&mut text, self.char as char);
            push_char(&mut text, '"');
        } else {
            text.append("0x");
            push_hex_digit(&mut text, self.char / 16);
            push_hex_digit(&mut text, self.char % 16);
        }
        assert(text@ =~= before + shown_byte(self.char));
        text
    }
}

} // verus!
