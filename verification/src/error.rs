//! The error type of the conversion pipeline.

use vstd::prelude::*;

verus! {

/// `std::io::Error` appears in [`Error::Io`]; its contents are opaque here.
#[verifier::external_type_specification]
#[verifier::external_body]
pub struct ExIoError(std::io::Error);

/// All errors that a conversion can end with.
///
/// Match it with a wildcard arm: new variants may be added.
#[non_exhaustive]
#[derive(Debug)]
pub enum Error {
    /// The input bytes could not be decoded as a recognised image format
    /// (this includes input over the configured byte limit).
    Decode(String),
    /// AVIF encoding failed, or the encoder's output failed the structural check.
    Encode(String),
    /// The image dimensions exceed the configured pixel limit.
    InputTooLarge {
        /// Image width in pixels.
        width: u32,
        /// Image height in pixels.
        height: u32,
        /// The configured pixel limit.
        max_pixels: u64,
    },
    /// The growth of the resident set size reached the configured budget.
    MemoryExceeded {
        /// Observed growth in MiB (rounded down) when the limit was reached.
        used_mb: u64,
        /// Configured limit in MiB (rounded down).
        limit_mb: u64,
    },
    /// An I/O error occurred.
    Io(std::io::Error),
    /// The format is recognised but not handled by this build, or metadata
    /// cannot be stripped from it.
    UnsupportedFormat(String),
    /// An unexpected internal error occurred.
    Internal(String),
}

/// What an [`Error`] is, without its message text: the part of an error
/// that the contracts of this crate speak of.
#[derive(Debug, Clone, Copy, PartialEq, Eq, Structural)]
pub enum ErrorKind {
    /// See [`Error::Decode`].
    Decode,
    /// See [`Error::Encode`].
    Encode,
    /// See [`Error::InputTooLarge`].
    InputTooLarge { width: u32, height: u32, max_pixels: u64 },
    /// See [`Error::MemoryExceeded`].
    MemoryExceeded { used_mb: u64, limit_mb: u64 },
    /// See [`Error::Io`].
    Io,
    /// See [`Error::UnsupportedFormat`].
    UnsupportedFormat,
    /// See [`Error::Internal`].
    Internal,
}

impl Error {
    /// The kind of this error.
    pub open spec fn kind(&self) -> ErrorKind {
        match self {
            Error::Decode(_) => ErrorKind::Decode,
            Error::Encode(_) => ErrorKind::Encode,
            Error::InputTooLarge { width, height, max_pixels } => ErrorKind::InputTooLarge {
                width: *width,
                height: *height,
                max_pixels: *max_pixels,
            },
            Error::MemoryExceeded { used_mb, limit_mb } => ErrorKind::MemoryExceeded {
                used_mb: *used_mb,
                limit_mb: *limit_mb,
            },
            Error::Io(_) => ErrorKind::Io,
            Error::UnsupportedFormat(_) => ErrorKind::UnsupportedFormat,
            Error::Internal(_) => ErrorKind::Internal,
        }
    }
}

/// The text of the message an error carries; empty for the variants that
/// carry fields rather than a message.
pub open spec fn message_text(e: &Error) -> Seq<char> {
    match e {
        Error::Decode(m) => m@,
        Error::Encode(m) => m@,
        Error::UnsupportedFormat(m) => m@,
        Error::Internal(m) => m@,
        _ => Seq::empty(),
    }
}

/// The decimal digit `d` as a character.
pub open spec fn digit_char(d: nat) -> char {
    (48 + d) as char
}

/// `n` written in decimal, as `format!("{}", n)` writes an integer.
pub open spec fn decimal_text(n: nat) -> Seq<char>
    decreases n,
{
    if n < 10 {
        seq![digit_char(n)]
    } else {
        decimal_text(n / 10) + seq![digit_char(n % 10)]
    }
}

/// The lowercase hexadecimal digit `d` as a character.
pub open spec fn hex_digit_char(d: nat) -> char {
    if d < 10 {
        (48 + d) as char
    } else {
        (87 + d) as char
    }
}

/// The byte `b` as two lowercase hexadecimal digits.
pub open spec fn hex_byte_text(b: u8) -> Seq<char> {
    seq![hex_digit_char((b / 16) as nat), hex_digit_char((b % 16) as nat)]
}

/// The bytes `s` as two-digit hexadecimal numbers separated by `, `.
pub open spec fn hex_items_text(s: Seq<u8>) -> Seq<char>
    decreases s.len(),
{
    if s.len() == 0 {
        Seq::empty()
    } else if s.len() == 1 {
        hex_byte_text(s[0])
    } else {
        hex_items_text(s.drop_last()) + seq![',', ' '] + hex_byte_text(s.last())
    }
}

/// A byte slice as `format!("{:02x?}", s)` writes it: `[` the bytes as
/// two-digit lowercase hexadecimal numbers separated by `, ` `]`.
pub open spec fn hex_list_text(s: Seq<u8>) -> Seq<char> {
    seq!['['] + hex_items_text(s) + seq![']']
}

} // verus!
