//! The ways in which reading or writing a container can fail, and how each
//! is put into words.

use vstd::prelude::*;
use vstd::string::StringExecFns;

verus! {

/// `std::io::Error`, the platform's account of a failed read or write. It
/// is carried through as it came: nothing is claimed of what it holds.
#[verifier::external_type_specification]
#[verifier::external_body]
pub struct ExIoError(std::io::Error);

/// Why a container could not be read or written.
#[derive(Debug)]
pub enum WavError {
    /// The underlying storage failed; the platform's error is kept as it came.
    Io(std::io::Error),
    /// A literal of the header ("RIFF", "WAVE") is not where it must be, or
    /// the format chunk is shorter than its fixed fields.
    BadHeader(&'static str),
    /// The scan came to its end without the named chunk.
    MissingChunk(&'static str),
    /// The buffer ends before a field or a payload that a chunk declares.
    Truncated,
    /// The structure is wrong: a chunk occurs twice, a size does not fit its
    /// field, or the samples do not divide into frames.
    Invalid(&'static str),
    /// The container is well formed but holds something other than 16-bit
    /// linear PCM. The offending values are carried along.
    UnsupportedFormat { audio_format: u16, bits_per_sample: u16, channels: u16 },
}

impl From<std::io::Error> for WavError {
    fn from(e: std::io::Error) -> (r: WavError) {
        WavError::Io(e)
    }
}

impl vstd::std_specs::convert::FromSpecImpl<std::io::Error> for WavError {
    open spec fn obeys_from_spec() -> bool {
        true
    }

    open spec fn from_spec(e: std::io::Error) -> WavError {
        WavError::Io(e)
    }
}

/// The character of the decimal digit `d`.
pub open spec fn digit_char(d: nat) -> char {
    ((0x30 + d) as u8) as char
}

/// The decimal numeral of `n`, without leading zeros.
pub open spec fn decimal_digits(n: nat) -> Seq<char>
    decreases n,
{
    if n < 10 {
        seq![digit_char(n)]
    } else {
        decimal_digits(n / 10).push(digit_char(n % 10))
    }
}

/// What every message for an `Io` error starts with; the platform's own
/// words follow.
pub open spec fn io_prefix() -> Seq<char> {
    "I/O error: "@
}

/// The message for an error other than `Io`.
pub open spec fn message_of(e: WavError) -> Seq<char> {
    match e {
        WavError::Io(_) => io_prefix(),
        WavError::BadHeader(msg) => "bad WAV header: "@ + msg@,
        WavError::MissingChunk(id) => "missing required chunk: "@ + id@,
        WavError::Truncated => "file is truncated"@,
        WavError::Invalid(msg) => "invalid WAV: "@ + msg@,
        WavError::UnsupportedFormat { audio_format, bits_per_sample, channels } => {
            "unsupported WAV format: audio_format="@ + decimal_digits(audio_format as nat)
                + ", bits_per_sample="@ + decimal_digits(bits_per_sample as nat) + ", channels="@
                + decimal_digits(channels as nat)
        },
    }
}

/// One decimal digit as a string.
fn digit_str(d: u16) -> (s: &'static str)
    requires
        d < 10,
    ensures
        s@ == seq![digit_char(d as nat)],
{
    proof {
        reveal_strlit("0");
        reveal_strlit("1");
        reveal_strlit("2");
        reveal_strlit("3");
        reveal_strlit("4");
        reveal_strlit("5");
        reveal_strlit("6");
        reveal_strlit("7");
        reveal_strlit("8");
        reveal_strlit("9");
    }
    let s: &'static str = match d {
        0 => "0",
        1 => "1",
        2 => "2",
        3 => "3",
        4 => "4",
        5 => "5",
        6 => "6",
        7 => "7",
        8 => "8",
        _ => "9",
    };
    assert(s@ =~= seq![digit_char(d as nat)]);
    s
}

/// The decimal numeral of `n`.
fn decimal(n: u16) -> (s: String)
    ensures
        s@ == decimal_digits(n as nat),
    decreases n,
{
    if n < 10 {
        String::from_str(digit_str(n))
    } else {
        let mut s: String = decimal(n / 10);
        s.append(digit_str(n % 10));
        assert(s@ =~= decimal_digits(n as nat / 10).push(digit_char(n as nat % 10)));
        s
    }
}

impl WavError {
    /// The error in words, for a person to read.
    ///
    /// For an `Io` error the message starts with `"I/O error: "` and goes on
    /// with what the platform says of it. For every other error it is
    /// exactly [`message_of`]: a fixed phrase for the kind, followed by the
    /// detail that the error carries, numbers in decimal.
    pub fn message(&self) -> (s: String)
        ensures
            self is Io ==> io_prefix().is_prefix_of(s@),
            !(self is Io) ==> s@ == message_of(*self),
    {
        match self {
            WavError::Io(e) => {
                let mut s: String = String::from_str("I/O error: ");
                let text: String = e.to_string();
                s.append(text.as_str());
                s
            },
            WavError::BadHeader(msg) => {
                let mut s: String = String::from_str("bad WAV header: ");
                s.append(msg);
                s
            },
            WavError::MissingChunk(id) => {
                let mut s: String = String::from_str("missing required chunk: ");
                s.append(id);
                s
            },
            WavError::Truncated => String::from_str("file is truncated"),
            WavError::Invalid(msg) => {
                let mut s: String = String::from_str("invalid WAV: ");
                s.append(msg);
                s
            },
            WavError::UnsupportedFormat { audio_format, bits_per_sample, channels } => {
                let mut s: String = String::from_str("unsupported WAV format: audio_format=");
                s.append(decimal(*audio_format).as_str());
                s.append(", bits_per_sample=");
                s.append(decimal(*bits_per_sample).as_str());
                s.append(", channels=");
                s.append(decimal(*channels).as_str());
                s
            },
        }
    }
}

} // verus!
