//! The error type every part of the library returns, and how it reads.

use vstd::prelude::*;
use crate::format::{Format, spec_display_name};
use crate::text::{push_decimal, push_str, decimal};

verus! {

/// Everything the library can fail with.
#[derive(Debug, Clone)]
#[non_exhaustive]
pub enum Error {
    /// No decoder recognised the input.
    UnknownFormat,
    /// The input was recognised but nothing can decode it here.
    DecoderUnavailable {
        /// Detected input format.
        format: Format,
        /// Cargo features that would provide a decoder.
        available_in: &'static [&'static str],
        /// Why the compiled-in decoders cannot run; `None` when none is
        /// compiled in.
        reason: Option<String>,
    },
    /// The requested output format has no encoder in this build.
    EncoderUnavailable {
        /// Requested format.
        format: Format,
        /// Cargo features that would provide it.
        available_in: &'static [&'static str],
    },
    /// The image exceeds the configured pixel limit.
    TooLarge {
        /// Pixel count of the input.
        pixels: u64,
        /// Configured limit.
        limit: u64,
    },
    /// An image or buffer that does not describe a valid picture.
    InvalidInput(String),
    /// Parameters that cannot be honoured as given.
    InvalidParams(String),
    /// The encoder exists but cannot do what was asked of it.
    Unsupported {
        /// Encoder format.
        format: Format,
        /// What was asked for.
        what: String,
    },
    /// A backend failed; the string is the backend's own message.
    Codec(String),
}

/// The names of a list, separated by a comma and a space.
pub open spec fn joined(items: Seq<&'static str>) -> Seq<char>
    decreases items.len(),
{
    if items.len() == 0 {
        Seq::empty()
    } else if items.len() == 1 {
        items[0]@
    } else {
        joined(items.drop_last()) + ", "@ + items.last()@
    }
}

/// How an error reads in a message.
pub open spec fn spec_message(e: Error) -> Seq<char> {
    match e {
        Error::UnknownFormat => "unrecognised image format"@,
        Error::DecoderUnavailable { format, available_in, reason } => match reason {
            Some(r) => "no usable "@ + spec_display_name(format) + " decoder on this machine: "@ + r@,
            None => if available_in@.len() == 0 {
                "no decoder exists for "@ + spec_display_name(format)
            } else {
                "no decoder for "@ + spec_display_name(format) + " in this build (enable one of: "@
                    + joined(available_in@) + ")"@
            },
        },
        Error::EncoderUnavailable { format, available_in } => if available_in@.len() == 0 {
            "no encoder exists for "@ + spec_display_name(format)
        } else {
            "no encoder for "@ + spec_display_name(format) + " in this build (enable one of: "@
                + joined(available_in@) + ")"@
        },
        Error::TooLarge { pixels, limit } => "image has "@ + decimal(pixels as nat) + " pixels, limit is "@
            + decimal(limit as nat),
        Error::InvalidInput(m) => "invalid input: "@ + m@,
        Error::InvalidParams(m) => "invalid parameters: "@ + m@,
        Error::Unsupported { format, what } => spec_display_name(format) + " encoder does not support "@
            + what@,
        Error::Codec(m) => "codec error: "@ + m@,
    }
}

/// Appends the names of a list, separated by a comma and a space.
fn push_joined(s: &mut String, items: &[&'static str])
    ensures
        final(s)@ == old(s)@ + joined(items@),
{
    let ghost start = s@;
    let mut i: usize = 0;
    while i < items.len()
        invariant
            i <= items@.len(),
            s@ == start + joined(items@.subrange(0, i as int)),
        decreases items@.len() - i,
    {
        let ghost before = s@;
        if i > 0 {
            push_str(s, ", ");
        }
        push_str(s, items[i]);
        proof {
            let sub = items@.subrange(0, i + 1);
            assert(sub.drop_last() =~= items@.subrange(0, i as int));
            assert(sub.last() == items@[i as int]);
            if i == 0 {
                assert(joined(sub) == items@[0]@);
                assert(joined(items@.subrange(0, 0)) =~= Seq::<char>::empty());
            }
        }
        i = i + 1;
        assert(s@ =~= start + joined(items@.subrange(0, i as int)));
    }
    assert(items@.subrange(0, items@.len() as int) =~= items@);
}

impl Error {
    /// The error as one line of prose.
    pub fn message(&self) -> (r: String)
        ensures
            r@ == spec_message(*self),
    {
        let mut s = String::new();
        match self {
            Error::UnknownFormat => push_str(&mut s, "unrecognised image format"),
            Error::DecoderUnavailable { format, available_in, reason } => match reason {
                Some(r) => {
                    push_str(&mut s, "no usable ");
                    push_str(&mut s, format.display_name());
                    push_str(&mut s, " decoder on this machine: ");
                    push_str(&mut s, r.as_str());
                },
                None => if available_in.len() == 0 {
                    push_str(&mut s, "no decoder exists for ");
                    push_str(&mut s, format.display_name());
                } else {
                    push_str(&mut s, "no decoder for ");
                    push_str(&mut s, format.display_name());
                    push_str(&mut s, " in this build (enable one of: ");
                    push_joined(&mut s, available_in);
                    push_str(&mut s, ")");
                },
            },
            Error::EncoderUnavailable { format, available_in } => if available_in.len() == 0 {
                push_str(&mut s, "no encoder exists for ");
                push_str(&mut s, format.display_name());
            } else {
                push_str(&mut s, "no encoder for ");
                push_str(&mut s, format.display_name());
                push_str(&mut s, " in this build (enable one of: ");
                push_joined(&mut s, available_in);
                push_str(&mut s, ")");
            },
            Error::TooLarge { pixels, limit } => {
                push_str(&mut s, "image has ");
                push_decimal(&mut s, *pixels);
                push_str(&mut s, " pixels, limit is ");
                push_decimal(&mut s, *limit);
            },
            Error::InvalidInput(m) => {
                push_str(&mut s, "invalid input: ");
                push_str(&mut s, m.as_str());
            },
            Error::InvalidParams(m) => {
                push_str(&mut s, "invalid parameters: ");
                push_str(&mut s, m.as_str());
            },
            Error::Unsupported { format, what } => {
                push_str(&mut s, format.display_name());
                push_str(&mut s, " encoder does not support ");
                push_str(&mut s, what.as_str());
            },
            Error::Codec(m) => {
                push_str(&mut s, "codec error: ");
                push_str(&mut s, m.as_str());
            },
        }
        s
    }
}

} // verus!
