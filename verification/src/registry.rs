//! Format dispatch over the backends a build carries.
//!
//! The backends themselves live with the program, which asks each of them
//! about an input; what it hands in here is what they said, in
//! registration order, and what comes back is which one gets the bytes,
//! or the error that names why none can.
//!
//! Decoders: the first one that recognises the input and can run on this
//! machine wins. One that recognises it but cannot run is passed over,
//! and if nothing usable is left the error gives every reason. Encoders go
//! the other way: the most recently registered one for a format wins, so
//! a native backend registered after the portable one takes its format.

use vstd::prelude::*;
use crate::error::Error;
use crate::format::{DecoderCaps, Format, FormatInfo, spec_decoder_features, spec_encoder_features};
use crate::text::push_str;

verus! {

/// What one compiled-in decoder said about an input.
#[derive(Debug, Clone)]
pub struct Sniff {
    /// The decoder's capabilities.
    pub caps: DecoderCaps,
    /// What its probe recognised the bytes as, if anything.
    pub info: Option<FormatInfo>,
    /// Why it cannot run on this machine; `None` when it can.
    pub unavailable: Option<String>,
}

/// A decoder that recognised the input and can run.
pub open spec fn usable(s: Sniff) -> bool {
    s.info.is_some() && s.unavailable.is_none()
}

/// The first usable decoder, by registration order.
pub open spec fn spec_first_usable(s: Seq<Sniff>) -> Option<int>
    decreases s.len(),
{
    if s.len() == 0 {
        None
    } else {
        match spec_first_usable(s.drop_last()) {
            Some(i) => Some(i),
            None => if usable(s.last()) { Some(s.len() - 1) } else { None },
        }
    }
}

/// What the first decoder that recognised the input took it for, usable
/// or not.
pub open spec fn spec_first_recognised(s: Seq<Sniff>) -> Option<FormatInfo>
    decreases s.len(),
{
    if s.len() == 0 {
        None
    } else {
        match spec_first_recognised(s.drop_last()) {
            Some(i) => Some(i),
            None => s.last().info,
        }
    }
}

/// `name: reason` for every decoder that recognised the input but cannot
/// run, in order, separated by `; `.
pub open spec fn spec_reasons(s: Seq<Sniff>) -> Seq<char>
    decreases s.len(),
{
    if s.len() == 0 {
        Seq::empty()
    } else {
        let before = spec_reasons(s.drop_last());
        let d = s.last();
        if d.info.is_some() && d.unavailable.is_some() {
            let one = d.caps.name@ + ": "@ + d.unavailable.unwrap()@;
            if before.len() == 0 { one } else { before + "; "@ + one }
        } else {
            before
        }
    }
}

/// What [`probe`] gives: the first usable decoder and what it recognised.
pub open spec fn spec_probe(s: Seq<Sniff>) -> Option<(FormatInfo, int)> {
    match spec_first_usable(s) {
        Some(i) => Some((s[i].info.unwrap(), i)),
        None => None,
    }
}

/// What [`identify`] gives: what a decoder recognised, usable or not, or
/// else what a sniffer did.
pub open spec fn spec_identify(s: Seq<Sniff>, sniffed: Option<FormatInfo>) -> Option<FormatInfo> {
    match spec_first_recognised(s) {
        Some(i) => Some(i),
        None => sniffed,
    }
}

/// The decoders' answers as the registry reads them: the first usable
/// decoder gets the bytes; failing that, a format that something
/// recognised is reported with the reasons; failing that, the input is
/// unknown.
pub open spec fn decode_ok(s: Seq<Sniff>, sniffed: Option<FormatInfo>, r: Result<(usize, FormatInfo), Error>) -> bool {
    match spec_first_usable(s) {
        Some(i) => r == Ok::<(usize, FormatInfo), Error>((i as usize, s[i].info.unwrap())),
        None => match spec_identify(s, sniffed) {
            None => r matches Err(Error::UnknownFormat),
            Some(info) => r matches Err(Error::DecoderUnavailable { format, available_in, reason })
                && format == info.format
                && available_in@ == spec_decoder_features(info.format)
                && match reason {
                    Some(t) => spec_reasons(s).len() > 0 && t@ == spec_reasons(s),
                    None => spec_reasons(s).len() == 0,
                },
        },
    }
}

proof fn lemma_first_usable_in_range(s: Seq<Sniff>)
    ensures
        match spec_first_usable(s) {
            Some(i) => 0 <= i < s.len() && usable(s[i])
                && forall|j: int| 0 <= j < i ==> !usable(#[trigger] s[j]),
            None => forall|j: int| 0 <= j < s.len() ==> !usable(#[trigger] s[j]),
        },
    decreases s.len(),
{
    if s.len() > 0 {
        lemma_first_usable_in_range(s.drop_last());
        assert forall|j: int| 0 <= j < s.len() - 1 implies s.drop_last()[j] == s[j] by {}
    }
}

/// The first decoder, by registration order, that recognises the input
/// and can run here; `None` when nothing usable claims it, whether or not
/// something recognised it.
pub fn probe(sniffs: &[Sniff]) -> (r: Option<(FormatInfo, usize)>)
    ensures
        match spec_probe(sniffs@) {
            Some((info, i)) => r == Some((info, i as usize)),
            None => r is None,
        },
        r matches Some((_, i)) ==> usable(sniffs@[i as int])
            && forall|j: int| 0 <= j < i ==> !usable(#[trigger] sniffs@[j]),
{
    let mut k: usize = 0;
    while k < sniffs.len()
        invariant
            k <= sniffs@.len(),
            spec_first_usable(sniffs@.subrange(0, k as int)) is None,
        decreases sniffs@.len() - k,
    {
        let d = &sniffs[k];
        proof {
            let t = sniffs@.subrange(0, k + 1);
            assert(t.drop_last() =~= sniffs@.subrange(0, k as int));
        }
        if d.info.is_some() && d.unavailable.is_none() {
            proof {
                lemma_prefix_first_usable(sniffs@, k as int + 1);
                lemma_first_usable_in_range(sniffs@);
            }
            return Some((d.info.unwrap(), k));
        }
        k = k + 1;
    }
    proof {
        assert(sniffs@.subrange(0, k as int) =~= sniffs@);
    }
    None
}

/// A prefix that already holds a usable decoder decides the answer for
/// the whole list.
proof fn lemma_prefix_first_usable(s: Seq<Sniff>, n: int)
    requires
        0 <= n <= s.len(),
        spec_first_usable(s.subrange(0, n)) is Some,
    ensures
        spec_first_usable(s) == spec_first_usable(s.subrange(0, n)),
    decreases s.len() - n,
{
    if n < s.len() {
        let t = s.subrange(0, n + 1);
        assert(t.drop_last() =~= s.subrange(0, n));
        lemma_prefix_first_usable(s, n + 1);
    } else {
        assert(s.subrange(0, n) =~= s);
    }
}

/// The same for the first recognising decoder.
proof fn lemma_prefix_first_recognised(s: Seq<Sniff>, n: int)
    requires
        0 <= n <= s.len(),
        spec_first_recognised(s.subrange(0, n)) is Some,
    ensures
        spec_first_recognised(s) == spec_first_recognised(s.subrange(0, n)),
    decreases s.len() - n,
{
    if n < s.len() {
        let t = s.subrange(0, n + 1);
        assert(t.drop_last() =~= s.subrange(0, n));
        lemma_prefix_first_recognised(s, n + 1);
    } else {
        assert(s.subrange(0, n) =~= s);
    }
}

/// What format the input is, whether or not this build can decode it:
/// the decoders are asked first, usable or not, then the sniffers, whose
/// first answer the program hands in as `sniffed`.
pub fn identify(sniffs: &[Sniff], sniffed: Option<FormatInfo>) -> (r: Option<FormatInfo>)
    ensures
        r == spec_identify(sniffs@, sniffed),
{
    let mut k: usize = 0;
    while k < sniffs.len()
        invariant
            k <= sniffs@.len(),
            spec_first_recognised(sniffs@.subrange(0, k as int)) is None,
        decreases sniffs@.len() - k,
    {
        let d = &sniffs[k];
        proof {
            let t = sniffs@.subrange(0, k + 1);
            assert(t.drop_last() =~= sniffs@.subrange(0, k as int));
        }
        if d.info.is_some() {
            proof { lemma_prefix_first_recognised(sniffs@, k as int + 1); }
            return d.info;
        }
        k = k + 1;
    }
    proof {
        assert(sniffs@.subrange(0, k as int) =~= sniffs@);
    }
    sniffed
}

/// Which decoder gets the input, and as what; or why none can have it.
///
/// The first decoder that recognises the bytes and can run here wins.
/// When none can, a format that a decoder (usable or not) or else a
/// sniffer recognised is reported as [`Error::DecoderUnavailable`], with
/// the features that would add a decoder and every decoder's reason;
/// when nothing recognised the bytes, [`Error::UnknownFormat`].
pub fn decode_pick(sniffs: &[Sniff], sniffed: Option<FormatInfo>) -> (r: Result<(usize, FormatInfo), Error>)
    ensures
        decode_ok(sniffs@, sniffed, r),
{
    match probe(sniffs) {
        Some((info, i)) => Ok((i, info)),
        None => match identify(sniffs, sniffed) {
            None => Err(Error::UnknownFormat),
            Some(info) => {
                let reasons = reasons_of(sniffs);
                let reason = if reasons.unicode_len() == 0 { None } else { Some(reasons) };
                Err(Error::DecoderUnavailable {
                    format: info.format,
                    available_in: info.format.decoder_features(),
                    reason,
                })
            },
        },
    }
}

/// Every unusable recognising decoder's reason, as [`spec_reasons`]
/// spells it.
fn reasons_of(sniffs: &[Sniff]) -> (r: String)
    ensures
        r@ == spec_reasons(sniffs@),
{
    let mut out = String::new();
    let mut k: usize = 0;
    while k < sniffs.len()
        invariant
            k <= sniffs@.len(),
            out@ == spec_reasons(sniffs@.subrange(0, k as int)),
        decreases sniffs@.len() - k,
    {
        let d = &sniffs[k];
        proof {
            let t = sniffs@.subrange(0, k + 1);
            assert(t.drop_last() =~= sniffs@.subrange(0, k as int));
            assert(t.last() == sniffs@[k as int]);
        }
        if d.info.is_some() {
            match &d.unavailable {
                Some(why) => {
                    if out.unicode_len() > 0 {
                        push_str(&mut out, "; ");
                    }
                    push_str(&mut out, d.caps.name);
                    push_str(&mut out, ": ");
                    push_str(&mut out, why.as_str());
                },
                None => {},
            }
        }
        k = k + 1;
        assert(out@ =~= spec_reasons(sniffs@.subrange(0, k as int)));
    }
    proof {
        assert(sniffs@.subrange(0, k as int) =~= sniffs@);
    }
    out
}

/// The last index holding `f`: the encoder that owns the format.
pub open spec fn spec_owner(formats: Seq<Format>, f: Format) -> Option<int>
    decreases formats.len(),
{
    if formats.len() == 0 {
        None
    } else if formats.last() == f {
        Some(formats.len() - 1)
    } else {
        spec_owner(formats.drop_last(), f)
    }
}

/// The encoder that owns `format`, given every registered encoder's
/// format in registration order: the most recently registered one.
/// [`Error::EncoderUnavailable`], with the features that would add one,
/// when none claims it.
pub fn encoder_pick(formats: &[Format], format: Format) -> (r: Result<usize, Error>)
    ensures
        match spec_owner(formats@, format) {
            Some(i) => r == Ok::<usize, Error>(i as usize),
            None => r matches Err(Error::EncoderUnavailable { format: f, available_in })
                && f == format && available_in@ == spec_encoder_features(format),
        },
{
    let mut found: Option<usize> = None;
    let mut k: usize = 0;
    while k < formats.len()
        invariant
            k <= formats@.len(),
            match spec_owner(formats@.subrange(0, k as int), format) {
                Some(i) => found == Some(i as usize),
                None => found is None,
            },
        decreases formats@.len() - k,
    {
        proof {
            let t = formats@.subrange(0, k + 1);
            assert(t.drop_last() =~= formats@.subrange(0, k as int));
        }
        if formats[k] == format {
            found = Some(k);
        }
        k = k + 1;
    }
    proof {
        assert(formats@.subrange(0, k as int) =~= formats@);
    }
    match found {
        Some(i) => Ok(i),
        None => Err(Error::EncoderUnavailable { format, available_in: format.encoder_features() }),
    }
}

/// Whether any encoder claims `format`.
pub fn has_encoder(formats: &[Format], format: Format) -> (r: bool)
    ensures
        r == (exists|i: int| 0 <= i < formats@.len() && formats@[i] == format),
{
    let mut k: usize = 0;
    while k < formats.len()
        invariant
            k <= formats@.len(),
            forall|i: int| 0 <= i < k ==> formats@[i] != format,
        decreases formats@.len() - k,
    {
        if formats[k] == format {
            return true;
        }
        k = k + 1;
    }
    false
}

/// A compiled-in decoder, and whether it can run on this machine.
#[derive(Debug, Clone)]
pub struct DecoderState {
    /// The decoder's capabilities.
    pub caps: DecoderCaps,
    /// Why it cannot run here; `None` when it can.
    pub unavailable: Option<String>,
}

/// Whether a usable decoder claims `format`. A perceptual target needs
/// the output read back to score it, and a decoder that is compiled in
/// but cannot run does not count.
pub fn has_decoder(decoders: &[DecoderState], format: Format) -> (r: bool)
    ensures
        r == (exists|i: int| 0 <= i < decoders@.len() && decoders@[i].caps.format == format
            && decoders@[i].unavailable is None),
{
    let mut k: usize = 0;
    while k < decoders.len()
        invariant
            k <= decoders@.len(),
            forall|i: int| 0 <= i < k ==> !(decoders@[i].caps.format == format && decoders@[i].unavailable is None),
        decreases decoders@.len() - k,
    {
        if decoders[k].caps.format == format && decoders[k].unavailable.is_none() {
            return true;
        }
        k = k + 1;
    }
    false
}

/// Registering an encoder makes it the owner of its format and leaves
/// every other format's owner where it was.
pub proof fn lemma_last_registered_encoder_wins(formats: Seq<Format>, f: Format, g: Format)
    ensures
        spec_owner(formats.push(f), f) == Some(formats.len() as int),
        g != f ==> spec_owner(formats.push(f), g) == spec_owner(formats, g),
{
    assert(formats.push(f).drop_last() =~= formats);
}

/// Registering a decoder never takes an input away from one registered
/// before it that can read it; it only gets inputs nothing earlier could
/// use.
pub proof fn lemma_first_usable_decoder_keeps_its_input(s: Seq<Sniff>, d: Sniff)
    ensures
        spec_first_usable(s) is Some ==> spec_first_usable(s.push(d)) == spec_first_usable(s),
        spec_first_usable(s) is None ==> spec_first_usable(s.push(d))
            == (if usable(d) { Some(s.len() as int) } else { None }),
{
    assert(s.push(d).drop_last() =~= s);
}

/// A decoder that cannot run is never handed an input, and a decoder is
/// handed an input only when no decoder before it could take it.
pub proof fn lemma_unusable_decoders_are_skipped(s: Seq<Sniff>, i: int)
    requires
        spec_first_usable(s) == Some(i),
    ensures
        0 <= i < s.len(),
        s[i].info.is_some(),
        s[i].unavailable.is_none(),
        forall|j: int| 0 <= j < i ==> !usable(#[trigger] s[j]),
{
    lemma_first_usable_in_range(s);
}

/// An input a sniffer recognises is never reported as unknown: when no
/// decoder can take it, the error names a format.
pub proof fn lemma_sniffed_input_is_never_unknown(s: Seq<Sniff>, sniffed: FormatInfo)
    ensures
        spec_identify(s, Some(sniffed)) is Some,
        forall|r: Result<(usize, FormatInfo), Error>| decode_ok(s, Some(sniffed), r) ==> !(r matches Err(Error::UnknownFormat)),
{
}

} // verus!
