//! `--list-codecs`: what this build decodes and encodes, from which tier,
//! and with `-v` every encoder's `--codec-opt` keys. The listing is built
//! from the registered backends, never maintained by hand.

use vstd::prelude::*;
use crate::cli::args::{format_name, spec_format_name};
use crate::cli::native_set::{NativeSet, left_out, spec_left_out};
use crate::format::{
    CodecOption, EncoderCaps, Format, Tier, spec_all_formats, spec_decoder_features, spec_display_name,
    spec_encoder_features,
};
use crate::cli::report::Need;
use crate::registry::DecoderState;
use crate::text::{push_char, push_str, str_eq};

verus! {

/// `items` with `sep` between each two.
pub open spec fn sep_joined(items: Seq<Seq<char>>, sep: Seq<char>) -> Seq<char>
    decreases items.len(),
{
    if items.len() == 0 {
        Seq::empty()
    } else if items.len() == 1 {
        items[0]
    } else {
        sep_joined(items.drop_last(), sep) + sep + items.last()
    }
}

/// `n` spaces.
pub open spec fn spaces(n: int) -> Seq<char> {
    Seq::new(if n > 0 { n as nat } else { 0 }, |_i: int| ' ')
}

/// `s` padded with spaces on the right to at least `w` characters.
pub open spec fn padded(s: Seq<char>, w: int) -> Seq<char> {
    s + spaces(w - s.len())
}

/// A tier's name.
pub open spec fn tier_name(t: Tier) -> Seq<char> {
    match t {
        Tier::Portable => "portable"@,
        Tier::Native => "native"@,
        Tier::Agpl => "agpl"@,
    }
}

/// Whether some backend of the build is of tier `t`.
pub open spec fn tier_used(ds: Seq<DecoderState>, es: Seq<EncoderCaps>, t: Tier) -> bool {
    (exists|i: int| 0 <= i < ds.len() && ds[i].caps.tier == t)
        || (exists|i: int| 0 <= i < es.len() && es[i].tier == t)
}

/// The tiers of the build, by name.
pub open spec fn tier_names(ds: Seq<DecoderState>, es: Seq<EncoderCaps>) -> Seq<Seq<char>> {
    (if tier_used(ds, es, Tier::Agpl) { seq!["agpl"@] } else { Seq::empty() })
        + (if tier_used(ds, es, Tier::Native) { seq!["native"@] } else { Seq::empty() })
        + (if tier_used(ds, es, Tier::Portable) { seq!["portable"@] } else { Seq::empty() })
}

/// The first line: the version and the tiers.
pub open spec fn header(version: Seq<char>, ds: Seq<DecoderState>, es: Seq<EncoderCaps>) -> Seq<char> {
    let names = tier_names(ds, es);
    "sqzer "@ + version + " - tiers in this build: "@
        + if names.len() == 0 { "none"@ } else { sep_joined(names, ", "@) }
}

/// The reasons a native build gives for leaving features out.
pub open spec fn left_outs(features: Seq<&'static str>, set: NativeSet) -> Seq<Seq<char>>
    decreases features.len(),
{
    if features.len() == 0 {
        Seq::empty()
    } else {
        let before = left_outs(features.drop_last(), set);
        match spec_left_out(features.last()@, set) {
            Some(m) => before.push(m),
            None => before,
        }
    }
}

/// The names of a list of features.
pub open spec fn names_of(features: Seq<&'static str>) -> Seq<Seq<char>> {
    features.map_values(|f: &'static str| f@)
}

/// The `none` cell: which feature would add the backend, or, in a native
/// build whose target leaves it out, why.
pub open spec fn none_because(features: Seq<&'static str>, set: NativeSet) -> Seq<char> {
    if features.len() == 0 {
        "none"@
    } else if left_outs(features, set).len() == 0 {
        "none; needs `"@ + sep_joined(names_of(features), "` or `"@) + "`"@
    } else {
        "none; "@ + sep_joined(left_outs(features, set), "; "@)
    }
}

/// How a decoder of the format is listed.
pub open spec fn decoder_entry(d: DecoderState) -> Seq<char> {
    d.caps.name@ + " ("@ + tier_name(d.caps.tier)
        + if d.unavailable is Some { ", unavailable)"@ } else { ")"@ }
}

/// The listed decoders of format `f`, in registration order.
pub open spec fn decoder_entries(ds: Seq<DecoderState>, f: Format) -> Seq<Seq<char>>
    decreases ds.len(),
{
    if ds.len() == 0 {
        Seq::empty()
    } else {
        let before = decoder_entries(ds.drop_last(), f);
        if ds.last().caps.format == f { before.push(decoder_entry(ds.last())) } else { before }
    }
}

/// Why each decoder of format `f` that cannot run here cannot.
pub open spec fn unavailable_notes(ds: Seq<DecoderState>, f: Format) -> Seq<Seq<char>>
    decreases ds.len(),
{
    if ds.len() == 0 {
        Seq::empty()
    } else {
        let before = unavailable_notes(ds.drop_last(), f);
        let d = ds.last();
        if d.caps.format == f && d.unavailable is Some {
            before.push(d.caps.name@ + ": "@ + d.unavailable.unwrap()@)
        } else {
            before
        }
    }
}

/// The decode cell of format `f`.
pub open spec fn decode_cell(ds: Seq<DecoderState>, f: Format, set: NativeSet) -> Seq<char> {
    let entries = decoder_entries(ds, f);
    if entries.len() == 0 { none_because(spec_decoder_features(f), set) } else { sep_joined(entries, ", "@) }
}

/// The most recently registered encoder of format `f`.
pub open spec fn encoder_owner(es: Seq<EncoderCaps>, f: Format) -> Option<int>
    decreases es.len(),
{
    if es.len() == 0 {
        None
    } else if es.last().format == f {
        Some(es.len() - 1)
    } else {
        encoder_owner(es.drop_last(), f)
    }
}

/// Whether a feature belongs to the native tier.
pub open spec fn is_native(s: Seq<char>) -> bool {
    s.len() >= 7 && s.subrange(0, 7) == "native-"@
}

/// The native features among a list.
pub open spec fn native_features(features: Seq<&'static str>) -> Seq<Seq<char>>
    decreases features.len(),
{
    if features.len() == 0 {
        Seq::empty()
    } else {
        let before = native_features(features.drop_last());
        if is_native(features.last()@) { before.push(features.last()@) } else { before }
    }
}

/// What an encoder can write.
pub open spec fn mode_text(c: EncoderCaps, f: Format) -> Seq<char> {
    if c.lossy && c.lossless {
        "lossy and lossless"@
    } else if c.lossy {
        "lossy"@
    } else if c.lossless {
        let native = native_features(spec_encoder_features(f));
        if native.len() == 0 {
            "lossless"@
        } else {
            "lossless only; lossy needs `"@ + sep_joined(native, "` or `"@) + "`"@
        }
    } else {
        "no mode"@
    }
}

/// Which metadata an encoder can embed.
pub open spec fn metadata_text(c: EncoderCaps) -> Seq<char> {
    if c.exif && c.xmp {
        "EXIF and XMP"@
    } else if c.exif {
        "EXIF only"@
    } else if c.xmp {
        "XMP only"@
    } else {
        "none"@
    }
}

/// The encode cell of format `f`.
pub open spec fn encode_cell(es: Seq<EncoderCaps>, f: Format, set: NativeSet) -> Seq<char> {
    match encoder_owner(es, f) {
        Some(i) => es[i].name@ + " ("@ + tier_name(es[i].tier) + "), "@ + mode_text(es[i], f) + ", metadata: "@
            + metadata_text(es[i]),
        None => none_because(spec_encoder_features(f), set),
    }
}

/// The line of format `f`.
pub open spec fn format_line(ds: Seq<DecoderState>, es: Seq<EncoderCaps>, f: Format, set: NativeSet) -> Seq<char> {
    padded(spec_display_name(f), 8) + " decode  "@ + padded(decode_cell(ds, f, set), 28) + " encode  "@
        + encode_cell(es, f, set)
}

/// A note under a format's line.
pub open spec fn note_line(n: Seq<char>) -> Seq<char> {
    spaces(16) + " "@ + n
}

/// The two lines of each option of an encoder of the format `codec`
/// names: the key with its default, then what it does.
pub open spec fn option_lines(opts: Seq<CodecOption>, codec: Seq<char>) -> Seq<Seq<char>>
    decreases opts.len(),
{
    if opts.len() == 0 {
        Seq::empty()
    } else {
        let o = opts.last();
        option_lines(opts.drop_last(), codec)
            .push(spaces(8) + " option  "@ + codec + ":"@ + o.key@ + "="@ + o.default@)
            .push(note_line(o.help@))
    }
}

/// Every line of format `f`.
pub open spec fn format_block(ds: Seq<DecoderState>, es: Seq<EncoderCaps>, f: Format, set: NativeSet, verbose: bool) -> Seq<Seq<char>> {
    seq![format_line(ds, es, f, set)] + unavailable_notes(ds, f).map_values(|n: Seq<char>| note_line(n))
        + match encoder_owner(es, f) {
            Some(i) => if verbose { option_lines(es[i].options@, spec_format_name(f)) } else { Seq::empty() },
            None => Seq::empty(),
        }
}

/// The lines of the formats `fs`, in order.
pub open spec fn blocks(ds: Seq<DecoderState>, es: Seq<EncoderCaps>, fs: Seq<Format>, set: NativeSet, verbose: bool) -> Seq<Seq<char>>
    decreases fs.len(),
{
    if fs.len() == 0 {
        Seq::empty()
    } else {
        blocks(ds, es, fs.drop_last(), set, verbose) + format_block(ds, es, fs.last(), set, verbose)
    }
}

/// The lines of the listing: the version and tiers, a blank line, then
/// every format.
pub open spec fn listing_lines(version: Seq<char>, ds: Seq<DecoderState>, es: Seq<EncoderCaps>, set: NativeSet, verbose: bool) -> Seq<Seq<char>> {
    seq![header(version, ds, es), Seq::empty()] + blocks(ds, es, spec_all_formats(), set, verbose)
}

/// The listing as text, one line per entry.
pub open spec fn spec_render(version: Seq<char>, ds: Seq<DecoderState>, es: Seq<EncoderCaps>, set: NativeSet, verbose: bool) -> Seq<char> {
    sep_joined(listing_lines(version, ds, es, set, verbose), "\n"@)
}

proof fn lemma_sep_joined_push(items: Seq<Seq<char>>, x: Seq<char>, sep: Seq<char>)
    ensures
        sep_joined(items.push(x), sep) == if items.len() == 0 { x } else { sep_joined(items, sep) + sep + x },
{
    assert(items.push(x).drop_last() =~= items);
    if items.len() == 0 {
        assert(items.push(x)[0] == x);
    }
}

/// Appends `t` padded to `w` characters.
fn push_padded(out: &mut String, t: &str, w: usize)
    ensures
        final(out)@ == old(out)@ + padded(t@, w as int),
{
    push_str(out, t);
    let mut n = t.unicode_len();
    let ghost base = out@;
    while n < w
        invariant
            t@.len() <= n <= w || (n == t@.len() && n >= w),
            out@ == base + spaces(n - t@.len()),
        decreases w - n,
    {
        push_char(out, ' ');
        n = n + 1;
        assert(out@ =~= base + spaces(n - t@.len()));
    }
    assert(out@ =~= old(out)@ + padded(t@, w as int));
}

/// Appends `w` spaces.
fn push_spaces(out: &mut String, w: usize)
    ensures
        final(out)@ == old(out)@ + spaces(w as int),
{
    let ghost base = out@;
    let mut n: usize = 0;
    while n < w
        invariant
            n <= w,
            out@ == base + spaces(n as int),
        decreases w - n,
    {
        push_char(out, ' ');
        n = n + 1;
        assert(out@ =~= base + spaces(n as int));
    }
}

/// Appends `items` with `sep` between each two.
pub fn push_sep_joined(out: &mut String, items: &Vec<String>, sep: &str)
    ensures
        final(out)@ == old(out)@ + sep_joined(items@.map_values(|s: String| s@), sep@),
{
    let ghost base = out@;
    let ghost all = items@.map_values(|s: String| s@);
    let mut k: usize = 0;
    while k < items.len()
        invariant
            k <= items@.len(),
            all == items@.map_values(|s: String| s@),
            out@ == base + sep_joined(all.subrange(0, k as int), sep@),
        decreases items@.len() - k,
    {
        if k > 0 {
            push_str(out, sep);
        }
        push_str(out, items[k].as_str());
        proof {
            assert(all.subrange(0, k + 1) =~= all.subrange(0, k as int).push(all[k as int]));
            lemma_sep_joined_push(all.subrange(0, k as int), all[k as int], sep@);
        }
        k = k + 1;
        assert(out@ =~= base + sep_joined(all.subrange(0, k as int), sep@));
    }
    assert(all.subrange(0, k as int) =~= all);
}

/// A text of its own.
fn owned(t: &str) -> (r: String)
    ensures
        r@ == t@,
{
    let mut s = String::new();
    push_str(&mut s, t);
    s
}

/// Appends the name of a tier.
fn push_tier(out: &mut String, t: Tier)
    ensures
        final(out)@ == old(out)@ + tier_name(t),
{
    push_str(out, t.name());
}

/// Whether a feature belongs to the native tier.
fn native_feature(s: &str) -> (r: bool)
    ensures
        r == is_native(s@),
{
    if s.unicode_len() < 7 {
        return false;
    }
    str_eq(s.substring_char(0, 7), "native-")
}

/// The `none` cell.
fn none_cell(features: &[&'static str], set: NativeSet) -> (r: String)
    ensures
        r@ == none_because(features@, set),
{
    let mut r = String::new();
    if features.len() == 0 {
        push_str(&mut r, "none");
        return r;
    }
    let mut reasons: Vec<String> = Vec::new();
    let mut names: Vec<String> = Vec::new();
    let mut k: usize = 0;
    while k < features.len()
        invariant
            k <= features@.len(),
            reasons@.map_values(|s: String| s@) == left_outs(features@.subrange(0, k as int), set),
            names@.map_values(|s: String| s@) == names_of(features@.subrange(0, k as int)),
        decreases features@.len() - k,
    {
        let ghost before_r = reasons@;
        let ghost before_n = names@;
        proof {
            let t = features@.subrange(0, k + 1);
            assert(t.drop_last() =~= features@.subrange(0, k as int));
            assert(t.last() == features@[k as int]);
        }
        proof {
            assert(features@.subrange(0, k + 1).map_values(|f: &'static str| f@)
                =~= features@.subrange(0, k as int).map_values(|f: &'static str| f@).push(features@[k as int]@));
        }
        match left_out(features[k], set) {
            Some(m) => reasons.push(owned(m)),
            None => {},
        }
        names.push(owned(features[k]));
        k = k + 1;
        assert(reasons@.map_values(|s: String| s@) =~= left_outs(features@.subrange(0, k as int), set));
        assert(names@.map_values(|s: String| s@) =~= names_of(features@.subrange(0, k as int)));
    }
    assert(features@.subrange(0, k as int) =~= features@);
    if reasons.len() == 0 {
        push_str(&mut r, "none; needs `");
        push_sep_joined(&mut r, &names, "` or `");
        push_str(&mut r, "`");
    } else {
        push_str(&mut r, "none; ");
        push_sep_joined(&mut r, &reasons, "; ");
    }
    r
}

/// The decode cell of `f`, and the notes for its decoders that cannot
/// run.
fn decode_cell_of(decoders: &[DecoderState], f: Format, set: NativeSet) -> (r: (String, Vec<String>))
    ensures
        r.0@ == decode_cell(decoders@, f, set),
        r.1@.map_values(|s: String| s@) == unavailable_notes(decoders@, f),
{
    let mut entries: Vec<String> = Vec::new();
    let mut notes: Vec<String> = Vec::new();
    let mut k: usize = 0;
    while k < decoders.len()
        invariant
            k <= decoders@.len(),
            entries@.map_values(|s: String| s@) == decoder_entries(decoders@.subrange(0, k as int), f),
            notes@.map_values(|s: String| s@) == unavailable_notes(decoders@.subrange(0, k as int), f),
        decreases decoders@.len() - k,
    {
        let d = &decoders[k];
        proof {
            let t = decoders@.subrange(0, k + 1);
            assert(t.drop_last() =~= decoders@.subrange(0, k as int));
            assert(t.last() == decoders@[k as int]);
        }
        if d.caps.format == f {
            let mut e = String::new();
            push_str(&mut e, d.caps.name);
            push_str(&mut e, " (");
            push_tier(&mut e, d.caps.tier);
            match &d.unavailable {
                Some(why) => {
                    push_str(&mut e, ", unavailable)");
                    let mut n = String::new();
                    push_str(&mut n, d.caps.name);
                    push_str(&mut n, ": ");
                    push_str(&mut n, why.as_str());
                    notes.push(n);
                },
                None => push_str(&mut e, ")"),
            }
            entries.push(e);
        }
        k = k + 1;
        assert(entries@.map_values(|s: String| s@) =~= decoder_entries(decoders@.subrange(0, k as int), f));
        assert(notes@.map_values(|s: String| s@) =~= unavailable_notes(decoders@.subrange(0, k as int), f));
    }
    assert(decoders@.subrange(0, k as int) =~= decoders@);
    let cell = if entries.len() == 0 {
        none_cell(f.decoder_features(), set)
    } else {
        let mut c = String::new();
        push_sep_joined(&mut c, &entries, ", ");
        c
    };
    (cell, notes)
}

/// The most recently registered encoder of `f`.
pub fn owner_of(encoders: &[EncoderCaps], f: Format) -> (r: Option<usize>)
    ensures
        match encoder_owner(encoders@, f) {
            Some(i) => r == Some(i as usize),
            None => r is None,
        },
{
    let mut found: Option<usize> = None;
    let mut k: usize = 0;
    while k < encoders.len()
        invariant
            k <= encoders@.len(),
            match encoder_owner(encoders@.subrange(0, k as int), f) {
                Some(i) => found == Some(i as usize),
                None => found is None,
            },
        decreases encoders@.len() - k,
    {
        proof {
            let t = encoders@.subrange(0, k + 1);
            assert(t.drop_last() =~= encoders@.subrange(0, k as int));
        }
        if encoders[k].format == f {
            found = Some(k);
        }
        k = k + 1;
    }
    assert(encoders@.subrange(0, k as int) =~= encoders@);
    found
}

/// The owner of a format is one of the encoders, and of that format.
pub proof fn lemma_owner_in_range(es: Seq<EncoderCaps>, f: Format)
    ensures
        encoder_owner(es, f) matches Some(i) ==> 0 <= i < es.len() && es[i].format == f,
    decreases es.len(),
{
    if es.len() > 0 {
        lemma_owner_in_range(es.drop_last(), f);
    }
}

/// The encode cell of `f`.
fn encode_cell_of(encoders: &[EncoderCaps], f: Format, set: NativeSet) -> (r: String)
    ensures
        r@ == encode_cell(encoders@, f, set),
{
    proof { lemma_owner_in_range(encoders@, f); }
    match owner_of(encoders, f) {
        None => none_cell(f.encoder_features(), set),
        Some(i) => {
            let c = &encoders[i];
            let mut r = String::new();
            push_str(&mut r, c.name);
            push_str(&mut r, " (");
            push_tier(&mut r, c.tier);
            push_str(&mut r, "), ");
            if c.lossy && c.lossless {
                push_str(&mut r, "lossy and lossless");
            } else if c.lossy {
                push_str(&mut r, "lossy");
            } else if c.lossless {
                let features = f.encoder_features();
                let mut native: Vec<String> = Vec::new();
                let mut k: usize = 0;
                while k < features.len()
                    invariant
                        k <= features@.len(),
                        features@ == spec_encoder_features(f),
                        native@.map_values(|s: String| s@) == native_features(features@.subrange(0, k as int)),
                    decreases features@.len() - k,
                {
                    proof {
                        let t = features@.subrange(0, k + 1);
                        assert(t.drop_last() =~= features@.subrange(0, k as int));
                        assert(t.last() == features@[k as int]);
                    }
                    if native_feature(features[k]) {
                        native.push(owned(features[k]));
                    }
                    k = k + 1;
                    assert(native@.map_values(|s: String| s@) =~= native_features(features@.subrange(0, k as int)));
                }
                assert(features@.subrange(0, k as int) =~= features@);
                if native.len() == 0 {
                    push_str(&mut r, "lossless");
                } else {
                    push_str(&mut r, "lossless only; lossy needs `");
                    push_sep_joined(&mut r, &native, "` or `");
                    push_str(&mut r, "`");
                }
            } else {
                push_str(&mut r, "no mode");
            }
            push_str(&mut r, ", metadata: ");
            if c.exif && c.xmp {
                push_str(&mut r, "EXIF and XMP");
            } else if c.exif {
                push_str(&mut r, "EXIF only");
            } else if c.xmp {
                push_str(&mut r, "XMP only");
            } else {
                push_str(&mut r, "none");
            }
            r
        },
    }
}

/// The format at a place of the stable order.
fn format_at(i: usize) -> (r: Format)
    requires
        i < 10,
    ensures
        r == spec_all_formats()[i as int],
{
    match i {
        0 => Format::Jpeg,
        1 => Format::Png,
        2 => Format::WebP,
        3 => Format::Avif,
        4 => Format::Jxl,
        5 => Format::Gif,
        6 => Format::Tiff,
        7 => Format::Heic,
        8 => Format::Svg,
        _ => Format::Exr,
    }
}

/// Appends a line after the ones already there.
fn push_line(out: &mut String, lines: Ghost<Seq<Seq<char>>>, line: &str)
    requires
        lines@.len() > 0,
        old(out)@ == sep_joined(lines@, "\n"@),
    ensures
        final(out)@ == sep_joined(lines@.push(line@), "\n"@),
{
    push_str(out, "\n");
    push_str(out, line);
    proof { lemma_sep_joined_push(lines@, line@, "\n"@); }
    assert(out@ =~= sep_joined(lines@.push(line@), "\n"@));
}

/// Whether some decoder or encoder of the build is of tier `t`.
fn uses_tier(decoders: &[DecoderState], encoders: &[EncoderCaps], t: Tier) -> (r: bool)
    ensures
        r == tier_used(decoders@, encoders@, t),
{
    let mut k: usize = 0;
    while k < decoders.len()
        invariant
            k <= decoders@.len(),
            forall|i: int| 0 <= i < k ==> decoders@[i].caps.tier != t,
        decreases decoders@.len() - k,
    {
        if decoders[k].caps.tier == t {
            return true;
        }
        k = k + 1;
    }
    let mut k: usize = 0;
    while k < encoders.len()
        invariant
            k <= encoders@.len(),
            forall|i: int| 0 <= i < decoders@.len() ==> decoders@[i].caps.tier != t,
            forall|i: int| 0 <= i < k ==> encoders@[i].tier != t,
        decreases encoders@.len() - k,
    {
        if encoders[k].tier == t {
            return true;
        }
        k = k + 1;
    }
    false
}

/// The human listing: a line with the version and the tiers of the
/// build, a blank line, then one line per format with its decoders and
/// the encoder that owns it. A decoder that is compiled in but cannot run
/// here is marked unavailable, with its reason on a line of its own; with
/// `verbose`, every option of the owning encoder follows, with its
/// default and what it does. A format without a backend says which
/// feature would add one, or, in a native build whose target leaves it
/// out, why.
pub fn render(version: &str, decoders: &[DecoderState], encoders: &[EncoderCaps], set: NativeSet, verbose: bool) -> (r: String)
    ensures
        r@ == spec_render(version@, decoders@, encoders@, set, verbose),
{
    let mut names: Vec<String> = Vec::new();
    if uses_tier(decoders, encoders, Tier::Agpl) {
        names.push(owned("agpl"));
    }
    if uses_tier(decoders, encoders, Tier::Native) {
        names.push(owned("native"));
    }
    if uses_tier(decoders, encoders, Tier::Portable) {
        names.push(owned("portable"));
    }
    assert(names@.map_values(|s: String| s@) =~= tier_names(decoders@, encoders@));
    let mut out = String::new();
    push_str(&mut out, "sqzer ");
    push_str(&mut out, version);
    push_str(&mut out, " - tiers in this build: ");
    if names.len() == 0 {
        push_str(&mut out, "none");
    } else {
        push_sep_joined(&mut out, &names, ", ");
    }
    let ghost head = out@;
    proof {
        assert(head == header(version@, decoders@, encoders@));
        assert(seq![head].len() == 1);
        assert(sep_joined(seq![head], "\n"@) == head);
    }
    let ghost first = seq![head];
    let blank = String::new();
    push_line(&mut out, Ghost(first), blank.as_str());
    let ghost start = seq![head, Seq::<char>::empty()];
    assert(seq![head].push(blank@) =~= start);
    let ghost all = spec_all_formats();
    let mut i: usize = 0;
    while i < 10
        invariant
            i <= 10,
            all == spec_all_formats(),
            all.len() == 10,
            start.len() == 2,
            out@ == sep_joined(start + blocks(decoders@, encoders@, all.subrange(0, i as int), set, verbose), "\n"@),
        decreases 10 - i,
    {
        let f = format_at(i);
        let ghost lines = start + blocks(decoders@, encoders@, all.subrange(0, i as int), set, verbose);
        proof {
            let t = all.subrange(0, i + 1);
            assert(t.drop_last() =~= all.subrange(0, i as int));
            assert(t.last() == f);
        }
        let (decode, notes) = decode_cell_of(decoders, f, set);
        let encode = encode_cell_of(encoders, f, set);
        let mut line = String::new();
        push_padded(&mut line, f.display_name(), 8);
        push_str(&mut line, " decode  ");
        push_padded(&mut line, decode.as_str(), 28);
        push_str(&mut line, " encode  ");
        push_str(&mut line, encode.as_str());
        assert(line@ == format_line(decoders@, encoders@, f, set));
        push_line(&mut out, Ghost(lines), line.as_str());
        let ghost mut done = lines.push(line@);
        let ghost note_all = notes@.map_values(|s: String| s@);
        let mut k: usize = 0;
        while k < notes.len()
            invariant
                k <= notes@.len(),
                note_all == notes@.map_values(|s: String| s@),
                done.len() > 0,
                done == lines + seq![line@] + note_all.subrange(0, k as int).map_values(|n: Seq<char>| note_line(n)),
                out@ == sep_joined(done, "\n"@),
            decreases notes@.len() - k,
        {
            let mut n = String::new();
            push_spaces(&mut n, 16);
            push_str(&mut n, " ");
            push_str(&mut n, notes[k].as_str());
            assert(n@ =~= note_line(note_all[k as int]));
            push_line(&mut out, Ghost(done), n.as_str());
            proof {
                let before = note_all.subrange(0, k as int);
                assert(note_all.subrange(0, k + 1) =~= before.push(note_all[k as int]));
                assert(before.push(note_all[k as int]).map_values(|m: Seq<char>| note_line(m))
                    =~= before.map_values(|m: Seq<char>| note_line(m)).push(note_line(note_all[k as int])));
                done = done.push(n@);
            }
            k = k + 1;
            assert(done =~= lines + seq![line@] + note_all.subrange(0, k as int).map_values(|m: Seq<char>| note_line(m)));
        }
        assert(note_all.subrange(0, k as int) =~= note_all);
        proof { lemma_owner_in_range(encoders@, f); }
        if verbose {
            match owner_of(encoders, f) {
                Some(e) => {
                    let codec = format_name(f);
                    let opts = encoders[e].options;
                    let mut j: usize = 0;
                    let ghost mid = done;
                    while j < opts.len()
                        invariant
                            j <= opts@.len(),
                            done.len() > 0,
                            done == mid + option_lines(opts@.subrange(0, j as int), codec@),
                            out@ == sep_joined(done, "\n"@),
                        decreases opts@.len() - j,
                    {
                        let o = &opts[j];
                        let mut a = String::new();
                        push_spaces(&mut a, 8);
                        push_str(&mut a, " option  ");
                        push_str(&mut a, codec);
                        push_str(&mut a, ":");
                        push_str(&mut a, o.key);
                        push_str(&mut a, "=");
                        push_str(&mut a, o.default);
                        push_line(&mut out, Ghost(done), a.as_str());
                        let mut b = String::new();
                        push_spaces(&mut b, 16);
                        push_str(&mut b, " ");
                        push_str(&mut b, o.help);
                        proof { done = done.push(a@); }
                        push_line(&mut out, Ghost(done), b.as_str());
                        proof {
                            done = done.push(b@);
                            let t = opts@.subrange(0, j + 1);
                            assert(t.drop_last() =~= opts@.subrange(0, j as int));
                            assert(t.last() == opts@[j as int]);
                            assert(a@ =~= spaces(8) + " option  "@ + codec@ + ":"@ + t.last().key@ + "="@ + t.last().default@);
                            assert(b@ =~= note_line(t.last().help@));
                        }
                        j = j + 1;
                        assert(done =~= mid + option_lines(opts@.subrange(0, j as int), codec@));
                    }
                    assert(opts@.subrange(0, j as int) =~= opts@);
                },
                None => {},
            }
        }
        i = i + 1;
        assert(done =~= start + blocks(decoders@, encoders@, all.subrange(0, i as int), set, verbose));
    }
    assert(all.subrange(0, 10) =~= all);
    out
}

/// How one encoder of the build is named when another is missing.
pub open spec fn have_entry(c: EncoderCaps) -> Seq<char> {
    spec_display_name(c.format)
        + (if c.lossy { Seq::empty() } else if c.lossless { " lossless"@ } else { " (no mode)"@ })
        + " ("@ + c.name@ + ", "@ + tier_name(c.tier) + ")"@
}

/// Every encoder of the build, in registration order.
pub open spec fn have_entries(es: Seq<EncoderCaps>) -> Seq<Seq<char>>
    decreases es.len(),
{
    if es.len() == 0 { Seq::empty() } else { have_entries(es.drop_last()).push(have_entry(es.last())) }
}

/// The features worth naming: every one when no encoder owns the format;
/// else the native ones, which add a lossy mode, unless lossless output
/// was asked for, which no feature adds.
pub open spec fn fixing_features(features: Seq<&'static str>, owned: bool, need: Need) -> Seq<Seq<char>>
    decreases features.len(),
{
    if features.len() == 0 {
        Seq::empty()
    } else {
        let before = fixing_features(features.drop_last(), owned, need);
        let f = features.last()@;
        if !owned || (need != Need::Lossless && is_native(f)) { before.push(f) } else { before }
    }
}

/// What was wanted, as a phrase.
pub open spec fn wanted(format: Format, need: Need) -> Seq<char> {
    match need {
        Need::Any => spec_display_name(format),
        Need::Lossy => "lossy "@ + spec_display_name(format),
        Need::Lossless => "lossless "@ + spec_display_name(format),
    }
}

/// What an owning encoder writes.
pub open spec fn writes(c: EncoderCaps) -> Seq<char> {
    if c.lossy { "lossy"@ } else { "lossless"@ }
}

/// The lines of the report on an unavailable encoder.
pub open spec fn unavailable_lines(format: Format, need: Need, es: Seq<EncoderCaps>) -> Seq<Seq<char>> {
    let have = have_entries(es);
    let owner = encoder_owner(es, format);
    let native = fixing_features(spec_encoder_features(format), owner is Some, need);
    let first = "no "@ + spec_display_name(format) + " encoder in this build"@ + match need {
        Need::Any => Seq::empty(),
        Need::Lossy => " for lossy output"@,
        Need::Lossless => " for lossless output"@,
    };
    let second = if have.len() == 0 {
        "  this build encodes nothing"@
    } else {
        "  this build encodes: "@ + sep_joined(have, ", "@)
    };
    let third = match owner {
        Some(i) => if native.len() == 0 {
            "  "@ + es[i].name@ + " writes "@ + writes(es[i]) + " only; "@ + "no build offers "@ + wanted(format, need)
        } else {
            "  "@ + es[i].name@ + " writes "@ + writes(es[i]) + " only; "@ + wanted(format, need) + " needs the `"@
                + sep_joined(native, "` or `"@) + "` feature, or a native build from the releases page"@
        },
        None => if native.len() == 0 {
            "  no build offers a "@ + spec_display_name(format) + " encoder"@
        } else {
            "  "@ + wanted(format, need) + " needs the `"@ + sep_joined(native, "` or `"@)
                + "` feature, or a native build from the releases page"@
        },
    };
    let fix = if need != Need::Any && owner is Some {
        seq![if need == Need::Lossy {
            "  or drop -q for the lossless output this build can write"@
        } else {
            "  or drop --lossless for lossy output"@
        }]
    } else {
        Seq::empty()
    };
    seq![first, second, third] + fix + seq!["  run `sqzer --list-codecs` for the full list"@]
}

/// Appends the phrase for what was wanted.
fn push_wanted(out: &mut String, format: Format, need: Need)
    ensures
        final(out)@ == old(out)@ + wanted(format, need),
{
    match need {
        Need::Any => {},
        Need::Lossy => push_str(out, "lossy "),
        Need::Lossless => push_str(out, "lossless "),
    }
    push_str(out, format.display_name());
}

/// The report on an encoder that is missing: what was wanted, what this
/// build has instead, and which feature or build would add it, one item
/// a line.
pub fn render_unavailable(format: Format, need: Need, encoders: &[EncoderCaps]) -> (r: String)
    ensures
        r@ == sep_joined(unavailable_lines(format, need, encoders@), "\n"@),
{
    let mut have: Vec<String> = Vec::new();
    let mut k: usize = 0;
    while k < encoders.len()
        invariant
            k <= encoders@.len(),
            have@.map_values(|s: String| s@) == have_entries(encoders@.subrange(0, k as int)),
        decreases encoders@.len() - k,
    {
        let c = &encoders[k];
        let mut e = String::new();
        push_str(&mut e, c.format.display_name());
        if !c.lossy {
            if c.lossless {
                push_str(&mut e, " lossless");
            } else {
                push_str(&mut e, " (no mode)");
            }
        }
        push_str(&mut e, " (");
        push_str(&mut e, c.name);
        push_str(&mut e, ", ");
        push_tier(&mut e, c.tier);
        push_str(&mut e, ")");
        proof {
            let t = encoders@.subrange(0, k + 1);
            assert(t.drop_last() =~= encoders@.subrange(0, k as int));
            assert(t.last() == encoders@[k as int]);
            assert(e@ =~= have_entry(encoders@[k as int]));
        }
        have.push(e);
        k = k + 1;
        assert(have@.map_values(|s: String| s@) =~= have_entries(encoders@.subrange(0, k as int)));
    }
    assert(encoders@.subrange(0, k as int) =~= encoders@);
    proof { lemma_owner_in_range(encoders@, format); }
    let owner = owner_of(encoders, format);
    let features = format.encoder_features();
    let mut native: Vec<String> = Vec::new();
    let mut k: usize = 0;
    while k < features.len()
        invariant
            k <= features@.len(),
            features@ == spec_encoder_features(format),
            native@.map_values(|s: String| s@) == fixing_features(features@.subrange(0, k as int), owner is Some, need),
        decreases features@.len() - k,
    {
        proof {
            let t = features@.subrange(0, k + 1);
            assert(t.drop_last() =~= features@.subrange(0, k as int));
            assert(t.last() == features@[k as int]);
        }
        let wanted_here = match owner {
            None => true,
            Some(_) => need != Need::Lossless && native_feature(features[k]),
        };
        if wanted_here {
            native.push(owned(features[k]));
        }
        k = k + 1;
        assert(native@.map_values(|s: String| s@)
            =~= fixing_features(features@.subrange(0, k as int), owner is Some, need));
    }
    assert(features@.subrange(0, k as int) =~= features@);

    let ghost want = unavailable_lines(format, need, encoders@);
    let mut lines: Vec<String> = Vec::new();
    let mut first = String::new();
    push_str(&mut first, "no ");
    push_str(&mut first, format.display_name());
    push_str(&mut first, " encoder in this build");
    match need {
        Need::Any => {},
        Need::Lossy => push_str(&mut first, " for lossy output"),
        Need::Lossless => push_str(&mut first, " for lossless output"),
    }
    assert(first@ =~= want[0]);
    lines.push(first);
    let mut second = String::new();
    if have.len() == 0 {
        push_str(&mut second, "  this build encodes nothing");
    } else {
        push_str(&mut second, "  this build encodes: ");
        push_sep_joined(&mut second, &have, ", ");
    }
    assert(second@ =~= want[1]);
    lines.push(second);
    let mut third = String::new();
    match owner {
        Some(i) => {
            let c = &encoders[i];
            push_str(&mut third, "  ");
            push_str(&mut third, c.name);
            push_str(&mut third, " writes ");
            push_str(&mut third, if c.lossy { "lossy" } else { "lossless" });
            push_str(&mut third, " only; ");
            if native.len() == 0 {
                push_str(&mut third, "no build offers ");
                push_wanted(&mut third, format, need);
            } else {
                push_wanted(&mut third, format, need);
                push_str(&mut third, " needs the `");
                push_sep_joined(&mut third, &native, "` or `");
                push_str(&mut third, "` feature, or a native build from the releases page");
            }
        },
        None => {
            if native.len() == 0 {
                push_str(&mut third, "  no build offers a ");
                push_str(&mut third, format.display_name());
                push_str(&mut third, " encoder");
            } else {
                push_str(&mut third, "  ");
                push_wanted(&mut third, format, need);
                push_str(&mut third, " needs the `");
                push_sep_joined(&mut third, &native, "` or `");
                push_str(&mut third, "` feature, or a native build from the releases page");
            }
        },
    }
    assert(third@ =~= want[2]);
    lines.push(third);
    let ghost fixed = need != Need::Any && owner is Some;
    if need != Need::Any && owner.is_some() {
        let mut fix = String::new();
        if need == Need::Lossy {
            push_str(&mut fix, "  or drop -q for the lossless output this build can write");
        } else {
            push_str(&mut fix, "  or drop --lossless for lossy output");
        }
        assert(fix@ =~= want[3]);
        lines.push(fix);
    }
    let mut last = String::new();
    push_str(&mut last, "  run `sqzer --list-codecs` for the full list");
    lines.push(last);
    assert(lines@.map_values(|s: String| s@) =~= unavailable_lines(format, need, encoders@));
    let mut out = String::new();
    push_sep_joined(&mut out, &lines, "\n");
    out
}

} // verus!
