//! The checks between parsed arguments and a run: refusals and their exit
//! codes, the shape of `--codec-opt`, the stdin rules, and when `-o` names
//! a single file.

use vstd::prelude::*;
use crate::cli::inputs::Input;
use crate::cli::output::Placement;
use crate::cli::output::first_index_of;
use crate::cli::output::lemma_first_index;
use crate::cli::args::{format_name, is_output_format, spec_format_name};
use crate::cli::listing::{
    encoder_owner, lemma_owner_in_range, owner_of, push_sep_joined, render_unavailable, sep_joined, unavailable_lines,
};
use crate::cli::report::Need;
use crate::format::{CodecOption, EncoderCaps, Format, spec_display_name, spec_from_extension};
use crate::registry::{DecoderState, has_decoder};
use crate::text::{chars_of, push_str, str_eq, string_of};

verus! {

/// A refusal with its exit code.
#[derive(Debug, Clone, PartialEq, Eq)]
pub struct Failure {
    /// 2 for an argument error, 3 when nothing could be done.
    pub code: u8,
    /// One or more lines, without the `error:` prefix.
    pub message: String,
}

impl Failure {
    /// Exit 2.
    pub fn usage(message: String) -> (r: Self)
        ensures
            r.code == 2,
            r.message@ == message@,
    {
        Failure { code: 2, message }
    }

    /// Exit 3.
    pub fn nothing(message: String) -> (r: Self)
        ensures
            r.code == 3,
            r.message@ == message@,
    {
        Failure { code: 3, message }
    }
}

/// The message for a `--codec-opt` that is not `codec:key=value`.
pub open spec fn codec_opt_message(opt: Seq<char>) -> Seq<char> {
    "`"@ + opt + "`: a codec option is `codec:key=value`, for example `jpeg:progressive=false`"@
}

/// `codec:key=value` split at the first `:` and the first `=` after it;
/// codec and key must not be empty, the value may be.
pub open spec fn spec_split_codec_opt(opt: Seq<char>) -> Option<(Seq<char>, Seq<char>, Seq<char>)> {
    let colon = first_index_of(opt, ':');
    if colon < 0 {
        None
    } else {
        let codec = opt.subrange(0, colon);
        let rest = opt.skip(colon + 1);
        let eq = first_index_of(rest, '=');
        if eq < 0 {
            None
        } else {
            let key = rest.subrange(0, eq);
            let value = rest.skip(eq + 1);
            if codec.len() == 0 || key.len() == 0 {
                None
            } else {
                Some((codec, key, value))
            }
        }
    }
}

/// The index of the first `c` at or after `from`.
fn index_from(s: &[char], from: usize, c: char) -> (r: Option<usize>)
    requires
        from <= s@.len(),
    ensures
        match r {
            Some(k) => from <= k < s@.len() && k < s.len() && first_index_of(s@.skip(from as int), c) == k - from,
            None => first_index_of(s@.skip(from as int), c) < 0,
        },
{
    let ghost rest = s@.skip(from as int);
    proof { lemma_first_index(rest, c); }
    let mut i = from;
    while i < s.len()
        invariant
            from <= i <= s@.len(),
            rest == s@.skip(from as int),
            -1 <= first_index_of(rest, c) < rest.len(),
            first_index_of(rest, c) >= 0 ==> rest[first_index_of(rest, c)] == c,
            forall|j: int| 0 <= j < rest.len() && (first_index_of(rest, c) < 0 || j < first_index_of(rest, c))
                ==> rest[j] != c,
            forall|j: int| from <= j < i ==> s@[j] != c,
        decreases s@.len() - i,
    {
        if s[i] == c {
            assert(rest[i - from] == c);
            let ghost f = first_index_of(rest, c);
            assert(f == i - from) by {
                if f < 0 || i - from < f {
                    assert(rest[i - from] != c);
                }
                if 0 <= f < i - from {
                    assert(rest[f] == s@[from + f]);
                }
            }
            return Some(i);
        }
        i = i + 1;
    }
    assert(first_index_of(rest, c) < 0) by {
        let f = first_index_of(rest, c);
        if f >= 0 {
            assert(rest[f] == s@[from + f]);
        }
    }
    None
}

/// `codec:key=value`, each part as its own text.
///
/// # Errors
/// A usage [`Failure`] when a part is missing.
pub fn split_codec_opt(opt: &str) -> (r: Result<(String, String, String), Failure>)
    ensures
        match spec_split_codec_opt(opt@) {
            Some((c, k, v)) => r matches Ok((rc, rk, rv)) && rc@ == c && rk@ == k && rv@ == v,
            None => r matches Err(f) && f.code == 2 && f.message@ == codec_opt_message(opt@),
        },
{
    let cs = chars_of(opt);
    assert(cs@.skip(0) =~= opt@);
    let bad = {
        let mut m = String::new();
        push_str(&mut m, "`");
        push_str(&mut m, opt);
        push_str(&mut m, "`: a codec option is `codec:key=value`, for example `jpeg:progressive=false`");
        Failure::usage(m)
    };
    let colon = match index_from(cs.as_slice(), 0, ':') {
        Some(c) => c,
        None => return Err(bad),
    };
    let ghost rest = opt@.skip(colon + 1);
    assert(cs@.skip(colon + 1) =~= rest);
    let eq = match index_from(cs.as_slice(), colon + 1, '=') {
        Some(e) => e,
        None => return Err(bad),
    };
    if colon == 0 || eq == colon + 1 {
        return Err(bad);
    }
    let codec = string_of(vstd::slice::slice_subrange(cs.as_slice(), 0, colon));
    let key = string_of(vstd::slice::slice_subrange(cs.as_slice(), colon + 1, eq));
    let value = string_of(vstd::slice::slice_subrange(cs.as_slice(), eq + 1, cs.len()));
    assert(codec@ =~= opt@.subrange(0, colon as int));
    assert(key@ =~= rest.subrange(0, eq - (colon + 1)));
    assert(value@ =~= rest.skip(eq - (colon + 1) + 1));
    Ok((codec, key, value))
}

/// How many inputs read stdin.
pub open spec fn stdin_count(inputs: Seq<Input>) -> nat
    decreases inputs.len(),
{
    if inputs.len() == 0 {
        0
    } else {
        stdin_count(inputs.drop_last()) + if inputs.last() is Stdin { 1nat } else { 0nat }
    }
}

/// What the stdin rules refuse, in the order they are checked: stdin needs
/// exactly one `-f`, has no meaning with `--in-place`, and under `--json`
/// (outside a dry run) the image needs `-o`.
pub open spec fn stdin_refusal(any_stdin: bool, formats: nat, in_place: bool, has_output: bool, json: bool, dry_run: bool) -> Option<Seq<char>> {
    if !any_stdin {
        None
    } else if formats != 1 {
        Some("reading stdin needs exactly one -f, there is no file name to infer from"@)
    } else if in_place {
        Some("--in-place has no meaning for stdin"@)
    } else if !has_output && json && !dry_run {
        Some("--json and the image cannot both go to stdout; pass -o for the image"@)
    } else {
        None
    }
}

/// Whether any input reads stdin.
pub fn reads_stdin(inputs: &[Input]) -> (r: bool)
    ensures
        r == (stdin_count(inputs@) > 0),
{
    let mut i: usize = 0;
    while i < inputs.len()
        invariant
            i <= inputs@.len(),
            stdin_count(inputs@.subrange(0, i as int)) == 0,
        decreases inputs@.len() - i,
    {
        assert(inputs@.subrange(0, i + 1).drop_last() =~= inputs@.subrange(0, i as int));
        if let Input::Stdin = inputs[i] {
            assert(stdin_count(inputs@) > 0) by {
                lemma_stdin_count_grows(inputs@, i + 1);
            }
            return true;
        }
        i = i + 1;
    }
    assert(inputs@.subrange(0, i as int) =~= inputs@);
    false
}

proof fn lemma_stdin_count_grows(s: Seq<Input>, n: int)
    requires
        0 < n <= s.len(),
        s[n - 1] is Stdin,
    ensures
        stdin_count(s) > 0,
    decreases s.len(),
{
    if n < s.len() {
        assert(s.drop_last()[n - 1] == s[n - 1]);
        lemma_stdin_count_grows(s.drop_last(), n);
    }
}

/// The stdin rules, checked once the inputs are resolved.
///
/// # Errors
/// A usage [`Failure`] naming the rule that is broken.
pub fn check_stdin(inputs: &[Input], formats: usize, in_place: bool, has_output: bool, json: bool, dry_run: bool) -> (r: Result<(), Failure>)
    ensures
        match stdin_refusal(stdin_count(inputs@) > 0, formats as nat, in_place, has_output, json, dry_run) {
            Some(m) => r matches Err(f) && f.code == 2 && f.message@ == m,
            None => r is Ok,
        },
{
    if !reads_stdin(inputs) {
        return Ok(());
    }
    let mut m = String::new();
    if formats != 1 {
        push_str(&mut m, "reading stdin needs exactly one -f, there is no file name to infer from");
        return Err(Failure::usage(m));
    }
    if in_place {
        push_str(&mut m, "--in-place has no meaning for stdin");
        return Err(Failure::usage(m));
    }
    if !has_output && json && !dry_run {
        push_str(&mut m, "--json and the image cannot both go to stdout; pass -o for the image");
        return Err(Failure::usage(m));
    }
    Ok(())
}

/// The checks that need the resolved inputs: the stdin rules, then
/// whether `-o` names one file rather than a directory. It does when it
/// has an extension, is not an existing directory, and there is one input
/// and at most one format; what the file system says of the path comes in
/// as `output_has_extension` and `output_is_dir`.
///
/// # Errors
/// A usage [`Failure`] naming the stdin rule that is broken; `placement`
/// is then left as it was.
pub fn finish(placement: &mut Placement, inputs: &[Input], formats: usize, json: bool, dry_run: bool, output_has_extension: bool, output_is_dir: bool) -> (r: Result<(), Failure>)
    ensures
        match stdin_refusal(stdin_count(inputs@) > 0, formats as nat, old(placement).in_place, old(placement).output is Some, json, dry_run) {
            Some(m) => r matches Err(f) && f.code == 2 && f.message@ == m && *final(placement) == *old(placement),
            None => r is Ok
                && final(placement).single_file == (old(placement).output is Some && output_has_extension
                    && !output_is_dir && inputs@.len() == 1 && formats <= 1)
                && final(placement).output == old(placement).output
                && final(placement).suffix == old(placement).suffix
                && final(placement).template == old(placement).template
                && final(placement).in_place == old(placement).in_place,
        },
{
    let has_output = placement.output.is_some();
    match check_stdin(inputs, formats, placement.in_place, has_output, json, dry_run) {
        Err(f) => Err(f),
        Ok(()) => {
            placement.single_file = has_output && output_has_extension && !output_is_dir && inputs.len() == 1 && formats <= 1;
            Ok(())
        },
    }
}

/// What the run's target asks of an encoder.
#[derive(Debug, Clone, Copy, PartialEq, Eq, Structural)]
pub enum TargetMode {
    /// A score to reach: lossy output, read back to be scored.
    Perceptual,
    /// An explicit quality: lossy output.
    Quality,
    /// Lossless output.
    Lossless,
}

/// Whether a usable decoder of the build reads `f`.
pub open spec fn decodes(ds: Seq<DecoderState>, f: Format) -> bool {
    exists|i: int| 0 <= i < ds.len() && ds[i].caps.format == f && ds[i].unavailable is None
}

/// Why `f` cannot be written as the target asks, if it cannot: no
/// encoder, an encoder without the mode, or, for a perceptual target, no
/// decoder to score the output with.
pub open spec fn format_refusal(f: Format, mode: TargetMode, es: Seq<EncoderCaps>, ds: Seq<DecoderState>) -> Option<Seq<char>> {
    match encoder_owner(es, f) {
        None => Some(sep_joined(unavailable_lines(f, Need::Any, es), "\n"@)),
        Some(i) => if mode == TargetMode::Quality && !es[i].lossy {
            Some(sep_joined(unavailable_lines(f, Need::Lossy, es), "\n"@))
        } else if mode == TargetMode::Lossless && !es[i].lossless {
            Some(sep_joined(unavailable_lines(f, Need::Lossless, es), "\n"@))
        } else if mode == TargetMode::Perceptual && es[i].lossy && !decodes(ds, f) {
            Some("a perceptual target needs a "@ + spec_display_name(f)
                + " decoder to score the output, and this build has none\n  pass -q for an explicit quality, or --lossless"@)
        } else {
            None
        },
    }
}

/// The refusal of the first format of `fs` that has one.
pub open spec fn first_refusal(fs: Seq<Format>, mode: TargetMode, es: Seq<EncoderCaps>, ds: Seq<DecoderState>) -> Option<Seq<char>>
    decreases fs.len(),
{
    if fs.len() == 0 {
        None
    } else {
        match first_refusal(fs.drop_last(), mode, es, ds) {
            Some(m) => Some(m),
            None => format_refusal(fs.last(), mode, es, ds),
        }
    }
}

/// Every requested format must have an encoder that can do what the
/// target asks, else nothing can be done: exit 3, with the report on the
/// first format that cannot be written.
pub fn check_formats(formats: &[Format], mode: TargetMode, encoders: &[EncoderCaps], decoders: &[DecoderState]) -> (r: Result<(), Failure>)
    ensures
        match first_refusal(formats@, mode, encoders@, decoders@) {
            Some(m) => r matches Err(f) && f.code == 3 && f.message@ == m,
            None => r is Ok,
        },
{
    let mut k: usize = 0;
    while k < formats.len()
        invariant
            k <= formats@.len(),
            first_refusal(formats@.subrange(0, k as int), mode, encoders@, decoders@) is None,
        decreases formats@.len() - k,
    {
        let f = formats[k];
        proof {
            let t = formats@.subrange(0, k + 1);
            assert(t.drop_last() =~= formats@.subrange(0, k as int));
            assert(t.last() == f);
            lemma_owner_in_range(encoders@, f);
            lemma_refusal_prefix(formats@, mode, encoders@, decoders@, k + 1);
        }
        match owner_of(encoders, f) {
            None => return Err(Failure::nothing(render_unavailable(f, Need::Any, encoders))),
            Some(i) => {
                let c = &encoders[i];
                if mode == TargetMode::Quality && !c.lossy {
                    return Err(Failure::nothing(render_unavailable(f, Need::Lossy, encoders)));
                }
                if mode == TargetMode::Lossless && !c.lossless {
                    return Err(Failure::nothing(render_unavailable(f, Need::Lossless, encoders)));
                }
                if mode == TargetMode::Perceptual && c.lossy && !has_decoder(decoders, f) {
                    let mut m = String::new();
                    push_str(&mut m, "a perceptual target needs a ");
                    push_str(&mut m, f.display_name());
                    push_str(&mut m, " decoder to score the output, and this build has none\n  pass -q for an explicit quality, or --lossless");
                    return Err(Failure::nothing(m));
                }
            },
        }
        k = k + 1;
    }
    assert(formats@.subrange(0, k as int) =~= formats@);
    Ok(())
}

/// A prefix whose last format is refused decides the answer for the
/// whole list.
proof fn lemma_refusal_prefix(fs: Seq<Format>, mode: TargetMode, es: Seq<EncoderCaps>, ds: Seq<DecoderState>, n: int)
    requires
        0 <= n <= fs.len(),
    ensures
        first_refusal(fs.subrange(0, n), mode, es, ds) is Some ==> first_refusal(fs, mode, es, ds)
            == first_refusal(fs.subrange(0, n), mode, es, ds),
    decreases fs.len() - n,
{
    if n < fs.len() {
        let t = fs.subrange(0, n + 1);
        assert(t.drop_last() =~= fs.subrange(0, n));
        lemma_refusal_prefix(fs, mode, es, ds, n + 1);
    } else {
        assert(fs.subrange(0, n) =~= fs);
    }
}

/// `codec:key` for each option of an encoder.
pub open spec fn option_keys(opts: Seq<CodecOption>, codec: Seq<char>) -> Seq<Seq<char>>
    decreases opts.len(),
{
    if opts.len() == 0 {
        Seq::empty()
    } else {
        option_keys(opts.drop_last(), codec).push(codec + ":"@ + opts.last().key@)
    }
}

/// Whether an encoder accepts the key.
pub open spec fn accepts(opts: Seq<CodecOption>, key: Seq<char>) -> bool {
    exists|i: int| 0 <= i < opts.len() && opts[i].key@ == key
}

/// What a `--codec-opt` comes to: the codec's name, the key and the
/// value, or the usage message that refuses it.
pub open spec fn spec_codec_opt(opt: Seq<char>, es: Seq<EncoderCaps>) -> Result<(Seq<char>, Seq<char>, Seq<char>), Seq<char>> {
    match spec_split_codec_opt(opt) {
        None => Err(codec_opt_message(opt)),
        Some((codec, key, value)) => match spec_from_extension(codec) {
            Some(f) if is_output_format(f) => match encoder_owner(es, f) {
                None => Err("`"@ + opt + "`: no "@ + spec_display_name(f)
                    + " encoder in this build to take it; `sqzer --list-codecs` shows what there is"@),
                Some(i) => if accepts(es[i].options@, key) {
                    Ok((spec_format_name(f), key, value))
                } else {
                    let known = option_keys(es[i].options@, spec_format_name(f));
                    Err("`"@ + opt + "`: unknown "@ + spec_format_name(f) + " option `"@ + key + "`; "@ + es[i].name@
                        + if known.len() == 0 { " takes no options"@ } else { " accepts "@ + sep_joined(known, ", "@) }
                        + ". `sqzer --list-codecs -v` describes each"@)
                },
            },
            _ => Err("`"@ + opt + "`: unknown codec `"@ + codec + "`; one of "@ + "jpeg, png, webp, avif, jxl"@),
        },
    }
}

/// A `--codec-opt`, checked against the encoder that owns its codec:
/// the codec as `--codec-opt` names it, the key and the value.
///
/// # Errors
/// A usage [`Failure`] for an option that is not `codec:key=value`, a
/// codec that names no output format, a format without an encoder in
/// this build, or a key its encoder does not know, naming the ones it
/// does.
pub fn check_codec_opt(opt: &str, encoders: &[EncoderCaps]) -> (r: Result<(String, String, String), Failure>)
    ensures
        match spec_codec_opt(opt@, encoders@) {
            Ok((c, k, v)) => r matches Ok((rc, rk, rv)) && rc@ == c && rk@ == k && rv@ == v,
            Err(m) => r matches Err(f) && f.code == 2 && f.message@ == m,
        },
{
    let (codec, key, value) = match split_codec_opt(opt) {
        Ok(parts) => parts,
        Err(f) => return Err(f),
    };
    let format = match Format::from_extension(codec.as_str()) {
        Some(f) if f == Format::Jpeg || f == Format::Png || f == Format::WebP || f == Format::Avif || f
            == Format::Jxl => f,
        _ => {
            let mut m = String::new();
            push_str(&mut m, "`");
            push_str(&mut m, opt);
            push_str(&mut m, "`: unknown codec `");
            push_str(&mut m, codec.as_str());
            push_str(&mut m, "`; one of ");
            push_str(&mut m, "jpeg, png, webp, avif, jxl");
            return Err(Failure::usage(m));
        },
    };
    let name = format_name(format);
    proof { lemma_owner_in_range(encoders@, format); }
    let i = match owner_of(encoders, format) {
        Some(i) => i,
        None => {
            let mut m = String::new();
            push_str(&mut m, "`");
            push_str(&mut m, opt);
            push_str(&mut m, "`: no ");
            push_str(&mut m, format.display_name());
            push_str(&mut m, " encoder in this build to take it; `sqzer --list-codecs` shows what there is");
            return Err(Failure::usage(m));
        },
    };
    let c = &encoders[i];
    let opts = c.options;
    let mut known: Vec<String> = Vec::new();
    let mut found = false;
    let mut j: usize = 0;
    while j < opts.len()
        invariant
            j <= opts@.len(),
            known@.map_values(|s: String| s@) == option_keys(opts@.subrange(0, j as int), name@),
            found == (exists|t: int| 0 <= t < j && opts@[t].key@ == key@),
        decreases opts@.len() - j,
    {
        proof {
            let t = opts@.subrange(0, j + 1);
            assert(t.drop_last() =~= opts@.subrange(0, j as int));
            assert(t.last() == opts@[j as int]);
        }
        if str_eq(opts[j].key, key.as_str()) {
            found = true;
        }
        let mut k = String::new();
        push_str(&mut k, name);
        push_str(&mut k, ":");
        push_str(&mut k, opts[j].key);
        known.push(k);
        j = j + 1;
        assert(known@.map_values(|s: String| s@) =~= option_keys(opts@.subrange(0, j as int), name@));
    }
    assert(opts@.subrange(0, j as int) =~= opts@);
    if found {
        let mut n = String::new();
        push_str(&mut n, name);
        return Ok((n, key, value));
    }
    let mut m = String::new();
    push_str(&mut m, "`");
    push_str(&mut m, opt);
    push_str(&mut m, "`: unknown ");
    push_str(&mut m, name);
    push_str(&mut m, " option `");
    push_str(&mut m, key.as_str());
    push_str(&mut m, "`; ");
    push_str(&mut m, c.name);
    if known.len() == 0 {
        push_str(&mut m, " takes no options");
    } else {
        push_str(&mut m, " accepts ");
        push_sep_joined(&mut m, &known, ", ");
    }
    push_str(&mut m, ". `sqzer --list-codecs -v` describes each");
    Err(Failure::usage(m))
}

} // verus!
