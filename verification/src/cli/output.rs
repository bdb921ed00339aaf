//! Where an output goes.
//!
//! The default is a sibling of the input with the same stem and the new
//! extension. `-o` names a file or a directory, `--suffix` and
//! `--template` change the name, `--in-place` is the only way an output
//! path may equal an input path, and `-r` with `-o` mirrors each input
//! tree under the output directory.

use vstd::prelude::*;
use crate::cli::args::{format_name, spec_format_name};
use crate::cli::inputs::{Input, input_path, relative_text};
use crate::cli::paths::{
    file_name, file_name_of, join, join_text, parent, parent_of, same_path, spec_same_path,
    stem_of, stem_text,
};
use crate::format::{Format, spec_display_name, spec_extension};
use crate::text::{chars_eq, chars_of, decimal, push_char, push_decimal, push_str, string_of};

verus! {

/// The index of the first `c` in `s`, or -1.
pub open spec fn first_index_of(s: Seq<char>, c: char) -> int
    decreases s.len(),
{
    if s.len() == 0 {
        -1
    } else if s[0] == c {
        0
    } else {
        let r = first_index_of(s.drop_first(), c);
        if r < 0 { -1 } else { r + 1 }
    }
}

/// Where the first `c` stands: nothing before it is `c`.
pub proof fn lemma_first_index(s: Seq<char>, c: char)
    ensures
        -1 <= first_index_of(s, c) < s.len(),
        first_index_of(s, c) >= 0 ==> s[first_index_of(s, c)] == c,
        forall|j: int| 0 <= j < s.len() && (first_index_of(s, c) < 0 || j < first_index_of(s, c))
            ==> s[j] != c,
    decreases s.len(),
{
    if s.len() > 0 && s[0] != c {
        lemma_first_index(s.drop_first(), c);
        assert forall|j: int| 0 <= j < s.len() && (first_index_of(s, c) < 0 || j < first_index_of(s, c))
            implies s[j] != c by {
            if j > 0 {
                assert(s.drop_first()[j - 1] == s[j]);
            }
        }
    }
}

/// The first `c` in `s` at or after `from`, as an index into `s`.
fn find_from(s: &[char], from: usize, c: char) -> (r: Option<usize>)
    requires
        from <= s@.len(),
    ensures
        match r {
            Some(k) => from <= k < s.len() && k < s@.len() && first_index_of(s@.skip(from as int), c) == k - from,
            None => first_index_of(s@.skip(from as int), c) < 0,
        },
{
    let ghost rest = s@.skip(from as int);
    proof { lemma_first_index(rest, c); }
    let mut i = from;
    while i < s.len()
        invariant
            from <= i <= s@.len(),
            rest == s@.skip(from as int),
            -1 <= first_index_of(rest, c) < rest.len(),
            first_index_of(rest, c) >= 0 ==> rest[first_index_of(rest, c)] == c,
            forall|j: int| 0 <= j < rest.len() && (first_index_of(rest, c) < 0 || j < first_index_of(rest, c))
                ==> rest[j] != c,
            forall|j: int| from <= j < i ==> s@[j] != c,
        decreases s@.len() - i,
    {
        if s[i] == c {
            assert(rest[i - from] == c);
            let ghost f = first_index_of(rest, c);
            assert(f == i - from) by {
                if f < 0 || i - from < f {
                    assert(rest[i - from] != c);
                }
                if 0 <= f < i - from {
                    assert(rest[f] == s@[from + f]);
                }
            }
            return Some(i);
        }
        i = i + 1;
    }
    assert(first_index_of(rest, c) < 0) by {
        let f = first_index_of(rest, c);
        if f >= 0 {
            assert(rest[f] == s@[from + f]);
        }
    }
    None
}

/// Every occurrence of `pat` in `s`, left to right and not overlapping,
/// replaced by `with`.
pub open spec fn replace_all(s: Seq<char>, pat: Seq<char>, with: Seq<char>) -> Seq<char>
    decreases s.len(),
{
    if s.len() == 0 {
        s
    } else if 0 < pat.len() <= s.len() && s.subrange(0, pat.len() as int) == pat {
        with + replace_all(s.skip(pat.len() as int), pat, with)
    } else {
        seq![s[0]] + replace_all(s.skip(1), pat, with)
    }
}

/// Whether `pat` stands in `s` at `i`.
fn matches_at(s: &[char], i: usize, pat: &[char]) -> (r: bool)
    requires
        i + pat@.len() <= s@.len(),
    ensures
        r == (s@.subrange(i as int, i + pat@.len()) == pat@),
{
    let mut k: usize = 0;
    while k < pat.len()
        invariant
            i + pat@.len() <= s@.len(),
            s@.len() == s.len(),
            k <= pat@.len(),
            forall|j: int| 0 <= j < k ==> s@[i + j] == pat@[j],
        decreases pat@.len() - k,
    {
        assert(i + k < s@.len());
        if s[i + k] != pat[k] {
            assert(s@.subrange(i as int, i + pat@.len())[k as int] != pat@[k as int]);
            return false;
        }
        k = k + 1;
    }
    assert(s@.subrange(i as int, i + pat@.len()) =~= pat@);
    true
}

/// `s` with every `pat` replaced by `with`: `str::replace`.
pub fn replace_text(s: &str, pat: &str, with: &str) -> (r: String)
    requires
        pat@.len() > 0,
    ensures
        r@ == replace_all(s@, pat@, with@),
{
    let cs = chars_of(s);
    let ps = chars_of(pat);
    let mut out = String::new();
    let mut i: usize = 0;
    assert(cs@.skip(0) =~= s@);
    assert(out@ + replace_all(s@, pat@, with@) =~= replace_all(s@, pat@, with@));
    while i < cs.len()
        invariant
            cs@ == s@,
            ps@ == pat@,
            ps@.len() > 0,
            i <= cs@.len(),
            out@ + replace_all(cs@.skip(i as int), pat@, with@) == replace_all(s@, pat@, with@),
        decreases cs@.len() - i,
    {
        let ghost rest = cs@.skip(i as int);
        let ghost before = out@;
        if cs.len() - i >= ps.len() && matches_at(cs.as_slice(), i, ps.as_slice()) {
            assert(rest.subrange(0, pat@.len() as int) =~= cs@.subrange(i as int, i + pat@.len()));
            assert(rest.skip(pat@.len() as int) =~= cs@.skip(i + pat@.len()));
            push_str(&mut out, with);
            i = i + ps.len();
            assert(before + replace_all(rest, pat@, with@) =~= out@ + replace_all(cs@.skip(i as int), pat@, with@));
        } else {
            assert(rest.len() >= pat@.len() ==> rest.subrange(0, pat@.len() as int) =~= cs@.subrange(i as int, i + pat@.len()));
            assert(rest.skip(1) =~= cs@.skip(i + 1));
            let c = cs[i];
            push_char(&mut out, c);
            i = i + 1;
            assert(before + replace_all(rest, pat@, with@) =~= out@ + replace_all(cs@.skip(i as int), pat@, with@));
        }
    }
    assert(cs@.skip(i as int) =~= Seq::<char>::empty());
    assert(out@ + Seq::<char>::empty() =~= out@);
    out
}

/// The placeholders `--template` accepts.
pub const PLACEHOLDERS: &'static [&'static str; 8] = &[
    "stem", "ext", "width", "height", "format", "quality", "dir", "name",
];

/// Whether `key` is one of the placeholders.
pub open spec fn is_placeholder(key: Seq<char>) -> bool {
    key == "stem"@ || key == "ext"@ || key == "width"@ || key == "height"@ || key == "format"@
        || key == "quality"@ || key == "dir"@ || key == "name"@
}

/// `unclosed `{` in template `t``.
pub open spec fn unclosed_message(t: Seq<char>) -> Seq<char> {
    "unclosed `{` in template `"@ + t + "`"@
}

/// `stray `}` in template `t``.
pub open spec fn stray_message(t: Seq<char>) -> Seq<char> {
    "stray `}` in template `"@ + t + "`"@
}

/// The message for a placeholder that is not one of the known ones.
pub open spec fn unknown_message(key: Seq<char>) -> Seq<char> {
    "unknown placeholder `{"@ + key
        + "}` in template; one of {stem} {ext} {width} {height} {format} {quality} {dir} {name}"@
}

/// What checking the rest of template `t` finds: each `{` closes with a
/// `}` around a known placeholder, and no `}` stands alone, before the
/// next `{` or after the last.
pub open spec fn template_check(rest: Seq<char>, t: Seq<char>) -> Result<(), Seq<char>>
    decreases rest.len(),
{
    let open = first_index_of(rest, '{');
    if open < 0 {
        if first_index_of(rest, '}') >= 0 {
            Err(stray_message(t))
        } else {
            Ok(())
        }
    } else if 0 <= first_index_of(rest, '}') < open {
        Err(stray_message(t))
    } else {
        proof { lemma_first_index(rest, '{'); }
        let after = rest.skip(open + 1);
        let close = first_index_of(after, '}');
        if close < 0 {
            Err(unclosed_message(t))
        } else if !is_placeholder(after.subrange(0, close)) {
            Err(unknown_message(after.subrange(0, close)))
        } else {
            proof { lemma_first_index(after, '}'); }
            template_check(after.skip(close + 1), t)
        }
    }
}

/// A checked `--template`.
#[derive(Debug)]
pub struct Template {
    text: String,
}

impl View for Template {
    type V = Seq<char>;

    closed spec fn view(&self) -> Seq<char> {
        self.text@
    }
}

impl Clone for Template {
    fn clone(&self) -> (r: Self)
        ensures
            r@ == self@,
    {
        Template { text: self.text.clone() }
    }
}

fn is_placeholder_key(key: &[char]) -> (r: bool)
    ensures
        r == is_placeholder(key@),
{
    chars_eq(key, "stem") || chars_eq(key, "ext") || chars_eq(key, "width") || chars_eq(key, "height")
        || chars_eq(key, "format") || chars_eq(key, "quality") || chars_eq(key, "dir")
        || chars_eq(key, "name")
}

fn check_from(cs: &[char], pos: usize, t: &str) -> (r: Result<(), String>)
    requires
        pos <= cs@.len(),
    ensures
        match template_check(cs@.skip(pos as int), t@) {
            Ok(()) => r is Ok,
            Err(m) => r matches Err(x) && x@ == m,
        },
    decreases cs@.len() - pos,
{
    let ghost rest = cs@.skip(pos as int);
    match find_from(cs, pos, '{') {
        None => {
            match find_from(cs, pos, '}') {
                Some(_) => {
                    let mut m = String::new();
                    push_str(&mut m, "stray `}` in template `");
                    push_str(&mut m, t);
                    push_str(&mut m, "`");
                    Err(m)
                },
                None => Ok(()),
            }
        },
        Some(o) => {
            if let Some(c) = find_from(cs, pos, '}') {
                if c < o {
                    let mut m = String::new();
                    push_str(&mut m, "stray `}` in template `");
                    push_str(&mut m, t);
                    push_str(&mut m, "`");
                    return Err(m);
                }
            }
            proof { lemma_first_index(rest, '{'); }
            let ghost after = rest.skip(o - pos + 1);
            assert(after =~= cs@.skip(o + 1));
            match find_from(cs, o + 1, '}') {
                None => {
                    let mut m = String::new();
                    push_str(&mut m, "unclosed `{` in template `");
                    push_str(&mut m, t);
                    push_str(&mut m, "`");
                    Err(m)
                },
                Some(c) => {
                    let key = vstd::slice::slice_subrange(cs, o + 1, c);
                    assert(key@ =~= after.subrange(0, c - (o + 1)));
                    if !is_placeholder_key(key) {
                        let mut m = String::new();
                        push_str(&mut m, "unknown placeholder `{");
                        let k = string_of(key);
                        push_str(&mut m, k.as_str());
                        push_str(&mut m, "}` in template; one of {stem} {ext} {width} {height} {format} {quality} {dir} {name}");
                        Err(m)
                    } else {
                        assert(after.skip(c - (o + 1) + 1) =~= cs@.skip(c + 1));
                        check_from(cs, c + 1, t)
                    }
                },
            }
        },
    }
}

impl Template {
    /// Checks every `{placeholder}` is known and the braces balance.
    ///
    /// # Errors
    /// A message naming the offending placeholder.
    pub fn new(t: &str) -> (r: Result<Self, String>)
        ensures
            match template_check(t@, t@) {
                Ok(()) => r matches Ok(tp) && tp@ == t@,
                Err(m) => r matches Err(x) && x@ == m,
            },
    {
        let cs = chars_of(t);
        assert(cs@.skip(0) =~= t@);
        match check_from(cs.as_slice(), 0, t) {
            Ok(()) => {
                let mut text = String::new();
                push_str(&mut text, t);
                assert(text@ =~= t@);
                Ok(Template { text })
            },
            Err(m) => Err(m),
        }
    }
}

/// The quality an output was encoded at, as a name shows it.
#[derive(Debug, Clone, Copy, PartialEq, Eq, Structural)]
pub enum QualityLabel {
    /// An abstract quality, rounded to a whole number.
    Whole(u32),
    /// Lossless output.
    Lossless,
}

/// What `{quality}` becomes: the rounded quality, `lossless`, or `auto`
/// while a search is still pending.
pub open spec fn quality_text(q: Option<QualityLabel>) -> Seq<char> {
    match q {
        Some(QualityLabel::Whole(v)) => decimal(v as nat),
        Some(QualityLabel::Lossless) => "lossless"@,
        None => "auto"@,
    }
}

/// What a name is built from.
#[derive(Debug, Clone, Copy)]
pub struct Naming<'a> {
    /// The input.
    pub input: &'a Input,
    /// What the input was detected as.
    pub input_format: Format,
    /// The output format.
    pub format: Format,
    /// Output width.
    pub width: u32,
    /// Output height.
    pub height: u32,
    /// The quality the encoder ran with, once known. `None` in a dry run
    /// with a pending search.
    pub quality: Option<QualityLabel>,
}

/// A template with each placeholder filled in, one placeholder after the
/// other in the order `stem`, `ext`, `width`, `height`, `format`,
/// `quality`, `dir`, `name`.
pub open spec fn rendered(t: Seq<char>, input: Seq<char>, format: Format, width: u32, height: u32, quality: Option<QualityLabel>) -> Seq<char> {
    let s1 = replace_all(t, "{stem}"@, stem_text(input));
    let s2 = replace_all(s1, "{ext}"@, spec_extension(format));
    let s3 = replace_all(s2, "{width}"@, decimal(width as nat));
    let s4 = replace_all(s3, "{height}"@, decimal(height as nat));
    let s5 = replace_all(s4, "{format}"@, spec_format_name(format));
    let s6 = replace_all(s5, "{quality}"@, quality_text(quality));
    let s7 = replace_all(s6, "{dir}"@, parent_of(input));
    replace_all(s7, "{name}"@, file_name_of(input))
}

/// Text without a `{` has nothing a placeholder could match.
proof fn lemma_replace_nothing(s: Seq<char>, pat: Seq<char>, with: Seq<char>)
    requires
        pat.len() > 0,
        pat[0] == '{',
        forall|i: int| 0 <= i < s.len() ==> s[i] != '{',
    ensures
        replace_all(s, pat, with) == s,
    decreases s.len(),
{
    if s.len() > 0 {
        if pat.len() <= s.len() {
            assert(s.subrange(0, pat.len() as int)[0] != pat[0]);
        }
        lemma_replace_nothing(s.skip(1), pat, with);
        assert(seq![s[0]] + s.skip(1) =~= s);
    }
}

/// A placeholder `t` is left alone by a pattern it does not start with,
/// when nothing after its `{` opens another.
proof fn lemma_replace_other(t: Seq<char>, pat: Seq<char>, with: Seq<char>)
    requires
        pat.len() > 0,
        pat[0] == '{',
        t.len() > 0,
        forall|i: int| 1 <= i < t.len() ==> t[i] != '{',
        !(pat.len() <= t.len() && t.subrange(0, pat.len() as int) == pat),
    ensures
        replace_all(t, pat, with) == t,
{
    lemma_replace_nothing(t.skip(1), pat, with);
    assert(seq![t[0]] + t.skip(1) =~= t);
}

/// The decimal digits hold no `{`.
proof fn lemma_decimal_no_brace(n: nat)
    ensures
        forall|i: int| 0 <= i < decimal(n).len() ==> decimal(n)[i] != '{',
    decreases n,
{
    assert forall|d: nat| d < 10 implies #[trigger] crate::text::digit_char(d) != '{' by {
        assert((((d + 48) as u32) as char) as u32 == (d + 48) as u32);
    }
    if n >= 10 {
        lemma_decimal_no_brace(n / 10);
        assert(crate::text::digit_char(n % 10) != '{');
        assert forall|i: int| 0 <= i < decimal(n).len() implies decimal(n)[i] != '{' by {
            if i < decimal(n / 10).len() {
                assert(decimal(n)[i] == decimal(n / 10)[i]);
            }
        }
    } else {
        assert(crate::text::digit_char(n) != '{');
    }
}

/// A template that is one size placeholder renders as that size in
/// decimal: `{width}` as the output's width, `{height}` as its height,
/// whatever the input, format and quality.
pub proof fn lemma_size_placeholders(input: Seq<char>, format: Format, width: u32, height: u32, quality: Option<QualityLabel>)
    ensures
        rendered("{width}"@, input, format, width, height, quality) == decimal(width as nat),
        rendered("{height}"@, input, format, width, height, quality) == decimal(height as nat),
{
    reveal_strlit("{stem}");
    reveal_strlit("{ext}");
    reveal_strlit("{width}");
    reveal_strlit("{height}");
    reveal_strlit("{format}");
    reveal_strlit("{quality}");
    reveal_strlit("{dir}");
    reveal_strlit("{name}");
    lemma_decimal_no_brace(width as nat);
    lemma_decimal_no_brace(height as nat);
    let w = "{width}"@;
    let h = "{height}"@;
    let dw = decimal(width as nat);
    let dh = decimal(height as nat);
    // `{width}`
    assert(w[1] != "{stem}"@[1] && w[1] != "{ext}"@[1]);
    assert(w.subrange(0, 6)[1] == w[1] && w.subrange(0, 5)[1] == w[1]);
    lemma_replace_other(w, "{stem}"@, stem_text(input));
    lemma_replace_other(w, "{ext}"@, spec_extension(format));
    assert(w.subrange(0, 7) =~= w);
    assert(w.skip(7) =~= Seq::<char>::empty());
    assert(replace_all(w, "{width}"@, dw) =~= dw + replace_all(Seq::<char>::empty(), "{width}"@, dw));
    lemma_replace_nothing(dw, "{height}"@, dh);
    lemma_replace_nothing(dw, "{format}"@, spec_format_name(format));
    lemma_replace_nothing(dw, "{quality}"@, quality_text(quality));
    lemma_replace_nothing(dw, "{dir}"@, parent_of(input));
    lemma_replace_nothing(dw, "{name}"@, file_name_of(input));
    // `{height}`
    assert(h[1] != "{stem}"@[1] && h[1] != "{ext}"@[1] && h[1] != "{width}"@[1]);
    assert(h.subrange(0, 6)[1] == h[1] && h.subrange(0, 5)[1] == h[1] && h.subrange(0, 7)[1] == h[1]);
    lemma_replace_other(h, "{stem}"@, stem_text(input));
    lemma_replace_other(h, "{ext}"@, spec_extension(format));
    lemma_replace_other(h, "{width}"@, dw);
    assert(h.subrange(0, 8) =~= h);
    assert(h.skip(8) =~= Seq::<char>::empty());
    assert(replace_all(h, "{height}"@, dh) =~= dh + replace_all(Seq::<char>::empty(), "{height}"@, dh));
    lemma_replace_nothing(dh, "{format}"@, spec_format_name(format));
    lemma_replace_nothing(dh, "{quality}"@, quality_text(quality));
    lemma_replace_nothing(dh, "{dir}"@, parent_of(input));
    lemma_replace_nothing(dh, "{name}"@, file_name_of(input));
}

/// The name placeholders render as the input's names: `{name}` as its
/// file name, whatever it holds; `{stem}` as its stem, when that holds no
/// `{` for a later placeholder to find.
pub proof fn lemma_name_placeholders(input: Seq<char>, format: Format, width: u32, height: u32, quality: Option<QualityLabel>)
    ensures
        rendered("{name}"@, input, format, width, height, quality) == file_name_of(input),
        (forall|i: int| 0 <= i < stem_text(input).len() ==> stem_text(input)[i] != '{')
            ==> rendered("{stem}"@, input, format, width, height, quality) == stem_text(input),
{
    reveal_strlit("{stem}");
    reveal_strlit("{ext}");
    reveal_strlit("{width}");
    reveal_strlit("{height}");
    reveal_strlit("{format}");
    reveal_strlit("{quality}");
    reveal_strlit("{dir}");
    reveal_strlit("{name}");
    let n = "{name}"@;
    assert(n[1] != "{stem}"@[1] && n[1] != "{ext}"@[1] && n[1] != "{width}"@[1] && n[1] != "{height}"@[1]
        && n[1] != "{format}"@[1] && n[1] != "{dir}"@[1]);
    assert(n.subrange(0, 6)[1] == n[1] && n.subrange(0, 5)[1] == n[1]);
    lemma_replace_other(n, "{stem}"@, stem_text(input));
    lemma_replace_other(n, "{ext}"@, spec_extension(format));
    lemma_replace_other(n, "{width}"@, decimal(width as nat));
    lemma_replace_other(n, "{height}"@, decimal(height as nat));
    lemma_replace_other(n, "{format}"@, spec_format_name(format));
    lemma_replace_other(n, "{quality}"@, quality_text(quality));
    lemma_replace_other(n, "{dir}"@, parent_of(input));
    assert(n.subrange(0, 6) =~= n);
    assert(n.skip(6) =~= Seq::<char>::empty());
    assert(replace_all(n, "{name}"@, file_name_of(input)) =~= file_name_of(input)
        + replace_all(Seq::<char>::empty(), "{name}"@, file_name_of(input)));
    let st = stem_text(input);
    if forall|i: int| 0 <= i < st.len() ==> st[i] != '{' {
        let t = "{stem}"@;
        assert(t.subrange(0, 6) =~= t);
        assert(t.skip(6) =~= Seq::<char>::empty());
        assert(replace_all(t, "{stem}"@, st) =~= st + replace_all(Seq::<char>::empty(), "{stem}"@, st));
        lemma_replace_nothing(st, "{ext}"@, spec_extension(format));
        lemma_replace_nothing(st, "{width}"@, decimal(width as nat));
        lemma_replace_nothing(st, "{height}"@, decimal(height as nat));
        lemma_replace_nothing(st, "{format}"@, spec_format_name(format));
        lemma_replace_nothing(st, "{quality}"@, quality_text(quality));
        lemma_replace_nothing(st, "{dir}"@, parent_of(input));
        lemma_replace_nothing(st, "{name}"@, file_name_of(input));
    }
}

/// Text with no `{`, where no placeholder can start.
pub open spec fn brace_free(s: Seq<char>) -> bool {
    forall|i: int| 0 <= i < s.len() ==> s[i] != '{'
}

/// Text with no `{` passes through a replacement unchanged, and the
/// replacement goes on after it.
proof fn lemma_replace_lit_then(a: Seq<char>, b: Seq<char>, pat: Seq<char>, with: Seq<char>)
    requires
        pat.len() > 0,
        pat[0] == '{',
        brace_free(a),
    ensures
        replace_all(a + b, pat, with) == a + replace_all(b, pat, with),
    decreases a.len(),
{
    if a.len() == 0 {
        assert(a + b =~= b);
        assert(a + replace_all(b, pat, with) =~= replace_all(b, pat, with));
    } else {
        let t = a + b;
        assert(t[0] == a[0]);
        if pat.len() <= t.len() {
            assert(t.subrange(0, pat.len() as int)[0] == t[0]);
        }
        assert(t.skip(1) =~= a.skip(1) + b);
        lemma_replace_lit_then(a.skip(1), b, pat, with);
        assert(seq![a[0]] + (a.skip(1) + replace_all(b, pat, with)) =~= a + replace_all(b, pat, with));
    }
}

/// A placeholder `k` in front of `b`: replaced when it is the pattern,
/// kept when it differs from the pattern at its second character and
/// opens nothing after its `{`.
proof fn lemma_replace_key_then(k: Seq<char>, b: Seq<char>, pat: Seq<char>, with: Seq<char>)
    requires
        pat.len() >= 2,
        pat[0] == '{',
        k == pat || (k.len() >= 2 && k[1] != pat[1] && brace_free(k.skip(1))),
    ensures
        replace_all(k + b, pat, with) == (if k == pat { with } else { k }) + replace_all(b, pat, with),
{
    let t = k + b;
    if k == pat {
        assert(t.subrange(0, pat.len() as int) =~= pat);
        assert(t.skip(pat.len() as int) =~= b);
    } else {
        if pat.len() <= t.len() {
            assert(t.subrange(0, pat.len() as int)[1] == k[1]);
        }
        assert(t.skip(1) =~= k.skip(1) + b);
        lemma_replace_lit_then(k.skip(1), b, pat, with);
        assert(seq![k[0]] + (k.skip(1) + replace_all(b, pat, with)) =~= k + replace_all(b, pat, with));
    }
}

/// Replacing in text with no `{` left, after the placeholders are filled.
proof fn lemma_replace_done(s: Seq<char>, pat: Seq<char>, with: Seq<char>)
    requires
        pat.len() > 0,
        pat[0] == '{',
        brace_free(s),
    ensures
        replace_all(s, pat, with) == s,
{
    lemma_replace_nothing(s, pat, with);
}

/// A size template renders every size placeholder as the output's size:
/// text `p`, `{width}`, text `q`, `{height}`, text `r`, the texts holding
/// no `{`, renders as `p`, the width in decimal, `q`, the height in
/// decimal, `r`; so `{width}x{height}` for a 1600 by 900 output gives
/// `1600x900`, and `{height}` never shows the width.
pub proof fn lemma_size_template(p: Seq<char>, q: Seq<char>, r: Seq<char>, input: Seq<char>, format: Format, width: u32, height: u32, quality: Option<QualityLabel>)
    requires
        brace_free(p),
        brace_free(q),
        brace_free(r),
    ensures
        rendered(p + "{width}"@ + q + "{height}"@ + r, input, format, width, height, quality)
            == p + decimal(width as nat) + q + decimal(height as nat) + r,
{
    reveal_strlit("{stem}");
    reveal_strlit("{ext}");
    reveal_strlit("{width}");
    reveal_strlit("{height}");
    reveal_strlit("{format}");
    reveal_strlit("{quality}");
    reveal_strlit("{dir}");
    reveal_strlit("{name}");
    let (w, h) = ("{width}"@, "{height}"@);
    let dw = decimal(width as nat);
    let dh = decimal(height as nat);
    lemma_decimal_no_brace(width as nat);
    lemma_decimal_no_brace(height as nat);
    let t = p + w + q + h + r;
    let e = Seq::<char>::empty();
    assert(brace_free(w.skip(1)) && brace_free(h.skip(1)));
    // `{stem}` and `{ext}` find nothing.
    let skip = |pat: Seq<char>, with: Seq<char>| replace_all(t, pat, with) == t;
    assert forall|pat: Seq<char>, with: Seq<char>|
        pat.len() >= 2 && pat[0] == '{' && pat[1] != 'w' && pat[1] != 'h' implies #[trigger] skip(pat, with) by {
        lemma_replace_lit_then(p, w + (q + h + r), pat, with);
        lemma_replace_key_then(w, q + (h + r), pat, with);
        lemma_replace_lit_then(q, h + r, pat, with);
        lemma_replace_key_then(h, r + e, pat, with);
        lemma_replace_lit_then(r, e, pat, with);
        assert(p + (w + (q + h + r)) =~= t);
        assert(w + (q + (h + r)) =~= w + (q + h + r));
        assert(q + (h + r) =~= q + h + r);
        assert(r + e =~= r);
        assert(h + (r + e) =~= h + r);
        assert(p + (w + (q + (h + (r + e)))) =~= t);
    }
    assert(skip("{stem}"@, stem_text(input)));
    assert(skip("{ext}"@, spec_extension(format)));
    // `{width}`
    lemma_replace_lit_then(p, w + (q + h + r), w, dw);
    lemma_replace_key_then(w, q + h + r, w, dw);
    lemma_replace_lit_then(q, h + r, w, dw);
    lemma_replace_key_then(h, r, w, dw);
    lemma_replace_lit_then(r, e, w, dw);
    assert(p + (w + (q + h + r)) =~= t);
    assert(q + h + r =~= q + (h + r));
    assert(r + e =~= r);
    let t3 = p + dw + q + h + r;
    assert(replace_all(t, w, dw) =~= t3);
    // `{height}`
    let front = p + dw + q;
    assert(brace_free(front));
    lemma_replace_lit_then(front, h + r, h, dh);
    lemma_replace_key_then(h, r, h, dh);
    lemma_replace_lit_then(r, e, h, dh);
    assert(t3 =~= front + (h + r));
    let t4 = p + dw + q + dh + r;
    assert(replace_all(t3, h, dh) =~= t4);
    assert(brace_free(t4));
    lemma_replace_done(t4, "{format}"@, spec_format_name(format));
    lemma_replace_done(t4, "{quality}"@, quality_text(quality));
    lemma_replace_done(t4, "{dir}"@, parent_of(input));
    lemma_replace_done(t4, "{name}"@, file_name_of(input));
}

/// Text with no `{`, then a placeholder, then the rest: the text is kept,
/// the placeholder replaced when it is the pattern, and the replacement
/// goes on in the rest.
proof fn lemma_replace_seg(a: Seq<char>, k: Seq<char>, rest: Seq<char>, pat: Seq<char>, with: Seq<char>)
    requires
        pat.len() >= 2,
        pat[0] == '{',
        brace_free(a),
        k == pat || (k.len() >= 2 && k[1] != pat[1] && brace_free(k.skip(1))),
    ensures
        replace_all(a + k + rest, pat, with) == a + (if k == pat { with } else { k }) + replace_all(rest, pat, with),
{
    lemma_replace_lit_then(a, k + rest, pat, with);
    lemma_replace_key_then(k, rest, pat, with);
    assert(a + k + rest =~= a + (k + rest));
    let f = if k == pat { with } else { k };
    assert(a + (f + replace_all(rest, pat, with)) =~= a + f + replace_all(rest, pat, with));
}

/// The usual shape of a naming template renders as the input's stem, the
/// output's size and its extension: `{stem}`, text `p`, `{width}`, text
/// `q`, `{height}`, text `r`, `{ext}`, the texts and the stem holding no
/// `{`, renders as the stem, `p`, the width, `q`, the height, `r`, the
/// extension; `{stem}-{width}x{height}.{ext}` for `a.jpg` at 1600 by 900
/// as WebP gives `a-1600x900.webp`.
pub proof fn lemma_named_size_template(p: Seq<char>, q: Seq<char>, r: Seq<char>, input: Seq<char>, format: Format, width: u32, height: u32, quality: Option<QualityLabel>)
    requires
        brace_free(p),
        brace_free(q),
        brace_free(r),
        brace_free(stem_text(input)),
    ensures
        rendered("{stem}"@ + p + "{width}"@ + q + "{height}"@ + r + "{ext}"@, input, format, width, height, quality)
            == stem_text(input) + p + decimal(width as nat) + q + decimal(height as nat) + r + spec_extension(format),
{
    reveal_strlit("{stem}");
    reveal_strlit("{ext}");
    reveal_strlit("{width}");
    reveal_strlit("{height}");
    reveal_strlit("{format}");
    reveal_strlit("{quality}");
    reveal_strlit("{dir}");
    reveal_strlit("{name}");
    let (st_k, ex_k, w_k, h_k) = ("{stem}"@, "{ext}"@, "{width}"@, "{height}"@);
    let st = stem_text(input);
    let ex = spec_extension(format);
    let dw = decimal(width as nat);
    let dh = decimal(height as nat);
    lemma_decimal_no_brace(width as nat);
    lemma_decimal_no_brace(height as nat);
    assert(brace_free(ex));
    assert(brace_free(st_k.skip(1)) && brace_free(ex_k.skip(1)) && brace_free(w_k.skip(1)) && brace_free(h_k.skip(1)));
    let e = Seq::<char>::empty();
    assert(replace_all(e, st_k, st) == e && replace_all(e, ex_k, ex) == e);
    assert(replace_all(e, w_k, dw) == e && replace_all(e, h_k, dh) == e);
    let t = st_k + p + w_k + q + h_k + r + ex_k;
    // `{stem}`
    let t_r = r + ex_k + e;
    let t_q = q + h_k + t_r;
    let t_p = p + w_k + t_q;
    lemma_replace_seg(e, st_k, t_p, st_k, st);
    lemma_replace_seg(p, w_k, t_q, st_k, st);
    lemma_replace_seg(q, h_k, t_r, st_k, st);
    lemma_replace_seg(r, ex_k, e, st_k, st);
    assert(t =~= e + st_k + t_p);
    let t1 = st + p + w_k + q + h_k + r + ex_k;
    assert(replace_all(t, st_k, st) =~= t1);
    // `{ext}`
    let u_r = r + ex_k + e;
    let u_q = q + h_k + u_r;
    lemma_replace_seg(st + p, w_k, u_q, ex_k, ex);
    lemma_replace_seg(q, h_k, u_r, ex_k, ex);
    lemma_replace_seg(r, ex_k, e, ex_k, ex);
    assert(brace_free(st + p));
    assert(t1 =~= st + p + w_k + u_q);
    let t2 = st + p + w_k + q + h_k + r + ex;
    assert(replace_all(t1, ex_k, ex) =~= t2);
    // `{width}`
    let v_q = q + h_k + (r + ex);
    lemma_replace_seg(st + p, w_k, v_q, w_k, dw);
    lemma_replace_lit_then(q, h_k + (r + ex), w_k, dw);
    lemma_replace_key_then(h_k, r + ex, w_k, dw);
    lemma_replace_done(r + ex, w_k, dw);
    assert(brace_free(r + ex));
    assert(t2 =~= st + p + w_k + v_q);
    assert(v_q =~= q + (h_k + (r + ex)));
    let t3 = st + p + dw + q + h_k + r + ex;
    assert(replace_all(t2, w_k, dw) =~= t3);
    // `{height}`
    let front = st + p + dw + q;
    assert(brace_free(front));
    lemma_replace_seg(front, h_k, r + ex, h_k, dh);
    lemma_replace_done(r + ex, h_k, dh);
    assert(t3 =~= front + h_k + (r + ex));
    let t4 = st + p + dw + q + dh + r + ex;
    assert(replace_all(t3, h_k, dh) =~= t4);
    assert(brace_free(t4));
    lemma_replace_done(t4, "{format}"@, spec_format_name(format));
    lemma_replace_done(t4, "{quality}"@, quality_text(quality));
    lemma_replace_done(t4, "{dir}"@, parent_of(input));
    lemma_replace_done(t4, "{name}"@, file_name_of(input));
}

/// A placeholder on its own: replaced when it is the pattern, else kept.
proof fn lemma_key_alone(k: Seq<char>, pat: Seq<char>, with: Seq<char>)
    requires
        pat.len() >= 2,
        pat[0] == '{',
        k == pat || (k.len() >= 2 && k[1] != pat[1] && brace_free(k.skip(1))),
    ensures
        replace_all(k, pat, with) == if k == pat { with } else { k },
{
    let e = Seq::<char>::empty();
    lemma_replace_key_then(k, e, pat, with);
    assert(k + e =~= k);
    assert(replace_all(e, pat, with) == e);
    assert((if k == pat { with } else { k }) + e =~= if k == pat { with } else { k });
}

/// The placeholders for the output's kind render as it: `{ext}` as the
/// format's extension, `{format}` as its name, `{quality}` as the quality
/// the encoder ran with (`lossless`, or `auto` while a search is
/// pending), whatever the input and the size.
pub proof fn lemma_format_placeholders(input: Seq<char>, format: Format, width: u32, height: u32, quality: Option<QualityLabel>)
    ensures
        rendered("{ext}"@, input, format, width, height, quality) == spec_extension(format),
        rendered("{format}"@, input, format, width, height, quality) == spec_format_name(format),
        rendered("{quality}"@, input, format, width, height, quality) == quality_text(quality),
{
    reveal_strlit("{stem}");
    reveal_strlit("{ext}");
    reveal_strlit("{width}");
    reveal_strlit("{height}");
    reveal_strlit("{format}");
    reveal_strlit("{quality}");
    reveal_strlit("{dir}");
    reveal_strlit("{name}");
    reveal_strlit("jpeg");
    reveal_strlit("lossless");
    reveal_strlit("auto");
    let st = stem_text(input);
    let ex = spec_extension(format);
    let dw = decimal(width as nat);
    let dh = decimal(height as nat);
    let fm = spec_format_name(format);
    let qt = quality_text(quality);
    let dir = parent_of(input);
    let nm = file_name_of(input);
    match quality {
        Some(QualityLabel::Whole(v)) => lemma_decimal_no_brace(v as nat),
        _ => {},
    }
    assert(brace_free(ex) && brace_free(fm) && brace_free(qt));
    let (x, f, q) = ("{ext}"@, "{format}"@, "{quality}"@);
    // `{ext}`
    lemma_key_alone(x, "{stem}"@, st);
    lemma_key_alone(x, x, ex);
    lemma_replace_done(ex, "{width}"@, dw);
    lemma_replace_done(ex, "{height}"@, dh);
    lemma_replace_done(ex, "{format}"@, fm);
    lemma_replace_done(ex, "{quality}"@, qt);
    lemma_replace_done(ex, "{dir}"@, dir);
    lemma_replace_done(ex, "{name}"@, nm);
    // `{format}`
    lemma_key_alone(f, "{stem}"@, st);
    lemma_key_alone(f, x, ex);
    lemma_key_alone(f, "{width}"@, dw);
    lemma_key_alone(f, "{height}"@, dh);
    lemma_key_alone(f, f, fm);
    lemma_replace_done(fm, "{quality}"@, qt);
    lemma_replace_done(fm, "{dir}"@, dir);
    lemma_replace_done(fm, "{name}"@, nm);
    // `{quality}`
    lemma_key_alone(q, "{stem}"@, st);
    lemma_key_alone(q, x, ex);
    lemma_key_alone(q, "{width}"@, dw);
    lemma_key_alone(q, "{height}"@, dh);
    lemma_key_alone(q, f, fm);
    lemma_key_alone(q, q, qt);
    lemma_replace_done(qt, "{dir}"@, dir);
    lemma_replace_done(qt, "{name}"@, nm);
}

fn quality_string(q: Option<QualityLabel>) -> (r: String)
    ensures
        r@ == quality_text(q),
{
    let mut s = String::new();
    match q {
        Some(QualityLabel::Whole(v)) => {
            push_decimal(&mut s, v as u64);
        },
        Some(QualityLabel::Lossless) => {
            push_str(&mut s, "lossless");
        },
        None => {
            push_str(&mut s, "auto");
        },
    }
    assert(s@ =~= quality_text(q));
    s
}

impl Template {
    /// The template filled in for one output of `input`.
    pub fn render(&self, n: &Naming<'_>, input: &str) -> (r: String)
        ensures
            r@ == rendered(self@, input@, n.format, n.width, n.height, n.quality),
    {
        proof {
            reveal_strlit("{stem}"); reveal_strlit("{ext}"); reveal_strlit("{width}");
            reveal_strlit("{height}"); reveal_strlit("{format}"); reveal_strlit("{quality}");
            reveal_strlit("{dir}"); reveal_strlit("{name}");
        }
        let stem = stem_of(input);
        let mut w = String::new();
        push_decimal(&mut w, n.width as u64);
        assert(w@ =~= decimal(n.width as nat));
        let mut h = String::new();
        push_decimal(&mut h, n.height as u64);
        assert(h@ =~= decimal(n.height as nat));
        let q = quality_string(n.quality);
        let dir = parent(input);
        let name = file_name(input);
        let s1 = replace_text(self.text.as_str(), "{stem}", stem.as_str());
        let s2 = replace_text(s1.as_str(), "{ext}", n.format.extension());
        let s3 = replace_text(s2.as_str(), "{width}", w.as_str());
        let s4 = replace_text(s3.as_str(), "{height}", h.as_str());
        let s5 = replace_text(s4.as_str(), "{format}", format_name(n.format));
        let s6 = replace_text(s5.as_str(), "{quality}", q.as_str());
        let s7 = replace_text(s6.as_str(), "{dir}", dir.as_str());
        replace_text(s7.as_str(), "{name}", name.as_str())
    }
}

/// The placement flags, checked.
#[derive(Debug, Clone)]
pub struct Placement {
    /// `-o`.
    pub output: Option<String>,
    /// `-o` names a file: one input, one format, and a path with an
    /// extension.
    pub single_file: bool,
    /// `--suffix`.
    pub suffix: Option<String>,
    /// `--template`.
    pub template: Option<Template>,
    /// `--in-place`.
    pub in_place: bool,
}

impl Default for Placement {
    fn default() -> (r: Self)
        ensures
            r.output is None,
            !r.single_file,
            r.suffix is None,
            r.template is None,
            !r.in_place,
    {
        Placement { output: None, single_file: false, suffix: None, template: None, in_place: false }
    }
}

/// Why an output cannot go where the flags say.
#[derive(Debug, Clone, Copy, PartialEq, Eq, Structural)]
pub enum PlaceError {
    /// The resolved output is the input, and `--in-place` was not given.
    OverwritesInput,
    /// `--in-place` with a format other than the input's.
    InPlaceChangesFormat {
        /// Input format.
        from: Format,
        /// Requested format.
        to: Format,
    },
}

/// What each placement error says.
pub open spec fn place_message(e: PlaceError) -> Seq<char> {
    match e {
        PlaceError::OverwritesInput => "output would overwrite input; use -o, --suffix or --in-place"@,
        PlaceError::InPlaceChangesFormat { from, to } =>
            "--in-place would turn "@ + spec_display_name(from) + " into "@ + spec_display_name(to)
                + "; drop -f or use -o"@,
    }
}

impl PlaceError {
    /// The message for the user.
    pub fn message(&self) -> (r: String)
        ensures
            r@ == place_message(*self),
    {
        let mut m = String::new();
        match self {
            PlaceError::OverwritesInput => {
                push_str(&mut m, "output would overwrite input; use -o, --suffix or --in-place");
            },
            PlaceError::InPlaceChangesFormat { from, to } => {
                push_str(&mut m, "--in-place would turn ");
                push_str(&mut m, from.display_name());
                push_str(&mut m, " into ");
                push_str(&mut m, to.display_name());
                push_str(&mut m, "; drop -f or use -o");
            },
        }
        assert(m@ =~= place_message(*self));
        m
    }
}

/// The file name of an output, before its directory: the template filled
/// in, or the input's stem, the suffix and the new extension.
pub open spec fn output_name(template: Option<Seq<char>>, suffix: Option<Seq<char>>, input: Seq<char>, format: Format, width: u32, height: u32, quality: Option<QualityLabel>) -> Seq<char> {
    match template {
        Some(t) => rendered(t, input, format, width, height, quality),
        None => stem_text(input) + match suffix {
            Some(s) => s,
            None => Seq::empty(),
        } + seq!['.'] + spec_extension(format),
    }
}

/// The template's text, if there is one.
pub open spec fn template_text(t: Option<Template>) -> Option<Seq<char>> {
    match t {
        Some(x) => Some(x@),
        None => None,
    }
}

/// The suffix's text, if there is one.
pub open spec fn suffix_text(s: Option<String>) -> Option<Seq<char>> {
    match s {
        Some(x) => Some(x@),
        None => None,
    }
}

/// Where one output goes, judged against the working directory `cwd`,
/// or why it cannot go there.
pub open spec fn placed(p: Placement, input: Input, input_format: Format, format: Format, width: u32, height: u32, quality: Option<QualityLabel>, cwd: Seq<char>) -> Result<Seq<char>, PlaceError> {
    let path = input_path(input).unwrap();
    if p.in_place {
        if format != input_format {
            Err(PlaceError::InPlaceChangesFormat { from: input_format, to: format })
        } else {
            Ok(path)
        }
    } else {
        let out = if p.single_file {
            p.output.unwrap()@
        } else {
            let dir = match p.output {
                Some(d) => join_text(d@, relative_text(input)),
                None => parent_of(path),
            };
            join_text(dir, output_name(template_text(p.template), suffix_text(p.suffix), path, format, width, height, quality))
        };
        if spec_same_path(out, path, cwd) {
            Err(PlaceError::OverwritesInput)
        } else {
            Ok(out)
        }
    }
}

impl Placement {
    fn file_name(&self, n: &Naming<'_>, input: &str) -> (r: String)
        ensures
            r@ == output_name(template_text(self.template), suffix_text(self.suffix), input@, n.format, n.width, n.height, n.quality),
    {
        match &self.template {
            Some(t) => t.render(n, input),
            None => {
                let mut s = stem_of(input);
                match &self.suffix {
                    Some(x) => push_str(&mut s, x.as_str()),
                    None => {},
                }
                push_char(&mut s, '.');
                push_str(&mut s, n.format.extension());
                assert(s@ =~= output_name(template_text(self.template), suffix_text(self.suffix), input@, n.format, n.width, n.height, n.quality));
                s
            },
        }
    }

    /// The path for one output, with `cwd` the directory relative paths
    /// are taken against when comparing the output with the input. Stdin
    /// input is handled by the caller; this takes a file.
    ///
    /// # Errors
    /// [`PlaceError`] when the path would clobber the input, or
    /// `--in-place` would change the format.
    pub fn resolve(&self, n: &Naming<'_>, cwd: &str) -> (r: Result<String, PlaceError>)
        requires
            input_path(*n.input) is Some,
            !self.in_place && self.single_file ==> self.output is Some,
        ensures
            match placed(*self, *n.input, n.input_format, n.format, n.width, n.height, n.quality, cwd@) {
                Ok(out) => r matches Ok(s) && s@ == out,
                Err(e) => r == Err::<String, PlaceError>(e),
            },
            r matches Ok(s) && spec_same_path(s@, input_path(*n.input).unwrap(), cwd@) ==> self.in_place,
    {
        let input = match n.input.path() {
            Some(p) => p,
            None => {
                assert(false);
                ""
            },
        };
        if self.in_place {
            if n.format != n.input_format {
                return Err(PlaceError::InPlaceChangesFormat { from: n.input_format, to: n.format });
            }
            let mut s = String::new();
            push_str(&mut s, input);
            assert(s@ =~= input@);
            return Ok(s);
        }
        let out = if self.single_file {
            match &self.output {
                Some(o) => o.clone(),
                None => {
                    assert(false);
                    String::new()
                },
            }
        } else {
            let dir = match &self.output {
                Some(d) => {
                    let rel = n.input.relative_dir();
                    join(d.as_str(), rel.as_str())
                },
                None => parent(input),
            };
            let name = self.file_name(n, input);
            join(dir.as_str(), name.as_str())
        };
        if same_path(out.as_str(), input, cwd) {
            return Err(PlaceError::OverwritesInput);
        }
        Ok(out)
    }
}

/// Over every combination of the placement flags, the resolved output
/// names the input only under `--in-place`; and `--in-place` gives the
/// input's own path when the format stays, and refuses a change of format.
pub proof fn lemma_output_is_input_only_in_place(p: Placement, input: Input, input_format: Format, format: Format, width: u32, height: u32, quality: Option<QualityLabel>, cwd: Seq<char>)
    requires
        input_path(input) is Some,
    ensures
        placed(p, input, input_format, format, width, height, quality, cwd) matches Ok(out)
            && spec_same_path(out, input_path(input).unwrap(), cwd) ==> p.in_place,
        p.in_place ==> placed(p, input, input_format, format, width, height, quality, cwd) == if format
            == input_format {
            Ok::<Seq<char>, PlaceError>(input_path(input).unwrap())
        } else {
            Err::<Seq<char>, PlaceError>(PlaceError::InPlaceChangesFormat { from: input_format, to: format })
        },
{
}

} // verus!
