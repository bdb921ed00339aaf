//! Positional arguments as inputs: what each one names, how it reads in
//! messages, and the rewrite hint for a command line written for rimage.
//!
//! Which arguments exist on disk, and what a glob or a directory expands
//! to, is asked of the file system by the program; the rules here take the
//! answers as values.

use vstd::prelude::*;
use crate::text::{chars_of, push_str, str_eq, string_of};
use crate::cli::paths::{parent, parent_of};

verus! {

/// One thing to process.
#[derive(Debug, Clone, PartialEq, Eq)]
pub enum Input {
    /// One image from stdin.
    Stdin,
    /// A file named directly, by path or glob.
    File(String),
    /// A file found under a directory argument; `root` is that argument,
    /// so `-o` can mirror the tree.
    InTree {
        /// The directory argument the file was found under.
        root: String,
        /// The file.
        path: String,
    },
}

/// The file an input names, if any.
pub open spec fn input_path(i: Input) -> Option<Seq<char>> {
    match i {
        Input::Stdin => None,
        Input::File(p) => Some(p@),
        Input::InTree { path, .. } => Some(path@),
    }
}

/// `dir` once the directory `root` is taken off its front, compared a
/// component at a time: empty when `dir` is `root` itself or does not lie
/// under it.
pub open spec fn strip_dir(dir: Seq<char>, root: Seq<char>) -> Seq<char> {
    if dir == root {
        Seq::empty()
    } else if root.len() == 0 {
        dir
    } else if root.last() == '/' && root.is_prefix_of(dir) {
        dir.skip(root.len() as int)
    } else if (root + seq!['/']).is_prefix_of(dir) {
        dir.skip(root.len() + 1int)
    } else {
        Seq::empty()
    }
}

/// The directory of an input relative to its tree root.
pub open spec fn relative_text(i: Input) -> Seq<char> {
    match i {
        Input::InTree { root, path } => strip_dir(parent_of(path@), root@),
        _ => Seq::empty(),
    }
}

/// A file found under a root directory mirrors the directories between
/// them: for a root without a trailing `/`, the file `root/rel/name` (or
/// `root/name`) is in the relative directory `rel` (or none); a file named
/// directly and stdin have none.
pub proof fn lemma_tree_relative_dir(i: Input, rel: Seq<char>, name: Seq<char>)
    requires
        i matches Input::InTree { root, path } && root@.len() > 0 && root@.last() != '/'
            && path@ == (if rel.len() == 0 { root@ + seq!['/'] + name } else { root@ + seq!['/'] + rel + seq!['/'] + name }),
        forall|j: int| 0 <= j < name.len() ==> name[j] != '/',
        rel.len() > 0 ==> rel[0] != '/' && rel.last() != '/',
    ensures
        relative_text(i) == rel,
        relative_text(Input::Stdin) == Seq::<char>::empty(),
        forall|f: String| relative_text(Input::File(f)) == Seq::<char>::empty(),
{
    if let Input::InTree { root, path } = i {
        let r = root@;
        let dir = if rel.len() == 0 { r } else { r + seq!['/'] + rel };
        assert(path@ =~= dir + seq!['/'] + name);
        crate::cli::paths::lemma_last_sep_before_name(dir, name);
        assert(parent_of(path@) =~= dir);
        if rel.len() > 0 {
            assert((r + seq!['/']).is_prefix_of(dir)) by {
                assert(dir.subrange(0, (r + seq!['/']).len() as int) =~= r + seq!['/']);
            }
            assert(dir != r) by { assert(dir.len() != r.len()); }
            assert(dir.skip(r.len() + 1int) =~= rel);
        }
    }
}

/// How an input reads in messages.
pub open spec fn display_text(i: Input) -> Seq<char> {
    match input_path(i) {
        Some(p) => p,
        None => seq!['-'],
    }
}

/// Whether `p` is a prefix of `s`.
fn is_prefix(p: &[char], s: &[char]) -> (r: bool)
    ensures
        r == p@.is_prefix_of(s@),
{
    if p.len() > s.len() {
        return false;
    }
    let mut i: usize = 0;
    while i < p.len()
        invariant
            p@.len() <= s@.len(),
            i <= p@.len(),
            forall|j: int| 0 <= j < i ==> p@[j] == s@[j],
        decreases p@.len() - i,
    {
        if p[i] != s[i] {
            return false;
        }
        i = i + 1;
    }
    true
}

fn same_chars(a: &[char], b: &[char]) -> (r: bool)
    ensures
        r == (a@ == b@),
{
    if a.len() != b.len() {
        return false;
    }
    let mut i: usize = 0;
    while i < a.len()
        invariant
            a@.len() == b@.len(),
            i <= a@.len(),
            forall|j: int| 0 <= j < i ==> a@[j] == b@[j],
        decreases a@.len() - i,
    {
        if a[i] != b[i] {
            return false;
        }
        i = i + 1;
    }
    assert(a@ =~= b@);
    true
}

impl Input {
    /// The file on disk, if any.
    pub fn path(&self) -> (r: Option<&str>)
        ensures
            match input_path(*self) {
                Some(p) => r matches Some(s) && s@ == p,
                None => r is None,
            },
    {
        match self {
            Input::Stdin => None,
            Input::File(p) => Some(p.as_str()),
            Input::InTree { path, .. } => Some(path.as_str()),
        }
    }

    /// The directory of the file relative to its tree root, for
    /// mirroring. Empty for a file named directly and for stdin.
    pub fn relative_dir(&self) -> (r: String)
        ensures
            r@ == relative_text(*self),
    {
        match self {
            Input::InTree { root, path } => {
                let dir = parent(path.as_str());
                let d = chars_of(dir.as_str());
                let rt = chars_of(root.as_str());
                if same_chars(d.as_slice(), rt.as_slice()) {
                    return String::new();
                }
                if rt.len() == 0 {
                    return dir;
                }
                if rt[rt.len() - 1] == '/' && is_prefix(rt.as_slice(), d.as_slice()) {
                    let rest = vstd::slice::slice_subrange(d.as_slice(), rt.len(), d.len());
                    assert(rest@ =~= d@.skip(rt@.len() as int));
                    return string_of(rest);
                }
                let mut with_slash = rt.clone();
                with_slash.push('/');
                assert(with_slash@ =~= rt@ + seq!['/']);
                if is_prefix(with_slash.as_slice(), d.as_slice()) {
                    let rest = vstd::slice::slice_subrange(d.as_slice(), with_slash.len(), d.len());
                    assert(rest@ =~= d@.skip(rt@.len() + 1int));
                    return string_of(rest);
                }
                String::new()
            },
            _ => String::new(),
        }
    }

    /// How the input is named in messages and JSON: its path, or `-` for
    /// stdin.
    pub fn display(&self) -> (r: String)
        ensures
            r@ == display_text(*self),
    {
        match self.path() {
            Some(p) => {
                let mut s = String::new();
                push_str(&mut s, p);
                s
            },
            None => {
                let mut s = String::new();
                push_str(&mut s, "-");
                proof { reveal_strlit("-"); }
                assert(s@ =~= seq!['-']);
                s
            },
        }
    }
}

/// The argument once one trailing `"` is dropped.
pub open spec fn unquoted(arg: Seq<char>) -> Seq<char> {
    if arg.len() > 0 && arg.last() == '"' {
        arg.drop_last()
    } else {
        arg
    }
}

/// `cmd.exe` turns `"C:\dir\"` into `C:\dir"`; one trailing quote is a
/// quoting artefact, not a file name.
pub fn strip_trailing_quote(arg: &str) -> (r: &str)
    ensures
        r@ == unquoted(arg@),
{
    let n = arg.unicode_len();
    if n > 0 && arg.get_char(n - 1) == '"' {
        arg.substring_char(0, n - 1)
    } else {
        arg
    }
}

/// Whether an argument holds a glob metacharacter: `*`, `?` or `[`.
pub open spec fn spec_has_glob_chars(s: Seq<char>) -> bool {
    exists|i: int| 0 <= i < s.len() && (s[i] == '*' || s[i] == '?' || s[i] == '[')
}

/// Whether an argument that names nothing on disk is worth expanding as a
/// glob.
pub fn has_glob_chars(s: &str) -> (r: bool)
    ensures
        r == spec_has_glob_chars(s@),
{
    let cs = chars_of(s);
    let mut i: usize = 0;
    while i < cs.len()
        invariant
            cs@ == s@,
            i <= cs@.len(),
            forall|j: int| 0 <= j < i ==> !(cs@[j] == '*' || cs@[j] == '?' || cs@[j] == '['),
        decreases cs@.len() - i,
    {
        let c = cs[i];
        if c == '*' || c == '?' || c == '[' {
            return true;
        }
        i = i + 1;
    }
    false
}

/// The `-f` value a rimage codec name maps to.
pub open spec fn rimage_format(name: Seq<char>) -> Option<Seq<char>> {
    if name == "mozjpeg"@ {
        Some("jpeg"@)
    } else if name == "oxipng"@ {
        Some("png"@)
    } else if name == "webp"@ {
        Some("webp"@)
    } else if name == "avif"@ {
        Some("avif"@)
    } else if name == "jxl"@ {
        Some("jxl"@)
    } else if name == "png"@ {
        Some("png"@)
    } else if name == "jpeg"@ {
        Some("jpeg"@)
    } else {
        None
    }
}

/// A rimage flag as sqzer spells it; anything else passes unchanged.
pub open spec fn rimage_flag(a: Seq<char>) -> Seq<char> {
    if a == "-d"@ {
        "-o"@
    } else if a == "-s"@ {
        "--suffix"@
    } else if a == "-t"@ {
        "-j"@
    } else if a == "--quantization"@ {
        "--codec-opt png:colors="@
    } else {
        a
    }
}

/// The rewritten arguments, each after a space.
pub open spec fn rewritten(args: Seq<Seq<char>>) -> Seq<char>
    decreases args.len(),
{
    if args.len() == 0 {
        Seq::empty()
    } else {
        rewritten(args.drop_last()) + seq![' '] + rimage_flag(args.last())
    }
}

/// The text of each argument.
pub open spec fn arg_texts(argv: Seq<String>) -> Seq<Seq<char>> {
    argv.map_values(|s: String| s@)
}

/// The hint for a rimage-shaped command line: the first argument is a
/// rimage codec name that is not a file.
pub open spec fn spec_rimage_hint(argv: Seq<Seq<char>>, first_exists: bool) -> Option<Seq<char>> {
    if argv.len() == 0 || first_exists {
        None
    } else {
        match rimage_format(argv[0]) {
            None => None,
            Some(f) => Some(
                "`sqzer "@ + argv[0] + "` is rimage syntax. try:\n    "@ + "sqzer -f "@ + f
                    + rewritten(argv.skip(1)) + "\nsee the README for the flag mapping"@,
            ),
        }
    }
}

fn rimage_format_of(name: &str) -> (r: Option<&'static str>)
    ensures
        match rimage_format(name@) {
            Some(f) => r matches Some(s) && s@ == f,
            None => r is None,
        },
{
    if str_eq(name, "mozjpeg") {
        Some("jpeg")
    } else if str_eq(name, "oxipng") {
        Some("png")
    } else if str_eq(name, "webp") {
        Some("webp")
    } else if str_eq(name, "avif") {
        Some("avif")
    } else if str_eq(name, "jxl") {
        Some("jxl")
    } else if str_eq(name, "png") {
        Some("png")
    } else if str_eq(name, "jpeg") {
        Some("jpeg")
    } else {
        None
    }
}

fn push_flag(m: &mut String, a: &str)
    ensures
        final(m)@ == old(m)@ + rimage_flag(a@),
{
    if str_eq(a, "-d") {
        push_str(m, "-o");
    } else if str_eq(a, "-s") {
        push_str(m, "--suffix");
    } else if str_eq(a, "-t") {
        push_str(m, "-j");
    } else if str_eq(a, "--quantization") {
        push_str(m, "--codec-opt png:colors=");
    } else {
        push_str(m, a);
    }
}

/// The hint for a rimage-shaped command line, or `None` when the
/// arguments do not look like one. `argv` excludes the program name;
/// `first_exists` says whether the first argument names something on
/// disk, in which case it is a path and gets no hint.
pub fn rimage_hint(argv: &[String], first_exists: bool) -> (r: Option<String>)
    ensures
        match spec_rimage_hint(arg_texts(argv@), first_exists) {
            Some(h) => r matches Some(s) && s@ == h,
            None => r is None,
        },
{
    if argv.len() == 0 || first_exists {
        return None;
    }
    let first = argv[0].as_str();
    let format = match rimage_format_of(first) {
        Some(f) => f,
        None => return None,
    };
    let ghost texts = arg_texts(argv@);
    assert(texts[0] == first@);
    let mut m = String::new();
    push_str(&mut m, "`sqzer ");
    push_str(&mut m, first);
    push_str(&mut m, "` is rimage syntax. try:\n    ");
    push_str(&mut m, "sqzer -f ");
    push_str(&mut m, format);
    let ghost head = m@;
    let mut i: usize = 1;
    while i < argv.len()
        invariant
            1 <= i <= argv@.len(),
            texts == arg_texts(argv@),
            m@ == head + rewritten(texts.subrange(1, i as int)),
        decreases argv@.len() - i,
    {
        push_str(&mut m, " ");
        push_flag(&mut m, argv[i].as_str());
        proof {
            reveal_strlit(" ");
            let s = texts.subrange(1, i + 1);
            assert(s.drop_last() =~= texts.subrange(1, i as int));
            assert(s.last() == argv@[i as int]@);
        }
        assert(m@ =~= head + rewritten(texts.subrange(1, i + 1)));
        i = i + 1;
    }
    assert(texts.subrange(1, argv@.len() as int) =~= texts.skip(1));
    push_str(&mut m, "\nsee the README for the flag mapping");
    Some(m)
}


/// An input as plain values: its kind (`0` stdin, `1` a file named
/// directly, `2` a file found under a directory), the directory it was
/// found under, and the path that identifies it (`-` for stdin).
pub open spec fn view_input(i: Input) -> (int, Seq<char>, Seq<char>) {
    match i {
        Input::Stdin => (0, Seq::empty(), seq!['-']),
        Input::File(p) => (1, Seq::empty(), p@),
        Input::InTree { root, path } => (2, root@, path@),
    }
}

/// A list of inputs as plain values.
pub open spec fn inputs_view(v: Seq<Input>) -> Seq<(int, Seq<char>, Seq<char>)> {
    v.map_values(|i: Input| view_input(i))
}

/// A list of `(argument, why)` pairs as plain values.
pub open spec fn failures_view(v: Seq<(String, String)>) -> Seq<(Seq<char>, Seq<char>)> {
    v.map_values(|p: (String, String)| (p.0@, p.1@))
}

/// Whether some input in `s` is identified by `k`.
pub open spec fn has_key(s: Seq<(int, Seq<char>, Seq<char>)>, k: Seq<char>) -> bool {
    exists|j: int| 0 <= j < s.len() && s[j].2 == k
}

/// `s` with `n` appended, unless an input with the same path is already
/// there.
pub open spec fn add_new(s: Seq<(int, Seq<char>, Seq<char>)>, n: (int, Seq<char>, Seq<char>)) -> Seq<(int, Seq<char>, Seq<char>)> {
    if has_key(s, n.2) { s } else { s.push(n) }
}

/// Each of `files`, found under `root`, added in order.
pub open spec fn add_tree(s: Seq<(int, Seq<char>, Seq<char>)>, root: Seq<char>, files: Seq<Seq<char>>) -> Seq<(int, Seq<char>, Seq<char>)>
    decreases files.len(),
{
    if files.len() == 0 {
        s
    } else {
        add_new(add_tree(s, root, files.drop_last()), (2, root, files.last()))
    }
}

/// One path a glob matched. A directory comes with the files a recursive
/// walk found under it.
#[derive(Debug, Clone)]
pub struct GlobEntry {
    /// The path matched.
    pub path: String,
    /// Whether it is a directory.
    pub is_dir: bool,
    /// For a directory walked with `-r`: the decodable files under it, in
    /// walk order, filtered by `--include` and `--exclude`.
    pub tree: Vec<String>,
}

/// What the file system says of one argument, once its trailing quote is
/// dropped.
#[derive(Debug, Clone)]
pub enum Lookup {
    /// It exists and is not a directory.
    File,
    /// It is a directory; with `-r`, the decodable files under it, in walk
    /// order, filtered by `--include` and `--exclude`.
    Dir(Vec<String>),
    /// It does not exist and holds a glob metacharacter: the paths the
    /// glob matched, or `None` when the pattern is not a valid glob.
    Glob(Option<Vec<GlobEntry>>),
    /// It could not be looked up: `None` when it does not exist, else what
    /// the system said.
    Missing(Option<String>),
}

/// The text of each string.
pub open spec fn str_texts(v: Seq<String>) -> Seq<Seq<char>> {
    v.map_values(|s: String| s@)
}

/// The paths a glob matched, added in order: a file as itself, a
/// directory's files as found under it when recursing, a directory
/// otherwise not at all.
pub open spec fn add_glob(s: Seq<(int, Seq<char>, Seq<char>)>, entries: Seq<GlobEntry>, recursive: bool) -> Seq<(int, Seq<char>, Seq<char>)>
    decreases entries.len(),
{
    if entries.len() == 0 {
        s
    } else {
        let before = add_glob(s, entries.drop_last(), recursive);
        let e = entries.last();
        if e.is_dir {
            if recursive { add_tree(before, e.path@, str_texts(e.tree@)) } else { before }
        } else {
            add_new(before, (1, Seq::empty(), e.path@))
        }
    }
}

/// What resolving the arguments so far has given: the inputs, and the
/// arguments that named nothing, each with why.
pub type ResolveState = (Seq<(int, Seq<char>, Seq<char>)>, Seq<(Seq<char>, Seq<char>)>);

/// One more argument resolved against what the file system said of it.
pub open spec fn resolve_step(st: ResolveState, raw: Seq<char>, lookup: Lookup, recursive: bool) -> ResolveState {
    let arg = unquoted(raw);
    if arg == seq!['-'] {
        (add_new(st.0, (0, Seq::empty(), seq!['-'])), st.1)
    } else {
        match lookup {
            Lookup::File => (add_new(st.0, (1, Seq::empty(), arg)), st.1),
            Lookup::Dir(files) => if !recursive {
                (st.0, st.1.push((arg, "is a directory; pass -r to recurse"@)))
            } else if files@.len() == 0 {
                (st.0, st.1.push((arg, "no images under it"@)))
            } else {
                (add_tree(st.0, arg, str_texts(files@)), st.1)
            },
            Lookup::Glob(None) => (st.0, st.1.push((arg, "is not a valid glob"@))),
            Lookup::Glob(Some(entries)) => if entries@.len() == 0 {
                (st.0, st.1.push((arg, "no files match"@)))
            } else {
                (add_glob(st.0, entries@, recursive), st.1)
            },
            Lookup::Missing(None) => (st.0, st.1.push((arg, "no such file"@))),
            Lookup::Missing(Some(why)) => (st.0, st.1.push((arg, why@))),
        }
    }
}

/// Every argument resolved in order.
pub open spec fn resolve_all(args: Seq<Seq<char>>, lookups: Seq<Lookup>, recursive: bool) -> ResolveState
    decreases args.len(),
{
    if args.len() == 0 || lookups.len() < args.len() {
        (Seq::empty(), Seq::empty())
    } else {
        resolve_step(resolve_all(args.drop_last(), lookups.subrange(0, args.len() - 1), recursive), args.last(), lookups[args.len() - 1], recursive)
    }
}

/// How the arguments resolved: the inputs to process and the arguments
/// that named nothing, each with its message.
#[derive(Debug)]
pub struct Resolved {
    /// Inputs, in argument order, without duplicates.
    pub inputs: Vec<Input>,
    /// `(argument, why)` for every argument that resolved to nothing.
    pub failures: Vec<(String, String)>,
}

fn copy_text(s: &str) -> (r: String)
    ensures
        r@ == s@,
{
    let mut t = String::new();
    push_str(&mut t, s);
    assert(t@ =~= s@);
    t
}

fn key_of(i: &Input) -> (r: &str)
    ensures
        r@ == view_input(*i).2,
{
    match i {
        Input::Stdin => {
            proof { reveal_strlit("-"); }
            assert("-"@ =~= seq!['-']);
            "-"
        },
        Input::File(p) => p.as_str(),
        Input::InTree { path, .. } => path.as_str(),
    }
}

fn contains_key(inputs: &Vec<Input>, k: &str) -> (r: bool)
    ensures
        r == has_key(inputs_view(inputs@), k@),
{
    let mut j: usize = 0;
    while j < inputs.len()
        invariant
            j <= inputs@.len(),
            forall|m: int| 0 <= m < j ==> inputs_view(inputs@)[m].2 != k@,
        decreases inputs@.len() - j,
    {
        if str_eq(key_of(&inputs[j]), k) {
            assert(inputs_view(inputs@)[j as int].2 == k@);
            return true;
        }
        j = j + 1;
    }
    false
}

fn push_new(inputs: &mut Vec<Input>, i: Input)
    ensures
        inputs_view(final(inputs)@) == add_new(inputs_view(old(inputs)@), view_input(i)),
{
    let present = contains_key(inputs, key_of(&i));
    if !present {
        inputs.push(i);
        assert(inputs_view(inputs@) =~= inputs_view(old(inputs)@).push(view_input(i)));
    }
}

fn push_tree(inputs: &mut Vec<Input>, root: &str, files: &[String])
    ensures
        inputs_view(final(inputs)@) == add_tree(inputs_view(old(inputs)@), root@, str_texts(files@)),
{
    let mut k: usize = 0;
    while k < files.len()
        invariant
            k <= files@.len(),
            inputs_view(inputs@) == add_tree(inputs_view(old(inputs)@), root@, str_texts(files@.subrange(0, k as int))),
        decreases files@.len() - k,
    {
        let ghost before = inputs_view(inputs@);
        push_new(inputs, Input::InTree { root: copy_text(root), path: copy_text(files[k].as_str()) });
        proof {
            let t = str_texts(files@.subrange(0, k + 1));
            assert(t.drop_last() =~= str_texts(files@.subrange(0, k as int)));
            assert(t.last() == files@[k as int]@);
        }
        k = k + 1;
    }
    assert(files@.subrange(0, files@.len() as int) =~= files@);
}

fn push_glob(inputs: &mut Vec<Input>, entries: &[GlobEntry], recursive: bool)
    ensures
        inputs_view(final(inputs)@) == add_glob(inputs_view(old(inputs)@), entries@, recursive),
{
    let mut k: usize = 0;
    while k < entries.len()
        invariant
            k <= entries@.len(),
            inputs_view(inputs@) == add_glob(inputs_view(old(inputs)@), entries@.subrange(0, k as int), recursive),
        decreases entries@.len() - k,
    {
        let e = &entries[k];
        proof {
            let t = entries@.subrange(0, k + 1);
            assert(t.drop_last() =~= entries@.subrange(0, k as int));
            assert(t.last() == entries@[k as int]);
        }
        if e.is_dir {
            if recursive {
                push_tree(inputs, e.path.as_str(), e.tree.as_slice());
            }
        } else {
            push_new(inputs, Input::File(copy_text(e.path.as_str())));
        }
        k = k + 1;
    }
    assert(entries@.subrange(0, entries@.len() as int) =~= entries@);
}

fn fail(failures: &mut Vec<(String, String)>, arg: &str, why: &str)
    ensures
        failures_view(final(failures)@) == failures_view(old(failures)@).push((arg@, why@)),
{
    failures.push((copy_text(arg), copy_text(why)));
    assert(failures_view(failures@) =~= failures_view(old(failures)@).push((arg@, why@)));
}

/// Resolves the positional arguments and the lines of `--files-from`,
/// each against what the file system said of it (`lookups[i]` for
/// `args[i]`). An argument that exists is a path and never a glob; one
/// that does not and holds a glob metacharacter is expanded; anything else
/// is a failure. An input reached twice is kept once, where it was first
/// reached.
pub fn resolve(args: &[String], lookups: &[Lookup], recursive: bool) -> (r: Resolved)
    requires
        lookups@.len() == args@.len(),
    ensures
        (inputs_view(r.inputs@), failures_view(r.failures@)) == resolve_all(arg_texts(args@), lookups@, recursive),
{
    let mut out = Resolved { inputs: Vec::new(), failures: Vec::new() };
    let mut i: usize = 0;
    assert(inputs_view(out.inputs@) =~= Seq::<(int, Seq<char>, Seq<char>)>::empty());
    assert(failures_view(out.failures@) =~= Seq::<(Seq<char>, Seq<char>)>::empty());
    while i < args.len()
        invariant
            lookups@.len() == args@.len(),
            i <= args@.len(),
            (inputs_view(out.inputs@), failures_view(out.failures@))
                == resolve_all(arg_texts(args@.subrange(0, i as int)), lookups@.subrange(0, i as int), recursive),
        decreases args@.len() - i,
    {
        proof {
            let a = arg_texts(args@.subrange(0, i + 1));
            assert(a.drop_last() =~= arg_texts(args@.subrange(0, i as int)));
            assert(a.last() == args@[i as int]@);
            assert(lookups@.subrange(0, i + 1).subrange(0, i as int) =~= lookups@.subrange(0, i as int));
            assert(lookups@.subrange(0, i + 1)[i as int] == lookups@[i as int]);
            reveal_strlit("-");
            assert("-"@ =~= seq!['-']);
        }
        let ghost prev = (inputs_view(out.inputs@), failures_view(out.failures@));
        let arg = strip_trailing_quote(args[i].as_str());
        if str_eq(arg, "-") {
            push_new(&mut out.inputs, Input::Stdin);
        } else {
            match &lookups[i] {
                Lookup::File => {
                    push_new(&mut out.inputs, Input::File(copy_text(arg)));
                },
                Lookup::Dir(files) => {
                    if !recursive {
                        fail(&mut out.failures, arg, "is a directory; pass -r to recurse");
                    } else if files.len() == 0 {
                        fail(&mut out.failures, arg, "no images under it");
                    } else {
                        push_tree(&mut out.inputs, arg, files.as_slice());
                    }
                },
                Lookup::Glob(None) => {
                    fail(&mut out.failures, arg, "is not a valid glob");
                },
                Lookup::Glob(Some(entries)) => {
                    if entries.len() == 0 {
                        fail(&mut out.failures, arg, "no files match");
                    } else {
                        push_glob(&mut out.inputs, entries.as_slice(), recursive);
                    }
                },
                Lookup::Missing(None) => {
                    fail(&mut out.failures, arg, "no such file");
                },
                Lookup::Missing(Some(why)) => {
                    fail(&mut out.failures, arg, why.as_str());
                },
            }
        }
        i = i + 1;
    }
    assert(args@.subrange(0, args@.len() as int) =~= args@);
    assert(lookups@.subrange(0, args@.len() as int) =~= lookups@);
    out
}

/// No two inputs share a path: what `add_new` keeps.
pub open spec fn distinct_keys(s: Seq<(int, Seq<char>, Seq<char>)>) -> bool {
    forall|a: int, b: int| 0 <= a < b < s.len() ==> s[a].2 != s[b].2
}

proof fn lemma_add_new_distinct(s: Seq<(int, Seq<char>, Seq<char>)>, n: (int, Seq<char>, Seq<char>))
    requires
        distinct_keys(s),
    ensures
        distinct_keys(add_new(s, n)),
        has_key(add_new(s, n), n.2),
        forall|k: Seq<char>| has_key(s, k) ==> has_key(add_new(s, n), k),
{
    if !has_key(s, n.2) {
        let t = s.push(n);
        assert forall|a: int, b: int| 0 <= a < b < t.len() implies t[a].2 != t[b].2 by {
            if b == s.len() {
                assert(s[a].2 != n.2);
            }
        }
        assert(t[s.len() as int].2 == n.2);
        assert forall|k: Seq<char>| has_key(s, k) implies has_key(t, k) by {
            let j = choose|j: int| 0 <= j < s.len() && s[j].2 == k;
            assert(t[j] == s[j]);
        }
    }
}

proof fn lemma_add_tree_distinct(s: Seq<(int, Seq<char>, Seq<char>)>, root: Seq<char>, files: Seq<Seq<char>>)
    requires
        distinct_keys(s),
    ensures
        distinct_keys(add_tree(s, root, files)),
    decreases files.len(),
{
    if files.len() > 0 {
        lemma_add_tree_distinct(s, root, files.drop_last());
        lemma_add_new_distinct(add_tree(s, root, files.drop_last()), (2, root, files.last()));
    }
}

proof fn lemma_add_glob_distinct(s: Seq<(int, Seq<char>, Seq<char>)>, entries: Seq<GlobEntry>, recursive: bool)
    requires
        distinct_keys(s),
    ensures
        distinct_keys(add_glob(s, entries, recursive)),
    decreases entries.len(),
{
    if entries.len() > 0 {
        lemma_add_glob_distinct(s, entries.drop_last(), recursive);
        let before = add_glob(s, entries.drop_last(), recursive);
        let e = entries.last();
        if e.is_dir {
            lemma_add_tree_distinct(before, e.path@, str_texts(e.tree@));
        } else {
            lemma_add_new_distinct(before, (1, Seq::empty(), e.path@));
        }
    }
}

/// However the arguments repeat or overlap, no two resolved inputs name
/// the same path, and stdin is at most one input.
pub proof fn lemma_resolved_inputs_are_distinct(args: Seq<Seq<char>>, lookups: Seq<Lookup>, recursive: bool)
    ensures
        distinct_keys(resolve_all(args, lookups, recursive).0),
    decreases args.len(),
{
    if args.len() > 0 && lookups.len() >= args.len() {
        let prev = resolve_all(args.drop_last(), lookups.subrange(0, args.len() - 1), recursive);
        lemma_resolved_inputs_are_distinct(args.drop_last(), lookups.subrange(0, args.len() - 1), recursive);
        let arg = unquoted(args.last());
        let lk = lookups[args.len() - 1];
        if arg == seq!['-'] {
            lemma_add_new_distinct(prev.0, (0, Seq::empty(), seq!['-']));
        } else {
            match lk {
                Lookup::File => lemma_add_new_distinct(prev.0, (1, Seq::empty(), arg)),
                Lookup::Dir(files) => lemma_add_tree_distinct(prev.0, arg, str_texts(files@)),
                Lookup::Glob(Some(entries)) => lemma_add_glob_distinct(prev.0, entries@, recursive),
                _ => {},
            }
        }
    }
}


/// The pieces of `s` between separators, the first of them continuing
/// `cur`.
pub open spec fn pieces(s: Seq<char>, sep: char, cur: Seq<char>) -> Seq<Seq<char>>
    decreases s.len(),
{
    if s.len() == 0 {
        seq![cur]
    } else if s[0] == sep {
        seq![cur] + pieces(s.drop_first(), sep, Seq::empty())
    } else {
        pieces(s.drop_first(), sep, cur.push(s[0]))
    }
}

/// A line without its trailing carriage returns.
pub open spec fn trim_cr(s: Seq<char>) -> Seq<char>
    decreases s.len(),
{
    if s.len() > 0 && s.last() == '\r' { trim_cr(s.drop_last()) } else { s }
}

/// The pieces trimmed of trailing carriage returns, the empty ones left
/// out.
pub open spec fn kept_lines(p: Seq<Seq<char>>) -> Seq<Seq<char>>
    decreases p.len(),
{
    if p.len() == 0 {
        Seq::empty()
    } else {
        let k = kept_lines(p.drop_last());
        let t = trim_cr(p.last());
        if t.len() == 0 { k } else { k.push(t) }
    }
}

/// The paths a `--files-from` text lists: one per line, or NUL
/// separated with `-0`; a trailing `\r` is a line ending, not part of the
/// name, and empty lines are skipped.
pub open spec fn spec_file_list(text: Seq<char>, null: bool) -> Seq<Seq<char>> {
    kept_lines(pieces(text, if null { '\0' } else { '\n' }, Seq::empty()))
}

/// Text without the separator is one piece, after what came before.
proof fn lemma_pieces_plain(s: Seq<char>, sep: char, cur: Seq<char>)
    requires
        forall|i: int| 0 <= i < s.len() ==> s[i] != sep,
    ensures
        pieces(s, sep, cur) == seq![cur + s],
    decreases s.len(),
{
    if s.len() > 0 {
        lemma_pieces_plain(s.drop_first(), sep, cur.push(s[0]));
        assert(cur.push(s[0]) + s.drop_first() =~= cur + s);
    } else {
        assert(cur + s =~= cur);
    }
}

/// Splitting at a separator: the pieces of `a`, then those of `b`.
proof fn lemma_pieces_split(a: Seq<char>, b: Seq<char>, sep: char, cur: Seq<char>)
    ensures
        pieces(a + seq![sep] + b, sep, cur) == pieces(a, sep, cur) + pieces(b, sep, Seq::empty()),
    decreases a.len(),
{
    let t = a + seq![sep] + b;
    if a.len() == 0 {
        assert(t[0] == sep);
        assert(t.drop_first() =~= b);
    } else {
        assert(t[0] == a[0]);
        assert(t.drop_first() =~= a.drop_first() + seq![sep] + b);
        if a[0] == sep {
            lemma_pieces_split(a.drop_first(), b, sep, Seq::empty());
            assert(seq![cur] + (pieces(a.drop_first(), sep, Seq::empty()) + pieces(b, sep, Seq::empty()))
                =~= seq![cur] + pieces(a.drop_first(), sep, Seq::empty()) + pieces(b, sep, Seq::empty()));
        } else {
            lemma_pieces_split(a.drop_first(), b, sep, cur.push(a[0]));
        }
    }
}

/// Keeping the lines of two lists of pieces is keeping each's.
proof fn lemma_kept_lines_append(p: Seq<Seq<char>>, q: Seq<Seq<char>>)
    ensures
        kept_lines(p + q) == kept_lines(p) + kept_lines(q),
    decreases q.len(),
{
    if q.len() == 0 {
        assert(p + q =~= p);
        assert(kept_lines(p) + kept_lines(q) =~= kept_lines(p));
    } else {
        assert((p + q).drop_last() =~= p + q.drop_last());
        assert((p + q).last() == q.last());
        lemma_kept_lines_append(p, q.drop_last());
        let t = trim_cr(q.last());
        if t.len() > 0 {
            assert(kept_lines(p) + kept_lines(q.drop_last()).push(t) =~= (kept_lines(p) + kept_lines(q.drop_last())).push(t));
        }
    }
}

/// What `--files-from` lists: an empty text lists nothing; a text
/// without the separator, not empty and not ending in a carriage return,
/// names exactly itself, also with one `\r` after it; and a text split at
/// a separator lists what its part before the separator lists, then what
/// its part after it does, the last part too.
pub proof fn lemma_file_list_splits(a: Seq<char>, b: Seq<char>, null: bool)
    ensures
        spec_file_list(Seq::empty(), null) == Seq::<Seq<char>>::empty(),
        (forall|i: int| 0 <= i < a.len() ==> a[i] != (if null { '\0' } else { '\n' })) && a.len() > 0
            && a.last() != '\r' ==> spec_file_list(a, null) == seq![a] && spec_file_list(a.push('\r'), null) == seq![a],
        spec_file_list(a + seq![if null { '\0' } else { '\n' }] + b, null) == spec_file_list(a, null) + spec_file_list(b, null),
{
    let sep = if null { '\0' } else { '\n' };
    lemma_pieces_split(a, b, sep, Seq::empty());
    lemma_kept_lines_append(pieces(a, sep, Seq::empty()), pieces(b, sep, Seq::empty()));
    if (forall|i: int| 0 <= i < a.len() ==> a[i] != sep) && a.len() > 0 && a.last() != '\r' {
        lemma_pieces_plain(a, sep, Seq::empty());
        assert(Seq::<char>::empty() + a =~= a);
        let one = seq![a];
        assert(one.drop_last() =~= Seq::<Seq<char>>::empty());
        assert(kept_lines(Seq::<Seq<char>>::empty()) == Seq::<Seq<char>>::empty());
        assert(trim_cr(a) == a);
        assert(one.last() == a);
        assert(kept_lines(one) == Seq::<Seq<char>>::empty().push(a));
        assert(kept_lines(one) =~= seq![a]);
        let ar = a.push('\r');
        assert forall|i: int| 0 <= i < ar.len() implies ar[i] != sep by {
            if i < a.len() {
                assert(ar[i] == a[i]);
            }
        }
        lemma_pieces_plain(ar, sep, Seq::empty());
        assert(Seq::<char>::empty() + ar =~= ar);
        assert(ar.drop_last() =~= a);
        assert(trim_cr(ar) == a);
        let two = seq![ar];
        assert(two.drop_last() =~= Seq::<Seq<char>>::empty());
        assert(two.last() == ar);
        assert(kept_lines(two) =~= seq![a]);
    }
    let e = Seq::<char>::empty();
    assert(pieces(e, sep, e) == seq![e]);
    assert(seq![e].drop_last() =~= Seq::<Seq<char>>::empty());
    assert(trim_cr(e) == e);
    assert(kept_lines(Seq::<Seq<char>>::empty()) == Seq::<Seq<char>>::empty());
    assert(kept_lines(seq![e]) == Seq::<Seq<char>>::empty());
}

fn trimmed(cur: &Vec<char>) -> (r: String)
    ensures
        r@ == trim_cr(cur@),
{
    let mut n = cur.len();
    assert(cur@.subrange(0, n as int) =~= cur@);
    while n > 0 && cur[n - 1] == '\r'
        invariant
            n <= cur@.len(),
            trim_cr(cur@.subrange(0, n as int)) == trim_cr(cur@),
        decreases n,
    {
        assert(cur@.subrange(0, n as int).drop_last() =~= cur@.subrange(0, n - 1));
        n = n - 1;
    }
    string_of(vstd::slice::slice_subrange(cur.as_slice(), 0, n))
}

/// The paths listed in the text of a `--files-from` file.
pub fn file_list(text: &str, null: bool) -> (r: Vec<String>)
    ensures
        str_texts(r@) == spec_file_list(text@, null),
{
    let sep = if null { '\0' } else { '\n' };
    let cs = chars_of(text);
    let mut out: Vec<String> = Vec::new();
    let mut cur: Vec<char> = Vec::new();
    let ghost mut all: Seq<Seq<char>> = Seq::empty();
    let mut i: usize = 0;
    assert(cs@.skip(0) =~= text@);
    assert(all + pieces(text@, sep, Seq::empty()) =~= pieces(text@, sep, Seq::empty()));
    while i < cs.len()
        invariant
            cs@ == text@,
            i <= cs@.len(),
            all + pieces(cs@.skip(i as int), sep, cur@) == pieces(text@, sep, Seq::empty()),
            str_texts(out@) == kept_lines(all),
        decreases cs@.len() - i,
    {
        let c = cs[i];
        let ghost rest = cs@.skip(i as int);
        assert(rest.drop_first() =~= cs@.skip(i + 1));
        if c == sep {
            let t = trimmed(&cur);
            proof {
                assert(all.push(cur@).drop_last() =~= all);
                assert(all + (seq![cur@] + pieces(cs@.skip(i + 1), sep, Seq::empty()))
                    =~= all.push(cur@) + pieces(cs@.skip(i + 1), sep, Seq::empty()));
            }
            if t.unicode_len() > 0 {
                out.push(t);
                assert(str_texts(out@) =~= kept_lines(all.push(cur@)));
            }
            proof { all = all.push(cur@); }
            cur = Vec::new();
        } else {
            cur.push(c);
        }
        i = i + 1;
    }
    let t = trimmed(&cur);
    proof {
        assert(cs@.skip(i as int) =~= Seq::<char>::empty());
        assert(all + seq![cur@] =~= all.push(cur@));
        assert(all.push(cur@).drop_last() =~= all);
    }
    if t.unicode_len() > 0 {
        out.push(t);
        assert(str_texts(out@) =~= kept_lines(all.push(cur@)));
    }
    out
}

} // verus!
