//! The decisions of one job between its file operations: where stdin's
//! output goes, the name of a backup, and whether an encoded output is
//! written, skipped or refused.

use vstd::prelude::*;
use crate::cli::inputs::Input;
use crate::cli::output::{Naming, Placement, place_message, placed};
use crate::cli::paths::{extension, extension_text, join, join_text, parent, parent_of, stem_of, stem_text};
use crate::format::{Format, spec_extension};
use crate::text::{decimal, push_decimal, push_str};

verus! {

/// `stem@backup.ext` beside the file, or `stem@backup` when it has no
/// extension.
pub open spec fn backup_text(p: Seq<char>) -> Seq<char> {
    let name = match extension_text(p) {
        Some(e) => stem_text(p) + "@backup."@ + e,
        None => stem_text(p) + "@backup"@,
    };
    join_text(parent_of(p), name)
}

/// `photo@backup.jpg` next to `photo.jpg`.
pub fn backup_path(input: &str) -> (r: String)
    ensures
        r@ == backup_text(input@),
{
    let mut name = stem_of(input);
    match extension(input) {
        Some(e) => {
            push_str(&mut name, "@backup.");
            push_str(&mut name, e.as_str());
        },
        None => {
            push_str(&mut name, "@backup");
        },
    }
    let dir = parent(input);
    join(dir.as_str(), name.as_str())
}

/// Where the output of stdin goes: `None` for stdout, else `-o` itself
/// when it names a file, else `stdin.ext` inside the `-o` directory.
pub open spec fn spec_stdin_destination(output: Option<Seq<char>>, single_file: bool, format: Format) -> Option<Seq<char>> {
    match output {
        None => None,
        Some(o) => if single_file {
            Some(o)
        } else {
            Some(join_text(o, "stdin."@ + spec_extension(format)))
        },
    }
}

/// Where the output of stdin goes.
pub fn stdin_destination(output: Option<&str>, single_file: bool, format: Format) -> (r: Option<String>)
    ensures
        match spec_stdin_destination(match output { Some(o) => Some(o@), None => None }, single_file, format) {
            Some(d) => r matches Some(s) && s@ == d,
            None => r is None,
        },
{
    match output {
        None => None,
        Some(o) => {
            if single_file {
                let mut s = String::new();
                push_str(&mut s, o);
                assert(s@ =~= o@);
                Some(s)
            } else {
                let mut name = String::new();
                push_str(&mut name, "stdin.");
                push_str(&mut name, format.extension());
                Some(join(o, name.as_str()))
            }
        },
    }
}

/// What to do with an encoded output once its path is known.
#[derive(Debug, Clone, PartialEq, Eq)]
pub enum WriteStep {
    /// Write nothing and report the output skipped, with why.
    Skip(String),
    /// Write nothing and report the output failed, with why.
    Refuse(String),
    /// Move the input to this backup path, then write.
    BackUpThenWrite(String),
    /// Write the output.
    Write,
}

/// The skip reason for an output larger than its input.
pub open spec fn larger_reason(out_len: u64, input_len: u64) -> Seq<char> {
    "output ("@ + decimal(out_len as nat) + " bytes) is larger than input ("@ + decimal(input_len as nat)
        + " bytes); --force writes it anyway"@
}

/// The refusal for a backup that is already there.
pub open spec fn backup_exists_message(backup: Seq<char>) -> Seq<char> {
    "backup "@ + backup + " exists; --force overwrites it"@
}

/// What to do with an encoded output, as plain values: `0` skip, `1`
/// refuse, `2` back up then write, `3` write; with the text that goes with
/// it.
pub open spec fn spec_write_step(path: Seq<char>, force: bool, in_place: bool, backup: bool, out_len: u64, input_len: u64, backup_exists: bool, path_exists: bool) -> (int, Seq<char>) {
    if !force && out_len > input_len {
        (0, larger_reason(out_len, input_len))
    } else if in_place {
        if backup {
            if backup_exists && !force {
                (1, backup_exists_message(backup_text(path)))
            } else {
                (2, backup_text(path))
            }
        } else {
            (3, Seq::empty())
        }
    } else if path_exists && !force {
        (1, "output exists; --force overwrites it"@)
    } else {
        (3, Seq::empty())
    }
}

/// A write step as plain values.
pub open spec fn step_view(s: WriteStep) -> (int, Seq<char>) {
    match s {
        WriteStep::Skip(m) => (0, m@),
        WriteStep::Refuse(m) => (1, m@),
        WriteStep::BackUpThenWrite(p) => (2, p@),
        WriteStep::Write => (3, Seq::empty()),
    }
}

/// The write policy, for any step [`write_step`] gives: an output larger
/// than its input is skipped unless forced, and only then; with
/// `--in-place` and no `--backup` an output no larger than its input is
/// written over the input, whatever exists and whatever `--force` says;
/// with `--backup` too it is written after the input moves to its backup
/// path, unless that backup exists and nothing forces it; otherwise an
/// existing output is refused unless forced, and a new one written.
pub proof fn lemma_write_policy(r: WriteStep, path: Seq<char>, force: bool, in_place: bool, backup: bool, out_len: u64, input_len: u64, backup_exists: bool, path_exists: bool)
    requires
        step_view(r) == spec_write_step(path, force, in_place, backup, out_len, input_len, backup_exists, path_exists),
    ensures
        (r is Skip) == (!force && out_len > input_len),
        in_place && !backup && (force || out_len <= input_len) ==> r == WriteStep::Write,
        in_place && backup && (force || out_len <= input_len) ==> (
            if backup_exists && !force { r is Refuse } else { r matches WriteStep::BackUpThenWrite(b) && b@ == backup_text(path) }),
        !in_place && (force || out_len <= input_len) ==> (if path_exists && !force { r is Refuse } else { r == WriteStep::Write }),
{
    match r {
        WriteStep::Skip(m) => {},
        WriteStep::Refuse(m) => {},
        WriteStep::BackUpThenWrite(b) => {},
        WriteStep::Write => {},
    }
}

/// Whether and how an encoded output is written to `path`. Without
/// `--force` an output larger than its input is skipped and an existing
/// output is refused; `--in-place` overwrites the input, after moving it
/// to its backup path under `--backup`, unless that backup exists.
/// `backup_exists` is whether the backup path of `path` exists, and
/// `path_exists` whether `path` does.
pub fn write_step(path: &str, force: bool, in_place: bool, backup: bool, out_len: u64, input_len: u64, backup_exists: bool, path_exists: bool) -> (r: WriteStep)
    ensures
        step_view(r) == spec_write_step(path@, force, in_place, backup, out_len, input_len, backup_exists, path_exists),
{
    if !force && out_len > input_len {
        let mut m = String::new();
        push_str(&mut m, "output (");
        push_decimal(&mut m, out_len);
        push_str(&mut m, " bytes) is larger than input (");
        push_decimal(&mut m, input_len);
        push_str(&mut m, " bytes); --force writes it anyway");
        assert(m@ =~= larger_reason(out_len, input_len));
        return WriteStep::Skip(m);
    }
    if in_place {
        if backup {
            let b = backup_path(path);
            if backup_exists && !force {
                let mut m = String::new();
                push_str(&mut m, "backup ");
                push_str(&mut m, b.as_str());
                push_str(&mut m, " exists; --force overwrites it");
                assert(m@ =~= backup_exists_message(backup_text(path@)));
                return WriteStep::Refuse(m);
            }
            return WriteStep::BackUpThenWrite(b);
        }
        return WriteStep::Write;
    }
    if path_exists && !force {
        let mut m = String::new();
        push_str(&mut m, "output exists; --force overwrites it");
        return WriteStep::Refuse(m);
    }
    WriteStep::Write
}

/// Without `--force`, nothing is ever written over an existing file that
/// is not the input of an in-place run, nor over an input whose backup
/// already exists, and no output larger than its input is written.
pub proof fn lemma_no_clobber_without_force(path: Seq<char>, in_place: bool, backup: bool, out_len: u64, input_len: u64, backup_exists: bool, path_exists: bool)
    ensures
        ({
            let s = spec_write_step(path, false, in_place, backup, out_len, input_len, backup_exists, path_exists);
            &&& (path_exists && !in_place) ==> s.0 < 2
            &&& (in_place && backup && backup_exists) ==> s.0 < 2
            &&& out_len > input_len ==> s.0 == 0
        }),
{
}

/// Where an output goes.
#[derive(Debug, Clone, PartialEq, Eq)]
pub enum Destination {
    /// Standard output.
    Stdout,
    /// A file.
    File(String),
}

/// Where an output goes, as a plain value: `None` for stdout, else the
/// path; or the message that refuses it.
pub open spec fn spec_destination(p: Placement, n: Naming, cwd: Seq<char>) -> Result<Option<Seq<char>>, Seq<char>> {
    if *n.input is Stdin {
        Ok(spec_stdin_destination(match p.output { Some(o) => Some(o@), None => None }, p.single_file, n.format))
    } else {
        match placed(p, *n.input, n.input_format, n.format, n.width, n.height, n.quality, cwd) {
            Ok(path) => Ok(Some(path)),
            Err(e) => Err(place_message(e)),
        }
    }
}

/// Where one output of the input `n` names goes under the placement
/// flags: stdin's output by [`stdin_destination`], a file's by
/// [`Placement::resolve`], whose refusal comes back as its message.
/// `cwd` is the working directory, for telling whether a path is the
/// input's own.
pub fn destination(p: &Placement, n: &Naming<'_>, cwd: &str) -> (r: Result<Destination, String>)
    requires
        !p.in_place && p.single_file ==> p.output is Some,
    ensures
        match spec_destination(*p, *n, cwd@) {
            Ok(None) => r matches Ok(Destination::Stdout),
            Ok(Some(path)) => r matches Ok(Destination::File(s)) && s@ == path,
            Err(m) => r matches Err(e) && e@ == m,
        },
{
    match n.input {
        Input::Stdin => {
            let o = match &p.output {
                Some(o) => Some(o.as_str()),
                None => None,
            };
            match stdin_destination(o, p.single_file, n.format) {
                None => Ok(Destination::Stdout),
                Some(d) => Ok(Destination::File(d)),
            }
        },
        _ => match p.resolve(n, cwd) {
            Ok(path) => Ok(Destination::File(path)),
            Err(e) => Err(e.message()),
        },
    }
}

} // verus!
