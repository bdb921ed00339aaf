//! Paths as text, separated by `/`: the parent, the file name, its stem
//! and extension, joining, and comparing two paths once made absolute and
//! normalised. A component of `.` is dropped and `..` drops the one
//! before it, as the comparison of output and input paths needs.

use vstd::prelude::*;
use crate::text::{chars_of, string_of};

verus! {

/// The index of the last `c` in `s`, or -1.
pub open spec fn last_index_of(s: Seq<char>, c: char) -> int
    decreases s.len(),
{
    if s.len() == 0 {
        -1
    } else if s.last() == c {
        s.len() - 1
    } else {
        last_index_of(s.drop_last(), c)
    }
}

/// The directory part: everything before the last `/`, `/` itself for a
/// path directly under the root, empty when there is no `/`.
pub open spec fn parent_of(p: Seq<char>) -> Seq<char> {
    let i = last_index_of(p, '/');
    if i < 0 {
        Seq::empty()
    } else if i == 0 {
        seq!['/']
    } else {
        p.subrange(0, i)
    }
}

/// The file name: everything after the last `/`.
pub open spec fn file_name_of(p: Seq<char>) -> Seq<char> {
    p.subrange(last_index_of(p, '/') + 1, p.len() as int)
}

/// The stem: the file name before its last `.`, the whole name when it
/// has no `.` or its only `.` leads it, nothing for `..`.
pub open spec fn stem_text(p: Seq<char>) -> Seq<char> {
    let n = file_name_of(p);
    if n == seq!['.', '.'] {
        Seq::empty()
    } else {
        let d = last_index_of(n, '.');
        if d <= 0 { n } else { n.subrange(0, d) }
    }
}

/// The extension: the file name after its last `.`, none when it has no
/// `.`, its only `.` leads it, or it is `..` or empty.
pub open spec fn extension_text(p: Seq<char>) -> Option<Seq<char>> {
    let n = file_name_of(p);
    let d = last_index_of(n, '.');
    if n == seq!['.', '.'] || d <= 0 {
        None
    } else {
        Some(n.subrange(d + 1, n.len() as int))
    }
}

/// `name` under `dir`: `name` itself when it is absolute or `dir` is
/// empty, else the two with one `/` between.
pub open spec fn join_text(dir: Seq<char>, name: Seq<char>) -> Seq<char> {
    if name.len() > 0 && name[0] == '/' {
        name
    } else if dir.len() == 0 {
        name
    } else if dir.last() == '/' {
        dir + name
    } else {
        dir + seq!['/'] + name
    }
}

proof fn lemma_last_index_range(s: Seq<char>, c: char)
    ensures
        -1 <= last_index_of(s, c) < s.len(),
        last_index_of(s, c) >= 0 ==> s[last_index_of(s, c)] == c,
        forall|j: int| last_index_of(s, c) < j < s.len() ==> s[j] != c,
    decreases s.len(),
{
    if s.len() > 0 && s.last() != c {
        lemma_last_index_range(s.drop_last(), c);
        assert forall|j: int| last_index_of(s, c) < j < s.len() implies s[j] != c by {
            if j < s.len() - 1 {
                assert(s.drop_last()[j] == s[j]);
            }
        }
    }
}

/// The last `/` of `a`, a `/` and a name without one is the one added.
pub proof fn lemma_last_sep_before_name(a: Seq<char>, name: Seq<char>)
    requires
        forall|j: int| 0 <= j < name.len() ==> name[j] != '/',
    ensures
        last_index_of(a + seq!['/'] + name, '/') == a.len(),
    decreases name.len(),
{
    let p = a + seq!['/'] + name;
    if name.len() == 0 {
        assert(p.last() == '/');
    } else {
        assert(p.last() == name.last());
        assert(p.drop_last() =~= a + seq!['/'] + name.drop_last());
        lemma_last_sep_before_name(a, name.drop_last());
    }
}

/// The index of the last `c`, if any.
fn last_index(s: &[char], c: char) -> (r: Option<usize>)
    ensures
        match r {
            Some(i) => i == last_index_of(s@, c) && i < s@.len(),
            None => last_index_of(s@, c) == -1,
        },
{
    let mut i = s.len();
    proof { lemma_last_index_range(s@, c); }
    while i > 0
        invariant
            i <= s@.len(),
            -1 <= last_index_of(s@, c) < i,
        decreases i,
    {
        proof { lemma_last_index_range(s@, c); }
        if s[i - 1] == c {
            assert(!(last_index_of(s@, c) < i - 1)) by {
                if last_index_of(s@, c) < i - 1 {
                    assert(s@[i - 1] != c);
                }
            }
            return Some(i - 1);
        }
        i = i - 1;
    }
    None
}

/// The text of a sub-slice.
fn text_of(s: &[char], lo: usize, hi: usize) -> (r: String)
    requires
        lo <= hi <= s@.len(),
    ensures
        r@ == s@.subrange(lo as int, hi as int),
{
    string_of(vstd::slice::slice_subrange(s, lo, hi))
}

/// The directory part of a path.
pub fn parent(p: &str) -> (r: String)
    ensures
        r@ == parent_of(p@),
{
    let cs = chars_of(p);
    proof { lemma_last_index_range(p@, '/'); }
    match last_index(cs.as_slice(), '/') {
        None => String::new(),
        Some(i) => if i == 0 {
            let slash = vec!['/'];
            assert(slash@ == seq!['/']);
            string_of(slash.as_slice())
        } else {
            text_of(cs.as_slice(), 0, i)
        },
    }
}

/// The file name of a path.
pub fn file_name(p: &str) -> (r: String)
    ensures
        r@ == file_name_of(p@),
        r@.len() <= p@.len(),
{
    let cs = chars_of(p);
    let n = cs.len();
    proof { lemma_last_index_range(p@, '/'); }
    let start = match last_index(cs.as_slice(), '/') {
        Some(i) => i + 1,
        None => 0,
    };
    text_of(cs.as_slice(), start, n)
}

/// Everything before the last dot of the file name, or the whole name
/// when there is no dot.
pub fn stem_of(path: &str) -> (r: String)
    ensures
        r@ == stem_text(path@),
{
    let name = file_name(path);
    let cs = chars_of(name.as_str());
    if cs.len() == 2 && cs[0] == '.' && cs[1] == '.' {
        assert(name@ =~= seq!['.', '.']);
        return String::new();
    }
    assert(name@ != seq!['.', '.'] || cs.len() == 2);
    proof { lemma_last_index_range(name@, '.'); }
    match last_index(cs.as_slice(), '.') {
        Some(d) => if d == 0 { name } else { text_of(cs.as_slice(), 0, d) },
        None => name,
    }
}

/// The extension of a path's file name.
pub fn extension(path: &str) -> (r: Option<String>)
    ensures
        match extension_text(path@) {
            Some(e) => r matches Some(x) && x@ == e,
            None => r is None,
        },
{
    let name = file_name(path);
    let cs = chars_of(name.as_str());
    proof { lemma_last_index_range(name@, '.'); }
    let d = match last_index(cs.as_slice(), '.') {
        Some(d) => d,
        None => 0,
    };
    if (cs.len() == 2 && cs[0] == '.' && cs[1] == '.') || d == 0 {
        assert(cs.len() == 2 && cs[0] == '.' && cs[1] == '.' ==> name@ =~= seq!['.', '.']);
        None
    } else {
        assert(name@ != seq!['.', '.']);
        Some(text_of(cs.as_slice(), d + 1, cs.len()))
    }
}

/// `name` under `dir`.
pub fn join(dir: &str, name: &str) -> (r: String)
    ensures
        r@ == join_text(dir@, name@),
{
    let d = chars_of(dir);
    let n = chars_of(name);
    if n.len() > 0 && n[0] == '/' {
        return string_of(n.as_slice());
    }
    if d.len() == 0 {
        return string_of(n.as_slice());
    }
    let mut out = string_of(d.as_slice());
    if d[d.len() - 1] != '/' {
        crate::text::push_char(&mut out, '/');
    }
    crate::text::push_str(&mut out, name);
    out
}

/// The texts of a list of character vectors.
pub open spec fn texts(v: Seq<Vec<char>>) -> Seq<Seq<char>> {
    v.map_values(|x: Vec<char>| x@)
}

/// A path made absolute against the working directory; an empty path is
/// left empty.
pub open spec fn absolute_text(p: Seq<char>, cwd: Seq<char>) -> Seq<char> {
    if p.len() == 0 || p[0] == '/' { p } else { cwd + seq!['/'] + p }
}

/// One component onto a stack of them: empty and `.` change nothing, `..`
/// drops the last.
pub open spec fn push_component(stack: Seq<Seq<char>>, comp: Seq<char>) -> Seq<Seq<char>> {
    if comp.len() == 0 || comp == seq!['.'] {
        stack
    } else if comp == seq!['.', '.'] {
        if stack.len() > 0 { stack.drop_last() } else { stack }
    } else {
        stack.push(comp)
    }
}

/// The components of `p` from index `i`, `cur` the one being read.
pub open spec fn components_from(p: Seq<char>, i: int, cur: Seq<char>, stack: Seq<Seq<char>>) -> Seq<Seq<char>>
    decreases p.len() - i,
{
    if i >= p.len() {
        push_component(stack, cur)
    } else if p[i] == '/' {
        components_from(p, i + 1, Seq::empty(), push_component(stack, cur))
    } else {
        components_from(p, i + 1, cur.push(p[i]), stack)
    }
}

/// A path's normal form: absolute, a root marker for a leading `/`, the
/// components after `.` and `..` are resolved.
pub open spec fn normal_form(p: Seq<char>, cwd: Seq<char>) -> Seq<Seq<char>> {
    let a = absolute_text(p, cwd);
    let root: Seq<Seq<char>> = if a.len() > 0 && a[0] == '/' { seq![seq!['/']] } else { Seq::empty() };
    components_from(a, 0, Seq::empty(), root)
}

/// Whether two paths name the same file against the working directory
/// `cwd`, without either having to exist.
pub open spec fn spec_same_path(a: Seq<char>, b: Seq<char>, cwd: Seq<char>) -> bool {
    normal_form(a, cwd) == normal_form(b, cwd)
}

fn push_comp(stack: &mut Vec<Vec<char>>, comp: Vec<char>)
    ensures
        texts(final(stack)@) == push_component(texts(old(stack)@), comp@),
{
    let ghost before = texts(stack@);
    if comp.len() == 0 || (comp.len() == 1 && comp[0] == '.') {
        assert(comp.len() == 1 ==> comp@ =~= seq!['.']);
        assert(comp@ != seq!['.'] || comp.len() == 1);
        return;
    }
    assert(comp@ != seq!['.']);
    if comp.len() == 2 && comp[0] == '.' && comp[1] == '.' {
        assert(comp@ =~= seq!['.', '.']);
        if stack.len() > 0 {
            stack.pop();
            assert(texts(stack@) =~= before.drop_last());
        }
        return;
    }
    assert(comp@ != seq!['.', '.']);
    stack.push(comp);
    assert(texts(stack@) =~= before.push(comp@));
}

/// The normal form of a path, for code.
fn normal(p: &str, cwd: &str) -> (r: Vec<Vec<char>>)
    ensures
        texts(r@) == normal_form(p@, cwd@),
{
    let pc = chars_of(p);
    let a: Vec<char> = if pc.len() == 0 || pc[0] == '/' {
        pc
    } else {
        let mut a = chars_of(cwd);
        a.push('/');
        let mut i: usize = 0;
        let ghost base = a@;
        while i < pc.len()
            invariant
                i <= pc@.len(),
                a@ == base + pc@.subrange(0, i as int),
            decreases pc@.len() - i,
        {
            a.push(pc[i]);
            i = i + 1;
            assert(a@ =~= base + pc@.subrange(0, i as int));
        }
        assert(pc@.subrange(0, pc@.len() as int) =~= pc@);
        a
    };
    assert(a@ =~= absolute_text(p@, cwd@));
    let mut stack: Vec<Vec<char>> = Vec::new();
    if a.len() > 0 && a[0] == '/' {
        let root = vec!['/'];
        assert(root@ =~= seq!['/']);
        stack.push(root);
        assert(texts(stack@) =~= seq![seq!['/']]);
    }
    assert(texts(stack@) =~= (if a@.len() > 0 && a@[0] == '/' {
        seq![seq!['/']]
    } else {
        Seq::<Seq<char>>::empty()
    }));
    let mut cur: Vec<char> = Vec::new();
    let mut i: usize = 0;
    while i < a.len()
        invariant
            i <= a@.len(),
            a@ == absolute_text(p@, cwd@),
            normal_form(p@, cwd@) == components_from(a@, i as int, cur@, texts(stack@)),
        decreases a@.len() - i,
    {
        if a[i] == '/' {
            let done = cur;
            cur = Vec::new();
            push_comp(&mut stack, done);
        } else {
            cur.push(a[i]);
        }
        i = i + 1;
    }
    push_comp(&mut stack, cur);
    stack
}

/// Whether two paths name the same file, against the working directory
/// `cwd`, without either having to exist.
pub fn same_path(a: &str, b: &str, cwd: &str) -> (r: bool)
    ensures
        r == spec_same_path(a@, b@, cwd@),
{
    let na = normal(a, cwd);
    let nb = normal(b, cwd);
    let ghost fa = normal_form(a@, cwd@);
    let ghost fb = normal_form(b@, cwd@);
    if na.len() != nb.len() {
        assert(texts(na@).len() != texts(nb@).len());
        return false;
    }
    let mut i: usize = 0;
    while i < na.len()
        invariant
            na@.len() == nb@.len(),
            texts(na@) == fa,
            texts(nb@) == fb,
            fa == normal_form(a@, cwd@),
            fb == normal_form(b@, cwd@),
            i <= na@.len(),
            forall|j: int| 0 <= j < i ==> na@[j]@ == nb@[j]@,
        decreases na@.len() - i,
    {
        if !crate::text::chars_same(na[i].as_slice(), nb[i].as_slice()) {
            assert(texts(na@)[i as int] != texts(nb@)[i as int]);
            return false;
        }
        i = i + 1;
    }
    assert forall|j: int| 0 <= j < na@.len() implies #[trigger] texts(na@)[j]
        == texts(nb@)[j] by {
        assert(na@[j]@ == nb@[j]@);
    }
    assert(texts(na@) =~= texts(nb@));
    true
}

} // verus!
