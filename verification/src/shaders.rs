//! Development-mode shader source flattening: recursive expansion of
//! `#include "relative/path"` directives against a host-supplied snapshot of
//! the shader files on disk, with circular-include detection.
//!
//! The host reads the files (this layer does no I/O) and hands them in as a
//! path-to-content table with normalized, distinct paths; expansion resolves
//! each include against the including file's directory first, then the extra
//! include directories, in order.

use crate::errors::{GpuError, IncludeFail};
use vstd::prelude::*;

verus! {

/// ASCII whitespace trimmed around directive lines.
pub open spec fn is_space(b: u8) -> bool {
    b == 32 || b == 9 || b == 13
}

/// `s` without leading whitespace.
pub open spec fn trim_front(s: Seq<u8>) -> Seq<u8>
    decreases s.len(),
{
    if s.len() > 0 && is_space(s[0]) {
        trim_front(s.drop_first())
    } else {
        s
    }
}

/// `s` without trailing whitespace.
pub open spec fn trim_back(s: Seq<u8>) -> Seq<u8>
    decreases s.len(),
{
    if s.len() > 0 && is_space(s.last()) {
        trim_back(s.drop_last())
    } else {
        s
    }
}

/// `s` without leading or trailing whitespace.
pub open spec fn trim(s: Seq<u8>) -> Seq<u8> {
    trim_back(trim_front(s))
}

/// The include keyword, `#include`.
pub open spec fn include_kw() -> Seq<u8> {
    seq![
        '#' as u8,
        'i' as u8,
        'n' as u8,
        'c' as u8,
        'l' as u8,
        'u' as u8,
        'd' as u8,
        'e' as u8,
    ]
}

/// The file named by `line` when it is an include directive in the
/// double-quote form: after trimming, `#include` followed by a
/// double-quoted name (possibly with whitespace between). Any other line —
/// including the angle-bracket and single-quote forms — is not a directive
/// and is copied through verbatim.
pub open spec fn line_include_target(line: Seq<u8>) -> Option<Seq<u8>> {
    let t = trim(line);
    if include_kw().is_prefix_of(t) {
        let rest = trim(t.skip(8));
        if rest.len() >= 2 && rest[0] == '"' as u8 && rest.last() == '"' as u8 {
            Some(rest.subrange(1, rest.len() - 1))
        } else {
            None
        }
    } else {
        None
    }
}

/// Trimming the front keeps exactly the suffix from the first non-space
/// position.
proof fn lemma_trim_front_skip(s: Seq<u8>, k: int)
    requires
        0 <= k <= s.len(),
        forall|i: int| 0 <= i < k ==> is_space(s[i]),
        k < s.len() ==> !is_space(s[k]),
    ensures
        trim_front(s) == s.skip(k),
    decreases k,
{
    if k == 0 {
        assert(s.skip(0) =~= s);
    } else {
        assert(is_space(s[0]));
        lemma_trim_front_skip(s.drop_first(), k - 1);
        assert(s.drop_first().skip(k - 1) =~= s.skip(k));
    }
}

/// Trimming the back keeps exactly the prefix up to the last non-space
/// position.
proof fn lemma_trim_back_take(s: Seq<u8>, k: int)
    requires
        0 <= k <= s.len(),
        forall|i: int| k <= i < s.len() ==> is_space(s[i]),
        k > 0 ==> !is_space(s[k - 1]),
    ensures
        trim_back(s) == s.take(k),
    decreases s.len() - k,
{
    if k == s.len() {
        assert(s.take(k) =~= s);
    } else {
        assert(is_space(s.last()));
        lemma_trim_back_take(s.drop_last(), k);
        assert(s.drop_last().take(k) =~= s.take(k));
    }
}

/// Copies `text[from..to]` into a fresh buffer.
fn slice_section(text: &[u8], from: usize, to: usize) -> (r: Vec<u8>)
    requires
        0 <= from <= to <= text@.len(),
    ensures
        r@ == text@.subrange(from as int, to as int),
{
    let mut out: Vec<u8> = Vec::new();
    let mut i: usize = from;
    while i < to
        invariant
            from <= i <= to <= text@.len(),
            out@ == text@.subrange(from as int, i as int),
        decreases to - i,
    {
        out.push(text[i]);
        proof {
            assert(text@.subrange(from as int, i + 1 as int) =~= text@.subrange(
                from as int,
                i as int,
            ).push(text@[i as int]));
        }
        i = i + 1;
    }
    out
}

/// Whether `b` is trimmed whitespace, at run time.
fn is_space_exec(b: u8) -> (r: bool)
    ensures
        r == is_space(b),
{
    b == 32 || b == 9 || b == 13
}

/// Parses `text[start..end)` as an include directive, returning the quoted
/// file name if it is one.
#[verifier::rlimit(50)]
fn include_target(text: &[u8], start: usize, end: usize) -> (r: Option<Vec<u8>>)
    requires
        0 <= start <= end <= text@.len(),
    ensures
        (match r {
            Some(name) => line_include_target(text@.subrange(start as int, end as int)) == Some(
                name@,
            ),
            None => line_include_target(text@.subrange(start as int, end as int)) is None,
        }),
{
    let ghost line = text@.subrange(start as int, end as int);
    // Trim the whole line.
    let mut a: usize = start;
    while a < end && is_space_exec(text[a])
        invariant
            start <= a <= end <= text@.len(),
            forall|i: int| start <= i < a ==> is_space(text@[i]),
        decreases end - a,
    {
        a = a + 1;
    }
    let mut b: usize = end;
    while b > a && is_space_exec(text[b - 1])
        invariant
            a <= b <= end <= text@.len(),
            forall|i: int| b <= i < end ==> is_space(text@[i]),
        decreases b,
    {
        b = b - 1;
    }
    proof {
        lemma_trim_front_skip(line, a - start);
        assert(trim_front(line) =~= text@.subrange(a as int, end as int));
        lemma_trim_back_take(text@.subrange(a as int, end as int), b - a);
        assert(trim(line) =~= text@.subrange(a as int, b as int));
    }
    // The trimmed line must start with the include keyword.
    if b - a < 8 {
        proof {
            assert(!include_kw().is_prefix_of(trim(line)));
        }
        return None;
    }
    let kw_ok = text[a] == '#' as u8 && text[a + 1] == 'i' as u8 && text[a + 2] == 'n' as u8
        && text[a + 3] == 'c' as u8 && text[a + 4] == 'l' as u8 && text[a + 5] == 'u' as u8
        && text[a + 6] == 'd' as u8 && text[a + 7] == 'e' as u8;
    if !kw_ok {
        proof {
            assert(include_kw().is_prefix_of(trim(line)) ==> {
                &&& trim(line)[0] == '#' as u8
                &&& trim(line)[1] == 'i' as u8
                &&& trim(line)[2] == 'n' as u8
                &&& trim(line)[3] == 'c' as u8
                &&& trim(line)[4] == 'l' as u8
                &&& trim(line)[5] == 'u' as u8
                &&& trim(line)[6] == 'd' as u8
                &&& trim(line)[7] == 'e' as u8
            });
        }
        return None;
    }
    proof {
        assert(include_kw().is_prefix_of(trim(line))) by {
            assert(include_kw() =~= trim(line).take(8));
        }
    }
    // Trim what follows the keyword.
    let mut a2: usize = a + 8;
    while a2 < b && is_space_exec(text[a2])
        invariant
            a + 8 <= a2 <= b <= text@.len(),
            forall|i: int| a + 8 <= i < a2 ==> is_space(text@[i]),
        decreases b - a2,
    {
        a2 = a2 + 1;
    }
    let mut b2: usize = b;
    while b2 > a2 && is_space_exec(text[b2 - 1])
        invariant
            a2 <= b2 <= b <= text@.len(),
            forall|i: int| b2 <= i < b ==> is_space(text@[i]),
        decreases b2,
    {
        b2 = b2 - 1;
    }
    proof {
        let t = trim(line);
        assert(t.skip(8) =~= text@.subrange(a + 8 as int, b as int));
        lemma_trim_front_skip(t.skip(8), a2 - (a + 8));
        assert(trim_front(t.skip(8)) =~= text@.subrange(a2 as int, b as int));
        lemma_trim_back_take(text@.subrange(a2 as int, b as int), b2 - a2);
        assert(trim(t.skip(8)) =~= text@.subrange(a2 as int, b2 as int));
    }
    // The name must be double-quoted.
    if b2 - a2 < 2 || text[a2] != '"' as u8 || text[b2 - 1] != '"' as u8 {
        return None;
    }
    let name = slice_section(text, a2 + 1, b2 - 1);
    proof {
        let rest = trim(trim(line).skip(8));
        assert(rest.subrange(1, rest.len() - 1) =~= text@.subrange(a2 + 1 as int, b2 - 1 as int));
    }
    Some(name)
}

/// The directory part of a path: everything before the last `/`, or empty
/// when the path has no directory part. Paths use `/` separators as the host
/// normalized them.
pub open spec fn dirname(p: Seq<u8>) -> Seq<u8>
    decreases p.len(),
{
    if p.len() == 0 {
        Seq::empty()
    } else if p.last() == '/' as u8 {
        p.drop_last()
    } else {
        dirname(p.drop_last())
    }
}

/// A directory joined with a relative name.
pub open spec fn join(dir: Seq<u8>, name: Seq<u8>) -> Seq<u8> {
    if dir.len() == 0 {
        name
    } else {
        dir + seq!['/' as u8] + name
    }
}

/// The directory part is the prefix up to the last separator.
proof fn lemma_dirname_at(p: Seq<u8>, k: int)
    requires
        0 <= k < p.len(),
        p[k] == '/' as u8,
        forall|i: int| k < i < p.len() ==> p[i] != '/' as u8,
    ensures
        dirname(p) == p.take(k),
    decreases p.len(),
{
    if k == p.len() - 1 {
        assert(p.drop_last() =~= p.take(k));
    } else {
        assert(p.last() != '/' as u8);
        lemma_dirname_at(p.drop_last(), k);
        assert(p.drop_last().take(k) =~= p.take(k));
    }
}

/// A path without separators has an empty directory part.
proof fn lemma_dirname_none(p: Seq<u8>)
    requires
        forall|i: int| 0 <= i < p.len() ==> p[i] != '/' as u8,
    ensures
        dirname(p) == Seq::<u8>::empty(),
    decreases p.len(),
{
    if p.len() > 0 {
        lemma_dirname_none(p.drop_last());
    }
}

/// Computes the directory part of a path.
fn dirname_exec(p: &[u8]) -> (r: Vec<u8>)
    ensures
        r@ == dirname(p@),
{
    let mut j: usize = p.len();
    while j > 0 && p[j - 1] != '/' as u8
        invariant
            0 <= j <= p@.len(),
            forall|i: int| j <= i < p@.len() ==> p@[i] != '/' as u8,
        decreases j,
    {
        j = j - 1;
    }
    if j == 0 {
        proof {
            lemma_dirname_none(p@);
        }
        Vec::new()
    } else {
        proof {
            lemma_dirname_at(p@, j - 1);
        }
        slice_section(p, 0, j - 1)
    }
}

/// Joins a directory and a relative name.
fn join_exec(dir: &[u8], name: &[u8]) -> (r: Vec<u8>)
    ensures
        r@ == join(dir@, name@),
{
    if dir.len() == 0 {
        let r = slice_section(name, 0, name.len());
        proof {
            assert(r@ =~= name@);
        }
        r
    } else {
        let mut out = slice_section(dir, 0, dir.len());
        proof {
            assert(out@ =~= dir@);
        }
        out.push('/' as u8);
        let mut i: usize = 0;
        while i < name.len()
            invariant
                0 <= i <= name@.len(),
                out@ == dir@ + seq!['/' as u8] + name@.take(i as int),
            decreases name@.len() - i,
        {
            out.push(name[i]);
            proof {
                assert(dir@ + seq!['/' as u8] + name@.take(i + 1 as int) =~= (dir@ + seq![
                    '/' as u8,
                ] + name@.take(i as int)).push(name@[i as int]));
            }
            i = i + 1;
        }
        proof {
            assert(name@.take(name@.len() as int) =~= name@);
        }
        out
    }
}

/// The file table as plain sequences: each entry a (path, content) pair.
pub open spec fn fview(files: Seq<(Vec<u8>, Vec<u8>)>) -> Seq<(Seq<u8>, Seq<u8>)> {
    files.map_values(|e: (Vec<u8>, Vec<u8>)| (e.0@, e.1@))
}

/// A sequence of byte buffers as plain sequences.
pub open spec fn vecs_view(s: Seq<Vec<u8>>) -> Seq<Seq<u8>> {
    s.map_values(|v: Vec<u8>| v@)
}

/// Compares two byte strings.
fn eq_bytes(a: &[u8], b: &[u8]) -> (r: bool)
    ensures
        r == (a@ == b@),
{
    if a.len() != b.len() {
        return false;
    }
    let mut i: usize = 0;
    while i < a.len()
        invariant
            0 <= i <= a@.len(),
            a@.len() == b@.len(),
            forall|j: int| 0 <= j < i ==> a@[j] == b@[j],
        decreases a@.len() - i,
    {
        if a[i] != b[i] {
            return false;
        }
        i = i + 1;
    }
    proof {
        assert(a@ =~= b@);
    }
    true
}

/// Looks a path up in the file table.
fn find_file(files: &Vec<(Vec<u8>, Vec<u8>)>, path: &[u8]) -> (r: Option<usize>)
    requires
        crate::assoc::assoc_distinct(fview(files@)),
    ensures
        (match r {
            Some(i) => {
                &&& i < files@.len()
                &&& files@[i as int].0@ == path@
                &&& crate::assoc::assoc_has_key(fview(files@), path@)
                &&& crate::assoc::assoc_value_of(fview(files@), path@) == files@[i as int].1@
            },
            None => !crate::assoc::assoc_has_key(fview(files@), path@),
        }),
{
    let ghost fv = fview(files@);
    let mut i: usize = 0;
    while i < files.len()
        invariant
            0 <= i <= files@.len(),
            fv == fview(files@),
            crate::assoc::assoc_distinct(fv),
            forall|j: int| 0 <= j < i ==> fv[j].0 != path@,
        decreases files@.len() - i,
    {
        proof {
            assert(fv[i as int] == (files@[i as int].0@, files@[i as int].1@));
        }
        if eq_bytes(files[i].0.as_slice(), path) {
            proof {
                assert(fv[i as int].0 == path@);
                crate::assoc::lemma_assoc_at(fv, i as int);
            }
            return Some(i);
        }
        i = i + 1;
    }
    proof {
        assert forall|j: int| 0 <= j < fv.len() implies fv[j].0 != path@ by {}
        assert(!crate::assoc::assoc_has_key(fv, path@));
    }
    None
}

/// The first extra include directory that provides `name`, if any.
pub open spec fn resolve_dirs(
    files: Seq<(Seq<u8>, Seq<u8>)>,
    dirs: Seq<Seq<u8>>,
    name: Seq<u8>,
) -> Option<Seq<u8>>
    decreases dirs.len(),
{
    if dirs.len() == 0 {
        None
    } else if crate::assoc::assoc_has_key(files, join(dirs[0], name)) {
        Some(join(dirs[0], name))
    } else {
        resolve_dirs(files, dirs.drop_first(), name)
    }
}

/// The file an include of `name` resolves to: the including file's own
/// directory first, then the extra include directories in order.
pub open spec fn resolve(
    files: Seq<(Seq<u8>, Seq<u8>)>,
    cur_dir: Seq<u8>,
    dirs: Seq<Seq<u8>>,
    name: Seq<u8>,
) -> Option<Seq<u8>> {
    if crate::assoc::assoc_has_key(files, join(cur_dir, name)) {
        Some(join(cur_dir, name))
    } else {
        resolve_dirs(files, dirs, name)
    }
}

/// Whatever an include resolves to is a path of the file table.
proof fn lemma_resolve_dirs_is_key(files: Seq<(Seq<u8>, Seq<u8>)>, dirs: Seq<Seq<u8>>, name: Seq<u8>)
    ensures
        (resolve_dirs(files, dirs, name) matches Some(p) ==> crate::assoc::assoc_has_key(files, p)),
    decreases dirs.len(),
{
    if dirs.len() > 0 && !crate::assoc::assoc_has_key(files, join(dirs[0], name)) {
        lemma_resolve_dirs_is_key(files, dirs.drop_first(), name);
    }
}

/// Whatever an include resolves to is a path of the file table.
proof fn lemma_resolve_is_key(
    files: Seq<(Seq<u8>, Seq<u8>)>,
    cur_dir: Seq<u8>,
    dirs: Seq<Seq<u8>>,
    name: Seq<u8>,
)
    ensures
        (resolve(files, cur_dir, dirs, name) matches Some(p) ==> crate::assoc::assoc_has_key(
            files,
            p,
        )),
{
    lemma_resolve_dirs_is_key(files, dirs, name);
}

/// Resolves an include name to a file-table index and its path.
fn resolve_exec(
    files: &Vec<(Vec<u8>, Vec<u8>)>,
    cur_dir: &Vec<u8>,
    dirs: &Vec<Vec<u8>>,
    name: &Vec<u8>,
) -> (r: Option<(usize, Vec<u8>)>)
    requires
        crate::assoc::assoc_distinct(fview(files@)),
    ensures
        (match r {
            Some(ip) => {
                &&& resolve(fview(files@), cur_dir@, vecs_view(dirs@), name@) == Some(ip.1@)
                &&& ip.0 < files@.len()
                &&& files@[ip.0 as int].0@ == ip.1@
                &&& crate::assoc::assoc_value_of(fview(files@), ip.1@) == files@[ip.0 as int].1@
            },
            None => resolve(fview(files@), cur_dir@, vecs_view(dirs@), name@) is None,
        }),
{
    let cand0 = join_exec(cur_dir.as_slice(), name.as_slice());
    match find_file(files, cand0.as_slice()) {
        Some(i) => {
            return Some((i, cand0));
        },
        None => {},
    }
    let ghost fv = fview(files@);
    let ghost dv = vecs_view(dirs@);
    proof {
        assert(dv.skip(0) =~= dv);
    }
    let mut d: usize = 0;
    while d < dirs.len()
        invariant
            0 <= d <= dirs@.len(),
            fv == fview(files@),
            dv == vecs_view(dirs@),
            crate::assoc::assoc_distinct(fv),
            !crate::assoc::assoc_has_key(fv, join(cur_dir@, name@)),
            resolve_dirs(fv, dv.skip(d as int), name@) == resolve_dirs(fv, dv, name@),
        decreases dirs@.len() - d,
    {
        proof {
            assert(dv[d as int] == dirs@[d as int]@);
            assert(dv.skip(d as int)[0] == dv[d as int]);
        }
        let cand = join_exec(dirs[d].as_slice(), name.as_slice());
        match find_file(files, cand.as_slice()) {
            Some(i) => {
                proof {
                    assert(resolve_dirs(fv, dv.skip(d as int), name@) == Some(
                        join(dv[d as int], name@),
                    ));
                }
                return Some((i, cand));
            },
            None => {
                proof {
                    assert(dv.skip(d as int).drop_first() =~= dv.skip(d + 1 as int));
                }
            },
        }
        d = d + 1;
    }
    proof {
        assert(dv.skip(dirs@.len() as int) =~= Seq::<Seq<u8>>::empty());
    }
    None
}

/// What expanding a text yields: the flattened output, or the path at which
/// a circular include was cut off, or the name of an include that no search
/// directory provides.
pub enum ExpandOutcome {
    Done(Seq<u8>),
    Circular(Seq<u8>),
    NotFound(Seq<u8>),
}

/// Prepends already-produced output to an expansion outcome; failures pass
/// through.
pub open spec fn combine(prefix: Seq<u8>, o: ExpandOutcome) -> ExpandOutcome {
    match o {
        ExpandOutcome::Done(s) => ExpandOutcome::Done(prefix + s),
        e => e,
    }
}

/// The index of the first newline in `text`, or its length when none.
pub open spec fn line_end_of(text: Seq<u8>) -> int
    decreases text.len(),
{
    if text.len() == 0 {
        0
    } else if text[0] == '\n' as u8 {
        0
    } else {
        1 + line_end_of(text.drop_first())
    }
}

/// The first newline index is in bounds, everything before it is not a
/// newline, and it points at one when in bounds.
proof fn lemma_line_end(text: Seq<u8>)
    ensures
        0 <= line_end_of(text) <= text.len(),
        forall|i: int| 0 <= i < line_end_of(text) ==> text[i] != '\n' as u8,
        line_end_of(text) < text.len() ==> text[line_end_of(text)] == '\n' as u8,
    decreases text.len(),
{
    if text.len() > 0 && text[0] != '\n' as u8 {
        lemma_line_end(text.drop_first());
        assert forall|i: int| 0 <= i < line_end_of(text) implies text[i] != '\n' as u8 by {
            if i > 0 {
                assert(text.drop_first()[i - 1] != '\n' as u8);
            }
        }
    }
}

/// The first line of a text, up to (excluding) the first newline.
pub open spec fn first_line(text: Seq<u8>) -> Seq<u8> {
    text.take(line_end_of(text))
}

/// A line as it is copied through: without its trailing carriage return, if
/// any, so CRLF input flattens to LF output just as the lines are read.
pub open spec fn strip_cr(line: Seq<u8>) -> Seq<u8> {
    if line.len() > 0 && line.last() == '\r' as u8 {
        line.drop_last()
    } else {
        line
    }
}

/// Everything after the first line (and its newline, if any).
pub open spec fn rest_of(text: Seq<u8>) -> Seq<u8> {
    if line_end_of(text) < text.len() {
        text.skip(line_end_of(text) + 1)
    } else {
        Seq::empty()
    }
}

/// The expansion stack is consistent: no path twice, every path a file.
pub open spec fn stack_ok(files: Seq<(Seq<u8>, Seq<u8>)>, stack: Seq<Seq<u8>>) -> bool {
    &&& stack.no_duplicates()
    &&& forall|i: int|
        0 <= i < stack.len() ==> crate::assoc::assoc_has_key(files, #[trigger] stack[i])
}

/// A consistent stack never holds more paths than the file table has
/// entries — this bounds the expansion depth.
proof fn lemma_stack_bound(files: Seq<(Seq<u8>, Seq<u8>)>, stack: Seq<Seq<u8>>)
    requires
        stack_ok(files, stack),
    ensures
        stack.len() <= files.len(),
{
    broadcast use vstd::seq_lib::seq_to_set_is_finite;

    let keys = files.map_values(|e: (Seq<u8>, Seq<u8>)| e.0);
    stack.unique_seq_to_set();
    keys.lemma_cardinality_of_set();
    assert forall|p: Seq<u8>| stack.to_set().contains(p) implies keys.to_set().contains(p) by {
        assert(stack.contains(p));
        let i = choose|i: int| 0 <= i < stack.len() && stack[i] == p;
        assert(crate::assoc::assoc_has_key(files, stack[i]));
        let j = choose|j: int| 0 <= j < files.len() && files[j].0 == p;
        assert(keys[j] == p);
        assert(keys.contains(p));
    }
    assert(stack.to_set().subset_of(keys.to_set()));
    vstd::set_lib::lemma_len_subset(stack.to_set(), keys.to_set());
}

/// The result of expanding `text`, resolved against `cur_dir` then `dirs`,
/// over the file table `files`, while the paths in `stack` are still being
/// expanded: each line is copied through, except an include directive, which
/// is replaced by the expansion of the file it resolves to. An include of a
/// file already on the stack yields `Circular`; one that resolves nowhere
/// yields `NotFound`.
pub open spec fn expand_spec(
    files: Seq<(Seq<u8>, Seq<u8>)>,
    text: Seq<u8>,
    cur_dir: Seq<u8>,
    dirs: Seq<Seq<u8>>,
    stack: Seq<Seq<u8>>,
) -> ExpandOutcome
    decreases files.len() - stack.len(), text.len(),
        when stack_ok(files, stack)
        via expand_spec_dec
{
    if text.len() == 0 {
        ExpandOutcome::Done(Seq::empty())
    } else {
        let line = first_line(text);
        let rest = rest_of(text);
        match line_include_target(line) {
            None => combine(
                strip_cr(line).push('\n' as u8),
                expand_spec(files, rest, cur_dir, dirs, stack),
            ),
            Some(name) => match resolve(files, cur_dir, dirs, name) {
                None => ExpandOutcome::NotFound(name),
                Some(path) => if stack.contains(path) {
                    ExpandOutcome::Circular(path)
                } else {
                    match expand_spec(
                        files,
                        crate::assoc::assoc_value_of(files, path),
                        dirname(path),
                        dirs,
                        stack.push(path),
                    ) {
                        ExpandOutcome::Done(chunk) => combine(
                            chunk.push('\n' as u8),
                            expand_spec(files, rest, cur_dir, dirs, stack),
                        ),
                        e => e,
                    }
                },
            },
        }
    }
}

#[via_fn]
proof fn expand_spec_dec(
    files: Seq<(Seq<u8>, Seq<u8>)>,
    text: Seq<u8>,
    cur_dir: Seq<u8>,
    dirs: Seq<Seq<u8>>,
    stack: Seq<Seq<u8>>,
) {
    lemma_stack_bound(files, stack);
    if text.len() > 0 {
        lemma_line_end(text);
        match line_include_target(first_line(text)) {
            None => {},
            Some(name) => {
                match resolve(files, cur_dir, dirs, name) {
                    None => {},
                    Some(path) => {
                        if !stack.contains(path) {
                            lemma_resolve_is_key(files, cur_dir, dirs, name);
                            let pushed = stack.push(path);
                            assert forall|i: int, j: int|
                                0 <= i < j < pushed.len() implies pushed[i] != pushed[j] by {
                                if j < stack.len() {
                                } else {
                                    assert(pushed[j] == path);
                                    assert(!stack.contains(path));
                                    assert(stack[i] != path);
                                }
                            }
                            assert(pushed.no_duplicates());
                            assert(stack_ok(files, pushed));
                            lemma_stack_bound(files, pushed);
                        }
                    },
                }
            },
        }
    }
}

/// Whether an expansion result delivered to a caller matches the specified
/// outcome: the flattened source on success, and an
/// `IncludeResolutionFailure` carrying the offending path or name otherwise.
pub open spec fn outcome_matches(o: ExpandOutcome, r: Result<Vec<u8>, GpuError>) -> bool {
    match r {
        Ok(v) => o == ExpandOutcome::Done(v@),
        Err(e) => match e {
            GpuError::IncludeResolutionFailure { fail } => match fail {
                IncludeFail::Circular { path } => o == ExpandOutcome::Circular(path@),
                IncludeFail::NotFound { name } => o == ExpandOutcome::NotFound(name@),
            },
            _ => false,
        },
    }
}

/// Expands `text[pos..]` recursively, maintaining the visited-path stack.
#[verifier::rlimit(100)]
fn expand_at(
    files: &Vec<(Vec<u8>, Vec<u8>)>,
    text: &[u8],
    pos: usize,
    cur_dir: &Vec<u8>,
    dirs: &Vec<Vec<u8>>,
    stack: &mut Vec<Vec<u8>>,
) -> (r: Result<Vec<u8>, GpuError>)
    requires
        pos <= text@.len(),
        crate::assoc::assoc_distinct(fview(files@)),
        stack_ok(fview(files@), vecs_view(old(stack)@)),
    ensures
        final(stack)@ == old(stack)@,
        outcome_matches(
            expand_spec(
                fview(files@),
                text@.skip(pos as int),
                cur_dir@,
                vecs_view(dirs@),
                vecs_view(old(stack)@),
            ),
            r,
        ),
    decreases files@.len() - stack@.len(), text@.len() - pos,
{
    let ghost t = text@.skip(pos as int);
    if pos == text.len() {
        let r: Vec<u8> = Vec::new();
        proof {
            assert(t =~= Seq::<u8>::empty());
            assert(r@ =~= Seq::<u8>::empty());
        }
        return Ok(r);
    }
    // Find the end of the first line.
    let mut e: usize = pos;
    while e < text.len() && text[e] != '\n' as u8
        invariant
            pos <= e <= text@.len(),
            forall|i: int| pos <= i < e ==> text@[i] != '\n' as u8,
        decreases text@.len() - e,
    {
        e = e + 1;
    }
    proof {
        lemma_line_end(t);
        let le = line_end_of(t);
        assert forall|i: int| 0 <= i < e - pos implies t[i] != '\n' as u8 by {
            assert(t[i] == text@[pos + i]);
        }
        if le < e - pos {
            assert(t[le] != '\n' as u8);
        }
        if le > e - pos {
            assert(e < text@.len());
            assert(t[e - pos] == text@[e as int]);
        }
        assert(le == e - pos);
        assert(first_line(t) =~= text@.subrange(pos as int, e as int));
    }
    let rest_pos = if e < text.len() {
        e + 1
    } else {
        e
    };
    proof {
        if e < text@.len() {
            assert(rest_of(t) =~= text@.skip(rest_pos as int));
        } else {
            assert(rest_of(t) =~= text@.skip(rest_pos as int));
        }
    }
    match include_target(text, pos, e) {
        None => {
            let copy_end = if e > pos && text[e - 1] == '\r' as u8 {
                e - 1
            } else {
                e
            };
            let mut out = slice_section(text, pos, copy_end);
            out.push('\n' as u8);
            match expand_at(files, text, rest_pos, cur_dir, dirs, stack) {
                Ok(mut tail) => {
                    proof {
                        assert(out@ =~= strip_cr(first_line(t)).push('\n' as u8));
                    }
                    out.append(&mut tail);
                    Ok(out)
                },
                Err(er) => Err(er),
            }
        },
        Some(name) => {
            match resolve_exec(files, cur_dir, dirs, &name) {
                None => Err(
                    GpuError::IncludeResolutionFailure { fail: IncludeFail::NotFound { name } },
                ),
                Some((idx, path)) => {
                    if stack_contains(stack, path.as_slice()) {
                        return Err(
                            GpuError::IncludeResolutionFailure {
                                fail: IncludeFail::Circular { path },
                            },
                        );
                    }
                    let parent = dirname_exec(path.as_slice());
                    let ghost path_view = path@;
                    let ghost stack0 = vecs_view(stack@);
                    stack.push(path);
                    proof {
                        let pushed = vecs_view(stack@);
                        assert(pushed =~= stack0.push(path_view));
                        assert forall|i: int, j: int|
                            0 <= i < j < pushed.len() implies pushed[i] != pushed[j] by {
                            if j < stack0.len() {
                            } else {
                                assert(pushed[j] == path_view);
                                assert(!stack0.contains(path_view));
                                assert(stack0[i] != path_view);
                            }
                        }
                        assert(pushed.no_duplicates());
                        lemma_resolve_is_key(fview(files@), cur_dir@, vecs_view(dirs@), name@);
                        assert forall|i: int|
                            0 <= i < pushed.len() implies crate::assoc::assoc_has_key(
                            fview(files@),
                            #[trigger] pushed[i],
                        ) by {
                            if i < stack0.len() {
                                assert(pushed[i] == stack0[i]);
                            } else {
                                assert(pushed[i] == path_view);
                            }
                        }
                        assert(stack_ok(fview(files@), pushed));
                        lemma_stack_bound(fview(files@), pushed);
                        assert(files@[idx as int].1@.skip(0) =~= files@[idx as int].1@);
                    }
                    let chunk_r = expand_at(files, files[idx].1.as_slice(), 0, &parent, dirs, stack);
                    let _ = stack.pop();
                    proof {
                        assert(vecs_view(stack@) =~= stack0);
                    }
                    match chunk_r {
                        Err(er) => Err(er),
                        Ok(mut chunk) => {
                            chunk.push('\n' as u8);
                            match expand_at(files, text, rest_pos, cur_dir, dirs, stack) {
                                Ok(mut tail) => {
                                    chunk.append(&mut tail);
                                    Ok(chunk)
                                },
                                Err(er) => Err(er),
                            }
                        },
                    }
                },
            }
        },
    }
}

/// Whether the stack already holds this path.
fn stack_contains(stack: &Vec<Vec<u8>>, p: &[u8]) -> (r: bool)
    ensures
        r == vecs_view(stack@).contains(p@),
{
    let ghost sv = vecs_view(stack@);
    let mut i: usize = 0;
    while i < stack.len()
        invariant
            0 <= i <= stack@.len(),
            sv == vecs_view(stack@),
            forall|j: int| 0 <= j < i ==> sv[j] != p@,
        decreases stack@.len() - i,
    {
        proof {
            assert(sv[i as int] == stack@[i as int]@);
        }
        if eq_bytes(stack[i].as_slice(), p) {
            return true;
        }
        i = i + 1;
    }
    proof {
        if sv.contains(p@) {
            let w = choose|w: int| 0 <= w < sv.len() && sv[w] == p@;
        }
    }
    false
}

/// Expands every `#include "name"` directive of `src` recursively against
/// the file table, resolving each include first in the including file's
/// directory (`base_dir` for `src` itself), then in `include_dirs`, in
/// order. Fails with an `IncludeResolutionFailure` when an include resolves
/// nowhere or reaches a file that is still being expanded (a circular
/// include, direct or transitive); never hangs on one.
///
/// The host supplies the files as a `(path, content)` table with distinct,
/// normalized paths.
pub fn expand_includes_runtime(
    src: &Vec<u8>,
    base_dir: &Vec<u8>,
    include_dirs: &Vec<Vec<u8>>,
    files: &Vec<(Vec<u8>, Vec<u8>)>,
) -> (r: Result<Vec<u8>, GpuError>)
    requires
        crate::assoc::assoc_distinct(fview(files@)),
    ensures
        outcome_matches(
            expand_spec(
                fview(files@),
                src@,
                base_dir@,
                vecs_view(include_dirs@),
                Seq::empty(),
            ),
            r,
        ),
{
    let mut stack: Vec<Vec<u8>> = Vec::new();
    proof {
        assert(vecs_view(stack@) =~= Seq::<Seq<u8>>::empty());
        assert(Seq::<Seq<u8>>::empty().no_duplicates());
        assert(src@.skip(0) =~= src@);
    }
    expand_at(files, src.as_slice(), 0, base_dir, include_dirs, &mut stack)
}

/// `rest_of` applied `k` times: the text from its `k`-th line on.
pub open spec fn nth_rest(text: Seq<u8>, k: nat) -> Seq<u8>
    decreases k,
{
    if k == 0 {
        text
    } else {
        nth_rest(rest_of(text), (k - 1) as nat)
    }
}

/// An empty text stays empty under `rest_of`.
proof fn lemma_nth_rest_empty(k: nat)
    ensures
        nth_rest(Seq::<u8>::empty(), k).len() == 0,
    decreases k,
{
    if k > 0 {
        lemma_nth_rest_empty((k - 1) as nat);
    }
}

/// Pushing a fresh file path keeps the expansion stack consistent.
proof fn lemma_stack_push_ok(files: Seq<(Seq<u8>, Seq<u8>)>, stack: Seq<Seq<u8>>, p: Seq<u8>)
    requires
        stack_ok(files, stack),
        !stack.contains(p),
        crate::assoc::assoc_has_key(files, p),
    ensures
        stack_ok(files, stack.push(p)),
        stack.push(p).contains(p),
{
    let pushed = stack.push(p);
    assert forall|i: int, j: int| 0 <= i < j < pushed.len() implies pushed[i] != pushed[j] by {
        if j < stack.len() {
        } else {
            assert(pushed[j] == p);
            assert(stack[i] != p);
        }
    }
    assert(pushed.no_duplicates());
    assert forall|i: int|
        0 <= i < pushed.len() implies crate::assoc::assoc_has_key(
        files,
        #[trigger] pushed[i],
    ) by {
        if i < stack.len() {
            assert(pushed[i] == stack[i]);
        } else {
            assert(pushed[i] == p);
        }
    }
    assert(pushed[stack.len() as int] == p);
}

/// Law: expansion of a text that re-includes a file still being expanded
/// never succeeds. If the `k`-th line of `text` is an include directive that
/// resolves to a path on the expansion stack, the expansion yields a failure
/// — it is cut off, never looping. (It terminates in any case: the
/// expansion is a total function.)
pub proof fn lemma_stacked_include_fails(
    files: Seq<(Seq<u8>, Seq<u8>)>,
    text: Seq<u8>,
    cur_dir: Seq<u8>,
    dirs: Seq<Seq<u8>>,
    stack: Seq<Seq<u8>>,
    k: nat,
    name: Seq<u8>,
    p: Seq<u8>,
)
    requires
        stack_ok(files, stack),
        nth_rest(text, k).len() > 0,
        line_include_target(first_line(nth_rest(text, k))) == Some(name),
        resolve(files, cur_dir, dirs, name) == Some(p),
        stack.contains(p),
    ensures
        !(expand_spec(files, text, cur_dir, dirs, stack) is Done),
    decreases k,
{
    if text.len() == 0 {
        lemma_nth_rest_empty(k);
        if k == 0 {
        }
    } else {
        let line = first_line(text);
        let rest = rest_of(text);
        if k == 0 {
        } else {
            lemma_stacked_include_fails(files, rest, cur_dir, dirs, stack, (k - 1) as nat, name, p);
            match line_include_target(line) {
                None => {},
                Some(n2) => {
                    match resolve(files, cur_dir, dirs, n2) {
                        None => {},
                        Some(p2) => {
                            if !stack.contains(p2) {
                                match expand_spec(
                                    files,
                                    crate::assoc::assoc_value_of(files, p2),
                                    dirname(p2),
                                    dirs,
                                    stack.push(p2),
                                ) {
                                    ExpandOutcome::Done(chunk) => {},
                                    _ => {},
                                }
                            }
                        },
                    }
                },
            }
        }
    }
}

/// Law: a source that includes itself fails rather than succeeding or
/// hanging. If the `j`-th line of `text` includes a file `p`, and the `k`-th
/// line of `p`'s own content includes `p` again (resolved from `p`'s
/// directory), expanding `text` yields a failure. Together with
/// [`expand_includes_runtime`]'s contract, such a source produces an
/// `IncludeResolutionFailure`, which the kernel cache recovers from by
/// falling back to the embedded source.
pub proof fn lemma_self_include_fails(
    files: Seq<(Seq<u8>, Seq<u8>)>,
    text: Seq<u8>,
    cur_dir: Seq<u8>,
    dirs: Seq<Seq<u8>>,
    stack: Seq<Seq<u8>>,
    j: nat,
    name: Seq<u8>,
    p: Seq<u8>,
    k: nat,
    name2: Seq<u8>,
)
    requires
        stack_ok(files, stack),
        nth_rest(text, j).len() > 0,
        line_include_target(first_line(nth_rest(text, j))) == Some(name),
        resolve(files, cur_dir, dirs, name) == Some(p),
        nth_rest(crate::assoc::assoc_value_of(files, p), k).len() > 0,
        line_include_target(first_line(nth_rest(crate::assoc::assoc_value_of(files, p), k)))
            == Some(name2),
        resolve(files, dirname(p), dirs, name2) == Some(p),
    ensures
        !(expand_spec(files, text, cur_dir, dirs, stack) is Done),
    decreases j,
{
    if text.len() == 0 {
        lemma_nth_rest_empty(j);
    } else if j == 0 {
        if stack.contains(p) {
        } else {
            lemma_resolve_is_key(files, cur_dir, dirs, name);
            lemma_stack_push_ok(files, stack, p);
            lemma_stacked_include_fails(
                files,
                crate::assoc::assoc_value_of(files, p),
                dirname(p),
                dirs,
                stack.push(p),
                k,
                name2,
                p,
            );
        }
    } else {
        let line = first_line(text);
        let rest = rest_of(text);
        lemma_self_include_fails(
            files,
            rest,
            cur_dir,
            dirs,
            stack,
            (j - 1) as nat,
            name,
            p,
            k,
            name2,
        );
        match line_include_target(line) {
            None => {},
            Some(n2) => {
                match resolve(files, cur_dir, dirs, n2) {
                    None => {},
                    Some(p2) => {
                        if !stack.contains(p2) {
                            match expand_spec(
                                files,
                                crate::assoc::assoc_value_of(files, p2),
                                dirname(p2),
                                dirs,
                                stack.push(p2),
                            ) {
                                ExpandOutcome::Done(chunk) => {},
                                _ => {},
                            }
                        }
                    },
                }
            },
        }
    }
}

} // verus!
