//! Windows paths as strings, with the parts of `std::path` on Windows that the
//! bridge relies on: joining, absoluteness, `..` components, file names,
//! stems and extensions.
//!
//! A path is its text. `\` and `/` both separate components. A drive prefix is
//! an ASCII letter followed by `:`. A path starting with two separators is
//! taken to start with a network prefix (`\\server\share`, `\\?\...`), which
//! always comes with a root and spans the two components after the leading
//! separators (four for `\\?\UNC\server\share`). In a verbatim path, one
//! starting with `\\?\`, only `\` separates, `.` is a component of its own,
//! and joining onto it normalizes the components as `Path::push` does.

use vstd::prelude::*;
use vstd::string::*;
use crate::text::{concat, copy_text, join, join_seq, push_char, same_text, texts};

verus! {

pub open spec fn is_separator(c: char) -> bool {
    c == '\\' || c == '/'
}

/// The path starts with `\\?\`, a verbatim prefix: in such a path only `\`
/// separates components, and `.` is a component of its own.
pub open spec fn is_verbatim(p: Seq<char>) -> bool {
    p.len() >= 4 && p[0] == '\\' && p[1] == '\\' && p[2] == '?' && p[3] == '\\'
}

/// A separator in a path that is verbatim or not.
pub open spec fn is_sep(verbatim: bool, c: char) -> bool {
    if verbatim {
        c == '\\'
    } else {
        is_separator(c)
    }
}

pub open spec fn is_ascii_letter(c: char) -> bool {
    ('a' <= c && c <= 'z') || ('A' <= c && c <= 'Z')
}

/// The path starts with a drive prefix such as `C:`.
pub open spec fn has_disk_prefix(p: Seq<char>) -> bool {
    p.len() >= 2 && is_ascii_letter(p[0]) && p[1] == ':'
}

/// The path starts with two separators (a network or verbatim prefix).
pub open spec fn has_network_prefix(p: Seq<char>) -> bool {
    p.len() >= 2 && is_separator(p[0]) && is_separator(p[1])
}

pub open spec fn has_prefix(p: Seq<char>) -> bool {
    has_disk_prefix(p) || has_network_prefix(p)
}

/// A drive prefix followed by a separator, or a network prefix.
pub open spec fn is_absolute(p: Seq<char>) -> bool {
    has_network_prefix(p) || (has_disk_prefix(p) && p.len() > 2 && is_separator(p[2]))
}

/// The path starts from a root: it is absolute, or it starts with a separator.
pub open spec fn has_root(p: Seq<char>) -> bool {
    is_absolute(p) || (!has_prefix(p) && p.len() > 0 && is_separator(p[0]))
}

/// Where the component that starts at `from` ends: at the next separator,
/// or at the end of the path.
pub open spec fn component_end(p: Seq<char>, from: int) -> int
    decreases p.len() - from,
{
    if from < 0 || from >= p.len() {
        p.len() as int
    } else if is_sep(is_verbatim(p), p[from]) {
        from
    } else {
        component_end(p, from + 1)
    }
}

/// The path starts with `\\?\UNC\`, a verbatim network prefix.
pub open spec fn has_verbatim_unc_prefix(p: Seq<char>) -> bool {
    p.len() >= 8 && p[0] == '\\' && p[1] == '\\' && p[2] == '?' && p[3] == '\\' && p[4] == 'U' && p[5] == 'N'
        && p[6] == 'C' && p[7] == '\\'
}

/// The length of a network prefix: the two separators and the two components
/// after them (`\\server\share`, `\\?\C:`, `\\.\device`), or four
/// components for `\\?\UNC\server\share`.
pub open spec fn network_prefix_len(p: Seq<char>) -> int {
    let e1 = component_end(p, 2);
    let e2 = if e1 < p.len() { component_end(p, e1 + 1) } else { e1 };
    if has_verbatim_unc_prefix(p) {
        let e3 = if e2 < p.len() { component_end(p, e2 + 1) } else { e2 };
        if e3 < p.len() { component_end(p, e3 + 1) } else { e3 }
    } else {
        e2
    }
}

/// The prefix of a path: its drive (`C:`), its network prefix, or nothing.
pub open spec fn prefix_of(p: Seq<char>) -> Seq<char> {
    if has_disk_prefix(p) {
        p.subrange(0, 2)
    } else if has_network_prefix(p) {
        p.subrange(0, network_prefix_len(p))
    } else {
        seq![]
    }
}

pub proof fn lemma_component_end(p: Seq<char>, from: int)
    requires
        0 <= from,
    ensures
        from <= p.len() ==> from <= component_end(p, from),
        component_end(p, from) <= p.len(),
    decreases p.len() - from,
{
    if from < p.len() && !is_sep(is_verbatim(p), p[from]) {
        lemma_component_end(p, from + 1);
    }
}

/// Whether joining a relative path onto `base` puts a separator between them:
/// `base` is neither empty, nor ends with a separator, nor is a bare drive.
pub open spec fn needs_separator(base: Seq<char>) -> bool {
    base.len() > 0 && !is_separator(base.last()) && !(has_disk_prefix(base) && base.len() == 2)
}

/// Splitting a text at separators: the segments finished so far and the one
/// being read.
pub open spec fn split_state(s: Seq<char>, verbatim: bool) -> (Seq<Seq<char>>, Seq<char>)
    decreases s.len(),
{
    if s.len() == 0 {
        (seq![], seq![])
    } else {
        let (done, cur) = split_state(s.drop_last(), verbatim);
        if is_sep(verbatim, s.last()) {
            if cur.len() > 0 {
                (done.push(cur), seq![])
            } else {
                (done, seq![])
            }
        } else {
            (done, cur.push(s.last()))
        }
    }
}

/// The non-empty pieces of `s` between separators, in order.
pub open spec fn segments(s: Seq<char>, verbatim: bool) -> Seq<Seq<char>> {
    let (done, cur) = split_state(s, verbatim);
    if cur.len() > 0 {
        done.push(cur)
    } else {
        done
    }
}

/// A segment other than `.` and `..`.
pub open spec fn is_normal_segment(x: Seq<char>) -> bool {
    x != seq!['.'] && x != seq!['.', '.']
}

/// One component of a joined path added to the components of a verbatim base:
/// `.` is dropped and `..` removes a preceding normal component.
pub open spec fn push_segment(buf: Seq<Seq<char>>, c: Seq<char>) -> Seq<Seq<char>> {
    if c == seq!['.'] {
        buf
    } else if c == seq!['.', '.'] {
        if buf.len() > 0 && is_normal_segment(buf.last()) {
            buf.drop_last()
        } else {
            buf
        }
    } else {
        buf.push(c)
    }
}

/// The components `comps` added in turn to `buf`.
pub open spec fn push_segments(buf: Seq<Seq<char>>, comps: Seq<Seq<char>>) -> Seq<Seq<char>>
    decreases comps.len(),
{
    if comps.len() == 0 {
        buf
    } else {
        push_segment(push_segments(buf, comps.drop_last()), comps.last())
    }
}

/// `Path::join` of a non-empty relative path onto a verbatim base: the base's
/// components, with the path's components added (a root of the path keeps only
/// the base's prefix), written after the prefix, separated by `\`.
pub open spec fn verbatim_join(base: Seq<char>, path: Seq<char>) -> Seq<char> {
    let k = network_prefix_len(base);
    let rest = base.subrange(k, base.len() as int);
    let root = (rest.len() > 0 && rest[0] == '\\') || has_root(path);
    let start = if has_root(path) {
        Seq::<Seq<char>>::empty()
    } else {
        segments(rest, true)
    };
    let segs = push_segments(start, segments(path, false));
    base.subrange(0, k) + (if root || segs.len() > 0 {
        seq!['\\']
    } else {
        Seq::<char>::empty()
    }) + join_seq(segs, seq!['\\'])
}

/// `Path::join` on Windows: a path with a prefix replaces `base`; a non-empty
/// path joined onto a verbatim base is normalized (`verbatim_join`); a path with
/// a root but no prefix keeps only the prefix of `base`; any other path is
/// appended, after a `\` when `base` needs one.
pub open spec fn join_path(base: Seq<char>, path: Seq<char>) -> Seq<char> {
    if has_prefix(path) {
        path
    } else if is_verbatim(base) && path.len() > 0 {
        verbatim_join(base, path)
    } else if has_root(path) {
        prefix_of(base) + path
    } else if needs_separator(base) {
        base + seq!['\\'] + path
    } else {
        base + path
    }
}

/// The part of a path after its drive prefix.
pub open spec fn after_disk_prefix(p: Seq<char>) -> Seq<char> {
    if has_disk_prefix(p) {
        p.subrange(2, p.len() as int)
    } else {
        p
    }
}

/// `s` has a component `..`: two dots bounded by separators or the ends.
pub open spec fn has_parent_segment(s: Seq<char>) -> bool {
    exists|i: int|
        0 <= i && i + 2 <= s.len() && #[trigger] s[i] == '.' && s[i + 1] == '.' && (i == 0 || is_separator(s[i - 1]))
            && (i + 2 == s.len() || is_separator(s[i + 2]))
}

/// The path has a `..` component.
pub open spec fn has_parent_component(p: Seq<char>) -> bool {
    has_parent_segment(after_disk_prefix(p))
}

fn char_is_separator(c: char) -> (r: bool)
    ensures
        r == is_separator(c),
{
    c == '\\' || c == '/'
}

fn char_is_sep(verbatim: bool, c: char) -> (r: bool)
    ensures
        r == is_sep(verbatim, c),
{
    if verbatim {
        c == '\\'
    } else {
        char_is_separator(c)
    }
}

fn path_is_verbatim(p: &str) -> (r: bool)
    ensures
        r == is_verbatim(p@),
{
    p.unicode_len() >= 4 && p.get_char(0) == '\\' && p.get_char(1) == '\\' && p.get_char(2) == '?' && p.get_char(3)
        == '\\'
}

fn path_has_disk_prefix(p: &str) -> (r: bool)
    ensures
        r == has_disk_prefix(p@),
{
    if p.unicode_len() < 2 {
        return false;
    }
    let c = p.get_char(0);
    (('a' <= c && c <= 'z') || ('A' <= c && c <= 'Z')) && p.get_char(1) == ':'
}

fn path_has_network_prefix(p: &str) -> (r: bool)
    ensures
        r == has_network_prefix(p@),
{
    p.unicode_len() >= 2 && char_is_separator(p.get_char(0)) && char_is_separator(p.get_char(1))
}

/// `Path::is_absolute` on Windows.
pub fn path_is_absolute(p: &str) -> (r: bool)
    ensures
        r == is_absolute(p@),
{
    path_has_network_prefix(p) || (path_has_disk_prefix(p) && p.unicode_len() > 2 && char_is_separator(p.get_char(2)))
}

fn path_has_root(p: &str) -> (r: bool)
    ensures
        r == has_root(p@),
{
    path_is_absolute(p) || (!path_has_disk_prefix(p) && !path_has_network_prefix(p) && p.unicode_len() > 0
        && char_is_separator(p.get_char(0)))
}

/// The end of the component of `p` that starts at `from`.
fn component_end_at(p: &str, from: usize) -> (r: usize)
    ensures
        r == component_end(p@, from as int),
{
    let n = p.unicode_len();
    let verbatim = path_is_verbatim(p);
    let mut k: usize = from;
    if k >= n {
        return n;
    }
    while k < n && !char_is_sep(verbatim, p.get_char(k))
        invariant
            n == p@.len(),
            from <= k <= n,
            component_end(p@, from as int) == component_end(p@, k as int),
            verbatim == is_verbatim(p@),
        decreases n - k,
    {
        k = k + 1;
    }
    k
}

fn path_has_verbatim_unc_prefix(p: &str) -> (r: bool)
    ensures
        r == has_verbatim_unc_prefix(p@),
{
    p.unicode_len() >= 8 && p.get_char(0) == '\\' && p.get_char(1) == '\\' && p.get_char(2) == '?' && p.get_char(3)
        == '\\' && p.get_char(4) == 'U' && p.get_char(5) == 'N' && p.get_char(6) == 'C' && p.get_char(7) == '\\'
}

/// The length of the network prefix of `p`.
fn network_prefix_length(p: &str) -> (r: usize)
    ensures
        r == network_prefix_len(p@),
        r <= p@.len(),
{
    let n = p.unicode_len();
    proof {
        lemma_component_end(p@, 2);
    }
    let e1 = component_end_at(p, 2);
    let e2 = if e1 < n {
        proof {
            lemma_component_end(p@, e1 + 1);
        }
        component_end_at(p, e1 + 1)
    } else {
        e1
    };
    if path_has_verbatim_unc_prefix(p) {
        let e3 = if e2 < n {
            proof {
                lemma_component_end(p@, e2 + 1);
            }
            component_end_at(p, e2 + 1)
        } else {
            e2
        };
        if e3 < n {
            proof {
                lemma_component_end(p@, e3 + 1);
            }
            component_end_at(p, e3 + 1)
        } else {
            e3
        }
    } else {
        e2
    }
}

/// The segments of `s` between separators.
fn split_segments(s: &str, verbatim: bool) -> (r: Vec<String>)
    ensures
        texts(r@) == segments(s@, verbatim),
{
    let n = s.unicode_len();
    let mut done: Vec<String> = Vec::new();
    let mut cur = String::new();
    let mut i: usize = 0;
    while i < n
        invariant
            n == s@.len(),
            i <= n,
            (texts(done@), cur@) == split_state(s@.subrange(0, i as int), verbatim),
        decreases n - i,
    {
        let c = s.get_char(i);
        proof {
            let pre = s@.subrange(0, i as int);
            let nxt = s@.subrange(0, i + 1);
            assert(nxt.drop_last() =~= pre);
            assert(nxt.last() == c);
        }
        if char_is_sep(verbatim, c) {
            if cur.unicode_len() > 0 {
                let ghost before = done@;
                let piece = cur;
                done.push(piece);
                assert(texts(done@) =~= texts(before).push(piece@));
                cur = String::new();
            }
        } else {
            push_char(&mut cur, c);
        }
        i = i + 1;
    }
    assert(s@.subrange(0, n as int) =~= s@);
    if cur.unicode_len() > 0 {
        let ghost before = done@;
        let piece = cur;
        done.push(piece);
        assert(texts(done@) =~= texts(before).push(piece@));
    }
    done
}

/// Adds `comps` in turn to the components `buf` of a verbatim base.
fn push_segments_into(buf: &mut Vec<String>, comps: &Vec<String>)
    ensures
        texts(final(buf)@) == push_segments(texts(old(buf)@), texts(comps@)),
{
    let n = comps.len();
    let mut j: usize = 0;
    while j < n
        invariant
            n == comps@.len(),
            j <= n,
            texts(buf@) == push_segments(texts(old(buf)@), texts(comps@.subrange(0, j as int))),
        decreases n - j,
    {
        let c = comps[j].as_str();
        proof {
            let pre = texts(comps@.subrange(0, j as int));
            let nxt = texts(comps@.subrange(0, j + 1));
            assert(nxt.drop_last() =~= pre);
            assert(nxt.last() == c@);
            reveal_strlit(".");
            reveal_strlit("..");
            assert("."@ =~= seq!['.']);
            assert(".."@ =~= seq!['.', '.']);
        }
        let ghost b = texts(buf@);
        if same_text(c, ".") {
        } else if same_text(c, "..") {
            let k = buf.len();
            if k > 0 && !same_text(buf[k - 1].as_str(), ".") && !same_text(buf[k - 1].as_str(), "..") {
                assert(b.last() == buf@[k - 1]@);
                buf.pop();
                assert(texts(buf@) =~= b.drop_last());
            } else {
                assert(k > 0 ==> b.last() == buf@[k - 1]@);
            }
        } else {
            buf.push(comps[j].clone());
            assert(texts(buf@) =~= b.push(c@));
        }
        j = j + 1;
    }
    assert(comps@.subrange(0, n as int) =~= comps@);
}

/// `Path::join` of a non-empty relative path onto a verbatim base.
fn verbatim_join_text(base: &str, path: &str) -> (r: String)
    requires
        is_verbatim(base@),
    ensures
        r@ == verbatim_join(base@, path@),
{
    let k = network_prefix_length(base);
    let n = base.unicode_len();
    let prefix = base.substring_char(0, k);
    let rest = base.substring_char(k, n);
    assert(base@.subrange(0, n as int) =~= base@);
    let path_root = path_has_root(path);
    let root = (rest.unicode_len() > 0 && rest.get_char(0) == '\\') || path_root;
    let mut segs: Vec<String> = if path_root {
        let v: Vec<String> = Vec::new();
        assert(texts(v@) =~= Seq::<Seq<char>>::empty());
        v
    } else {
        split_segments(rest, true)
    };
    let comps = split_segments(path, false);
    push_segments_into(&mut segs, &comps);
    let mut r = copy_text(prefix);
    let ghost head = r@;
    if root || segs.len() > 0 {
        push_char(&mut r, '\\');
    }
    let ghost mid = r@;
    let joined = join(&segs, "\\");
    proof {
        reveal_strlit("\\");
        assert("\\"@ =~= seq!['\\']);
        if rest@.len() > 0 {
            assert(rest@[0] == base@[k as int]);
        }
    }
    r.append(joined.as_str());
    proof {
        if root || segs@.len() > 0 {
            assert(r@ =~= head + seq!['\\'] + joined@);
        } else {
            assert(r@ =~= head + Seq::<char>::empty() + joined@);
        }
    }
    r
}

/// `Path::join` on Windows.
pub fn join_path_text(base: &str, path: &str) -> (r: String)
    ensures
        r@ == join_path(base@, path@),
{
    if path_has_disk_prefix(path) || path_has_network_prefix(path) {
        copy_text(path)
    } else if path_is_verbatim(base) && path.unicode_len() > 0 {
        verbatim_join_text(base, path)
    } else if path_has_root(path) {
        if path_has_disk_prefix(base) {
            let drive = base.substring_char(0, 2);
            concat(drive, path)
        } else if path_has_network_prefix(base) {
            let k = network_prefix_length(base);
            let prefix = base.substring_char(0, k);
            concat(prefix, path)
        } else {
            assert(seq![] + path@ =~= path@);
            copy_text(path)
        }
    } else {
        let n = base.unicode_len();
        let bare_drive = path_has_disk_prefix(base) && n == 2;
        if n > 0 && !char_is_separator(base.get_char(n - 1)) && !bare_drive {
            let mut r = copy_text(base);
            push_char(&mut r, '\\');
            r.append(path);
            r
        } else {
            concat(base, path)
        }
    }
}

/// Whether a path has a `..` component, as `Path::components` on Windows finds it.
pub fn path_has_parent_component(p: &str) -> (r: bool)
    ensures
        r == has_parent_component(p@),
{
    let start: usize = if path_has_disk_prefix(p) { 2 } else { 0 };
    let rest = p.substring_char(start, p.unicode_len());
    let s = rest;
    assert(p@.subrange(0, p@.len() as int) =~= p@);
    let n = s.unicode_len();
    let mut i: usize = 0;
    while n >= 2 && i <= n - 2
        invariant
            n == s@.len(),
            s@ == after_disk_prefix(p@),
            forall|j: int|
                0 <= j < i ==> !(j + 2 <= s@.len() && #[trigger] s@[j] == '.' && s@[j + 1] == '.' && (j == 0
                    || is_separator(s@[j - 1])) && (j + 2 == s@.len() || is_separator(s@[j + 2]))),
        decreases n - i,
    {
        if s.get_char(i) == '.' && s.get_char(i + 1) == '.' && (i == 0 || char_is_separator(s.get_char(i - 1)))
            && (i + 2 == n || char_is_separator(s.get_char(i + 2))) {
            return true;
        }
        i = i + 1;
    }
    false
}

/// The position of the last separator in `s`, or -1.
pub open spec fn last_separator(s: Seq<char>, verbatim: bool) -> int
    decreases s.len(),
{
    if s.len() == 0 {
        -1
    } else if is_sep(verbatim, s.last()) {
        s.len() - 1
    } else {
        last_separator(s.drop_last(), verbatim)
    }
}

pub proof fn lemma_last_separator(s: Seq<char>, verbatim: bool)
    ensures
        -1 <= last_separator(s, verbatim) < s.len(),
        last_separator(s, verbatim) >= 0 ==> is_sep(verbatim, s[last_separator(s, verbatim)]),
        forall|j: int| last_separator(s, verbatim) < j < s.len() ==> !is_sep(verbatim, #[trigger] s[j]),
    decreases s.len(),
{
    if s.len() > 0 && !is_sep(verbatim, s.last()) {
        lemma_last_separator(s.drop_last(), verbatim);
        assert forall|j: int| last_separator(s, verbatim) < j < s.len() implies !is_sep(verbatim, #[trigger] s[j]) by {
            if j < s.len() - 1 {
                assert(s[j] == s.drop_last()[j]);
            }
        }
    }
}

/// The last normal component of `s`: trailing separators are skipped, and so
/// are `.` components after the first unless the path is verbatim; a trailing
/// `..`, a `.` kept as a component, or an empty path has none.
pub open spec fn last_name(s: Seq<char>, verbatim: bool) -> Option<Seq<char>>
    decreases s.len(),
{
    if s.len() == 0 {
        None
    } else if is_sep(verbatim, s.last()) {
        last_name(s.drop_last(), verbatim)
    } else {
        let k = last_separator(s, verbatim);
        let seg = s.subrange(k + 1, s.len() as int);
        if seg == seq!['.'] {
            if k < 0 || verbatim {
                None
            } else {
                proof {
                    lemma_last_separator(s, verbatim);
                }
                last_name(s.subrange(0, k + 1), verbatim)
            }
        } else if seg == seq!['.', '.'] {
            None
        } else {
            Some(seg)
        }
    }
}

/// `Path::file_name` on Windows.
pub open spec fn file_name(p: Seq<char>) -> Option<Seq<char>> {
    if has_network_prefix(p) {
        last_name(p.subrange(network_prefix_len(p), p.len() as int), is_verbatim(p))
    } else {
        last_name(after_disk_prefix(p), false)
    }
}

/// A name split at its last dot, as `Path::file_stem` and `Path::extension`
/// split it: `..` and names whose only dot leads are not split.
pub open spec fn last_dot(name: Seq<char>) -> int
    decreases name.len(),
{
    if name.len() == 0 {
        -1
    } else if name.last() == '.' {
        name.len() - 1
    } else {
        last_dot(name.drop_last())
    }
}

/// `Path::file_stem` of a file name.
pub open spec fn stem_of(name: Seq<char>) -> Seq<char> {
    let k = last_dot(name);
    if name == seq!['.', '.'] || k <= 0 {
        name
    } else {
        name.subrange(0, k)
    }
}

/// `Path::extension` of a file name.
pub open spec fn extension_of(name: Seq<char>) -> Option<Seq<char>> {
    let k = last_dot(name);
    if name == seq!['.', '.'] || k <= 0 {
        None
    } else {
        Some(name.subrange(k + 1, name.len() as int))
    }
}

/// `Path::file_stem` on Windows.
pub open spec fn file_stem(p: Seq<char>) -> Option<Seq<char>> {
    match file_name(p) {
        Some(name) => Some(stem_of(name)),
        None => None,
    }
}

/// `Path::extension` on Windows.
pub open spec fn extension(p: Seq<char>) -> Option<Seq<char>> {
    match file_name(p) {
        Some(name) => extension_of(name),
        None => None,
    }
}

pub proof fn lemma_last_dot(name: Seq<char>)
    ensures
        -1 <= last_dot(name) < name.len(),
        last_dot(name) >= 0 ==> name[last_dot(name)] == '.',
        forall|j: int| last_dot(name) < j < name.len() ==> #[trigger] name[j] != '.',
    decreases name.len(),
{
    if name.len() > 0 && name.last() != '.' {
        lemma_last_dot(name.drop_last());
        assert forall|j: int| last_dot(name) < j < name.len() implies #[trigger] name[j] != '.' by {
            if j < name.len() - 1 {
                assert(name[j] == name.drop_last()[j]);
            }
        }
    }
}

/// The last normal component of the string `s` (see `last_name`).
fn last_name_text(s: &str, verbatim: bool) -> (r: Option<String>)
    ensures
        match r {
            Some(x) => last_name(s@, verbatim) == Some(x@),
            None => last_name(s@, verbatim) is None,
        },
{
    let mut end: usize = s.unicode_len();
    assert(s@.subrange(0, end as int) =~= s@);
    loop
        invariant
            end <= s@.len(),
            last_name(s@, verbatim) == last_name(s@.subrange(0, end as int), verbatim),
        decreases end,
    {
        let ghost cur = s@.subrange(0, end as int);
        if end == 0 {
            return None;
        }
        let c = s.get_char(end - 1);
        if char_is_sep(verbatim, c) {
            assert(cur.drop_last() =~= s@.subrange(0, end - 1));
            end = end - 1;
        } else {
            // find the start of the last segment
            let mut k: usize = end;
            while k > 0 && !char_is_sep(verbatim, s.get_char(k - 1))
                invariant
                    k <= end,
                    end <= s@.len(),
                    cur == s@.subrange(0, end as int),
                    forall|j: int| k <= j < end ==> !is_sep(verbatim, #[trigger] s@[j]),
                decreases k,
            {
                k = k - 1;
            }
            proof {
                lemma_last_separator(cur, verbatim);
                let ls = last_separator(cur, verbatim);
                if ls >= k {
                    assert(is_sep(verbatim, cur[ls]));
                    assert(cur[ls] == s@[ls]);
                }
                if k > 0 {
                    assert(is_sep(verbatim, s@[k - 1]));
                    assert(cur[k - 1] == s@[k - 1]);
                }
                assert(ls == k - 1);
            }
            let seg = s.substring_char(k, end);
            let seg_len = end - k;
            let is_dot = seg_len == 1 && seg.get_char(0) == '.';
            let is_dotdot = seg_len == 2 && seg.get_char(0) == '.' && seg.get_char(1) == '.';
            proof {
                assert(seg@ =~= cur.subrange(k as int, end as int));
                if seg@ == seq!['.'] {
                    assert(seg@[0] == '.');
                }
                if seg@ == seq!['.', '.'] {
                    assert(seg@[0] == '.' && seg@[1] == '.');
                }
                if is_dot {
                    assert(seg@ =~= seq!['.']);
                }
                if is_dotdot {
                    assert(seg@ =~= seq!['.', '.']);
                }
            }
            if is_dotdot {
                return None;
            }
            if is_dot {
                if k == 0 || verbatim {
                    return None;
                }
                assert(cur.subrange(0, k as int) =~= s@.subrange(0, k as int));
                end = k;
            } else {
                return Some(seg.to_owned());
            }
        }
    }
}

/// `Path::file_name` on Windows.
pub fn path_file_name(p: &str) -> (r: Option<String>)
    ensures
        match r {
            Some(x) => file_name(p@) == Some(x@),
            None => file_name(p@) is None,
        },
{
    let n = p.unicode_len();
    let start: usize = if path_has_network_prefix(p) {
        network_prefix_length(p)
    } else if path_has_disk_prefix(p) {
        2
    } else {
        0
    };
    let rest = p.substring_char(start, n);
    assert(p@.subrange(0, n as int) =~= p@);
    let verbatim = if path_has_network_prefix(p) {
        path_is_verbatim(p)
    } else {
        false
    };
    last_name_text(rest, verbatim)
}

/// The position of the last dot in `name`, or `None`.
fn last_dot_index(name: &str) -> (r: Option<usize>)
    ensures
        match r {
            Some(k) => last_dot(name@) == k && k < name@.len(),
            None => last_dot(name@) == -1,
        },
{
    let n = name.unicode_len();
    let mut k: usize = n;
    assert(name@.subrange(0, n as int) =~= name@);
    while k > 0 && name.get_char(k - 1) != '.'
        invariant
            n == name@.len(),
            k <= n,
            last_dot(name@) == last_dot(name@.subrange(0, k as int)),
        decreases k,
    {
        assert(name@.subrange(0, k as int).drop_last() =~= name@.subrange(0, k - 1));
        k = k - 1;
    }
    proof {
        lemma_last_dot(name@);
    }
    if k == 0 {
        None
    } else {
        Some(k - 1)
    }
}

fn is_dotdot(name: &str) -> (r: bool)
    ensures
        r == (name@ == seq!['.', '.']),
{
    let r = name.unicode_len() == 2 && name.get_char(0) == '.' && name.get_char(1) == '.';
    proof {
        if r {
            assert(name@ =~= seq!['.', '.']);
        }
        if name@ == seq!['.', '.'] {
            assert(name@[0] == '.' && name@[1] == '.');
        }
    }
    r
}

/// `Path::file_stem` on Windows.
pub fn path_file_stem(p: &str) -> (r: Option<String>)
    ensures
        match r {
            Some(x) => file_stem(p@) == Some(x@),
            None => file_stem(p@) is None,
        },
{
    match path_file_name(p) {
        None => None,
        Some(name) => {
            let k = last_dot_index(name.as_str());
            match k {
                Some(k) => {
                    if k == 0 || is_dotdot(name.as_str()) {
                        Some(name)
                    } else {
                        Some(name.as_str().substring_char(0, k).to_owned())
                    }
                },
                None => Some(name),
            }
        },
    }
}

/// `Path::extension` on Windows.
pub fn path_extension(p: &str) -> (r: Option<String>)
    ensures
        match r {
            Some(x) => extension(p@) == Some(x@),
            None => extension(p@) is None,
        },
{
    match path_file_name(p) {
        None => None,
        Some(name) => {
            let n = name.unicode_len();
            match last_dot_index(name.as_str()) {
                Some(k) => {
                    if k == 0 || is_dotdot(name.as_str()) {
                        None
                    } else {
                        proof {
                            lemma_last_dot(name@);
                        }
                        Some(name.as_str().substring_char(k + 1, n).to_owned())
                    }
                },
                None => None,
            }
        },
    }
}

/// The text of a path, as the host receives it.
pub fn path_string(path: &str) -> (r: String)
    ensures
        r@ == path@,
{
    copy_text(path)
}

} // verus!
