//! The last component of a Windows path and its stem, as `Path::file_name`
//! and `Path::file_stem` find them on Windows. A path may open with a prefix:
//! a drive (`C:`), a UNC share (`\\server\share`), a device (`\\.\COM42`) or
//! one of the verbatim forms (`\\?\name`, `\\?\C:`, `\\?\UNC\server\share`);
//! the prefix belongs to no component. After it, `\` and `/` separate
//! components (only `\` in a verbatim path), empty components are skipped,
//! `.` is skipped too except in a verbatim path, and a last component `..` or
//! `.` names no file.

use vstd::prelude::*;
use crate::text::{chars_of, string_of};

verus! {

/// A path separator.
pub open spec fn is_sep(c: char) -> bool {
    c == '\\' || c == '/'
}

/// A separator of a path that is (or is not) verbatim: a verbatim path only
/// knows `\`.
pub open spec fn is_sep_in(c: char, verbatim: bool) -> bool {
    if verbatim {
        c == '\\'
    } else {
        is_sep(c)
    }
}

/// An ASCII letter, as a drive is named.
pub open spec fn is_drive_letter(c: char) -> bool {
    ('A' <= c && c <= 'Z') || ('a' <= c && c <= 'z')
}

/// `s` opens with a drive such as `C:`.
pub open spec fn has_drive(s: Seq<char>) -> bool {
    s.len() >= 2 && is_drive_letter(s[0]) && s[1] == ':'
}

/// The number of characters before the first separator, or the length when
/// there is none.
pub open spec fn sep_index(s: Seq<char>, verbatim: bool) -> nat
    decreases s.len(),
{
    if s.len() == 0 || is_sep_in(s[0], verbatim) {
        0
    } else {
        1 + sep_index(s.skip(1), verbatim)
    }
}

/// What follows the first separator, nothing when there is none.
pub open spec fn after_sep(s: Seq<char>, verbatim: bool) -> Seq<char> {
    let k = sep_index(s, verbatim) as int;
    if k < s.len() {
        s.skip(k + 1)
    } else {
        Seq::empty()
    }
}

/// The length of a path's prefix (zero when it has none) and whether the
/// prefix is verbatim, as Windows path parsing finds them:
/// - two separators then `?\` (all three separators `\`) open a verbatim
///   prefix: `UNC` and a separator then a server and a share, or an exact
///   drive (a drive followed by a separator or by nothing), or else a single
///   component;
/// - two separators then `.` and a separator open a device namespace
///   followed by one component;
/// - two separators then a server and a share, both non-empty, are a UNC
///   share; with either empty there is no prefix;
/// - a drive is a prefix of two characters.
pub open spec fn prefix_of(s: Seq<char>) -> (int, bool) {
    if s.len() >= 2 && is_sep(s[0]) && is_sep(s[1]) {
        if s.len() >= 4 && s[0] == '\\' && s[1] == '\\' && s[2] == '?' && s[3] == '\\' {
            let rest = s.skip(4);
            if rest.len() >= 4 && rest[0] == 'U' && rest[1] == 'N' && rest[2] == 'C' && is_sep(
                rest[3],
            ) {
                let p = s.skip(8);
                let server = sep_index(p, true) as int;
                let share = sep_index(after_sep(p, true), true) as int;
                (8 + server + if share > 0 {
                    1 + share
                } else {
                    0
                }, true)
            } else if has_drive(rest) && (rest.len() == 2 || is_sep(rest[2])) {
                (6, true)
            } else {
                (4 + sep_index(rest, true) as int, true)
            }
        } else if s.len() >= 4 && s[2] == '.' && is_sep(s[3]) {
            (4 + sep_index(s.skip(4), false) as int, false)
        } else {
            let p = s.skip(2);
            let server = sep_index(p, false) as int;
            let share = sep_index(after_sep(p, false), false) as int;
            if server > 0 && share > 0 {
                (2 + server + 1 + share, false)
            } else {
                (0, false)
            }
        }
    } else if has_drive(s) {
        (2, false)
    } else {
        (0, false)
    }
}

/// The index of the last separator in `s`, or -1 when it has none.
pub open spec fn last_sep(s: Seq<char>, verbatim: bool) -> int
    decreases s.len(),
{
    if s.len() == 0 {
        -1
    } else if is_sep_in(s.last(), verbatim) {
        s.len() - 1
    } else {
        last_sep(s.drop_last(), verbatim)
    }
}

/// The text `.`.
pub open spec fn is_dot(seg: Seq<char>) -> bool {
    seg.len() == 1 && seg[0] == '.'
}

/// The text `..`.
pub open spec fn is_dot_dot(seg: Seq<char>) -> bool {
    seg.len() == 2 && seg[0] == '.' && seg[1] == '.'
}

/// The last component of what follows a path's prefix: empty components
/// (and `.` outside a verbatim path) are passed over, and `..`, `.` or
/// nothing at all names no file.
pub open spec fn last_component(s: Seq<char>, verbatim: bool) -> Option<Seq<char>>
    decreases s.len(),
{
    if s.len() == 0 {
        None
    } else {
        proof {
            lemma_last_sep_bounds(s, verbatim);
        }
        let k = last_sep(s, verbatim);
        let seg = s.subrange(k + 1, s.len() as int);
        if seg.len() == 0 || (is_dot(seg) && !verbatim) {
            if k < 0 {
                None
            } else {
                last_component(s.take(k), verbatim)
            }
        } else if is_dot(seg) || is_dot_dot(seg) {
            None
        } else {
            Some(seg)
        }
    }
}

/// The file name of a path.
pub open spec fn file_name_of(path: Seq<char>) -> Option<Seq<char>> {
    let (len, verbatim) = prefix_of(path);
    last_component(path.skip(len), verbatim)
}

/// The index of the last `.` in `s`, or -1 when it has none.
pub open spec fn last_dot(s: Seq<char>) -> int
    decreases s.len(),
{
    if s.len() == 0 {
        -1
    } else if s.last() == '.' {
        s.len() - 1
    } else {
        last_dot(s.drop_last())
    }
}

/// The stem of a file name: everything before the final `.`, or the whole
/// name when it has no `.` or its only `.` is the first character.
pub open spec fn stem_of(name: Seq<char>) -> Seq<char> {
    let k = last_dot(name);
    if k <= 0 {
        name
    } else {
        name.take(k)
    }
}

pub proof fn lemma_last_sep_bounds(s: Seq<char>, verbatim: bool)
    ensures
        -1 <= last_sep(s, verbatim) < s.len(),
        last_sep(s, verbatim) >= 0 ==> is_sep_in(s[last_sep(s, verbatim)], verbatim),
        forall|j: int| last_sep(s, verbatim) < j < s.len() ==> !is_sep_in(#[trigger] s[j], verbatim),
    decreases s.len(),
{
    if s.len() > 0 && !is_sep_in(s.last(), verbatim) {
        lemma_last_sep_bounds(s.drop_last(), verbatim);
        assert forall|j: int| last_sep(s, verbatim) < j < s.len() implies !is_sep_in(
            #[trigger] s[j],
            verbatim,
        ) by {
            if j < s.len() - 1 {
                assert(s[j] == s.drop_last()[j]);
            }
        }
    }
}

proof fn lemma_last_dot_bounds(s: Seq<char>)
    ensures
        -1 <= last_dot(s) < s.len(),
        last_dot(s) >= 0 ==> s[last_dot(s)] == '.',
        forall|j: int| last_dot(s) < j < s.len() ==> #[trigger] s[j] != '.',
    decreases s.len(),
{
    if s.len() > 0 && s.last() != '.' {
        lemma_last_dot_bounds(s.drop_last());
        assert forall|j: int| last_dot(s) < j < s.len() implies #[trigger] s[j] != '.' by {
            if j < s.len() - 1 {
                assert(s[j] == s.drop_last()[j]);
            }
        }
    }
}

proof fn lemma_last_sep_unique(s: Seq<char>, verbatim: bool, k: int)
    requires
        -1 <= k < s.len(),
        k >= 0 ==> is_sep_in(s[k], verbatim),
        forall|j: int| k < j < s.len() ==> !is_sep_in(#[trigger] s[j], verbatim),
    ensures
        last_sep(s, verbatim) == k,
{
    lemma_last_sep_bounds(s, verbatim);
    if last_sep(s, verbatim) > k {
        assert(!is_sep_in(s[last_sep(s, verbatim)], verbatim));
    }
    if last_sep(s, verbatim) < k {
        assert(!is_sep_in(s[k], verbatim));
    }
}

proof fn lemma_last_dot_unique(s: Seq<char>, k: int)
    requires
        -1 <= k < s.len(),
        k >= 0 ==> s[k] == '.',
        forall|j: int| k < j < s.len() ==> #[trigger] s[j] != '.',
    ensures
        last_dot(s) == k,
{
    lemma_last_dot_bounds(s);
    if last_dot(s) > k {
        assert(s[last_dot(s)] != '.');
    }
    if last_dot(s) < k {
        assert(s[k] != '.');
    }
}

fn sep(c: char) -> (res: bool)
    ensures
        res == is_sep(c),
{
    c == '\\' || c == '/'
}

fn sep_in(c: char, verbatim: bool) -> (res: bool)
    ensures
        res == is_sep_in(c, verbatim),
{
    if verbatim {
        c == '\\'
    } else {
        sep(c)
    }
}

fn drive_letter(c: char) -> (res: bool)
    ensures
        res == is_drive_letter(c),
{
    ('A' <= c && c <= 'Z') || ('a' <= c && c <= 'z')
}

/// The position of the first separator at or after `start`, or the length.
fn sep_index_from(path: &Vec<char>, start: usize, verbatim: bool) -> (res: usize)
    requires
        start <= path@.len(),
    ensures
        res == start + sep_index(path@.skip(start as int), verbatim),
        res <= path@.len(),
{
    let n: usize = path.len();
    let mut i: usize = start;
    while i < n && !sep_in(path[i], verbatim)
        invariant
            n == path@.len(),
            start <= i <= n,
            start + sep_index(path@.skip(start as int), verbatim) == i + sep_index(
                path@.skip(i as int),
                verbatim,
            ),
        decreases n - i,
    {
        assert(path@.skip(i as int)[0] == path@[i as int]);
        assert(path@.skip(i as int).skip(1) =~= path@.skip(i + 1));
        i = i + 1;
    }
    assert(sep_index(path@.skip(i as int), verbatim) == 0) by {
        if i < n {
            assert(path@.skip(i as int)[0] == path@[i as int]);
        }
    }
    i
}

/// The separator positions of `s` seen from an offset: `sep_index` of what
/// follows the first separator of `s.skip(from)`.
proof fn lemma_after_sep(s: Seq<char>, from: int, verbatim: bool)
    requires
        0 <= from <= s.len(),
        from + sep_index(s.skip(from), verbatim) < s.len(),
    ensures
        after_sep(s.skip(from), verbatim) == s.skip(from + sep_index(s.skip(from), verbatim) + 1),
{
    let k = sep_index(s.skip(from), verbatim) as int;
    assert(s.skip(from).skip(k + 1) =~= s.skip(from + k + 1));
}

/// The length of `path`'s prefix and whether it is verbatim.
fn prefix_chars(path: &Vec<char>) -> (res: (usize, bool))
    ensures
        res.0 == prefix_of(path@).0,
        res.1 == prefix_of(path@).1,
        res.0 <= path@.len(),
{
    let ghost s = path@;
    let n: usize = path.len();
    if n >= 2 && sep(path[0]) && sep(path[1]) {
        if n >= 4 && path[0] == '\\' && path[1] == '\\' && path[2] == '?' && path[3] == '\\' {
            let ghost rest = s.skip(4);
            assert(n < 4 + 4 || (rest[0] == path@[4] && rest[1] == path@[5] && rest[2] == path@[6]
                && rest[3] == path@[7]));
            if n >= 8 && path[4] == 'U' && path[5] == 'N' && path[6] == 'C' && sep(path[7]) {
                let server_end: usize = sep_index_from(path, 8, true);
                let share: usize = if server_end < n {
                    proof {
                        lemma_after_sep(s, 8, true);
                    }
                    sep_index_from(path, server_end + 1, true) - (server_end + 1)
                } else {
                    assert(after_sep(s.skip(8), true) =~= Seq::<char>::empty());
                    0
                };
                let len: usize = if share > 0 {
                    server_end + 1 + share
                } else {
                    server_end
                };
                (len, true)
            } else if n >= 6 && drive_letter(path[4]) && path[5] == ':' && (n == 6 || sep(
                path[6],
            )) {
                assert(rest[0] == path@[4] && rest[1] == path@[5]);
                assert(n == 6 || rest[2] == path@[6]);
                (6, true)
            } else {
                proof {
                    if n >= 6 {
                        assert(rest[0] == path@[4] && rest[1] == path@[5]);
                    }
                    if n >= 7 {
                        assert(rest[2] == path@[6]);
                    }
                }
                (sep_index_from(path, 4, true), true)
            }
        } else if n >= 4 && path[2] == '.' && sep(path[3]) {
            (sep_index_from(path, 4, false), false)
        } else {
            let server_end: usize = sep_index_from(path, 2, false);
            let share: usize = if server_end < n {
                proof {
                    lemma_after_sep(s, 2, false);
                }
                sep_index_from(path, server_end + 1, false) - (server_end + 1)
            } else {
                assert(after_sep(s.skip(2), false) =~= Seq::<char>::empty());
                0
            };
            if server_end > 2 && share > 0 {
                (server_end + 1 + share, false)
            } else {
                (0, false)
            }
        }
    } else if n >= 2 && drive_letter(path[0]) && path[1] == ':' {
        (2, false)
    } else {
        (0, false)
    }
}

/// The characters `s[from..to]`.
fn slice_chars(s: &Vec<char>, from: usize, to: usize) -> (res: Vec<char>)
    requires
        from <= to <= s@.len(),
    ensures
        res@ == s@.subrange(from as int, to as int),
{
    let mut res: Vec<char> = Vec::new();
    for i in from..to
        invariant
            from <= to <= s@.len(),
            res@ == s@.subrange(from as int, i as int),
    {
        assert(s@.subrange(from as int, i + 1) =~= s@.subrange(from as int, i as int).push(
            s@[i as int],
        ));
        res.push(s[i]);
    }
    res
}

/// The file name of `path`, or `None` when it ends in `..` or `.` or has
/// no component after its prefix.
pub fn file_name_chars(path: &Vec<char>) -> (res: Option<Vec<char>>)
    ensures
        match res {
            Some(name) => file_name_of(path@) == Some(name@),
            None => file_name_of(path@) is None,
        },
{
    let (start, verbatim) = prefix_chars(path);
    let body: Vec<char> = slice_chars(path, start, path.len());
    let ghost whole = body@;
    assert(whole =~= path@.skip(start as int));
    let mut end: usize = body.len();
    assert(whole.take(end as int) =~= whole);
    loop
        invariant
            whole == body@,
            whole == path@.skip(prefix_of(path@).0),
            verbatim == prefix_of(path@).1,
            end <= whole.len(),
            last_component(whole, verbatim) == last_component(whole.take(end as int), verbatim),
        decreases end,
    {
        let ghost s = whole.take(end as int);
        if end == 0 {
            assert(s =~= Seq::<char>::empty());
            return None;
        }
        let mut k: usize = end;
        while k > 0 && !sep_in(body[k - 1], verbatim)
            invariant
                k <= end <= whole.len(),
                whole == body@,
                forall|j: int| k <= j < end ==> !is_sep_in(#[trigger] whole[j], verbatim),
            decreases k,
        {
            k = k - 1;
        }
        proof {
            let kk = k as int - 1;
            assert forall|j: int| kk < j < s.len() implies !is_sep_in(#[trigger] s[j], verbatim) by {
                assert(s[j] == whole[j]);
            }
            if kk >= 0 {
                assert(s[kk] == whole[kk]);
            }
            lemma_last_sep_unique(s, verbatim, kk);
        }
        let seg_len: usize = end - k;
        let ghost seg = s.subrange(k as int, s.len() as int);
        assert(seg =~= whole.subrange(k as int, end as int));
        assert(seg.len() == seg_len);
        if seg_len >= 1 {
            assert(seg[0] == body@[k as int]);
        }
        if seg_len >= 2 {
            assert(seg[1] == body@[k + 1]);
        }
        let dot: bool = seg_len == 1 && body[k] == '.';
        if seg_len == 0 || (dot && !verbatim) {
            if k == 0 {
                return None;
            }
            assert(s.take(k - 1) =~= whole.take(k - 1));
            end = k - 1;
        } else if dot || (seg_len == 2 && body[k] == '.' && body[k + 1] == '.') {
            return None;
        } else {
            let name: Vec<char> = slice_chars(&body, k, end);
            assert(last_component(s, verbatim) == Some(seg));
            return Some(name);
        }
    }
}

/// The stem of the file name `name`.
pub fn stem_chars(name: &Vec<char>) -> (res: Vec<char>)
    ensures
        res@ == stem_of(name@),
{
    let n: usize = name.len();
    let mut k: usize = n;
    while k > 0 && name[k - 1] != '.'
        invariant
            k <= n == name@.len(),
            forall|j: int| k <= j < n ==> #[trigger] name@[j] != '.',
        decreases k,
    {
        k = k - 1;
    }
    proof {
        lemma_last_dot_unique(name@, k as int - 1);
    }
    if k <= 1 {
        slice_chars(name, 0, n)
    } else {
        slice_chars(name, 0, k - 1)
    }
}

/// A plain component: not empty, not `.` or `..`, and free of the path's
/// separators.
pub open spec fn plain_component(name: Seq<char>, verbatim: bool) -> bool {
    &&& name.len() > 0
    &&& !is_dot(name)
    &&& !is_dot_dot(name)
    &&& forall|i: int| 0 <= i < name.len() ==> !is_sep_in(#[trigger] name[i], verbatim)
}

/// Whatever comes before it, a plain component after the last separator is
/// the last component: the file name is the text after the final `\`.
pub proof fn lemma_last_component_after_sep(dir: Seq<char>, name: Seq<char>, verbatim: bool)
    requires
        plain_component(name, verbatim),
    ensures
        last_component(dir + seq!['\\'] + name, verbatim) == Some(name),
{
    let s = dir + seq!['\\'] + name;
    let k = dir.len() as int;
    assert forall|j: int| k < j < s.len() implies !is_sep_in(#[trigger] s[j], verbatim) by {
        assert(s[j] == name[j - k - 1]);
    }
    lemma_last_sep_unique(s, verbatim, k);
    assert(s.subrange(k + 1, s.len() as int) =~= name);
}

/// A bare file name, with no directory and no drive in front, is its own
/// file name.
pub proof fn lemma_bare_name(name: Seq<char>)
    requires
        plain_component(name, false),
        !has_drive(name),
    ensures
        file_name_of(name) == Some(name),
{
    assert(!is_sep(name[0]));
    assert(prefix_of(name) == (0int, false));
    assert(name.skip(0) =~= name);
    lemma_last_sep_unique(name, false, -1);
    assert(name.subrange(0, name.len() as int) =~= name);
}

/// The stem drops exactly the last extension: a name `base.ext` whose `ext`
/// holds no `.` and whose `base` is not empty has the stem `base`; a name
/// with no `.` after its first character is its own stem; and a stem is
/// always a leading part of the name.
pub proof fn lemma_stem_drops_extension(base: Seq<char>, ext: Seq<char>, name: Seq<char>)
    requires
        forall|i: int| 0 <= i < ext.len() ==> #[trigger] ext[i] != '.',
    ensures
        base.len() > 0 ==> stem_of(base + seq!['.'] + ext) == base,
        (forall|i: int| 1 <= i < name.len() ==> #[trigger] name[i] != '.') ==> stem_of(name)
            == name,
        stem_of(name).len() <= name.len(),
        stem_of(name) == name.take(stem_of(name).len() as int),
{
    let s = base + seq!['.'] + ext;
    let k = base.len() as int;
    assert forall|j: int| k < j < s.len() implies #[trigger] s[j] != '.' by {
        assert(s[j] == ext[j - k - 1]);
    }
    lemma_last_dot_unique(s, k);
    assert(s.take(k) =~= base);
    lemma_last_dot_bounds(name);
    if forall|i: int| 1 <= i < name.len() ==> #[trigger] name[i] != '.' {
        if last_dot(name) > 0 {
            assert(name[last_dot(name)] != '.');
        }
    }
    assert(name.take(name.len() as int) =~= name);
}

/// The file name of `path`: the last component after its prefix, once empty
/// components (and `.` outside a verbatim path) are passed over.
pub fn file_name(path: &str) -> (res: Option<String>)
    ensures
        match res {
            Some(name) => file_name_of(path@) == Some(name@),
            None => file_name_of(path@) is None,
        },
{
    let chars: Vec<char> = chars_of(path);
    match file_name_chars(&chars) {
        Some(name) => Some(string_of(&name)),
        None => None,
    }
}

} // verus!
