//! Lists of application names: merging them without repeats (up to ASCII
//! case) and ordering them by their lower-case form.

use vstd::prelude::*;
use crate::config::{knows, texts};
use crate::text::{
    chars_of, eq_ignore_ascii, eq_ignore_ascii_case, lemma_eq_ignore_ascii_equivalence, lowercase,
    to_lowercase,
};

verus! {

/// `names` with `name` at the end, unless it is there already up to ASCII
/// case.
pub open spec fn added(names: Seq<Seq<char>>, name: Seq<char>) -> Seq<Seq<char>> {
    if knows(names, name) {
        names
    } else {
        names.push(name)
    }
}

/// `names` followed by each name of `extra`, in order, that is not already
/// there up to ASCII case.
pub open spec fn merged(names: Seq<Seq<char>>, extra: Seq<Seq<char>>) -> Seq<Seq<char>>
    decreases extra.len(),
{
    if extra.len() == 0 {
        names
    } else {
        added(merged(names, extra.drop_last()), extra.last())
    }
}

/// Whether `name` matches one of the strings in `names` up to ASCII case.
fn known(names: &Vec<String>, name: &str) -> (res: bool)
    ensures
        res == knows(texts(names@), name@),
{
    let ghost t = texts(names@);
    let n: usize = names.len();
    for i in 0..n
        invariant
            n == names@.len(),
            t == texts(names@),
            forall|j: int| 0 <= j < i ==> !eq_ignore_ascii(#[trigger] t[j], name@),
    {
        assert(t[i as int] == names@[i as int]@);
        if eq_ignore_ascii_case(names[i].as_str(), name) {
            return true;
        }
    }
    false
}

/// Appends each name of `extra` that `names` does not already hold, compared
/// without regard to ASCII case.
pub fn merge(names: &mut Vec<String>, extra: Vec<String>)
    ensures
        texts(final(names)@) == merged(texts(old(names)@), texts(extra@)),
{
    let ghost start = texts(names@);
    let ghost more = texts(extra@);
    let n: usize = extra.len();
    assert(more.take(0) =~= Seq::<Seq<char>>::empty());
    for i in 0..n
        invariant
            n == extra@.len(),
            more == texts(extra@),
            texts(names@) == merged(start, more.take(i as int)),
    {
        let name: &String = &extra[i];
        assert(more.take(i + 1).drop_last() =~= more.take(i as int));
        assert(more.take(i + 1).last() == name@);
        if !known(names, name.as_str()) {
            let ghost before = texts(names@);
            names.push(name.clone());
            assert(texts(names@) =~= before.push(name@));
        }
    }
    assert(more.take(n as int) =~= more);
}

/// Whether `name` is known in `names` stays so when names are added.
proof fn lemma_knows_added(names: Seq<Seq<char>>, extra: Seq<char>, name: Seq<char>)
    requires
        knows(names, name),
    ensures
        knows(added(names, extra), name),
{
    if !knows(names, extra) {
        let i = choose|i: int| 0 <= i < names.len() && eq_ignore_ascii(#[trigger] names[i], name);
        assert(names.push(extra)[i] == names[i]);
    }
}

/// The names merged into a list all end up known by it, and the list it
/// started as stays at its front.
pub proof fn lemma_merge_contents(names: Seq<Seq<char>>, extra: Seq<Seq<char>>)
    ensures
        merged(names, extra).len() >= names.len(),
        merged(names, extra).take(names.len() as int) == names,
        forall|i: int| 0 <= i < extra.len() ==> knows(merged(names, extra), #[trigger] extra[i]),
    decreases extra.len(),
{
    if extra.len() > 0 {
        let front = extra.drop_last();
        lemma_merge_contents(names, front);
        let m = merged(names, front);
        assert(merged(names, extra).take(names.len() as int) =~= names) by {
            if !knows(m, extra.last()) {
                assert(m.push(extra.last()).take(names.len() as int) =~= m.take(
                    names.len() as int,
                ));
            }
        }
        assert forall|i: int| 0 <= i < extra.len() implies knows(
            merged(names, extra),
            #[trigger] extra[i],
        ) by {
            if i < front.len() {
                assert(front[i] == extra[i]);
                lemma_knows_added(m, extra.last(), extra[i]);
            } else {
                if !knows(m, extra.last()) {
                    lemma_eq_ignore_ascii_equivalence(extra.last(), extra.last(), extra.last());
                    assert(m.push(extra.last())[m.len() as int] == extra.last());
                }
            }
        }
    }
}

/// Merging into a list that already knows every name changes nothing.
proof fn lemma_merge_known(names: Seq<Seq<char>>, extra: Seq<Seq<char>>)
    requires
        forall|i: int| 0 <= i < extra.len() ==> knows(names, #[trigger] extra[i]),
    ensures
        merged(names, extra) == names,
    decreases extra.len(),
{
    if extra.len() > 0 {
        let front = extra.drop_last();
        assert forall|i: int| 0 <= i < front.len() implies knows(names, #[trigger] front[i]) by {
            assert(front[i] == extra[i]);
        }
        lemma_merge_known(names, front);
        assert(knows(names, extra[extra.len() - 1]));
    }
}

/// Merging the same names a second time changes nothing.
pub proof fn lemma_merge_idempotent(names: Seq<Seq<char>>, extra: Seq<Seq<char>>)
    ensures
        merged(merged(names, extra), extra) == merged(names, extra),
{
    lemma_merge_contents(names, extra);
    lemma_merge_known(merged(names, extra), extra);
}

/// No two names of a list match up to ASCII case.
pub open spec fn distinct_ignoring_case(names: Seq<Seq<char>>) -> bool {
    forall|i: int, j: int|
        0 <= i < j < names.len() ==> !eq_ignore_ascii(#[trigger] names[i], #[trigger] names[j])
}

/// Merging into a list without repeats leaves one without repeats.
pub proof fn lemma_merge_distinct(names: Seq<Seq<char>>, extra: Seq<Seq<char>>)
    requires
        distinct_ignoring_case(names),
    ensures
        distinct_ignoring_case(merged(names, extra)),
    decreases extra.len(),
{
    if extra.len() > 0 {
        lemma_merge_distinct(names, extra.drop_last());
        let m = merged(names, extra.drop_last());
        let x = extra.last();
        if !knows(m, x) {
            let grown = m.push(x);
            assert forall|i: int, j: int| 0 <= i < j < grown.len() implies !eq_ignore_ascii(
                #[trigger] grown[i],
                #[trigger] grown[j],
            ) by {
                if j == m.len() {
                    assert(grown[i] == m[i]);
                    assert(grown[j] == x);
                    if eq_ignore_ascii(m[i], x) {
                        assert(knows(m, x));
                    }
                } else {
                    assert(grown[i] == m[i]);
                    assert(grown[j] == m[j]);
                }
            }
        }
    }
}

/// `a` comes no later than `b` when their characters are compared in order
/// by code point, a prefix first. This is how `str` orders: UTF-8 keeps the
/// order of code points.
pub open spec fn lex_le(a: Seq<char>, b: Seq<char>) -> bool
    decreases a.len(),
{
    if a.len() == 0 {
        true
    } else if b.len() == 0 {
        false
    } else if a[0] != b[0] {
        (a[0] as u32) < (b[0] as u32)
    } else {
        lex_le(a.drop_first(), b.drop_first())
    }
}

/// The order is total.
pub proof fn lemma_lex_total(a: Seq<char>, b: Seq<char>)
    ensures
        lex_le(a, b) || lex_le(b, a),
    decreases a.len(),
{
    if a.len() > 0 && b.len() > 0 && a[0] == b[0] {
        lemma_lex_total(a.drop_first(), b.drop_first());
    } else if a.len() > 0 && b.len() > 0 {
        vstd::utf8::char_u32_cast(a[0], a[0] as u32);
        vstd::utf8::char_u32_cast(b[0], b[0] as u32);
    }
}

/// The order is transitive.
pub proof fn lemma_lex_transitive(a: Seq<char>, b: Seq<char>, c: Seq<char>)
    requires
        lex_le(a, b),
        lex_le(b, c),
    ensures
        lex_le(a, c),
    decreases a.len(),
{
    if a.len() > 0 && b.len() > 0 && c.len() > 0 {
        vstd::utf8::char_u32_cast(a[0], a[0] as u32);
        vstd::utf8::char_u32_cast(b[0], b[0] as u32);
        vstd::utf8::char_u32_cast(c[0], c[0] as u32);
        if a[0] == b[0] && b[0] == c[0] {
            lemma_lex_transitive(a.drop_first(), b.drop_first(), c.drop_first());
        }
    }
}

/// Whether `a` comes no later than `b`.
fn lex_le_chars(a: &Vec<char>, b: &Vec<char>) -> (res: bool)
    ensures
        res == lex_le(a@, b@),
{
    let mut i: usize = 0;
    assert(a@.skip(0) =~= a@);
    assert(b@.skip(0) =~= b@);
    while i < a.len() && i < b.len() && a[i] == b[i]
        invariant
            i <= a@.len(),
            i <= b@.len(),
            lex_le(a@, b@) == lex_le(a@.skip(i as int), b@.skip(i as int)),
        decreases a@.len() - i,
    {
        assert(a@.skip(i as int).drop_first() =~= a@.skip(i + 1));
        assert(b@.skip(i as int).drop_first() =~= b@.skip(i + 1));
        assert(a@.skip(i as int)[0] == a@[i as int]);
        assert(b@.skip(i as int)[0] == b@[i as int]);
        i = i + 1;
    }
    if i == a.len() {
        return true;
    }
    if i == b.len() {
        return false;
    }
    assert(a@.skip(i as int)[0] == a@[i as int]);
    assert(b@.skip(i as int)[0] == b@[i as int]);
    (a[i] as u32) < (b[i] as u32)
}

/// The names ordered by their lower-case form.
pub open spec fn sorted_by_lowercase(names: Seq<Seq<char>>) -> bool {
    forall|i: int, j: int|
        0 <= i < j < names.len() ==> lex_le(
            lowercase(#[trigger] names[i]),
            lowercase(#[trigger] names[j]),
        )
}

/// The same names ordered by their lower-case form. Names whose lower-case
/// forms are equal may come in either order, as with an unstable sort.
pub fn sort_by_lowercase(names: Vec<String>) -> (res: Vec<String>)
    ensures
        texts(res@).to_multiset() == texts(names@).to_multiset(),
        sorted_by_lowercase(texts(res@)),
{
    broadcast use vstd::seq_lib::group_to_multiset_ensures;
    let ghost all = texts(names@);
    let mut out: Vec<String> = Vec::new();
    let mut keys: Vec<Vec<char>> = Vec::new();
    let n: usize = names.len();
    assert(all.take(0) =~= Seq::<Seq<char>>::empty());
    assert(texts(out@) =~= Seq::<Seq<char>>::empty());
    for i in 0..n
        invariant
            n == names@.len(),
            all == texts(names@),
            out@.len() == keys@.len(),
            forall|j: int| 0 <= j < keys@.len() ==> #[trigger] keys@[j]@ == lowercase(out@[j]@),
            sorted_by_lowercase(texts(out@)),
            texts(out@).to_multiset() == all.take(i as int).to_multiset(),
    {
        let name: String = names[i].clone();
        let lowered: String = to_lowercase(name.as_str());
        let key: Vec<char> = chars_of(lowered.as_str());
        let m: usize = out.len();
        let mut p: usize = 0;
        while p < m && lex_le_chars(&keys[p], &key)
            invariant
                m == out@.len() == keys@.len(),
                p <= m,
                forall|j: int| 0 <= j < p ==> lex_le(#[trigger] keys@[j]@, key@),
            decreases m - p,
        {
            p = p + 1;
        }
        let ghost before = texts(out@);
        let ghost old_keys = keys@;
        proof {
            assert forall|j: int| 0 <= j < p implies lex_le(
                lowercase(#[trigger] before[j]),
                lowercase(name@),
            ) by {
                assert(keys@[j]@ == lowercase(out@[j]@));
            }
            if p < m {
                assert(!lex_le(keys@[p as int]@, key@));
                lemma_lex_total(keys@[p as int]@, key@);
                assert(keys@[p as int]@ == lowercase(before[p as int]));
            }
        }
        out.insert(p, name);
        keys.insert(p, key);
        let ghost after = texts(out@);
        proof {
            assert(after =~= before.insert(p as int, name@));
            assert forall|j: int| 0 <= j < keys@.len() implies #[trigger] keys@[j]@ == lowercase(
                out@[j]@,
            ) by {
                if j < p {
                    assert(keys@[j] == old_keys[j]);
                } else if j > p {
                    assert(keys@[j] == old_keys[j - 1]);
                }
            }
            assert forall|a: int, b: int| 0 <= a < b < after.len() implies lex_le(
                lowercase(#[trigger] after[a]),
                lowercase(#[trigger] after[b]),
            ) by {
                let x = lowercase(name@);
                if a < p && b < p {
                    assert(after[a] == before[a] && after[b] == before[b]);
                } else if a > p && b > p {
                    assert(after[a] == before[a - 1] && after[b] == before[b - 1]);
                } else if a < p && b > p {
                    assert(after[a] == before[a] && after[b] == before[b - 1]);
                } else if a < p && b == p {
                    assert(after[a] == before[a]);
                } else {
                    assert(a == p && b > p);
                    assert(after[b] == before[b - 1]);
                    if b - 1 > p {
                        lemma_lex_transitive(
                            x,
                            lowercase(before[p as int]),
                            lowercase(before[b - 1]),
                        );
                    }
                }
            }
            assert(all[i as int] == name@);
            assert(all.take(i + 1) =~= all.take(i as int).push(name@));
            vstd::seq_lib::to_multiset_insert(before, p as int, name@);
            vstd::seq_lib::to_multiset_build(all.take(i as int), name@);
        }
    }
    assert(all.take(n as int) =~= all);
    out
}

/// The applications that hold audio sessions, each once (up to ASCII case,
/// the first spelling kept), ordered by their lower-case names.
pub fn active_names(found: Vec<String>) -> (res: Vec<String>)
    ensures
        texts(res@).to_multiset() == merged(Seq::empty(), texts(found@)).to_multiset(),
        sorted_by_lowercase(texts(res@)),
{
    let mut names: Vec<String> = Vec::new();
    assert(texts(names@) =~= Seq::<Seq<char>>::empty());
    merge(&mut names, found);
    sort_by_lowercase(names)
}

} // verus!
