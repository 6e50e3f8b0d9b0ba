//! The bookkeeping around the audio sessions: which sessions belong to a
//! target, when the cached lookup is still good, and which way a mute toggle
//! goes.

use vstd::prelude::*;
use crate::text::{eq_ignore_ascii, eq_ignore_ascii_case};

verus! {

/// How long a lookup of a target's sessions is reused, in milliseconds. A
/// turn of the knob fires far faster than this, so a burst of detents costs
/// one enumeration rather than one per click.
pub const CACHE_TTL_MS: u64 = 1500;

/// The cached sessions still stand for `target` when they were looked up for
/// the same name, up to ASCII case, less than the time to live ago.
pub open spec fn fresh(cached: Option<Seq<char>>, target: Seq<char>, elapsed_ms: u64) -> bool {
    match cached {
        Some(name) => eq_ignore_ascii(name, target) && elapsed_ms < CACHE_TTL_MS,
        None => false,
    }
}

/// Whether the cached lookup may be reused for `target`.
pub fn cache_fresh(cached: Option<&str>, target: &str, elapsed_ms: u64) -> (res: bool)
    ensures
        res == fresh(
            match cached {
                Some(name) => Some(name@),
                None => None,
            },
            target@,
            elapsed_ms,
        ),
{
    match cached {
        Some(name) => eq_ignore_ascii_case(name, target) && elapsed_ms < CACHE_TTL_MS,
        None => false,
    }
}

/// Whether the process name read for the session at `i` is `target`.
pub open spec fn session_is(names: Seq<Option<Seq<char>>>, i: int, target: Seq<char>) -> bool {
    match names[i] {
        Some(name) => eq_ignore_ascii(name, target),
        None => false,
    }
}

/// The positions, in order, of the first `upto` sessions whose process is
/// `target`.
pub open spec fn matching_upto(names: Seq<Option<Seq<char>>>, target: Seq<char>, upto: int) -> Seq<
    usize,
>
    decreases upto,
{
    if upto <= 0 {
        Seq::empty()
    } else if session_is(names, upto - 1, target) {
        matching_upto(names, target, upto - 1).push((upto - 1) as usize)
    } else {
        matching_upto(names, target, upto - 1)
    }
}

/// Every session of the target is found, and nothing else: a position is
/// among the first `upto` matches exactly when its session belongs to the
/// target, the positions come in increasing order, and each is a real
/// session.
pub proof fn lemma_matching_finds_all(names: Seq<Option<Seq<char>>>, target: Seq<char>, upto: int)
    requires
        0 <= upto <= names.len(),
        names.len() <= usize::MAX,
    ensures
        forall|i: int|
            0 <= i < upto ==> (matching_upto(names, target, upto).contains(i as usize)
                <==> session_is(names, i, target)),
        forall|a: int, b: int|
            0 <= a < b < matching_upto(names, target, upto).len() ==> matching_upto(
                names,
                target,
                upto,
            )[a] < matching_upto(names, target, upto)[b],
        forall|a: int|
            0 <= a < matching_upto(names, target, upto).len() ==> matching_upto(
                names,
                target,
                upto,
            )[a] < upto,
    decreases upto,
{
    if upto > 0 {
        lemma_matching_finds_all(names, target, upto - 1);
        let before = matching_upto(names, target, upto - 1);
        let now = matching_upto(names, target, upto);
        assert forall|i: int| 0 <= i < upto implies (now.contains(i as usize) <==> session_is(
            names,
            i,
            target,
        )) by {
            if session_is(names, upto - 1, target) {
                assert(now == before.push((upto - 1) as usize));
                if i < upto - 1 {
                    if now.contains(i as usize) {
                        let k = choose|k: int| 0 <= k < now.len() && now[k] == i as usize;
                        if k == before.len() {
                            assert(now[k] == (upto - 1) as usize);
                        } else {
                            assert(before[k] == now[k]);
                        }
                    }
                    if before.contains(i as usize) {
                        let k = choose|k: int| 0 <= k < before.len() && before[k] == i as usize;
                        assert(now[k] == before[k]);
                    }
                } else {
                    assert(now[before.len() as int] == (upto - 1) as usize);
                }
            } else {
                if i == upto - 1 && before.contains(i as usize) {
                    let k = choose|k: int| 0 <= k < before.len() && before[k] == i as usize;
                    assert(before[k] < upto - 1);
                }
            }
        }
    }
}

/// The process names read for the sessions, `None` where one could not be read.
pub open spec fn process_names(names: Seq<Option<String>>) -> Seq<Option<Seq<char>>> {
    names.map_values(|n: Option<String>| match n {
        Some(s) => Some(s@),
        None => None,
    })
}

/// The positions of the sessions that belong to `target`: those whose
/// process name is `target` up to ASCII case. An empty target owns none.
pub fn matching_sessions(target: &str, names: &Vec<Option<String>>) -> (res: Vec<usize>)
    ensures
        res@ == (if target@.len() == 0 {
            Seq::empty()
        } else {
            matching_upto(process_names(names@), target@, names@.len() as int)
        }),
        target@.len() > 0 ==> forall|i: int|
            0 <= i < names@.len() ==> (res@.contains(i as usize) <==> session_is(
                process_names(names@),
                i,
                target@,
            )),
        forall|a: int, b: int| 0 <= a < b < res@.len() ==> res@[a] < res@[b],
        forall|a: int| 0 <= a < res@.len() ==> res@[a] < names@.len(),
{
    let mut res: Vec<usize> = Vec::new();
    if target.is_empty() {
        return res;
    }
    let ghost keys = process_names(names@);
    let n: usize = names.len();
    for i in 0..n
        invariant
            n == names@.len(),
            keys == process_names(names@),
            res@ == matching_upto(keys, target@, i as int),
    {
        match &names[i] {
            Some(name) => {
                assert(keys[i as int] == Some(name@));
                if eq_ignore_ascii_case(name.as_str(), target) {
                    res.push(i);
                }
            },
            None => {
                assert(keys[i as int] is None);
            },
        }
    }
    proof {
        assert(keys.len() == n);
        lemma_matching_finds_all(keys, target@, n as int);
    }
    res
}

/// When the sessions disagree, one muted and one not, they are all forced to
/// muted: the new state is "muted" exactly when some session reported being
/// unmuted. A session whose state could not be read counts for nothing.
pub open spec fn any_unmuted(states: Seq<Option<bool>>) -> bool {
    exists|i: int| 0 <= i < states.len() && states[i] == Some(false)
}

/// The mute state a toggle applies to all of a target's sessions.
pub fn mute_choice(states: &Vec<Option<bool>>) -> (res: bool)
    ensures
        res == any_unmuted(states@),
        res == states@.contains(Some(false)),
        forall|i: int| 0 <= i < states@.len() && states@[i] == Some(false) ==> res,
{
    let n: usize = states.len();
    for i in 0..n
        invariant
            n == states@.len(),
            forall|j: int| 0 <= j < i ==> states@[j] != Some(false),
    {
        if states[i] == Some(false) {
            return true;
        }
    }
    assert(!states@.contains(Some(false)));
    false
}

/// A toggle mutes as soon as any session, at any position, reports being
/// unmuted, and unmutes only when none does: sessions that are all muted or
/// unreadable are unmuted together.
pub proof fn lemma_mute_choice_any(states: Seq<Option<bool>>, i: int)
    ensures
        0 <= i < states.len() && states[i] == Some(false) ==> any_unmuted(states),
        any_unmuted(states) <==> states.contains(Some(false)),
        (forall|j: int| 0 <= j < states.len() ==> states[j] != Some(false)) ==> !any_unmuted(
            states,
        ),
{
}

/// What a toggle reports: the state it applied, when it could be applied to
/// at least one session, or `None` when the target had no session it could
/// set.
pub fn mute_outcome(applied: bool, set: &Vec<bool>) -> (res: Option<bool>)
    ensures
        res == (if exists|i: int| 0 <= i < set@.len() && set@[i] {
            Some(applied)
        } else {
            None
        }),
{
    let n: usize = set.len();
    for i in 0..n
        invariant
            n == set@.len(),
            forall|j: int| 0 <= j < i ==> !set@[j],
    {
        if set[i] {
            return Some(applied);
        }
    }
    None
}

} // verus!
