//! Skipping tracks on the player behind a target: what a skip reported back,
//! and which media session stands for the target.

use vstd::prelude::*;
use crate::path::{file_name_of, stem_of, file_name_chars, stem_chars};
use crate::text::{chars_of, lowercase, string_of, to_lowercase};

verus! {

/// Which way to skip.
#[derive(Debug, Clone, Copy, PartialEq, Eq, Structural)]
pub enum Skip {
    Next,
    Previous,
}

/// What a skip request came to.
#[derive(Debug, Clone, Copy, PartialEq, Eq, Structural)]
pub enum Report {
    Skipped(Skip),
    /// Nothing on the machine is holding a media session.
    NoSession,
    /// A session was there and would not move.
    Refused,
}

/// The message parameter a report travels in.
pub open spec fn report_code(report: Report) -> usize {
    match report {
        Report::Skipped(Skip::Next) => 1,
        Report::Skipped(Skip::Previous) => 2,
        Report::NoSession => 3,
        Report::Refused => 4,
    }
}

/// The report a message parameter stands for.
pub open spec fn report_of(code: usize) -> Option<Report> {
    if code == 1 {
        Some(Report::Skipped(Skip::Next))
    } else if code == 2 {
        Some(Report::Skipped(Skip::Previous))
    } else if code == 3 {
        Some(Report::NoSession)
    } else if code == 4 {
        Some(Report::Refused)
    } else {
        None
    }
}

impl Report {
    pub fn code(self) -> (res: usize)
        ensures
            res == report_code(self),
    {
        match self {
            Report::Skipped(Skip::Next) => 1,
            Report::Skipped(Skip::Previous) => 2,
            Report::NoSession => 3,
            Report::Refused => 4,
        }
    }

    pub fn from_code(code: usize) -> (res: Option<Report>)
        ensures
            res == report_of(code),
    {
        match code {
            1 => Some(Report::Skipped(Skip::Next)),
            2 => Some(Report::Skipped(Skip::Previous)),
            3 => Some(Report::NoSession),
            4 => Some(Report::Refused),
            _ => None,
        }
    }
}

/// A report survives the trip through a message parameter, and no two
/// reports share a code.
pub proof fn lemma_report_round_trip(report: Report, other: Report)
    ensures
        report_of(report_code(report)) == Some(report),
        report_code(report) == report_code(other) ==> report == other,
{
}

/// The comparable part of a name: no directory, no extension, lower case.
pub open spec fn stem_key(name: Seq<char>) -> Seq<char> {
    match file_name_of(name) {
        Some(file) => lowercase(stem_of(file)),
        None => Seq::empty(),
    }
}

/// The comparable part of a name: no directory, no extension, lower case.
/// The id can arrive as a full path, as a bare file name or as a word the
/// player picked for itself, and all three should meet `spotify.exe` in the
/// middle.
pub fn stem(name: &str) -> (res: String)
    ensures
        res@ == stem_key(name@),
{
    let chars: Vec<char> = chars_of(name);
    match file_name_chars(&chars) {
        Some(file) => {
            let stem: Vec<char> = stem_chars(&file);
            let text: String = string_of(&stem);
            to_lowercase(text.as_str())
        },
        None => String::new(),
    }
}

/// The ids of the media sessions, `None` where one could not be read.
pub open spec fn session_ids(ids: Seq<Option<String>>) -> Seq<Option<Seq<char>>> {
    ids.map_values(|id: Option<String>| match id {
        Some(s) => Some(s@),
        None => None,
    })
}

/// Whether the session id at `i` has the stem `wanted`.
pub open spec fn id_matches(ids: Seq<Option<Seq<char>>>, i: int, wanted: Seq<char>) -> bool {
    match ids[i] {
        Some(id) => stem_key(id) == wanted,
        None => false,
    }
}

/// A plain Win32 player registers its executable path or file name as its
/// application user model id, so the target usually matches one of the
/// sessions outright: the first whose id has the target's stem is taken.
/// `None` means no session matched (or the target has no stem), and the
/// caller falls back to the session Windows calls current.
pub fn pick_session(target: &str, ids: &Vec<Option<String>>) -> (res: Option<usize>)
    ensures
        match res {
            Some(i) => {
                &&& stem_key(target@).len() > 0
                &&& i < ids@.len()
                &&& id_matches(session_ids(ids@), i as int, stem_key(target@))
                &&& forall|j: int|
                    0 <= j < i ==> !id_matches(session_ids(ids@), j, stem_key(target@))
            },
            None => stem_key(target@).len() == 0 || forall|j: int|
                0 <= j < ids@.len() ==> !id_matches(session_ids(ids@), j, stem_key(target@)),
        },
{
    let wanted: String = stem(target);
    if wanted.as_str().is_empty() {
        return None;
    }
    let ghost keys = session_ids(ids@);
    let n: usize = ids.len();
    for i in 0..n
        invariant
            n == ids@.len(),
            keys == session_ids(ids@),
            wanted@ == stem_key(target@),
            wanted@.len() > 0,
            forall|j: int| 0 <= j < i ==> !id_matches(keys, j, wanted@),
    {
        match &ids[i] {
            Some(id) => {
                let key: String = stem(id.as_str());
                assert(keys[i as int] == Some(id@));
                if key == wanted {
                    return Some(i);
                }
            },
            None => {
                assert(keys[i as int] is None);
            },
        }
    }
    None
}

/// The report for a skip: `NoSession` when no session could be found, the
/// skip itself when the player moved, `Refused` when it would not or the
/// call failed.
pub fn serve_report(skip: Skip, session_found: bool, moved: Option<bool>) -> (res: Report)
    ensures
        res == (if !session_found {
            Report::NoSession
        } else if moved == Some(true) {
            Report::Skipped(skip)
        } else {
            Report::Refused
        }),
{
    if !session_found {
        return Report::NoSession;
    }
    match moved {
        Some(true) => Report::Skipped(skip),
        _ => Report::Refused,
    }
}

} // verus!
