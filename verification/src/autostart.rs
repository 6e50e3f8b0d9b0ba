//! The startup entry under the `Run` registry key.

use vstd::prelude::*;
use crate::text::{joined, push_str};

verus! {

/// The command the startup entry runs: the quoted executable path followed
/// by `--hidden`, so the autostarted instance comes up in the tray only.
pub fn run_command(executable: &str) -> (res: String)
    ensures
        res@ == "\""@ + executable@ + "\" --hidden"@,
{
    let mut res: String = joined("\"", executable);
    push_str(&mut res, "\" --hidden");
    res
}

/// The bytes of UTF-16 units in memory on a little-endian machine: each unit
/// as its low byte followed by its high byte. A `REG_SZ` payload is measured
/// in bytes and includes the terminator.
pub open spec fn le_bytes(units: Seq<u16>) -> Seq<u8> {
    Seq::new(
        2 * units.len(),
        |k: int|
            if k % 2 == 0 {
                (units[k / 2] % 256) as u8
            } else {
                (units[k / 2] / 256) as u8
            },
    )
}

/// The payload holds two bytes per unit, and each unit reads back from its
/// pair: the low byte plus 256 times the high byte.
pub proof fn lemma_le_bytes_round_trip(units: Seq<u16>, i: int)
    requires
        0 <= i < units.len(),
    ensures
        le_bytes(units).len() == 2 * units.len(),
        le_bytes(units)[2 * i] + 256 * le_bytes(units)[2 * i + 1] == units[i],
{
    let b = le_bytes(units);
    assert((2 * i) % 2 == 0 && (2 * i) / 2 == i);
    assert((2 * i + 1) % 2 == 1 && (2 * i + 1) / 2 == i);
    let u = units[i];
    assert(b[2 * i] == (u % 256) as u8);
    assert(b[2 * i + 1] == (u / 256) as u8);
    assert(u % 256 + 256 * (u / 256) == u);
}

/// The registry payload for a NUL-terminated UTF-16 string.
pub fn reg_sz_bytes(units: &Vec<u16>) -> (res: Vec<u8>)
    ensures
        res@ == le_bytes(units@),
{
    let n: usize = units.len();
    let mut res: Vec<u8> = Vec::new();
    for i in 0..n
        invariant
            n == units@.len(),
            res@ =~= le_bytes(units@).take(2 * i),
    {
        let u: u16 = units[i];
        res.push((u % 256) as u8);
        res.push((u / 256) as u8);
        assert(le_bytes(units@)[2 * i as int] == (u % 256) as u8);
        assert(le_bytes(units@)[2 * i + 1] == (u / 256) as u8);
    }
    assert(le_bytes(units@).take(2 * n) =~= le_bytes(units@));
    res
}

/// The Win32 status of success.
pub const ERROR_SUCCESS: u32 = 0;

/// The Win32 status of a value that does not exist.
pub const ERROR_FILE_NOT_FOUND: u32 = 2;

/// Whether removing the startup entry ended well: nothing to delete is the
/// state the caller asked for.
pub fn erase_succeeded(status: u32) -> (res: bool)
    ensures
        res == (status == ERROR_SUCCESS || status == ERROR_FILE_NOT_FOUND),
{
    status == ERROR_SUCCESS || status == ERROR_FILE_NOT_FOUND
}

} // verus!
