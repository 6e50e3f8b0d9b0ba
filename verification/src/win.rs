//! UTF-16 with a terminating NUL, the string form Win32 calls take and give,
//! and the name of the object that keeps a second instance from starting.

use vstd::prelude::*;
use crate::text::{chars_of, joined, push_char};

verus! {

/// The UTF-16 code units of one character.
pub open spec fn utf16_of_char(c: char) -> Seq<u16> {
    let v = c as u32;
    if v < 0x10000 {
        seq![v as u16]
    } else {
        let w = (v - 0x10000) as int;
        seq![(0xD800 + w / 0x400) as u16, (0xDC00 + w % 0x400) as u16]
    }
}

/// The UTF-16 encoding of a character sequence.
pub open spec fn utf16_encode(s: Seq<char>) -> Seq<u16>
    decreases s.len(),
{
    if s.len() == 0 {
        seq![]
    } else {
        utf16_encode(s.drop_last()) + utf16_of_char(s.last())
    }
}

/// A leading surrogate.
pub open spec fn is_high(u: u16) -> bool {
    0xD800 <= u <= 0xDBFF
}

/// A trailing surrogate.
pub open spec fn is_low(u: u16) -> bool {
    0xDC00 <= u <= 0xDFFF
}

/// The character a surrogate pair stands for.
pub open spec fn pair_char(high: u16, low: u16) -> char {
    (0x10000 + (high - 0xD800) * 0x400 + (low - 0xDC00)) as char
}

/// U+FFFD, which lossy decoding puts in place of an unpaired surrogate.
pub open spec fn replacement() -> char {
    0xFFFD as char
}

/// Decodes UTF-16, replacing each unpaired surrogate with U+FFFD: a leading
/// surrogate that is not followed by a trailing one stands alone and the unit
/// after it is decoded on its own, as `String::from_utf16_lossy` does.
pub open spec fn utf16_decode(units: Seq<u16>) -> Seq<char>
    decreases units.len(),
{
    if units.len() == 0 {
        seq![]
    } else if units.len() >= 2 && is_high(units[0]) && is_low(units[1]) {
        seq![pair_char(units[0], units[1])] + utf16_decode(units.skip(2))
    } else if is_high(units[0]) || is_low(units[0]) {
        seq![replacement()] + utf16_decode(units.skip(1))
    } else {
        seq![units[0] as char] + utf16_decode(units.skip(1))
    }
}

/// The number of units before the first NUL, or all of them when there is none.
pub open spec fn nul_end(units: Seq<u16>) -> nat
    decreases units.len(),
{
    if units.len() == 0 || units[0] == 0 {
        0
    } else {
        1 + nul_end(units.skip(1))
    }
}

/// Calls `char::from_u32`, which gives the character with that code exactly
/// when the code is a Unicode scalar value.
#[verifier::external_body]
fn char_from_u32(v: u32) -> (res: Option<char>)
    ensures
        res is Some <==> (v <= 0x10FFFF && !(0xD800 <= v <= 0xDFFF)),
        res matches Some(c) ==> c as u32 == v,
{
    char::from_u32(v)
}

/// `value` as UTF-16 followed by a NUL, ready for a `PCWSTR`.
pub fn wide(value: &str) -> (res: Vec<u16>)
    ensures
        res@ == utf16_encode(value@).push(0),
{
    let chars: Vec<char> = chars_of(value);
    let n: usize = chars.len();
    let mut res: Vec<u16> = Vec::new();
    for i in 0..n
        invariant
            n == chars@.len(),
            chars@ == value@,
            res@ == utf16_encode(chars@.take(i as int)),
    {
        let c: char = chars[i];
        let v: u32 = c as u32;
        assert(chars@.take(i + 1).drop_last() =~= chars@.take(i as int));
        if v < 0x10000 {
            res.push(v as u16);
        } else {
            proof {
                vstd::utf8::char_is_scalar(c);
            }
            let w: u32 = v - 0x10000;
            res.push((0xD800 + w / 0x400) as u16);
            res.push((0xDC00 + w % 0x400) as u16);
        }
        assert(res@ =~= utf16_encode(chars@.take(i + 1)));
    }
    assert(chars@.take(n as int) =~= chars@);
    res.push(0);
    res
}

/// Properties of the first unit of a lossy decoding step.
proof fn lemma_decode_step(units: Seq<u16>, i: int)
    requires
        0 <= i < units.len(),
    ensures
        units.len() - i >= 2 && is_high(units[i]) && is_low(units[i + 1]) ==> utf16_decode(
            units.skip(i),
        ) == seq![pair_char(units[i], units[i + 1])] + utf16_decode(units.skip(i + 2)),
        !(units.len() - i >= 2 && is_high(units[i]) && is_low(units[i + 1])) && (is_high(units[i])
            || is_low(units[i])) ==> utf16_decode(units.skip(i)) == seq![replacement()]
            + utf16_decode(units.skip(i + 1)),
        !is_high(units[i]) && !is_low(units[i]) ==> utf16_decode(units.skip(i)) == seq![
            units[i] as char,
        ] + utf16_decode(units.skip(i + 1)),
{
    let rest = units.skip(i);
    assert(rest[0] == units[i]);
    if rest.len() >= 2 {
        assert(rest[1] == units[i + 1]);
        assert(rest.skip(2) =~= units.skip(i + 2));
    }
    assert(rest.skip(1) =~= units.skip(i + 1));
}

/// Decodes `units` up to the first NUL, replacing unpaired surrogates.
pub fn from_wide(buffer: &[u16]) -> (res: String)
    ensures
        res@ == utf16_decode(buffer@.take(nul_end(buffer@) as int)),
{
    let n: usize = buffer.len();
    let mut end: usize = 0;
    assert(buffer@.skip(0) =~= buffer@);
    while end < n && buffer[end] != 0
        invariant
            n == buffer@.len(),
            end <= n,
            nul_end(buffer@) == end + nul_end(buffer@.skip(end as int)),
        decreases n - end,
    {
        assert(buffer@.skip(end as int).skip(1) =~= buffer@.skip(end + 1));
        end = end + 1;
    }
    assert(nul_end(buffer@.skip(end as int)) == 0) by {
        if end < n {
            assert(buffer@.skip(end as int)[0] == buffer@[end as int]);
        }
    }
    let ghost units = buffer@.take(end as int);
    let mut out: String = String::new();
    let mut i: usize = 0;
    assert(units.skip(0) =~= units);
    while i < end
        invariant
            n == buffer@.len(),
            end <= n,
            i <= end,
            units == buffer@.take(end as int),
            utf16_decode(units) == out@ + utf16_decode(units.skip(i as int)),
        decreases end - i,
    {
        let u: u16 = buffer[i];
        proof {
            lemma_decode_step(units, i as int);
        }
        if 0xD800 <= u && u <= 0xDBFF && i + 1 < end && 0xDC00 <= buffer[i + 1] && buffer[i + 1]
            <= 0xDFFF {
            let low: u16 = buffer[i + 1];
            let v: u32 = 0x10000 + ((u - 0xD800) as u32) * 0x400 + ((low - 0xDC00) as u32);
            let c: char = match char_from_u32(v) {
                Some(c) => c,
                None => '\u{FFFD}',
            };
            proof {
                vstd::utf8::char_u32_cast(c, v);
            }
            push_char(&mut out, c);
            i = i + 2;
        } else if 0xD800 <= u && u <= 0xDFFF {
            push_char(&mut out, '\u{FFFD}');
            i = i + 1;
        } else {
            let c: char = match char_from_u32(u as u32) {
                Some(c) => c,
                None => '\u{FFFD}',
            };
            proof {
                vstd::utf8::char_u32_cast(c, u as u32);
            }
            push_char(&mut out, c);
            i = i + 1;
        }
    }
    assert(units.skip(end as int).len() == 0);
    assert(out@ + Seq::<char>::empty() =~= out@);
    out
}

/// Encoding distributes over concatenation.
pub proof fn lemma_encode_concat(a: Seq<char>, b: Seq<char>)
    ensures
        utf16_encode(a + b) == utf16_encode(a) + utf16_encode(b),
    decreases b.len(),
{
    if b.len() == 0 {
        assert(a + b =~= a);
        assert(utf16_encode(a) + utf16_encode(b) =~= utf16_encode(a));
    } else {
        lemma_encode_concat(a, b.drop_last());
        assert((a + b).drop_last() =~= a + b.drop_last());
        assert((a + b).last() == b.last());
        assert(utf16_encode(a + b) =~= utf16_encode(a) + utf16_encode(b));
    }
}

/// Decoding the units of one character gives back that character.
proof fn lemma_decode_char(c: char, rest: Seq<u16>)
    ensures
        utf16_decode(utf16_of_char(c) + rest) == seq![c] + utf16_decode(rest),
{
    let v = c as u32;
    vstd::utf8::char_is_scalar(c);
    vstd::utf8::char_u32_cast(c, v);
    let units = utf16_of_char(c) + rest;
    if v < 0x10000 {
        assert(units[0] == v as u16);
        assert(units.skip(1) =~= rest);
    } else {
        let w = (v - 0x10000) as int;
        let high = (0xD800 + w / 0x400) as u16;
        let low = (0xDC00 + w % 0x400) as u16;
        assert(units[0] == high);
        assert(units[1] == low);
        assert(is_high(high));
        assert(is_low(low));
        assert(w / 0x400 * 0x400 + w % 0x400 == w);
        assert(pair_char(high, low) == c);
        assert(units.skip(2) =~= rest);
    }
}

/// Decoding undoes encoding.
pub proof fn lemma_decode_encode(s: Seq<char>)
    ensures
        utf16_decode(utf16_encode(s)) == s,
    decreases s.len(),
{
    if s.len() > 0 {
        let first = seq![s[0]];
        assert(s =~= first + s.drop_first());
        lemma_encode_concat(first, s.drop_first());
        assert(first.drop_last() =~= Seq::<char>::empty());
        assert(first.last() == s[0]);
        assert(utf16_encode(first.drop_last()) =~= Seq::<u16>::empty());
        assert(utf16_encode(first) =~= Seq::<u16>::empty() + utf16_of_char(s[0]));
        assert(utf16_encode(first) =~= utf16_of_char(s[0]));
        lemma_decode_char(s[0], utf16_encode(s.drop_first()));
        lemma_decode_encode(s.drop_first());
        assert(seq![s[0]] + s.drop_first() =~= s);
    } else {
        assert(utf16_encode(s) =~= Seq::<u16>::empty());
    }
}

/// A string holds no NUL character.
pub open spec fn no_nul(s: Seq<char>) -> bool {
    forall|i: int| 0 <= i < s.len() ==> s[i] != '\0'
}

/// Only the NUL character encodes to a zero unit.
pub proof fn lemma_encode_no_zero(s: Seq<char>)
    requires
        no_nul(s),
    ensures
        forall|i: int| 0 <= i < utf16_encode(s).len() ==> utf16_encode(s)[i] != 0,
    decreases s.len(),
{
    if s.len() > 0 {
        lemma_encode_no_zero(s.drop_last());
        let c = s.last();
        assert(c != '\0');
        vstd::utf8::char_u32_cast(c, c as u32);
        let e = utf16_encode(s);
        let front = utf16_encode(s.drop_last());
        assert forall|i: int| 0 <= i < e.len() implies e[i] != 0 by {
            if i >= front.len() {
                assert(e[i] == utf16_of_char(c)[i - front.len()]);
                if c as u32 == 0 {
                    assert((0u32 as char) == c);
                }
            } else {
                assert(e[i] == front[i]);
            }
        }
    }
}

/// The NUL end of units with no zero and one appended zero is just before it.
pub proof fn lemma_nul_end_push(e: Seq<u16>)
    requires
        forall|i: int| 0 <= i < e.len() ==> e[i] != 0,
    ensures
        nul_end(e.push(0)) == e.len(),
    decreases e.len(),
{
    if e.len() > 0 {
        assert(e.push(0).skip(1) =~= e.skip(1).push(0));
        lemma_nul_end_push(e.skip(1));
    } else {
        assert(e.push(0)[0] == 0);
    }
}

/// Reading back what `wide` wrote gives the original text, for any text
/// without a NUL character (a NUL ends the string on the Win32 side).
pub proof fn lemma_wide_round_trip(s: Seq<char>)
    requires
        no_nul(s),
    ensures
        ({
            let units = utf16_encode(s).push(0);
            utf16_decode(units.take(nul_end(units) as int)) == s
        }),
{
    let e = utf16_encode(s);
    lemma_encode_no_zero(s);
    lemma_nul_end_push(e);
    assert(e.push(0).take(e.len() as int) =~= e);
    lemma_decode_encode(s);
}

/// The name of the single-instance mutex. `Local\` scopes it to the current
/// logon session, so two users on the same machine each get their own
/// instance.
pub fn instance_name(name: &str) -> (res: String)
    ensures
        res@ == "Local\\"@ + name@,
{
    joined("Local\\", name)
}

} // verus!
