//! Character-level helpers on strings: iterating, building, ASCII case
//! folding, Unicode trimming and decimal rendering.

use vstd::prelude::*;
use vstd::std_specs::iter::IteratorSpec;

verus! {

broadcast use vstd::string::group_string_axioms;

/// The characters of `s`, one by one.
pub fn chars_of(s: &str) -> (res: Vec<char>)
    ensures
        res@ == s@,
{
    let mut res: Vec<char> = Vec::new();
    let mut chars = s.chars();
    loop
        invariant
            res@ + chars.remaining() == s@,
            chars.decrease() is Some,
        ensures
            res@ == s@,
        decreases chars.decrease()->0,
    {
        let next: Option<char> = chars.next();
        match next {
            Some(c) => {
                res.push(c);
            },
            None => {
                break;
            },
        }
    }
    res
}

/// Appends one character; `String::push` carries no specification of its own.
#[verifier::external_body]
pub(crate) fn push_char(s: &mut String, c: char)
    ensures
        final(s)@ == old(s)@.push(c),
{
    s.push(c);
}

/// Appends every character of `chars` to `out`.
pub fn push_chars(out: &mut String, chars: &Vec<char>)
    ensures
        final(out)@ == old(out)@ + chars@,
{
    let n: usize = chars.len();
    for i in 0..n
        invariant
            n == chars@.len(),
            out@ == old(out)@ + chars@.take(i as int),
    {
        assert(chars@.take(i + 1) =~= chars@.take(i as int).push(chars@[i as int]));
        push_char(out, chars[i]);
    }
    assert(chars@.take(n as int) =~= chars@);
}

/// A string holding exactly `chars`.
pub fn string_of(chars: &Vec<char>) -> (res: String)
    ensures
        res@ == chars@,
{
    let mut res: String = String::new();
    push_chars(&mut res, chars);
    assert(Seq::<char>::empty() + chars@ =~= chars@);
    res
}

/// Appends `tail` to `out`.
pub fn push_str(out: &mut String, tail: &str)
    ensures
        final(out)@ == old(out)@ + tail@,
{
    let chars: Vec<char> = chars_of(tail);
    push_chars(out, &chars);
}

/// `a` followed by `b`.
pub fn joined(a: &str, b: &str) -> (res: String)
    ensures
        res@ == a@ + b@,
{
    let mut res: String = a.to_owned();
    push_str(&mut res, b);
    res
}

/// The lower-case form of a string under Unicode's full case mapping.
pub uninterp spec fn lowercase(s: Seq<char>) -> Seq<char>;

/// Calls `str::to_lowercase`. Its result is named by [`lowercase`]; nothing
/// else is claimed of it.
#[verifier::external_body]
pub(crate) fn to_lowercase(s: &str) -> (res: String)
    ensures
        res@ == lowercase(s@),
{
    s.to_lowercase()
}

/// The code of `c` with ASCII upper-case letters moved to lower case.
pub open spec fn ascii_fold(c: char) -> u32 {
    let v = c as u32;
    if 65 <= v && v <= 90 {
        (v + 32) as u32
    } else {
        v
    }
}

/// Two strings are equal once ASCII letters are folded to one case. Folding
/// ASCII keeps the UTF-8 structure, so comparing characters is the same as
/// comparing the encoded bytes.
pub open spec fn eq_ignore_ascii(a: Seq<char>, b: Seq<char>) -> bool {
    &&& a.len() == b.len()
    &&& forall|i: int| 0 <= i < a.len() ==> #[trigger] ascii_fold(a[i]) == ascii_fold(b[i])
}

fn fold_char(c: char) -> (res: u32)
    ensures
        res == ascii_fold(c),
{
    let v: u32 = c as u32;
    if 65 <= v && v <= 90 {
        v + 32
    } else {
        v
    }
}

/// Two characters are the same letter up to ASCII case: equal, or an ASCII
/// upper-case letter `A` through `Z` and its lower-case partner, which sits
/// 32 code points above it.
pub open spec fn same_ignoring_ascii_case(x: char, y: char) -> bool {
    ||| x == y
    ||| 65 <= x as u32 <= 90 && y as u32 == x as u32 + 32
    ||| 65 <= y as u32 <= 90 && x as u32 == y as u32 + 32
}

/// Folding gives two characters the same code exactly when they are the same
/// letter up to ASCII case.
pub proof fn lemma_fold_matches_case(x: char, y: char)
    ensures
        ascii_fold(x) == ascii_fold(y) <==> same_ignoring_ascii_case(x, y),
{
    if ascii_fold(x) == ascii_fold(y) {
        let u = x as u32;
        let v = y as u32;
        if !(65 <= u <= 90) && !(65 <= v <= 90) {
            vstd::utf8::char_u32_cast(x, u);
            vstd::utf8::char_u32_cast(y, v);
        }
    }
}

/// Two strings match without regard to ASCII case exactly when they have the
/// same length and each character is the same letter up to ASCII case as the
/// one at its position in the other, for every letter `A` through `Z`.
pub proof fn lemma_eq_ignore_ascii_by_letters(a: Seq<char>, b: Seq<char>)
    ensures
        eq_ignore_ascii(a, b) <==> (a.len() == b.len() && forall|i: int|
            0 <= i < a.len() ==> #[trigger] same_ignoring_ascii_case(a[i], b[i])),
{
    if a.len() == b.len() {
        if eq_ignore_ascii(a, b) {
            assert forall|i: int| 0 <= i < a.len() implies #[trigger] same_ignoring_ascii_case(
                a[i],
                b[i],
            ) by {
                assert(ascii_fold(a[i]) == ascii_fold(b[i]));
                lemma_fold_matches_case(a[i], b[i]);
            }
        }
        if forall|i: int| 0 <= i < a.len() ==> #[trigger] same_ignoring_ascii_case(a[i], b[i]) {
            assert forall|i: int| 0 <= i < a.len() implies #[trigger] ascii_fold(a[i])
                == ascii_fold(b[i]) by {
                assert(same_ignoring_ascii_case(a[i], b[i]));
                lemma_fold_matches_case(a[i], b[i]);
            }
        }
    }
}

/// Whether `a` and `b` match when ASCII letters are compared without regard
/// to case, as `str::eq_ignore_ascii_case` decides.
pub fn eq_ignore_ascii_case(a: &str, b: &str) -> (res: bool)
    ensures
        res == eq_ignore_ascii(a@, b@),
        res <==> (a@.len() == b@.len() && forall|i: int|
            0 <= i < a@.len() ==> #[trigger] same_ignoring_ascii_case(a@[i], b@[i])),
{
    proof {
        lemma_eq_ignore_ascii_by_letters(a@, b@);
    }
    let x: Vec<char> = chars_of(a);
    let y: Vec<char> = chars_of(b);
    if x.len() != y.len() {
        return false;
    }
    let n: usize = x.len();
    for i in 0..n
        invariant
            n == x@.len(),
            n == y@.len(),
            x@ == a@,
            y@ == b@,
            forall|j: int| 0 <= j < i ==> #[trigger] ascii_fold(x@[j]) == ascii_fold(y@[j]),
    {
        if fold_char(x[i]) != fold_char(y[i]) {
            proof {
                lemma_eq_ignore_ascii_by_letters(a@, b@);
            }
            return false;
        }
    }
    true
}

/// ASCII-insensitive equality is reflexive, symmetric and transitive.
pub proof fn lemma_eq_ignore_ascii_equivalence(a: Seq<char>, b: Seq<char>, c: Seq<char>)
    ensures
        eq_ignore_ascii(a, a),
        eq_ignore_ascii(a, b) ==> eq_ignore_ascii(b, a),
        eq_ignore_ascii(a, b) && eq_ignore_ascii(b, c) ==> eq_ignore_ascii(a, c),
{
    if eq_ignore_ascii(a, b) && eq_ignore_ascii(b, c) {
        assert forall|i: int| 0 <= i < a.len() implies #[trigger] ascii_fold(a[i]) == ascii_fold(
            c[i],
        ) by {
            assert(ascii_fold(a[i]) == ascii_fold(b[i]));
            assert(ascii_fold(b[i]) == ascii_fold(c[i]));
        }
    }
    if eq_ignore_ascii(a, b) {
        assert forall|i: int| 0 <= i < b.len() implies #[trigger] ascii_fold(b[i]) == ascii_fold(
            a[i],
        ) by {
            assert(ascii_fold(a[i]) == ascii_fold(b[i]));
        }
    }
}

/// Unicode's White_Space property, the set `str::trim` strips.
pub open spec fn is_white_space(c: char) -> bool {
    let v = c as u32;
    ||| 0x09 <= v <= 0x0D
    ||| v == 0x20
    ||| v == 0x85
    ||| v == 0xA0
    ||| v == 0x1680
    ||| 0x2000 <= v <= 0x200A
    ||| v == 0x2028
    ||| v == 0x2029
    ||| v == 0x202F
    ||| v == 0x205F
    ||| v == 0x3000
}

fn white_space(c: char) -> (res: bool)
    ensures
        res == is_white_space(c),
{
    let v: u32 = c as u32;
    (0x09 <= v && v <= 0x0D) || v == 0x20 || v == 0x85 || v == 0xA0 || v == 0x1680 || (0x2000
        <= v && v <= 0x200A) || v == 0x2028 || v == 0x2029 || v == 0x202F || v == 0x205F || v
        == 0x3000
}

/// `s` without its leading white space.
pub open spec fn trim_start(s: Seq<char>) -> Seq<char>
    decreases s.len(),
{
    if s.len() > 0 && is_white_space(s[0]) {
        trim_start(s.drop_first())
    } else {
        s
    }
}

/// `s` without its trailing white space.
pub open spec fn trim_end(s: Seq<char>) -> Seq<char>
    decreases s.len(),
{
    if s.len() > 0 && is_white_space(s.last()) {
        trim_end(s.drop_last())
    } else {
        s
    }
}

/// `s` without leading and trailing white space, as `str::trim` gives it.
pub open spec fn trimmed(s: Seq<char>) -> Seq<char> {
    trim_end(trim_start(s))
}

proof fn lemma_trim_start_cut(s: Seq<char>) -> (k: int)
    ensures
        0 <= k <= s.len(),
        trim_start(s) == s.skip(k),
        forall|j: int| 0 <= j < k ==> is_white_space(#[trigger] s[j]),
        k < s.len() ==> !is_white_space(s[k]),
    decreases s.len(),
{
    if s.len() > 0 && is_white_space(s[0]) {
        let rest = s.drop_first();
        let k = lemma_trim_start_cut(rest);
        assert(rest.skip(k) =~= s.skip(k + 1));
        assert forall|j: int| 0 <= j < k + 1 implies is_white_space(#[trigger] s[j]) by {
            if j > 0 {
                assert(s[j] == rest[j - 1]);
            }
        }
        if k + 1 < s.len() {
            assert(s[k + 1] == rest[k]);
        }
        k + 1
    } else {
        assert(s.skip(0) =~= s);
        0
    }
}

proof fn lemma_trim_end_cut(s: Seq<char>) -> (k: int)
    ensures
        0 <= k <= s.len(),
        trim_end(s) == s.take(k),
        forall|j: int| k <= j < s.len() ==> is_white_space(#[trigger] s[j]),
        k > 0 ==> !is_white_space(s[k - 1]),
    decreases s.len(),
{
    if s.len() > 0 && is_white_space(s.last()) {
        let front = s.drop_last();
        let k = lemma_trim_end_cut(front);
        assert(front.take(k) =~= s.take(k));
        assert forall|j: int| k <= j < s.len() implies is_white_space(#[trigger] s[j]) by {
            if j < s.len() - 1 {
                assert(s[j] == front[j]);
            }
        }
        if k > 0 {
            assert(s[k - 1] == front[k - 1]);
        }
        k
    } else {
        assert(s.take(s.len() as int) =~= s);
        s.len() as int
    }
}

/// Trimming cuts white space from both ends and nothing else: what is left
/// is one stretch of `s`, everything before and after it is white space, and
/// it neither starts nor ends with white space.
pub proof fn lemma_trimmed_stretch(s: Seq<char>)
    ensures
        trimmed(s).len() > 0 ==> !is_white_space(trimmed(s)[0]) && !is_white_space(
            trimmed(s).last(),
        ),
        exists|a: int, b: int|
            0 <= a <= b <= s.len() && trimmed(s) == s.subrange(a, b) && (forall|j: int|
                0 <= j < a ==> is_white_space(#[trigger] s[j])) && (forall|j: int|
                b <= j < s.len() ==> is_white_space(#[trigger] s[j])),
{
    let a = lemma_trim_start_cut(s);
    let t = s.skip(a);
    let k = lemma_trim_end_cut(t);
    let b = a + k;
    assert(t.take(k) =~= s.subrange(a, b));
    assert forall|j: int| b <= j < s.len() implies is_white_space(#[trigger] s[j]) by {
        assert(s[j] == t[j - a]);
    }
    if k > 0 {
        assert(trimmed(s)[0] == s[a]);
        assert(trimmed(s).last() == t[k - 1]);
    }
    assert(0 <= a <= b <= s.len() && trimmed(s) == s.subrange(a, b) && (forall|j: int|
        0 <= j < a ==> is_white_space(#[trigger] s[j])) && (forall|j: int|
        b <= j < s.len() ==> is_white_space(#[trigger] s[j])));
}

/// The characters of `chars` without leading and trailing white space.
pub fn trim_chars(chars: &Vec<char>) -> (res: Vec<char>)
    ensures
        res@ == trimmed(chars@),
{
    let n: usize = chars.len();
    let mut start: usize = 0;
    assert(chars@.skip(0) =~= chars@);
    while start < n && white_space(chars[start])
        invariant
            n == chars@.len(),
            start <= n,
            trim_start(chars@) == trim_start(chars@.skip(start as int)),
        decreases n - start,
    {
        assert(chars@.skip(start as int).drop_first() =~= chars@.skip(start + 1));
        start = start + 1;
    }
    let ghost front = chars@.skip(start as int);
    assert(trim_start(chars@) == front) by {
        if start < n {
            assert(front[0] == chars@[start as int]);
        } else {
            assert(front.len() == 0);
        }
    }
    let mut end: usize = n;
    while end > start && white_space(chars[end - 1])
        invariant
            n == chars@.len(),
            start <= end <= n,
            front == chars@.skip(start as int),
            trim_end(front) == trim_end(chars@.subrange(start as int, end as int)),
        decreases end,
    {
        assert(chars@.subrange(start as int, end as int).drop_last() =~= chars@.subrange(
            start as int,
            end - 1,
        ));
        end = end - 1;
    }
    let mut res: Vec<char> = Vec::new();
    for i in start..end
        invariant
            n == chars@.len(),
            start <= end <= n,
            res@ == chars@.subrange(start as int, i as int),
    {
        assert(chars@.subrange(start as int, i + 1) =~= chars@.subrange(start as int, i as int).push(
            chars@[i as int],
        ));
        res.push(chars[i]);
    }
    assert(front =~= chars@.subrange(start as int, n as int));
    res
}

/// The character of the decimal digit `d`.
pub open spec fn digit_char(d: nat) -> char {
    ((48 + d) as u8) as char
}

/// The decimal digits of `n`, most significant first, without leading zeros.
pub open spec fn digits(n: nat) -> Seq<char>
    decreases n,
{
    if n < 10 {
        seq![digit_char(n)]
    } else {
        digits(n / 10).push(digit_char(n % 10))
    }
}

/// `n` written in decimal, with a leading minus sign when it is negative.
pub open spec fn decimal(n: int) -> Seq<char> {
    if n < 0 {
        seq!['-'] + digits((-n) as nat)
    } else {
        digits(n as nat)
    }
}

fn push_digits(out: &mut String, n: u64)
    ensures
        final(out)@ == old(out)@ + digits(n as nat),
    decreases n,
{
    if n >= 10 {
        push_digits(out, n / 10);
    }
    let d: u8 = (n % 10) as u8;
    push_char(out, (48 + d) as char);
    if n >= 10 {
        assert(old(out)@ + digits(n as nat) =~= old(out)@ + digits((n / 10) as nat) + seq![
            digit_char((n % 10) as nat),
        ]);
    } else {
        assert(digits(n as nat) =~= seq![digit_char(n as nat)]);
    }
}

/// `n` in decimal, as `format!("{n}")` prints an unsigned number.
pub fn decimal_usize(n: usize) -> (res: String)
    ensures
        res@ == decimal(n as int),
{
    let mut res: String = String::new();
    push_digits(&mut res, n as u64);
    assert(Seq::<char>::empty() + digits(n as nat) =~= digits(n as nat));
    res
}

/// `n` in decimal, as `format!("{n}")` prints a signed number.
pub fn decimal_i32(n: i32) -> (res: String)
    ensures
        res@ == decimal(n as int),
{
    let mut res: String = String::new();
    if n < 0 {
        push_char(&mut res, '-');
        let magnitude: u64 = (0 - (n as i64)) as u64;
        push_digits(&mut res, magnitude);
    } else {
        push_digits(&mut res, n as u64);
        assert(Seq::<char>::empty() + digits(n as nat) =~= digits(n as nat));
    }
    res
}

} // verus!
