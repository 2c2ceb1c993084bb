//! Character level helpers shared by argument reading and HTTP header
//! parsing: lossy UTF-8 decoding, whitespace trimming, line splitting,
//! character search and decimal parsing, all specified over sequences of
//! characters.

use vstd::prelude::*;
use vstd::string::*;
use vstd::utf8::{decode_utf8, valid_utf8};

verus! {

/// The characters that lossy UTF-8 decoding yields for a byte sequence:
/// every well formed scalar as itself, every ill formed run as replacement
/// characters.  Only decoding of fully valid input is pinned down below;
/// everything else is left to this name.
pub uninterp spec fn lossy_utf8(bytes: Seq<u8>) -> Seq<char>;

/// Relies on `String::from_utf8_lossy`: the decoding is a function of the
/// bytes alone, and valid UTF-8 input is decoded unchanged.
#[verifier::external_body]
pub fn lossy_string(data: &[u8]) -> (s: String)
    ensures
        s@ == lossy_utf8(data@),
        valid_utf8(data@) ==> s@ == decode_utf8(data@),
{
    String::from_utf8_lossy(data).into_owned()
}

/// Whether a character has the Unicode white space property, as
/// `char::is_whitespace` decides it.
pub uninterp spec fn char_is_ws(c: char) -> bool;

/// Relies on `char::is_whitespace`: a pure predicate on the character,
/// the Unicode `White_Space` property.  Within ASCII that property holds
/// of exactly the space and the five controls U+0009 through U+000D, so
/// those cases are pinned down here and concrete examples stay provable.
pub assume_specification[ char::is_whitespace ](c: char) -> (r: bool)
    ensures
        r == char_is_ws(c),
        (c as u32) < 0x80 ==> (r <==> (c as u32 == 32 || (9 <= c as u32 && c as u32 <= 13))),
;

/// Whether two string slices hold the same characters.
pub fn str_eq(a: &str, b: &str) -> (r: bool)
    ensures
        r == (a@ == b@),
{
    let na = a.unicode_len();
    let nb = b.unicode_len();
    if na != nb {
        return false;
    }
    let mut i: usize = 0;
    while i < na
        invariant
            0 <= i <= na,
            na == a@.len(),
            na == b@.len(),
            forall|j: int| 0 <= j < i ==> a@[j] == b@[j],
        decreases na - i,
    {
        if a.get_char(i) != b.get_char(i) {
            return false;
        }
        i += 1;
    }
    proof {
        assert(a@ =~= b@);
    }
    true
}

/// Whether `a` begins with the characters of `prefix`.
pub open spec fn spec_str_starts_with(a: Seq<char>, prefix: Seq<char>) -> bool {
    &&& prefix.len() <= a.len()
    &&& forall|j: int| 0 <= j < prefix.len() ==> a[j] == prefix[j]
}

/// Whether the string slice `a` begins with the characters of `prefix`.
pub fn str_starts_with(a: &str, prefix: &str) -> (r: bool)
    ensures
        r == spec_str_starts_with(a@, prefix@),
{
    let np = prefix.unicode_len();
    let na = a.unicode_len();
    if np > na {
        return false;
    }
    let mut i: usize = 0;
    while i < np
        invariant
            0 <= i <= np,
            np == prefix@.len(),
            na == a@.len(),
            np <= na,
            forall|j: int| 0 <= j < i ==> a@[j] == prefix@[j],
        decreases np - i,
    {
        if a.get_char(i) != prefix.get_char(i) {
            return false;
        }
        i += 1;
    }
    true
}

/// The first position at or after `from` where `c` occurs in `s`, or the
/// length of `s` when there is none.
pub open spec fn spec_find(s: Seq<char>, c: char, from: nat) -> nat
    decreases s.len() - from,
{
    if from >= s.len() {
        s.len()
    } else if s[from as int] == c {
        from
    } else {
        spec_find(s, c, from + 1)
    }
}

/// What `spec_find` returns: the first occurrence of `c` at or after
/// `from`, or the length of `s` when `c` does not occur there.
pub proof fn lemma_spec_find(s: Seq<char>, c: char, from: nat)
    requires
        from <= s.len(),
    ensures
        from <= spec_find(s, c, from) <= s.len(),
        spec_find(s, c, from) < s.len() ==> s[spec_find(s, c, from) as int] == c,
        forall|j: int| from <= j < spec_find(s, c, from) ==> s[j] != c,
    decreases s.len() - from,
{
    if from < s.len() && s[from as int] != c {
        lemma_spec_find(s, c, from + 1);
    }
}

/// A position with no occurrence of `c` before it, holding `c` itself or
/// sitting at the end of `s`, is what `spec_find` returns.
pub proof fn lemma_spec_find_is(s: Seq<char>, c: char, from: nat, i: nat)
    requires
        from <= i <= s.len(),
        forall|j: int| from <= j < i ==> s[j] != c,
        i < s.len() ==> s[i as int] == c,
    ensures
        spec_find(s, c, from) == i,
    decreases i - from,
{
    if from < i {
        lemma_spec_find_is(s, c, from + 1, i);
    }
}

/// The first position at or after `from` where `c` occurs in `s`, or the
/// character length of `s` when there is none.
pub fn find_char_from(s: &str, c: char, from: usize) -> (r: usize)
    requires
        from <= s@.len(),
    ensures
        r == spec_find(s@, c, from as nat),
{
    let n = s.unicode_len();
    let mut i: usize = from;
    loop
        invariant
            from <= i <= n,
            n == s@.len(),
            forall|j: int| from <= j < i ==> s@[j] != c,
        decreases n - i,
    {
        if i >= n {
            proof {
                lemma_spec_find_is(s@, c, from as nat, i as nat);
            }
            return i;
        }
        if s.get_char(i) == c {
            proof {
                lemma_spec_find_is(s@, c, from as nat, i as nat);
            }
            return i;
        }
        i += 1;
    }
}

/// `s` without its leading white space.
pub open spec fn spec_trim_start(s: Seq<char>) -> Seq<char>
    decreases s.len(),
{
    if s.len() > 0 && char_is_ws(s[0]) {
        spec_trim_start(s.drop_first())
    } else {
        s
    }
}

/// `s` without its trailing white space.
pub open spec fn spec_trim_end(s: Seq<char>) -> Seq<char>
    decreases s.len(),
{
    if s.len() > 0 && char_is_ws(s.last()) {
        spec_trim_end(s.drop_last())
    } else {
        s
    }
}

/// `s` without leading and trailing white space, as `str::trim` strips it.
pub open spec fn spec_trim(s: Seq<char>) -> Seq<char> {
    spec_trim_end(spec_trim_start(s))
}

proof fn lemma_trim_start_skip(s: Seq<char>, a: int)
    requires
        0 <= a <= s.len(),
        forall|j: int| 0 <= j < a ==> char_is_ws(s[j]),
        a < s.len() ==> !char_is_ws(s[a]),
    ensures
        spec_trim_start(s) == s.skip(a),
    decreases a,
{
    if a == 0 {
        assert(s.skip(0) =~= s);
    } else {
        lemma_trim_start_skip(s.drop_first(), a - 1);
        assert(s.drop_first().skip(a - 1) =~= s.skip(a));
    }
}

proof fn lemma_trim_end_take(s: Seq<char>, b: int)
    requires
        0 <= b <= s.len(),
        forall|j: int| b <= j < s.len() ==> char_is_ws(s[j]),
        b > 0 ==> !char_is_ws(s[b - 1]),
    ensures
        spec_trim_end(s) == s.take(b),
    decreases s.len() - b,
{
    if b == s.len() {
        assert(s.take(b) =~= s);
    } else {
        lemma_trim_end_take(s.drop_last(), b);
        assert(s.drop_last().take(b) =~= s.take(b));
    }
}

/// `s` without leading and trailing white space.
pub fn trim_str(s: &str) -> (r: String)
    ensures
        r@ == spec_trim(s@),
{
    let n = s.unicode_len();
    let mut a: usize = 0;
    while a < n && s.get_char(a).is_whitespace()
        invariant
            0 <= a <= n,
            n == s@.len(),
            forall|j: int| 0 <= j < a ==> char_is_ws(s@[j]),
        decreases n - a,
    {
        a += 1;
    }
    let mut b: usize = n;
    while b > a && s.get_char(b - 1).is_whitespace()
        invariant
            a <= b <= n,
            n == s@.len(),
            forall|j: int| b <= j < n ==> char_is_ws(s@[j]),
        decreases b,
    {
        b -= 1;
    }
    proof {
        lemma_trim_start_skip(s@, a as int);
        let t = s@.skip(a as int);
        lemma_trim_end_take(t, b - a);
        assert(t.take(b - a) =~= s@.subrange(a as int, b as int));
    }
    s.substring_char(a, b).to_owned()
}

/// One trailing carriage return removed; applied to a line that a line
/// feed ended, so that a `"\r\n"` ending is stripped as a whole.
pub open spec fn spec_strip_cr(line: Seq<char>) -> Seq<char> {
    if line.len() > 0 && line.last() == '\r' {
        line.drop_last()
    } else {
        line
    }
}

/// The lines of `s`, as `str::lines` splits them: separated by a line
/// feed, each line that a line feed ended stripped of one trailing
/// carriage return, a final piece without a line feed kept as it stands,
/// and no empty last line after a final line feed.
pub open spec fn spec_lines(s: Seq<char>) -> Seq<Seq<char>>
    decreases s.len(),
{
    if s.len() == 0 {
        Seq::empty()
    } else {
        let i = spec_find(s, '\n', 0);
        if i < s.len() {
            seq![spec_strip_cr(s.take(i as int))] + spec_lines(s.skip(i + 1 as int))
        } else {
            seq![s]
        }
    }
}

fn strip_cr_str(s: &str) -> (r: String)
    ensures
        r@ == spec_strip_cr(s@),
{
    let n = s.unicode_len();
    if n > 0 && s.get_char(n - 1) == '\r' {
        proof {
            assert(s@.subrange(0, n - 1) =~= s@.drop_last());
        }
        s.substring_char(0, n - 1).to_owned()
    } else {
        s.to_owned()
    }
}

/// The lines of `s`, split as `str::lines` splits them.
pub fn lines_of(s: &str) -> (r: Vec<String>)
    ensures
        r@.len() == spec_lines(s@).len(),
        forall|k: int| 0 <= k < r@.len() ==> r@[k]@ == spec_lines(s@)[k],
    decreases s@.len(),
{
    let n = s.unicode_len();
    if n == 0 {
        return Vec::new();
    }
    let i = find_char_from(s, '\n', 0);
    proof {
        lemma_spec_find(s@, '\n', 0);
    }
    if i < n {
        let head = s.substring_char(0, i);
        let first = strip_cr_str(head);
        let rest = s.substring_char(i + 1, n);
        proof {
            assert(s@.subrange(0, i as int) =~= s@.take(i as int));
            assert(s@.subrange(i + 1, n as int) =~= s@.skip(i + 1));
        }
        let mut v: Vec<String> = Vec::new();
        v.push(first);
        let mut tail = lines_of(rest);
        let ghost tail_snap = tail@;
        v.append(&mut tail);
        proof {
            assert(forall|k: int|
                0 <= k < v@.len() ==> v@[k]@ == (seq![spec_strip_cr(s@.take(i as int))]
                    + spec_lines(s@.skip(i + 1)))[k]);
        }
        v
    } else {
        let mut v: Vec<String> = Vec::new();
        v.push(s.to_owned());
        v
    }
}

/// The pieces of `s` between occurrences of `c`, as `str::split` yields
/// them: always at least one piece, empty pieces kept.
pub open spec fn spec_split(s: Seq<char>, c: char) -> Seq<Seq<char>>
    decreases s.len(),
{
    let i = spec_find(s, c, 0);
    if i < s.len() {
        seq![s.take(i as int)] + spec_split(s.skip(i + 1 as int), c)
    } else {
        seq![s]
    }
}

/// The pieces of `s` between occurrences of `c`.
pub fn split_str(s: &str, c: char) -> (r: Vec<String>)
    ensures
        r@.len() == spec_split(s@, c).len(),
        forall|k: int| 0 <= k < r@.len() ==> r@[k]@ == spec_split(s@, c)[k],
    decreases s@.len(),
{
    let n = s.unicode_len();
    let i = find_char_from(s, c, 0);
    proof {
        lemma_spec_find(s@, c, 0);
    }
    if i < n {
        let head = s.substring_char(0, i);
        let rest = s.substring_char(i + 1, n);
        proof {
            assert(s@.subrange(0, i as int) =~= s@.take(i as int));
            assert(s@.subrange(i + 1, n as int) =~= s@.skip(i + 1));
        }
        let mut v: Vec<String> = Vec::new();
        v.push(head.to_owned());
        let mut tail = split_str(rest, c);
        v.append(&mut tail);
        proof {
            assert(forall|k: int|
                0 <= k < v@.len() ==> v@[k]@ == (seq![s@.take(i as int)] + spec_split(
                    s@.skip(i + 1),
                    c,
                ))[k]);
        }
        v
    } else {
        let mut v: Vec<String> = Vec::new();
        v.push(s.to_owned());
        v
    }
}

/// Whether `c` is an ASCII decimal digit.
pub open spec fn spec_is_digit(c: char) -> bool {
    48 <= c as u32 <= 57
}

/// The value of a digit string read as a decimal number.
pub open spec fn spec_digits_val(s: Seq<char>) -> int
    decreases s.len(),
{
    if s.len() == 0 {
        0
    } else {
        spec_digits_val(s.drop_last()) * 10 + (s.last() as u32 - 48)
    }
}

/// The value of `t` read as a plain decimal number, when it is one or more
/// decimal digits whose value fits in sixteen bits.
pub open spec fn spec_parse_digits_u16(t: Seq<char>) -> Option<u16> {
    if t.len() > 0 && (forall|j: int| 0 <= j < t.len() ==> spec_is_digit(t[j])) && spec_digits_val(
        t,
    ) <= u16::MAX {
        Some(spec_digits_val(t) as u16)
    } else {
        None
    }
}

/// What `str::parse::<u16>` accepts: an optional leading plus sign, then
/// one or more decimal digits whose value fits in sixteen bits.
pub open spec fn spec_parse_u16(s: Seq<char>) -> Option<u16> {
    spec_parse_digits_u16(
        if s.len() > 0 && s[0] == '+' {
            s.drop_first()
        } else {
            s
        },
    )
}

proof fn lemma_digits_val_nonneg(s: Seq<char>)
    requires
        forall|j: int| 0 <= j < s.len() ==> spec_is_digit(s[j]),
    ensures
        spec_digits_val(s) >= 0,
    decreases s.len(),
{
    if s.len() > 0 {
        lemma_digits_val_nonneg(s.drop_last());
    }
}

proof fn lemma_digits_val_mono(s: Seq<char>, k: int)
    requires
        0 <= k <= s.len(),
        forall|j: int| 0 <= j < s.len() ==> spec_is_digit(s[j]),
    ensures
        spec_digits_val(s) >= spec_digits_val(s.take(k)),
    decreases s.len() - k,
{
    if k == s.len() {
        assert(s.take(k) =~= s);
    } else {
        lemma_digits_val_mono(s, k + 1);
        let t = s.take(k + 1);
        assert(t.drop_last() =~= s.take(k));
        lemma_digits_val_nonneg(s.take(k));
    }
}

/// Read a decimal number that fits in sixteen bits, accepting exactly what
/// `str::parse::<u16>` accepts.
pub fn parse_u16(s: &str) -> (r: Option<u16>)
    ensures
        r == spec_parse_u16(s@),
{
    let n = s.unicode_len();
    let start: usize = if n > 0 && s.get_char(0) == '+' {
        1
    } else {
        0
    };
    let ghost t = if s@.len() > 0 && s@[0] == '+' {
        s@.drop_first()
    } else {
        s@
    };
    proof {
        assert(t =~= s@.subrange(start as int, n as int));
        assert(spec_parse_u16(s@) == spec_parse_digits_u16(t));
    }
    if start == n {
        return None;
    }
    let mut acc: u32 = 0;
    let mut i: usize = start;
    while i < n
        invariant
            start <= i <= n,
            n == s@.len(),
            start <= 1,
            t == s@.subrange(start as int, n as int),
            spec_parse_u16(s@) == spec_parse_digits_u16(t),
            forall|j: int| 0 <= j < i - start ==> spec_is_digit(t[j]),
            acc as int == spec_digits_val(t.take(i - start)),
            acc <= 0xffff,
        decreases n - i,
    {
        let c = s.get_char(i);
        let u = c as u32;
        if u < 48 || u > 57 {
            proof {
                assert(!spec_is_digit(t[i - start]));
            }
            return None;
        }
        proof {
            assert(t.take(i + 1 - start).drop_last() =~= t.take(i - start));
        }
        acc = acc * 10 + (u - 48);
        i += 1;
        if acc > 0xffff {
            proof {
                if forall|j: int| 0 <= j < t.len() ==> spec_is_digit(t[j]) {
                    lemma_digits_val_mono(t, i - start);
                }
            }
            return None;
        }
    }
    proof {
        assert(t.take(n - start) =~= t);
    }
    Some(acc as u16)
}

} // verus!
