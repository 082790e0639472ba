//! Text as sequences of characters.
//!
//! The rest of the library reasons about strings through the functions here:
//! each one is specified over `Seq<char>`, and the executable side works on
//! slices of characters rather than on byte offsets.

use vstd::prelude::*;
use vstd::slice::slice_subrange;
use vstd::string::*;

verus! {

/// `String::push` appends the character to the end of the string.
pub assume_specification[ String::push ](s: &mut String, c: char)
    ensures
        final(s)@ == old(s)@.push(c),
;

/// Whether `c` is an ASCII decimal digit.
pub open spec fn is_digit(c: char) -> bool {
    '0' <= c <= '9'
}

/// Whether `c` is an ASCII letter.
pub open spec fn is_letter(c: char) -> bool {
    'a' <= c <= 'z' || 'A' <= c <= 'Z'
}

/// Whether `c` is an ASCII hexadecimal digit, in either case.
pub open spec fn is_hex_digit(c: char) -> bool {
    is_digit(c) || 'a' <= c <= 'f' || 'A' <= c <= 'F'
}

/// Whether `c` has the Unicode property `White_Space`.
pub open spec fn is_space(c: char) -> bool {
    ||| '\u{9}' <= c <= '\u{d}'
    ||| c == ' '
    ||| c == '\u{85}'
    ||| c == '\u{a0}'
    ||| c == '\u{1680}'
    ||| '\u{2000}' <= c <= '\u{200a}'
    ||| c == '\u{2028}'
    ||| c == '\u{2029}'
    ||| c == '\u{202f}'
    ||| c == '\u{205f}'
    ||| c == '\u{3000}'
}

/// `c` with an ASCII capital letter replaced by its small letter.
pub open spec fn lower_char(c: char) -> char {
    if 'A' <= c <= 'Z' {
        (c as u8 + 32) as char
    } else {
        c
    }
}

/// `s` with every ASCII capital letter replaced by its small letter.
pub open spec fn lower(s: Seq<char>) -> Seq<char> {
    s.map_values(|c: char| lower_char(c))
}

/// Whether every character of `s` is an ASCII decimal digit.
pub open spec fn all_digits(s: Seq<char>) -> bool {
    forall|i: int| 0 <= i < s.len() ==> is_digit(#[trigger] s[i])
}

/// Whether every character of `s` is an ASCII hexadecimal digit.
pub open spec fn all_hex_digits(s: Seq<char>) -> bool {
    forall|i: int| 0 <= i < s.len() ==> is_hex_digit(#[trigger] s[i])
}

/// The decimal digit that stands for `d`, for `d` below ten.
pub open spec fn digit_char(d: nat) -> char {
    ('0' as u8 + d) as char
}

/// `n` in decimal, without leading zeros.
pub open spec fn decimal(n: nat) -> Seq<char>
    decreases n,
{
    if n < 10 {
        seq![digit_char(n)]
    } else {
        decimal(n / 10).push(digit_char(n % 10))
    }
}

/// The number that the digits `s` stand for, most significant first.
pub open spec fn number(s: Seq<char>) -> nat
    decreases s.len(),
{
    if s.len() == 0 {
        0
    } else {
        number(s.drop_last()) * 10 + (s.last() as u8 - '0' as u8) as nat
    }
}

/// `s` without its leading white space.
pub open spec fn trim_start(s: Seq<char>) -> Seq<char>
    decreases s.len(),
{
    if s.len() > 0 && is_space(s.first()) {
        trim_start(s.drop_first())
    } else {
        s
    }
}

/// `s` without its trailing white space.
pub open spec fn trim_end(s: Seq<char>) -> Seq<char>
    decreases s.len(),
{
    if s.len() > 0 && is_space(s.last()) {
        trim_end(s.drop_last())
    } else {
        s
    }
}

/// `s` without leading and trailing white space.
pub open spec fn trim(s: Seq<char>) -> Seq<char> {
    trim_end(trim_start(s))
}

/// The pieces of `s` between occurrences of `sep`: one more than there are
/// occurrences, so the empty text has one empty piece.
pub open spec fn split(s: Seq<char>, sep: char) -> Seq<Seq<char>>
    decreases s.len(),
{
    if s.len() == 0 {
        seq![Seq::empty()]
    } else {
        let before = split(s.drop_last(), sep);
        if s.last() == sep {
            before.push(Seq::empty())
        } else {
            before.drop_last().push(before.last().push(s.last()))
        }
    }
}

/// Whether `pat` stands in `s` at position `i`.
pub open spec fn occurs_at(s: Seq<char>, pat: Seq<char>, i: int) -> bool {
    0 <= i && i + pat.len() <= s.len() && s.subrange(i, i + pat.len()) == pat
}

/// The first position at or after `from` at which `pat` stands in `s`.
pub open spec fn find_from(s: Seq<char>, pat: Seq<char>, from: int) -> Option<int>
    decreases s.len() - from,
{
    if occurs_at(s, pat, from) {
        Some(from)
    } else if from + pat.len() < s.len() {
        find_from(s, pat, from + 1)
    } else {
        None
    }
}

/// The first position at which `pat` stands in `s`.
pub open spec fn find(s: Seq<char>, pat: Seq<char>) -> Option<int> {
    find_from(s, pat, 0)
}

/// The last position at which `c` stands in `s`.
pub open spec fn find_last(s: Seq<char>, c: char) -> Option<int>
    decreases s.len(),
{
    if s.len() == 0 {
        None
    } else if s.last() == c {
        Some(s.len() - 1)
    } else {
        find_last(s.drop_last(), c)
    }
}

/// Whether `s` begins with `prefix`.
pub open spec fn starts_with(s: Seq<char>, prefix: Seq<char>) -> bool {
    prefix.len() <= s.len() && s.take(prefix.len() as int) == prefix
}

/// How many digits `s` begins with.
pub open spec fn leading_digits(s: Seq<char>) -> nat
    decreases s.len(),
{
    if s.len() > 0 && is_digit(s.first()) {
        1 + leading_digits(s.drop_first())
    } else {
        0
    }
}

/// The number that `s` stands for as an unsigned 64-bit integer: digits,
/// optionally behind a plus sign.
pub open spec fn unsigned(s: Seq<char>) -> Option<u64> {
    let digits = if s.len() > 0 && s[0] == '+' {
        s.skip(1)
    } else {
        s
    };
    if digits.len() > 0 && all_digits(digits) && number(digits) <= u64::MAX {
        Some(number(digits) as u64)
    } else {
        None
    }
}

/// `parts` one after another, with `sep` between each two of them.
pub open spec fn join(parts: Seq<Seq<char>>, sep: Seq<char>) -> Seq<char>
    decreases parts.len(),
{
    if parts.len() == 0 {
        Seq::empty()
    } else if parts.len() == 1 {
        parts[0]
    } else {
        join(parts.drop_last(), sep) + sep + parts.last()
    }
}

/// The characters of each of `v`.
pub open spec fn views(v: Seq<String>) -> Seq<Seq<char>> {
    v.map_values(|s: String| s@)
}

/// The characters of each of `v`.
pub open spec fn pieces(v: Seq<Vec<char>>) -> Seq<Seq<char>> {
    v.map_values(|s: Vec<char>| s@)
}

/// The characters of an optional text.
pub open spec fn opt_view(s: Option<String>) -> Option<Seq<char>> {
    match s {
        Some(t) => Some(t@),
        None => None,
    }
}

/// The characters of `s`.
pub fn chars(s: &str) -> (v: Vec<char>)
    ensures
        v@ == s@,
{
    let mut v: Vec<char> = Vec::new();
    for c in it: s.chars()
        invariant
            v@ == it.seq().take(it.index() as int),
            it.seq() == s@,
    {
        proof {
            assert(it.seq().take(it.index() + 1) =~= it.seq().take(it.index() as int).push(c));
        }
        v.push(c);
    }
    proof {
        assert(s@.take(s@.len() as int) =~= s@);
    }
    v
}

/// The string made of the characters `cs`.
pub fn text(cs: &[char]) -> (s: String)
    ensures
        s@ == cs@,
{
    let mut s: String = String::new();
    let mut i: usize = 0;
    while i < cs.len()
        invariant
            i <= cs.len(),
            s@ == cs@.take(i as int),
        decreases cs.len() - i,
    {
        s.push(cs[i]);
        i = i + 1;
        proof {
            assert(cs@.take(i as int) =~= cs@.take(i - 1).push(cs@[i - 1]));
        }
    }
    proof {
        assert(cs@.take(cs@.len() as int) =~= cs@);
    }
    s
}

/// The length of `s` in bytes, as UTF-8.
pub fn byte_len(s: &str) -> (n: usize)
    ensures
        n == vstd::utf8::encode_utf8(s@).len(),
{
    s.as_bytes().len()
}

/// Whether `a` and `b` hold the same characters.
pub fn same(a: &str, b: &str) -> (r: bool)
    ensures
        r == (a@ == b@),
{
    a.to_owned() == b.to_owned()
}

/// Whether the slices `a` and `b` hold the same characters.
pub fn same_chars(a: &[char], b: &[char]) -> (r: bool)
    ensures
        r == (a@ == b@),
{
    if a.len() != b.len() {
        return false;
    }
    let mut i: usize = 0;
    while i < a.len()
        invariant
            i <= a.len(),
            a.len() == b.len(),
            a@.take(i as int) == b@.take(i as int),
        decreases a.len() - i,
    {
        if a[i] != b[i] {
            return false;
        }
        i = i + 1;
        proof {
            assert(a@.take(i as int) =~= a@.take(i - 1).push(a@[i - 1]));
            assert(b@.take(i as int) =~= b@.take(i - 1).push(b@[i - 1]));
        }
    }
    proof {
        assert(a@.take(i as int) =~= a@);
        assert(b@.take(i as int) =~= b@);
    }
    true
}

/// Executable form of [`is_digit`].
pub fn digit(c: char) -> (r: bool)
    ensures
        r == is_digit(c),
{
    '0' <= c && c <= '9'
}

/// Executable form of [`is_letter`].
pub fn letter(c: char) -> (r: bool)
    ensures
        r == is_letter(c),
{
    ('a' <= c && c <= 'z') || ('A' <= c && c <= 'Z')
}

/// Executable form of [`is_hex_digit`].
pub fn hex_digit(c: char) -> (r: bool)
    ensures
        r == is_hex_digit(c),
{
    digit(c) || ('a' <= c && c <= 'f') || ('A' <= c && c <= 'F')
}

/// Executable form of [`is_space`].
pub fn space(c: char) -> (r: bool)
    ensures
        r == is_space(c),
{
    ('\u{9}' <= c && c <= '\u{d}') || c == ' ' || c == '\u{85}' || c == '\u{a0}' || c == '\u{1680}'
        || ('\u{2000}' <= c && c <= '\u{200a}') || c == '\u{2028}' || c == '\u{2029}' || c
        == '\u{202f}' || c == '\u{205f}' || c == '\u{3000}'
}

/// Executable form of [`lower_char`].
pub fn small(c: char) -> (r: char)
    ensures
        r == lower_char(c),
{
    if 'A' <= c && c <= 'Z' {
        (c as u8 + 32) as char
    } else {
        c
    }
}

/// Executable form of [`lower`].
pub fn lowercase(cs: &[char]) -> (v: Vec<char>)
    ensures
        v@ == lower(cs@),
{
    let mut v: Vec<char> = Vec::new();
    let mut i: usize = 0;
    while i < cs.len()
        invariant
            i <= cs.len(),
            v@ == lower(cs@.take(i as int)),
        decreases cs.len() - i,
    {
        v.push(small(cs[i]));
        i = i + 1;
        proof {
            assert(lower(cs@.take(i as int)) =~= lower(cs@.take(i - 1)).push(
                lower_char(cs@[i - 1]),
            ));
        }
    }
    proof {
        assert(cs@.take(cs@.len() as int) =~= cs@);
    }
    v
}

/// Whether `a` and `b` are equal up to the case of ASCII letters.
pub fn same_ignoring_case(a: &[char], b: &[char]) -> (r: bool)
    ensures
        r == (lower(a@) == lower(b@)),
{
    let x: Vec<char> = lowercase(a);
    let y: Vec<char> = lowercase(b);
    same_chars(x.as_slice(), y.as_slice())
}

/// `n` in decimal.
pub fn decimal_text(n: u128) -> (s: String)
    ensures
        s@ == decimal(n as nat),
    decreases n,
{
    let d: u8 = (n % 10) as u8;
    let c: char = (48u8 + d) as char;
    let mut s: String = if n < 10 {
        String::new()
    } else {
        decimal_text(n / 10)
    };
    s.push(c);
    s
}

/// The number that the digits `cs` stand for, unless it exceeds `u64::MAX`.
pub fn digits_value(cs: &[char]) -> (r: Option<u64>)
    requires
        all_digits(cs@),
    ensures
        match r {
            Some(v) => v == number(cs@),
            None => number(cs@) > u64::MAX,
        },
{
    let mut value: u64 = 0;
    let mut i: usize = 0;
    while i < cs.len()
        invariant
            i <= cs.len(),
            all_digits(cs@),
            value == number(cs@.take(i as int)),
        decreases cs.len() - i,
    {
        let d: u64 = cs[i] as u64 - '0' as u64;
        proof {
            assert(is_digit(cs@[i as int]));
            assert(cs@.take(i + 1).drop_last() =~= cs@.take(i as int));
            assert(cs@.take(i + 1).last() == cs@[i as int]);
        }
        if value > (u64::MAX - d) / 10 {
            proof {
                lemma_number_grows(cs@, i + 1);
            }
            return None;
        }
        value = value * 10 + d;
        i = i + 1;
    }
    proof {
        assert(cs@.take(cs@.len() as int) =~= cs@);
    }
    Some(value)
}

/// Whether every character of `cs` is a digit.
pub fn only_digits(cs: &[char]) -> (r: bool)
    ensures
        r == all_digits(cs@),
{
    let mut i: usize = 0;
    while i < cs.len()
        invariant
            i <= cs@.len(),
            forall|j: int| 0 <= j < i ==> is_digit(#[trigger] cs@[j]),
        decreases cs@.len() - i,
    {
        if !digit(cs[i]) {
            return false;
        }
        i = i + 1;
    }
    true
}

/// Executable form of [`unsigned`].
pub fn parse_unsigned(s: &str) -> (r: Option<u64>)
    ensures
        r == unsigned(s@),
{
    let cs: Vec<char> = chars(s);
    let from: usize = if cs.len() > 0 && cs[0] == '+' {
        1
    } else {
        0
    };
    let digits = slice_subrange(cs.as_slice(), from, cs.len());
    proof {
        assert(from == 1 ==> digits@ =~= s@.skip(1));
        assert(from == 0 ==> digits@ =~= s@);
    }
    if digits.len() > 0 && only_digits(digits) {
        digits_value(digits)
    } else {
        None
    }
}

/// Executable form of [`leading_digits`], and the fact that the characters
/// counted are digits.
pub fn count_digits(cs: &[char]) -> (n: usize)
    ensures
        n == leading_digits(cs@),
        n <= cs@.len(),
        all_digits(cs@.take(n as int)),
{
    let mut n: usize = 0;
    proof {
        assert(cs@.skip(0) =~= cs@);
    }
    while n < cs.len() && digit(cs[n])
        invariant
            n <= cs@.len(),
            leading_digits(cs@) == n + leading_digits(cs@.skip(n as int)),
            forall|j: int| 0 <= j < n ==> is_digit(#[trigger] cs@[j]),
        decreases cs@.len() - n,
    {
        proof {
            assert(cs@.skip(n as int).drop_first() =~= cs@.skip(n + 1));
        }
        n = n + 1;
    }
    n
}

/// What follows `prefix` in `cs`, where `cs` begins with it.
pub fn strip_prefix<'a>(cs: &'a [char], prefix: &[char]) -> (r: Option<&'a [char]>)
    ensures
        match r {
            Some(rest) => starts_with(cs@, prefix@) && rest@ == cs@.skip(prefix@.len() as int),
            None => !starts_with(cs@, prefix@),
        },
{
    let end: usize = cs.len();
    if prefix.len() > end {
        return None;
    }
    let head = slice_subrange(cs, 0, prefix.len());
    proof {
        assert(head@ =~= cs@.take(prefix@.len() as int));
    }
    if !same_chars(head, prefix) {
        return None;
    }
    let rest = slice_subrange(cs, prefix.len(), end);
    proof {
        assert(rest@ =~= cs@.skip(prefix@.len() as int));
    }
    Some(rest)
}

/// Whether every character of `cs` is a hexadecimal digit.
pub fn only_hex_digits(cs: &[char]) -> (r: bool)
    ensures
        r == all_hex_digits(cs@),
{
    let mut i: usize = 0;
    while i < cs.len()
        invariant
            i <= cs@.len(),
            forall|j: int| 0 <= j < i ==> is_hex_digit(#[trigger] cs@[j]),
        decreases cs@.len() - i,
    {
        if !hex_digit(cs[i]) {
            return false;
        }
        i = i + 1;
    }
    true
}

/// A number is at least as large as the one its leading digits stand for.
proof fn lemma_number_grows(s: Seq<char>, n: int)
    requires
        all_digits(s),
        0 <= n <= s.len(),
    ensures
        number(s.take(n)) <= number(s),
    decreases s.len() - n,
{
    if n < s.len() {
        lemma_number_grows(s, n + 1);
        assert(s.take(n + 1).drop_last() =~= s.take(n));
        assert(is_digit(s[n]));
    } else {
        assert(s.take(n) =~= s);
    }
}

/// Executable form of [`trim`].
pub fn trimmed(cs: &[char]) -> (r: &[char])
    ensures
        r@ == trim(cs@),
{
    let mut a: usize = 0;
    proof {
        assert(cs@.skip(0) =~= cs@);
    }
    while a < cs.len() && space(cs[a])
        invariant
            a <= cs.len(),
            trim_start(cs@) == trim_start(cs@.skip(a as int)),
        decreases cs.len() - a,
    {
        proof {
            assert(cs@.skip(a as int).drop_first() =~= cs@.skip(a + 1));
        }
        a = a + 1;
    }
    let mut b: usize = cs.len();
    let ghost rest = cs@.skip(a as int);
    proof {
        assert(trim_start(cs@) == rest);
        assert(rest =~= cs@.subrange(a as int, b as int));
    }
    while a < b && space(cs[b - 1])
        invariant
            a <= b <= cs.len(),
            trim_end(rest) == trim_end(cs@.subrange(a as int, b as int)),
        decreases b,
    {
        proof {
            assert(cs@.subrange(a as int, b as int).drop_last() =~= cs@.subrange(
                a as int,
                b - 1,
            ));
        }
        b = b - 1;
    }
    slice_subrange(cs, a, b)
}

/// Executable form of [`split`].
pub fn split_at_each(cs: &[char], sep: char) -> (v: Vec<Vec<char>>)
    ensures
        pieces(v@) == split(cs@, sep),
        v@.len() > 0,
{
    let mut v: Vec<Vec<char>> = Vec::new();
    let mut cur: Vec<char> = Vec::new();
    let mut i: usize = 0;
    proof {
        assert(pieces(v@).push(cur@) =~= split(cs@.take(0), sep));
    }
    while i < cs.len()
        invariant
            i <= cs.len(),
            pieces(v@).push(cur@) == split(cs@.take(i as int), sep),
        decreases cs.len() - i,
    {
        let ghost before = pieces(v@);
        let ghost piece = cur@;
        proof {
            assert(cs@.take(i + 1).drop_last() =~= cs@.take(i as int));
            assert(before.push(piece).drop_last() =~= before);
        }
        if cs[i] == sep {
            v.push(cur);
            cur = Vec::new();
            proof {
                assert(pieces(v@) =~= before.push(piece));
            }
        } else {
            cur.push(cs[i]);
        }
        i = i + 1;
    }
    let ghost before = pieces(v@);
    let ghost piece = cur@;
    v.push(cur);
    proof {
        assert(pieces(v@) =~= before.push(piece));
        assert(cs@.take(cs@.len() as int) =~= cs@);
    }
    v
}

/// A text has at least one piece.
pub proof fn lemma_split_nonempty(s: Seq<char>, sep: char)
    ensures
        split(s, sep).len() > 0,
    decreases s.len(),
{
    if s.len() > 0 {
        lemma_split_nonempty(s.drop_last(), sep);
    }
}

/// Splitting at a character that is no letter commutes with [`lower`].
pub proof fn lemma_split_lower(s: Seq<char>, sep: char)
    requires
        !is_letter(sep),
    ensures
        split(lower(s), sep) == split(s, sep).map_values(|t: Seq<char>| lower(t)),
    decreases s.len(),
{
    let f = |t: Seq<char>| lower(t);
    if s.len() == 0 {
        assert(lower(s) =~= s);
        assert(split(s, sep).map_values(f) =~= split(s, sep)) by {
            assert(lower(Seq::<char>::empty()) =~= Seq::<char>::empty());
        }
    } else {
        let init = s.drop_last();
        lemma_split_lower(init, sep);
        lemma_split_nonempty(init, sep);
        assert(lower(s).drop_last() =~= lower(init));
        assert(lower(s).last() == lower_char(s.last()));
        let before = split(init, sep);
        let small = before.map_values(f);
        if s.last() == sep {
            assert(lower(Seq::<char>::empty()) =~= Seq::<char>::empty());
            assert(before.push(Seq::empty()).map_values(f) =~= small.push(Seq::empty()));
        } else {
            assert(lower_char(s.last()) != sep);
            let tail = before.last().push(s.last());
            assert(lower(tail) =~= lower(before.last()).push(lower_char(s.last())));
            assert(before.drop_last().push(tail).map_values(f) =~= small.drop_last().push(
                lower(tail),
            ));
        }
    }
}

/// The pieces of two texts with a separator between them are the pieces of
/// the one followed by those of the other.
pub proof fn lemma_split_concat(a: Seq<char>, b: Seq<char>, sep: char)
    ensures
        split(a.push(sep) + b, sep) == split(a, sep) + split(b, sep),
    decreases b.len(),
{
    let s = a.push(sep) + b;
    if b.len() == 0 {
        assert(s =~= a.push(sep));
        assert(s.drop_last() =~= a);
        assert(split(a, sep).push(Seq::empty()) =~= split(a, sep) + split(b, sep));
    } else {
        let init = b.drop_last();
        lemma_split_concat(a, init, sep);
        lemma_split_nonempty(init, sep);
        assert(s.drop_last() =~= a.push(sep) + init);
        assert(s.last() == b.last());
        let x = split(a, sep);
        let y = split(init, sep);
        if b.last() == sep {
            assert((x + y).push(Seq::empty()) =~= x + y.push(Seq::empty()));
        } else {
            assert((x + y).drop_last() =~= x + y.drop_last());
            assert((x + y).last() == y.last());
            assert((x + y.drop_last()).push(y.last().push(b.last())) =~= x + y.drop_last().push(
                y.last().push(b.last()),
            ));
        }
    }
}

/// A text is its pieces joined again.
pub proof fn lemma_join_split(s: Seq<char>, sep: char)
    ensures
        join(split(s, sep), seq![sep]) == s,
    decreases s.len(),
{
    if s.len() > 0 {
        let init = s.drop_last();
        let before = split(init, sep);
        lemma_join_split(init, sep);
        lemma_split_nonempty(init, sep);
        if s.last() == sep {
            let parts = before.push(Seq::empty());
            assert(parts.drop_last() =~= before);
            assert(init + seq![sep] + Seq::empty() =~= s);
        } else {
            let parts = before.drop_last().push(before.last().push(s.last()));
            assert(parts.drop_last() =~= before.drop_last());
            if before.len() == 1 {
                assert(before.last() == init);
                assert(parts[0] =~= s);
            } else {
                let head = join(before.drop_last(), seq![sep]) + seq![sep];
                assert(head + before.last() == init);
                assert(head + before.last().push(s.last()) =~= (head + before.last()).push(
                    s.last(),
                ));
                assert(init.push(s.last()) =~= s);
            }
        }
    }
}

/// The piece of a text without separators is the text itself.
pub proof fn lemma_split_single(s: Seq<char>, sep: char)
    requires
        !s.contains(sep),
    ensures
        split(s, sep) == seq![s],
    decreases s.len(),
{
    if s.len() > 0 {
        let init = s.drop_last();
        assert(!init.contains(sep)) by {
            if init.contains(sep) {
                let i = choose|i: int| 0 <= i < init.len() && init[i] == sep;
                assert(s[i] == sep);
            }
        }
        lemma_split_single(init, sep);
        assert(s[s.len() - 1] == s.last());
        assert(init.push(s.last()) =~= s);
        assert(split(s, sep) =~= seq![s]);
    } else {
        assert(s =~= Seq::empty());
    }
}

/// A copy of an optional text.
pub fn copied_option(v: &Option<String>) -> (r: Option<String>)
    ensures
        r == *v,
{
    match v {
        Some(t) => Some(t.clone()),
        None => None,
    }
}

/// Executable form of [`find`].
pub fn position(cs: &[char], pat: &[char]) -> (r: Option<usize>)
    ensures
        match r {
            Some(i) => find(cs@, pat@) == Some(i as int) && occurs_at(cs@, pat@, i as int),
            None => find(cs@, pat@) is None,
        },
{
    if pat.len() > cs.len() {
        return None;
    }
    let last: usize = cs.len() - pat.len();
    let mut i: usize = 0;
    while i <= last
        invariant
            i <= last + 1,
            last == cs.len() - pat.len(),
            pat.len() <= cs.len(),
            find(cs@, pat@) == find_from(cs@, pat@, i as int),
        decreases last + 1 - i,
    {
        if same_chars(slice_subrange(cs, i, i + pat.len()), pat) {
            return Some(i);
        }
        if i == last {
            return None;
        }
        i = i + 1;
    }
    None
}

/// Executable form of [`find_last`].
pub fn position_last(cs: &[char], c: char) -> (r: Option<usize>)
    ensures
        match r {
            Some(i) => find_last(cs@, c) == Some(i as int) && i < cs@.len(),
            None => find_last(cs@, c) is None,
        },
{
    let mut n: usize = cs.len();
    proof {
        assert(cs@.take(n as int) =~= cs@);
    }
    while n > 0
        invariant
            n <= cs.len(),
            find_last(cs@, c) == find_last(cs@.take(n as int), c),
        decreases n,
    {
        if cs[n - 1] == c {
            return Some(n - 1);
        }
        proof {
            assert(cs@.take(n as int).drop_last() =~= cs@.take(n - 1));
        }
        n = n - 1;
    }
    None
}

/// Whether `c` is among `cs`.
pub fn contains(cs: &[char], c: char) -> (r: bool)
    ensures
        r == cs@.contains(c),
{
    let mut i: usize = 0;
    while i < cs.len()
        invariant
            i <= cs.len(),
            forall|j: int| 0 <= j < i ==> cs@[j] != c,
        decreases cs.len() - i,
    {
        if cs[i] == c {
            return true;
        }
        i = i + 1;
    }
    false
}

/// Executable form of [`join`].
pub fn joined(parts: &[String], sep: &str) -> (s: String)
    ensures
        s@ == join(views(parts@), sep@),
{
    let mut s: String = String::new();
    let mut i: usize = 0;
    while i < parts.len()
        invariant
            i <= parts.len(),
            s@ == join(views(parts@).take(i as int), sep@),
        decreases parts.len() - i,
    {
        proof {
            let all = views(parts@);
            assert(all.take(i + 1).drop_last() =~= all.take(i as int));
            assert(all.take(i + 1).last() == parts@[i as int]@);
        }
        if i > 0 {
            s.append(sep);
        }
        s.append(parts[i].as_str());
        proof {
            if i == 0 {
                assert(s@ =~= parts@[0]@);
            }
        }
        i = i + 1;
    }
    proof {
        assert(views(parts@).take(parts@.len() as int) =~= views(parts@));
    }
    s
}

/// A copy of `v`.
pub fn copied(v: &Vec<String>) -> (r: Vec<String>)
    ensures
        views(r@) == views(v@),
{
    let mut r: Vec<String> = Vec::new();
    let mut i: usize = 0;
    while i < v.len()
        invariant
            i <= v.len(),
            views(r@) == views(v@).take(i as int),
        decreases v.len() - i,
    {
        let ghost before = views(r@);
        r.push(v[i].clone());
        i = i + 1;
        proof {
            assert(views(r@) =~= before.push(v@[i - 1]@));
            assert(views(v@).take(i as int) =~= before.push(v@[i - 1]@));
        }
    }
    proof {
        assert(views(v@).take(v@.len() as int) =~= views(v@));
    }
    r
}

/// A number in decimal is digits only, and reads back as the number.
pub proof fn lemma_decimal(n: nat)
    ensures
        decimal(n).len() > 0,
        all_digits(decimal(n)),
        number(decimal(n)) == n,
    decreases n,
{
    assert(decimal(n).last() == digit_char(n % 10));
    assert((digit_char(n % 10) as u8 - '0' as u8) as nat == n % 10);
    if n < 10 {
        assert(decimal(n).drop_last() =~= Seq::<char>::empty());
        assert(number(Seq::<char>::empty()) == 0);
    } else {
        lemma_decimal(n / 10);
        assert(decimal(n).drop_last() =~= decimal(n / 10));
    }
}

/// Digits in front of something that is no digit are the leading digits.
pub proof fn lemma_leading_digits(digits: Seq<char>, rest: Seq<char>)
    requires
        all_digits(digits),
        rest.len() == 0 || !is_digit(rest[0]),
    ensures
        leading_digits(digits + rest) == digits.len(),
    decreases digits.len(),
{
    let s = digits + rest;
    if digits.len() == 0 {
        assert(s =~= rest);
    } else {
        assert(is_digit(digits[0]));
        assert(s.drop_first() =~= digits.drop_first() + rest);
        lemma_leading_digits(digits.drop_first(), rest);
    }
}

/// White space is what Unicode lists as such, code point by code point.
pub proof fn law_space_is_listed(c: char)
    ensures
        is_space(c) == seq![
            9int, 10, 11, 12, 13, 32, 0x85, 0xa0, 0x1680, 0x2000, 0x2001, 0x2002, 0x2003, 0x2004,
            0x2005, 0x2006, 0x2007, 0x2008, 0x2009, 0x200a, 0x2028, 0x2029, 0x202f, 0x205f, 0x3000,
        ].contains(c as int),
{
    let listed = seq![
        9int, 10, 11, 12, 13, 32, 0x85, 0xa0, 0x1680, 0x2000, 0x2001, 0x2002, 0x2003, 0x2004,
        0x2005, 0x2006, 0x2007, 0x2008, 0x2009, 0x200a, 0x2028, 0x2029, 0x202f, 0x205f, 0x3000,
    ];
    let x = c as int;
    if is_space(c) {
        let i = if x <= 13 {
            x - 9
        } else if x == 32 {
            5
        } else if x == 0x85 {
            6
        } else if x == 0xa0 {
            7
        } else if x == 0x1680 {
            8
        } else if x <= 0x200a {
            9 + x - 0x2000
        } else if x == 0x2028 {
            20
        } else if x == 0x2029 {
            21
        } else if x == 0x202f {
            22
        } else if x == 0x205f {
            23
        } else {
            24
        };
        assert(listed[i] == x);
    }
}

/// Two texts agree up to case exactly when they are equally long and, place by
/// place, hold the same character or the two cases of one letter.
pub proof fn law_case_is_all_that_lower_forgets(x: Seq<char>, y: Seq<char>)
    ensures
        (lower(x) == lower(y)) == (x.len() == y.len() && forall|i: int|
            0 <= i < x.len() ==> #[trigger] x[i] == y[i] || ('A' <= x[i] <= 'Z' && y[i] as int
                == x[i] as int + 32) || ('A' <= y[i] <= 'Z' && x[i] as int == y[i] as int + 32)),
        lower(x).len() == x.len(),
        lower(lower(x)) == lower(x),
{
    let a = lower(x);
    let b = lower(y);
    assert(a.len() == x.len() && b.len() == y.len());
    assert(lower(a) =~= a) by {
        assert forall|i: int| 0 <= i < a.len() implies lower(a)[i] == a[i] by {
            assert(a[i] == lower_char(x[i]));
        }
    }
    if a == b {
        assert forall|i: int| 0 <= i < x.len() implies #[trigger] x[i] == y[i] || ('A' <= x[i]
            <= 'Z' && y[i] as int == x[i] as int + 32) || ('A' <= y[i] <= 'Z' && x[i] as int
            == y[i] as int + 32) by {
            assert(a[i] == lower_char(x[i]) && b[i] == lower_char(y[i]));
        }
    }
    if x.len() == y.len() && forall|i: int|
        0 <= i < x.len() ==> #[trigger] x[i] == y[i] || ('A' <= x[i] <= 'Z' && y[i] as int
            == x[i] as int + 32) || ('A' <= y[i] <= 'Z' && x[i] as int == y[i] as int + 32) {
        assert forall|i: int| 0 <= i < x.len() implies a[i] == b[i] by {
            assert(x[i] == x[i]);
        }
        assert(a =~= b);
    }
}

/// A pattern stands at a place exactly where the text is something of that
/// length, the pattern, and something else.
pub proof fn law_occurrence_splits_the_text(s: Seq<char>, pat: Seq<char>, i: int)
    ensures
        occurs_at(s, pat, i) == exists|a: Seq<char>, b: Seq<char>| #[trigger]
            (a + pat + b) == s && a.len() == i,
{
    if occurs_at(s, pat, i) {
        let a = s.take(i);
        let b = s.skip(i + pat.len());
        assert(a + pat + b =~= s);
    }
    if exists|a: Seq<char>, b: Seq<char>| #[trigger] (a + pat + b) == s && a.len() == i {
        let (a, b) = choose|a: Seq<char>, b: Seq<char>| #[trigger]
            (a + pat + b) == s && a.len() == i;
        assert(s.subrange(i, i + pat.len()) =~= pat);
    }
}

proof fn lemma_find_from(s: Seq<char>, pat: Seq<char>, from: int)
    requires
        0 <= from,
    ensures
        match find_from(s, pat, from) {
            Some(i) => from <= i && occurs_at(s, pat, i) && forall|j: int|
                from <= j < i ==> !#[trigger] occurs_at(s, pat, j),
            None => forall|j: int| from <= j ==> !#[trigger] occurs_at(s, pat, j),
        },
    decreases s.len() - from,
{
    if !occurs_at(s, pat, from) && from + pat.len() < s.len() {
        lemma_find_from(s, pat, from + 1);
    }
}

/// The place that is found is the first at which the pattern stands, and none
/// is found exactly where it stands nowhere.
pub proof fn law_first_occurrence_is_found(s: Seq<char>, pat: Seq<char>)
    ensures
        match find(s, pat) {
            Some(i) => occurs_at(s, pat, i) && forall|j: int|
                0 <= j < i ==> !#[trigger] occurs_at(s, pat, j),
            None => forall|j: int| !#[trigger] occurs_at(s, pat, j),
        },
{
    lemma_find_from(s, pat, 0);
}

/// The last place of a character is where it stands and does not stand behind
/// it, and there is none exactly where it does not occur.
pub proof fn law_last_place_is_found(s: Seq<char>, c: char)
    ensures
        match find_last(s, c) {
            Some(i) => 0 <= i < s.len() && s[i] == c && !s.skip(i + 1).contains(c),
            None => !s.contains(c),
        },
    decreases s.len(),
{
    if s.len() > 0 {
        if s.last() == c {
            assert(s.skip(s.len() as int) =~= Seq::<char>::empty());
        } else {
            let init = s.drop_last();
            law_last_place_is_found(init, c);
            match find_last(init, c) {
                Some(i) => {
                    let rest = s.skip(i + 1);
                    if rest.contains(c) {
                        let k = choose|k: int| 0 <= k < rest.len() && rest[k] == c;
                        assert(rest[k] == s[i + 1 + k]);
                        assert(init.skip(i + 1)[k] == c);
                    }
                },
                None => {
                    if s.contains(c) {
                        let k = choose|k: int| 0 <= k < s.len() && s[k] == c;
                        assert(init[k] == c);
                    }
                },
            }
        }
    }
}

/// A text begins with a prefix exactly where it is the prefix and something
/// behind it.
pub proof fn law_prefix_and_rest(s: Seq<char>, prefix: Seq<char>)
    ensures
        starts_with(s, prefix) == exists|rest: Seq<char>| #[trigger] (prefix + rest) == s,
{
    if starts_with(s, prefix) {
        assert(prefix + s.skip(prefix.len() as int) =~= s);
    }
    if exists|rest: Seq<char>| #[trigger] (prefix + rest) == s {
        let rest = choose|rest: Seq<char>| #[trigger] (prefix + rest) == s;
        assert(s.take(prefix.len() as int) =~= prefix);
    }
}

proof fn lemma_trim_start(a: Seq<char>, s: Seq<char>)
    requires
        forall|i: int| 0 <= i < a.len() ==> is_space(#[trigger] a[i]),
        s.len() == 0 || !is_space(s[0]),
    ensures
        trim_start(a + s) == s,
    decreases a.len(),
{
    if a.len() == 0 {
        assert(a + s =~= s);
    } else {
        assert((a + s).drop_first() =~= a.drop_first() + s);
        assert(is_space(a[0]));
        lemma_trim_start(a.drop_first(), s);
    }
}

proof fn lemma_trim_end(s: Seq<char>, b: Seq<char>)
    requires
        forall|i: int| 0 <= i < b.len() ==> is_space(#[trigger] b[i]),
        s.len() == 0 || !is_space(s[s.len() - 1]),
    ensures
        trim_end(s + b) == s,
    decreases b.len(),
{
    if b.len() == 0 {
        assert(s + b =~= s);
    } else {
        assert((s + b).drop_last() =~= s + b.drop_last());
        assert(is_space(b[b.len() - 1]));
        lemma_trim_end(s, b.drop_last());
    }
}

/// White space around a text is cut off, all of it and nothing else.
pub proof fn law_trim_cuts_the_space_around(a: Seq<char>, s: Seq<char>, b: Seq<char>)
    requires
        forall|i: int| 0 <= i < a.len() ==> is_space(#[trigger] a[i]),
        forall|i: int| 0 <= i < b.len() ==> is_space(#[trigger] b[i]),
        s.len() > 0 ==> !is_space(s[0]) && !is_space(s[s.len() - 1]),
    ensures
        trim(a + s + b) == s,
{
    if s.len() == 0 {
        let all = a + b;
        assert(a + s + b =~= all + s);
        assert forall|i: int| 0 <= i < all.len() implies is_space(#[trigger] all[i]) by {
            if i < a.len() {
                assert(all[i] == a[i]);
            } else {
                assert(all[i] == b[i - a.len()]);
            }
        }
        lemma_trim_start(all, s);
        assert(s =~= Seq::<char>::empty());
    } else {
        assert(a + s + b =~= a + (s + b));
        assert((s + b)[0] == s[0]);
        lemma_trim_start(a, s + b);
        lemma_trim_end(s, b);
    }
}

/// No piece holds the separator, and joined by it the pieces are the text
/// again.
pub proof fn law_pieces_hold_no_separator(s: Seq<char>, sep: char)
    ensures
        forall|i: int| 0 <= i < split(s, sep).len() ==> !(#[trigger] split(s, sep)[i]).contains(sep),
        join(split(s, sep), seq![sep]) == s,
    decreases s.len(),
{
    lemma_join_split(s, sep);
    lemma_split_nonempty(s, sep);
    if s.len() > 0 {
        let init = s.drop_last();
        let before = split(init, sep);
        law_pieces_hold_no_separator(init, sep);
        lemma_split_nonempty(init, sep);
        let parts = split(s, sep);
        assert forall|i: int| 0 <= i < parts.len() implies !(#[trigger] parts[i]).contains(sep) by {
            if s.last() == sep {
                if i < before.len() {
                    assert(parts[i] == before[i]);
                }
            } else {
                if i < before.len() - 1 {
                    assert(parts[i] == before[i]);
                } else {
                    let last = before[before.len() - 1];
                    assert(!last.contains(sep));
                    assert(parts[i] == last.push(s.last()));
                    if parts[i].contains(sep) {
                        let k = choose|k: int| 0 <= k < parts[i].len() && parts[i][k] == sep;
                        assert(k < last.len() ==> last[k] == sep);
                    }
                }
            }
        }
    }
}

/// Texts without the separator that are joined come apart again as they were.
pub proof fn law_joined_texts_come_apart(parts: Seq<Seq<char>>, sep: char)
    requires
        parts.len() > 0,
        forall|i: int| 0 <= i < parts.len() ==> !(#[trigger] parts[i]).contains(sep),
    ensures
        split(join(parts, seq![sep]), sep) == parts,
    decreases parts.len(),
{
    if parts.len() == 1 {
        lemma_split_single(parts[0], sep);
        assert(parts =~= seq![parts[0]]);
    } else {
        let init = parts.drop_last();
        assert forall|i: int| 0 <= i < init.len() implies !(#[trigger] init[i]).contains(sep) by {
            assert(init[i] == parts[i]);
        }
        law_joined_texts_come_apart(init, sep);
        let head = join(init, seq![sep]);
        let last = parts.last();
        assert(last == parts[parts.len() - 1]);
        lemma_split_single(last, sep);
        lemma_split_concat(head, last, sep);
        assert(head + seq![sep] + last =~= head.push(sep) + last);
        assert(init + seq![last] =~= parts);
    }
}

/// Joining two lists one after the other puts one separator between what they
/// give, and a single text is joined to itself.
pub proof fn law_join_of_two_lists(a: Seq<Seq<char>>, b: Seq<Seq<char>>, sep: Seq<char>)
    requires
        a.len() > 0,
        b.len() > 0,
    ensures
        join(a + b, sep) == join(a, sep) + sep + join(b, sep),
        join(seq![a[0]], sep) == a[0],
    decreases b.len(),
{
    let init = b.drop_last();
    assert((a + b).drop_last() =~= a + init);
    assert((a + b).last() == b.last());
    if b.len() == 1 {
        assert(a + init =~= a);
    } else {
        law_join_of_two_lists(a, init, sep);
        assert(join(a, sep) + sep + join(init, sep) + sep + b.last() =~= join(a, sep) + sep + (
        join(init, sep) + sep + b.last()));
    }
}

/// Decimal notation: a digit behind a number stands for ten times the number
/// and the digit, and there are no leading zeros.
pub proof fn law_decimal_notation(n: nat, d: nat)
    requires
        d < 10,
    ensures
        n > 0 ==> decimal(10 * n + d).len() == decimal(n).len() + 1,
        n > 0 ==> decimal(10 * n + d).drop_last() == decimal(n),
        decimal(10 * n + d).last() as int == '0' as int + d,
        n > 0 ==> decimal(n)[0] != '0',
        decimal(d).len() == 1,
        number(decimal(n)) == n,
    decreases n,
{
    lemma_decimal(n);
    let m: nat = 10 * n + d;
    assert(m / 10 == n && m % 10 == d);
    if n > 0 {
        assert(decimal(m).drop_last() =~= decimal(n));
        if n >= 10 {
            lemma_decimal(n / 10);
            law_decimal_notation(n / 10, n % 10);
            assert(decimal(n)[0] == decimal(n / 10)[0]);
        }
    }
}

/// A digit behind digits stands for ten times what they stand for and itself;
/// leading zeros count nothing.
pub proof fn law_digits_are_read_in_tens(s: Seq<char>, c: char)
    requires
        is_digit(c),
    ensures
        number(s.push(c)) == 10 * number(s) + (c as int - '0' as int),
        number(seq!['0'] + s) == number(s),
    decreases s.len(),
{
    assert(s.push(c).drop_last() =~= s);
    let z = seq!['0'] + s;
    if s.len() == 0 {
        assert(z.drop_last() =~= s);
    } else {
        law_digits_are_read_in_tens(s.drop_last(), c);
        assert(z.drop_last() =~= seq!['0'] + s.drop_last());
        assert(z.last() == s.last());
    }
}

/// A text is read as an unsigned integer exactly where it is digits, perhaps
/// behind one plus sign, and their number fits; it is read as that number.
pub proof fn law_unsigned_integers(digits: Seq<char>)
    ensures
        digits.len() > 0 && all_digits(digits) ==> {
            &&& unsigned(digits) == (if number(digits) <= u64::MAX {
                Some(number(digits) as u64)
            } else {
                None
            })
            &&& unsigned(seq!['+'] + digits) == unsigned(digits)
        },
        unsigned(digits) is Some ==> digits.len() > 0 && forall|i: int|
            0 <= i < digits.len() ==> '0' <= #[trigger] digits[i] <= '9' || (i == 0 && digits[0]
                == '+'),
        forall|n: u64| #[trigger] unsigned(decimal(n as nat)) == Some(n),
        unsigned(seq!['+']) is None,
        unsigned(Seq::empty()) is None,
{
    assert(seq!['+'].skip(1) =~= Seq::<char>::empty());
    if digits.len() > 0 && all_digits(digits) {
        assert(is_digit(digits[0]));
        assert((seq!['+'] + digits).skip(1) =~= digits);
    }
    if unsigned(digits) is Some && digits.len() > 0 && digits[0] == '+' {
        assert forall|i: int| 0 <= i < digits.len() implies '0' <= #[trigger] digits[i] <= '9' || (i
            == 0 && digits[0] == '+') by {
            if i > 0 {
                assert(digits.skip(1)[i - 1] == digits[i]);
            }
        }
    }
    assert forall|n: u64| #[trigger] unsigned(decimal(n as nat)) == Some(n) by {
        lemma_decimal(n as nat);
        assert(is_digit(decimal(n as nat)[0]));
    }
}

/// The elements of a list of strings are seen one for one.
pub proof fn law_texts_are_seen_one_for_one(v: Seq<String>, w: Seq<Vec<char>>, i: int)
    requires
        0 <= i < v.len(),
        0 <= i < w.len(),
    ensures
        views(v).len() == v.len(),
        views(v)[i] == v[i]@,
        pieces(w).len() == w.len(),
        pieces(w)[i] == w[i]@,
        opt_view(Some(v[i])) == Some(v[i]@),
        opt_view(None) is None,
{
}

/// Digits, letters and hexadecimal digits are those of ASCII; a text is made
/// of them where each of its characters is one.
pub proof fn law_character_classes(c: char, s: Seq<char>)
    ensures
        is_digit(c) <==> '0' as int <= c as int <= '9' as int,
        is_letter(c) <==> 'A' as int <= c as int <= 'Z' as int || 'a' as int <= c as int
            <= 'z' as int,
        is_hex_digit(c) <==> is_digit(c) || 'A' as int <= c as int <= 'F' as int || 'a' as int
            <= c as int <= 'f' as int,
        all_digits(s.push(c)) <==> all_digits(s) && is_digit(c),
        all_hex_digits(s.push(c)) <==> all_hex_digits(s) && is_hex_digit(c),
        all_digits(Seq::empty()),
        all_hex_digits(Seq::empty()),
{
    let t = s.push(c);
    assert(t[s.len() as int] == c);
    assert(forall|i: int| 0 <= i < s.len() ==> #[trigger] t[i] == s[i]);
    if all_digits(t) {
        assert forall|i: int| 0 <= i < s.len() implies is_digit(#[trigger] s[i]) by {
            assert(t[i] == s[i]);
        }
    }
    if all_hex_digits(t) {
        assert forall|i: int| 0 <= i < s.len() implies is_hex_digit(#[trigger] s[i]) by {
            assert(t[i] == s[i]);
        }
    }
}

} // verus!
