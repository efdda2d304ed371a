//! Text as character sequences: building, comparing, splitting and decimal numbers.

use vstd::prelude::*;
use vstd::string::*;

verus! {

// ---------------------------------------------------------------------------
// Models
// ---------------------------------------------------------------------------

/// The character sequences of a list of strings.
pub open spec fn texts(v: Seq<String>) -> Seq<Seq<char>> {
    Seq::new(v.len(), |i: int| v[i]@)
}

/// The character sequences of a list of string slices.
pub open spec fn slices(v: Seq<&str>) -> Seq<Seq<char>> {
    Seq::new(v.len(), |i: int| v[i]@)
}

/// `parts` with `sep` between neighbours.
pub open spec fn joined(parts: Seq<Seq<char>>, sep: Seq<char>) -> Seq<char>
    decreases parts.len(),
{
    if parts.len() == 0 {
        Seq::empty()
    } else if parts.len() == 1 {
        parts[0]
    } else {
        joined(parts.drop_last(), sep) + sep + parts.last()
    }
}

/// `needle` occurs in `hay` at position `i`.
pub open spec fn occurs_at(hay: Seq<char>, needle: Seq<char>, i: int) -> bool {
    0 <= i && i + needle.len() <= hay.len() && hay.subrange(i, i + needle.len() as int) == needle
}

/// `needle` occurs somewhere in `hay`.
pub open spec fn has_text(hay: Seq<char>, needle: Seq<char>) -> bool {
    exists|i: int| occurs_at(hay, needle, i)
}

pub open spec fn is_digit(c: char) -> bool {
    '0' <= c && c <= '9'
}

pub open spec fn is_lower(c: char) -> bool {
    'a' <= c && c <= 'z'
}

pub open spec fn is_upper(c: char) -> bool {
    'A' <= c && c <= 'Z'
}

pub open spec fn is_alpha(c: char) -> bool {
    is_lower(c) || is_upper(c)
}

/// ASCII letters and digits.
pub open spec fn is_alnum(c: char) -> bool {
    is_alpha(c) || is_digit(c)
}

/// ASCII letters, digits and the underscore.
pub open spec fn is_word(c: char) -> bool {
    is_alnum(c) || c == '_'
}

/// An ASCII letter or the underscore.
pub open spec fn is_word_start(c: char) -> bool {
    is_alpha(c) || c == '_'
}

/// The ASCII upper-case form of `c`; other characters are kept.
pub open spec fn upper(c: char) -> char {
    if is_lower(c) {
        ((c as int) - 32) as char
    } else {
        c
    }
}

/// The ASCII lower-case form of `c`; other characters are kept.
pub open spec fn lower(c: char) -> char {
    if is_upper(c) {
        ((c as int) + 32) as char
    } else {
        c
    }
}

pub open spec fn uppered(s: Seq<char>) -> Seq<char> {
    Seq::new(s.len(), |i: int| upper(s[i]))
}

pub open spec fn lowered(s: Seq<char>) -> Seq<char> {
    Seq::new(s.len(), |i: int| lower(s[i]))
}

/// `s` with every `from` replaced by `to`.
pub open spec fn swapped(s: Seq<char>, from: char, to: char) -> Seq<char> {
    Seq::new(s.len(), |i: int| if s[i] == from { to } else { s[i] })
}

/// The decimal digit with value `d`.
pub open spec fn digit_char(d: int) -> char {
    (48 + d) as char
}

/// The decimal digits of `n`, without leading zeros.
pub open spec fn digits(n: nat) -> Seq<char>
    decreases n,
{
    if n < 10 {
        seq![digit_char(n as int)]
    } else {
        digits(n / 10).push(digit_char((n % 10) as int))
    }
}

/// The decimal form of `n`, with a leading `-` when negative.
pub open spec fn decimal(n: int) -> Seq<char> {
    if n < 0 {
        seq!['-'] + digits((-n) as nat)
    } else {
        digits(n as nat)
    }
}

/// The value of a non-empty run of decimal digits.
pub open spec fn digits_value(s: Seq<char>) -> Option<int>
    decreases s.len(),
{
    if s.len() == 0 {
        None
    } else if !is_digit(s.last()) {
        None
    } else if s.len() == 1 {
        Some(s.last() as int - 48)
    } else {
        match digits_value(s.drop_last()) {
            Some(n) => Some(n * 10 + (s.last() as int - 48)),
            None => None,
        }
    }
}

/// The value of a decimal number: an optional sign, then digits.
pub open spec fn integer_value(s: Seq<char>) -> Option<int> {
    if s.len() > 0 && s[0] == '-' {
        match digits_value(s.drop_first()) {
            Some(n) => Some(-n),
            None => None,
        }
    } else if s.len() > 0 && s[0] == '+' {
        digits_value(s.drop_first())
    } else {
        digits_value(s)
    }
}

/// The lower-case hexadecimal digit of a number below 16.
pub open spec fn hex_digit(n: int) -> char {
    if n < 10 {
        (48 + n) as char
    } else {
        (87 + n) as char
    }
}

/// The value of an unsigned decimal number: an optional plus sign, then digits.
pub open spec fn unsigned_value(s: Seq<char>) -> Option<int> {
    if s.len() > 0 && s[0] == '+' {
        digits_value(s.drop_first())
    } else {
        digits_value(s)
    }
}

// ---------------------------------------------------------------------------
// Standard library functions
// ---------------------------------------------------------------------------

/// `String::push` appends one character.
pub assume_specification[ String::push ](s: &mut String, c: char)
    ensures
        final(s)@ == old(s)@.push(c),
;

/// What `char::is_whitespace` says of a character.
pub uninterp spec fn has_white_space(c: char) -> bool;

/// `char::is_whitespace` is a function of the character. Of the ASCII characters, the
/// space and the five controls from tab to carriage return have the property.
pub assume_specification[ char::is_whitespace ](c: char) -> (r: bool)
    ensures
        r == has_white_space(c),
        (c as u32) < 128 ==> r == (c == ' ' || (9 <= c as u32 && c as u32 <= 13)),
;

/// The text of an optional string.
pub open spec fn optional(s: Option<String>) -> Option<Seq<char>> {
    match s {
        Some(s) => Some(s@),
        None => None,
    }
}

/// White space: the space and the controls from tab to carriage return, and what Unicode
/// counts as white space beyond ASCII.
pub open spec fn is_space(c: char) -> bool {
    if (c as u32) < 128 {
        c == ' ' || (9 <= c as u32 && c as u32 <= 13)
    } else {
        has_white_space(c)
    }
}

/// Whether `c` is white space.
pub fn space(c: char) -> (r: bool)
    ensures
        r == is_space(c),
{
    c.is_whitespace()
}

/// What `char::is_uppercase` says of a character.
pub uninterp spec fn has_uppercase(c: char) -> bool;

/// `char::is_uppercase` is a function of the character. Of the ASCII characters, the letters
/// `A` to `Z` are upper case.
pub assume_specification[ char::is_uppercase ](c: char) -> (r: bool)
    ensures
        r == has_uppercase(c),
        (c as u32) < 128 ==> r == is_upper(c),
;

/// Upper case: `A` to `Z`, and what Unicode counts as upper case beyond ASCII.
pub open spec fn is_uppercase(c: char) -> bool {
    if (c as u32) < 128 {
        is_upper(c)
    } else {
        has_uppercase(c)
    }
}

/// Whether `c` is upper case.
pub fn uppercase(c: char) -> (r: bool)
    ensures
        r == is_uppercase(c),
{
    c.is_uppercase()
}

/// What `char::to_lowercase` makes of a character.
pub uninterp spec fn lowercase_mapping(c: char) -> Seq<char>;

/// `char::to_lowercase` is a function of the character and gives one or more characters. An
/// ASCII character maps to its ASCII lower case.
#[verifier::external_body]
fn map_to_lowercase(c: char) -> (r: String)
    ensures
        r@ == lowercase_mapping(c),
        (c as u32) < 128 ==> r@ == seq![lower(c)],
{
    c.to_lowercase().to_string()
}

/// The lower-case form of `c`.
pub open spec fn lowercase_of(c: char) -> Seq<char> {
    if (c as u32) < 128 {
        seq![lower(c)]
    } else {
        lowercase_mapping(c)
    }
}

/// The lower-case form of `c`.
pub fn lowercase(c: char) -> (r: String)
    ensures
        r@ == lowercase_of(c),
{
    map_to_lowercase(c)
}

/// `==` on `str`: two string slices are equal when they hold the same characters.
#[verifier::external_body]
pub(crate) fn same(a: &str, b: &str) -> (r: bool)
    ensures
        r == (a@ == b@),
{
    a == b
}

// ---------------------------------------------------------------------------
// Conversions
// ---------------------------------------------------------------------------

/// The characters of `s`, in order.
pub fn chars_of(s: &str) -> (out: Vec<char>)
    ensures
        out@ == s@,
{
    let mut out: Vec<char> = Vec::new();
    for c in it: s.chars()
        invariant
            out@ == it.seq().take(it.index() as int),
            it.seq() == s@,
    {
        out.push(c);
    }
    out
}

/// The characters `v[from..to]` as a string.
pub fn text_of(v: &Vec<char>, from: usize, to: usize) -> (out: String)
    requires
        from <= to <= v.len(),
    ensures
        out@ == v@.subrange(from as int, to as int),
{
    let mut out = String::new();
    let mut i: usize = from;
    while i < to
        invariant
            from <= i <= to <= v.len(),
            out@ == v@.subrange(from as int, i as int),
        decreases to - i,
    {
        out.push(v[i]);
        assert(v@.subrange(from as int, i as int).push(v@[i as int]) =~= v@.subrange(
            from as int,
            i + 1,
        ));
        i += 1;
    }
    out
}

pub fn digit(c: char) -> (r: bool)
    ensures
        r == is_digit(c),
{
    '0' <= c && c <= '9'
}

pub fn alpha(c: char) -> (r: bool)
    ensures
        r == is_alpha(c),
{
    ('a' <= c && c <= 'z') || ('A' <= c && c <= 'Z')
}

pub fn alnum(c: char) -> (r: bool)
    ensures
        r == is_alnum(c),
{
    alpha(c) || digit(c)
}

pub fn word(c: char) -> (r: bool)
    ensures
        r == is_word(c),
{
    alnum(c) || c == '_'
}

pub fn word_start(c: char) -> (r: bool)
    ensures
        r == is_word_start(c),
{
    alpha(c) || c == '_'
}

pub fn to_upper(c: char) -> (r: char)
    ensures
        r == upper(c),
{
    if 'a' <= c && c <= 'z' {
        let b: u8 = c as u8;
        (b - 32) as char
    } else {
        c
    }
}

pub fn to_lower(c: char) -> (r: char)
    ensures
        r == lower(c),
{
    if 'A' <= c && c <= 'Z' {
        let b: u8 = c as u8;
        (b + 32) as char
    } else {
        c
    }
}

/// `str::to_ascii_uppercase`.
pub fn upper_text(s: &str) -> (out: String)
    ensures
        out@ == uppered(s@),
{
    let mut out = String::new();
    for c in it: s.chars()
        invariant
            out@ == uppered(it.seq().take(it.index() as int)),
            it.seq() == s@,
    {
        out.push(to_upper(c));
        assert(out@ =~= uppered(it.seq().take(it.index() + 1)));
    }
    assert(s@.take(s@.len() as int) =~= s@);
    out
}

/// `str::to_ascii_lowercase`.
pub fn lower_text(s: &str) -> (out: String)
    ensures
        out@ == lowered(s@),
{
    let mut out = String::new();
    for c in it: s.chars()
        invariant
            out@ == lowered(it.seq().take(it.index() as int)),
            it.seq() == s@,
    {
        out.push(to_lower(c));
        assert(out@ =~= lowered(it.seq().take(it.index() + 1)));
    }
    assert(s@.take(s@.len() as int) =~= s@);
    out
}

/// `s` with every `from` replaced by `to`.
pub fn swap_char(s: &str, from: char, to: char) -> (out: String)
    ensures
        out@ == swapped(s@, from, to),
{
    let mut out = String::new();
    for c in it: s.chars()
        invariant
            out@ == swapped(it.seq().take(it.index() as int), from, to),
            it.seq() == s@,
    {
        out.push(if c == from { to } else { c });
        assert(out@ =~= swapped(it.seq().take(it.index() + 1), from, to));
    }
    assert(s@.take(s@.len() as int) =~= s@);
    out
}

// ---------------------------------------------------------------------------
// Lists of strings
// ---------------------------------------------------------------------------

/// Pushing a string pushes its characters.
pub proof fn lemma_texts_push(v: Seq<String>, s: String)
    ensures
        texts(v.push(s)) == texts(v).push(s@),
{
    assert(texts(v.push(s)) =~= texts(v).push(s@));
}

/// Append a copy of `s` to `list`.
pub fn note(list: &mut Vec<String>, s: &str)
    ensures
        texts(final(list)@) == texts(old(list)@).push(s@),
{
    let t = s.to_owned();
    proof {
        lemma_texts_push(list@, t);
    }
    list.push(t);
}

/// `list.join(sep)`.
pub fn join(list: &Vec<String>, sep: &str) -> (out: String)
    ensures
        out@ == joined(texts(list@), sep@),
{
    let mut out = String::new();
    for i in 0..list.len()
        invariant
            out@ == joined(texts(list@).take(i as int), sep@),
    {
        let ghost before = texts(list@).take(i as int);
        let ghost after = texts(list@).take(i + 1);
        assert(after.drop_last() =~= before);
        if i > 0 {
            out.append(sep);
        }
        out.append(list[i].as_str());
        assert(after.last() == list@[i as int]@);
        assert(out@ =~= joined(after, sep@));
    }
    assert(texts(list@).take(list@.len() as int) =~= texts(list@));
    out
}

/// `list` holds `s`.
pub fn holds(list: &Vec<String>, s: &str) -> (r: bool)
    ensures
        r == texts(list@).contains(s@),
{
    for i in 0..list.len()
        invariant
            forall|j: int| 0 <= j < i ==> list@[j]@ != s@,
    {
        if same(list[i].as_str(), s) {
            assert(texts(list@)[i as int] == s@);
            return true;
        }
    }
    false
}

/// `list` holds `s`.
pub fn slice_holds(list: &[&str], s: &str) -> (r: bool)
    ensures
        r == slices(list@).contains(s@),
{
    for i in 0..list.len()
        invariant
            forall|j: int| 0 <= j < i ==> list@[j]@ != s@,
    {
        if same(list[i], s) {
            assert(slices(list@)[i as int] == s@);
            return true;
        }
    }
    false
}

/// `hay.contains(needle)`.
pub fn contains_text(hay: &str, needle: &str) -> (r: bool)
    ensures
        r == has_text(hay@, needle@),
{
    let h = chars_of(hay);
    let n = chars_of(needle);
    if n.len() == 0 {
        assert(hay@.subrange(0, 0) =~= needle@);
        assert(occurs_at(hay@, needle@, 0));
        return true;
    }
    if n.len() > h.len() {
        return false;
    }
    let last: usize = h.len() - n.len();
    let mut i: usize = 0;
    while i <= last
        invariant
            h@ == hay@,
            n@ == needle@,
            n.len() <= h.len(),
            last == h.len() - n.len(),
            i <= last + 1,
            n.len() > 0,
            forall|k: int| 0 <= k < i ==> !occurs_at(h@, n@, k),
        decreases last + 1 - i,
    {
        let mut j: usize = 0;
        while j < n.len() && h[i + j] == n[j]
            invariant
                h@ == hay@,
                n@ == needle@,
                last == h.len() - n.len(),
                n.len() <= h.len(),
                i <= last,
                j <= n.len(),
                forall|k: int| 0 <= k < j ==> h@[i + k] == n@[k],
            decreases n.len() - j,
        {
            j += 1;
        }
        if j == n.len() {
            assert(h@.subrange(i as int, i + n@.len()) =~= n@);
            assert(occurs_at(hay@, needle@, i as int));
            return true;
        }
        proof {
            if occurs_at(h@, n@, i as int) {
                assert(h@.subrange(i as int, i + n@.len())[j as int] == h@[i + j]);
            }
        }
        i += 1;
    }
    false
}

// ---------------------------------------------------------------------------
// Decimal numbers
// ---------------------------------------------------------------------------

fn digit_of(d: u128) -> (c: char)
    requires
        d < 10,
    ensures
        c == digit_char(d as int),
{
    let b: u8 = d as u8;
    (48 + b) as char
}

fn push_digits(out: &mut String, n: u128)
    ensures
        final(out)@ == old(out)@ + digits(n as nat),
    decreases n,
{
    if n >= 10 {
        push_digits(out, n / 10);
    }
    out.push(digit_of(n % 10));
    assert(out@ =~= old(out)@ + digits(n as nat));
}

/// `n` in decimal.
pub fn unsigned_text(n: u64) -> (out: String)
    ensures
        out@ == decimal(n as int),
{
    wide_text(n as u128)
}

/// `n` in decimal.
pub fn wide_text(n: u128) -> (out: String)
    ensures
        out@ == decimal(n as int),
{
    let mut out = String::new();
    push_digits(&mut out, n);
    assert(out@ =~= decimal(n as int));
    out
}

/// `n` in decimal.
pub fn signed_text(n: i64) -> (out: String)
    ensures
        out@ == decimal(n as int),
{
    let mut out = String::new();
    if n < 0 {
        out.push('-');
        let m: i128 = -(n as i128);
        push_digits(&mut out, m as u128);
    } else {
        push_digits(&mut out, n as u128);
    }
    assert(out@ =~= decimal(n as int));
    out
}

/// A prefix of digits whose value already passes `bound` makes the whole run pass it.
proof fn lemma_digits_value_grows(s: Seq<char>, k: int)
    requires
        0 < k <= s.len(),
    ensures
        digits_value(s) is Some ==> digits_value(s.take(k)) is Some && digits_value(s.take(k))->0
            <= digits_value(s)->0,
        digits_value(s) is Some ==> digits_value(s)->0 >= 0,
    decreases s.len(),
{
    if k == s.len() {
        assert(s.take(k) =~= s);
        if s.len() > 1 {
            lemma_digits_value_grows(s.drop_last(), s.len() - 1);
        }
    } else {
        assert(s.drop_last().take(k) =~= s.take(k));
        lemma_digits_value_grows(s.drop_last(), k);
    }
}

/// The value of the digits `v[from..]`, when they are digits and the value fits `u64`.
fn parse_digits(v: &Vec<char>, from: usize) -> (r: Option<u64>)
    requires
        from <= v.len(),
    ensures
        match r {
            Some(n) => digits_value(v@.skip(from as int)) == Some(n as int),
            None => digits_value(v@.skip(from as int)) is None || digits_value(
                v@.skip(from as int),
            )->0 > u64::MAX,
        },
{
    let ghost s = v@.skip(from as int);
    if from == v.len() {
        return None;
    }
    let mut acc: u64 = 0;
    let mut i: usize = from;
    while i < v.len()
        invariant
            from <= i <= v.len(),
            s == v@.skip(from as int),
            i == from ==> acc == 0,
            i > from ==> digits_value(s.take(i - from)) == Some(acc as int),
        decreases v.len() - i,
    {
        let c = v[i];
        let ghost next = s.take(i + 1 - from);
        assert(next.drop_last() =~= s.take(i - from));
        assert(next.last() == c);
        proof {
            lemma_digits_value_grows(s, i + 1 - from);
        }
        if !digit(c) {
            return None;
        }
        let d: u64 = (c as u32 - 48) as u64;
        match acc.checked_mul(10) {
            None => {
                return None;
            },
            Some(m) => {
                match m.checked_add(d) {
                    None => {
                        return None;
                    },
                    Some(t) => {
                        acc = t;
                    },
                }
            },
        }
        i += 1;
    }
    assert(s.take(s.len() as int) =~= s);
    Some(acc)
}

/// `str::parse` for a signed integer within `min..=max`.
pub fn parse_integer(v: &Vec<char>, min: i64, max: i64) -> (r: Option<i64>)
    requires
        min <= 0 <= max,
    ensures
        match r {
            Some(n) => integer_value(v@) == Some(n as int) && min <= n <= max,
            None => match integer_value(v@) {
                Some(n) => n < min || n > max,
                None => true,
            },
        },
{
    assert(v@.len() > 0 ==> v@.skip(1) =~= v@.drop_first());
    assert(v@.skip(0) =~= v@);
    if v.len() == 0 {
        return None;
    }
    if v[0] == '-' {
        match parse_digits(v, 1) {
            None => None,
            Some(n) => {
                if n > 0x8000_0000_0000_0000u64 {
                    None
                } else if n == 0x8000_0000_0000_0000u64 {
                    if min == i64::MIN {
                        Some(i64::MIN)
                    } else {
                        None
                    }
                } else {
                    let k: i64 = -(n as i64);
                    if k < min {
                        None
                    } else {
                        Some(k)
                    }
                }
            },
        }
    } else {
        let from: usize = if v[0] == '+' {
            1
        } else {
            0
        };
        match parse_digits(v, from) {
            None => None,
            Some(n) => {
                if n > max as u64 {
                    None
                } else {
                    Some(n as i64)
                }
            },
        }
    }
}

/// The lower-case hexadecimal digit of a number below 16.
pub fn hex_char(n: u8) -> (c: char)
    requires
        n < 16,
    ensures
        c == hex_digit(n as int),
{
    if n < 10 {
        (48 + n) as char
    } else {
        (87 + n) as char
    }
}

/// `str::parse` for a `u64`.
pub fn parse_unsigned(v: &Vec<char>) -> (r: Option<u64>)
    ensures
        match r {
            Some(n) => unsigned_value(v@) == Some(n as int),
            None => match unsigned_value(v@) {
                Some(n) => n > u64::MAX,
                None => true,
            },
        },
{
    assert(v@.len() > 0 ==> v@.skip(1) =~= v@.drop_first());
    assert(v@.skip(0) =~= v@);
    if v.len() > 0 && v[0] == '+' {
        parse_digits(v, 1)
    } else {
        parse_digits(v, 0)
    }
}

// ---------------------------------------------------------------------------
// Facts
// ---------------------------------------------------------------------------

/// Decimal digits are digits, and reading them back gives the number.
pub proof fn lemma_digits_read_back(n: nat)
    ensures
        digits(n).len() > 0,
        forall|i: int| 0 <= i < digits(n).len() ==> is_digit(#[trigger] digits(n)[i]),
        digits_value(digits(n)) == Some(n as int),
    decreases n,
{
    if n >= 10 {
        lemma_digits_read_back(n / 10);
        assert(digits(n).drop_last() =~= digits(n / 10));
    }
}

/// Reading back a decimal form gives the number.
pub proof fn law_decimal_reads_back(n: int)
    ensures
        integer_value(decimal(n)) == Some(n),
{
    if n < 0 {
        lemma_digits_read_back((-n) as nat);
        assert(decimal(n).drop_first() =~= digits((-n) as nat));
    } else {
        lemma_digits_read_back(n as nat);
        assert(is_digit(decimal(n)[0]));
    }
}

/// The same character, or the same ASCII letter in the other case.
pub open spec fn same_letter(a: char, b: char) -> bool {
    a == b || (65 <= a as u32 <= 90 && b as u32 == a as u32 + 32) || (65 <= b as u32 <= 90
        && a as u32 == b as u32 + 32)
}

/// The same text but for the case of its ASCII letters.
pub open spec fn same_letters(s: Seq<char>, t: Seq<char>) -> bool {
    s.len() == t.len() && forall|i: int|
        #![trigger s[i]]
        #![trigger t[i]]
        0 <= i < s.len() ==> same_letter(s[i], t[i])
}

/// The ASCII classes are the ranges of their code points: digits from 48, upper-case letters
/// from 65, lower-case letters from 97; a word has letters, digits and the underscore, and
/// does not begin with a digit where it matters.
pub proof fn law_ascii_classes_are_ranges(c: char)
    ensures
        is_digit(c) <==> 48 <= c as u32 <= 57,
        is_upper(c) <==> 65 <= c as u32 <= 90,
        is_lower(c) <==> 97 <= c as u32 <= 122,
        is_alpha(c) <==> is_upper(c) || is_lower(c),
        is_alnum(c) <==> is_upper(c) || is_lower(c) || is_digit(c),
        is_word(c) <==> is_upper(c) || is_lower(c) || is_digit(c) || c as u32 == 95,
        is_word_start(c) <==> is_word(c) && !is_digit(c),
{
}

/// The other case of a letter is 32 code points away; what is no ASCII letter has none.
pub proof fn law_cases_are_apart_by_thirty_two(c: char)
    ensures
        97 <= c as u32 <= 122 ==> upper(c) as int == c as int - 32,
        !(97 <= c as u32 <= 122) ==> upper(c) == c,
        65 <= c as u32 <= 90 ==> lower(c) as int == c as int + 32,
        !(65 <= c as u32 <= 90) ==> lower(c) == c,
        is_lower(c) ==> lower(upper(c)) == c,
        is_upper(c) ==> upper(lower(c)) == c,
{
}

/// Changing the case of a text changes the case of each of its characters.
pub proof fn law_texts_change_case_character_by_character(s: Seq<char>, i: int)
    requires
        0 <= i < s.len(),
    ensures
        uppered(s).len() == s.len(),
        uppered(s)[i] == upper(s[i]),
        lowered(s).len() == s.len(),
        lowered(s)[i] == lower(s[i]),
{
}

/// Replacing one character by another leaves every other one as it is.
pub proof fn law_swapping_replaces_one_character(s: Seq<char>, from: char, to: char, i: int)
    requires
        0 <= i < s.len(),
    ensures
        swapped(s, from, to).len() == s.len(),
        s[i] == from ==> swapped(s, from, to)[i] == to,
        s[i] != from ==> swapped(s, from, to)[i] == s[i],
{
}

/// Joined parts stand in order with the separator between each two and nowhere else.
pub proof fn law_joining_puts_separators_between(
    a: Seq<Seq<char>>,
    b: Seq<Seq<char>>,
    part: Seq<char>,
    sep: Seq<char>,
)
    requires
        a.len() > 0,
        b.len() > 0,
    ensures
        joined(Seq::empty(), sep).len() == 0,
        joined(seq![part], sep) == part,
        joined(a + b, sep) == joined(a, sep) + sep + joined(b, sep),
    decreases b.len(),
{
    assert((a + b).drop_last() =~= a + b.drop_last());
    assert((a + b).last() == b.last());
    if b.len() > 1 {
        law_joining_puts_separators_between(a, b.drop_last(), part, sep);
        assert(joined(a + b, sep) =~= joined(a, sep) + sep + joined(b, sep));
    } else {
        assert(a + b.drop_last() =~= a);
    }
}

/// A number is written with its digits from the highest to the lowest, without leading zeros
/// but for zero itself, and a negative one with a minus sign in front.
pub proof fn law_digits_are_positional(n: nat)
    ensures
        n < 10 ==> digits(n).len() == 1 && digits(n)[0] as int == 48 + n,
        n >= 10 ==> digits(n).last() as int == 48 + n % 10 && digits(n).drop_last() == digits(
            n / 10,
        ),
        n > 0 ==> digits(n)[0] as int != 48,
        decimal(n as int) == digits(n),
        n > 0 ==> decimal(-(n as int)) == seq!['-'] + digits(n),
    decreases n,
{
    if n >= 10 {
        law_digits_are_positional(n / 10);
        lemma_digits_read_back(n / 10);
        assert(digits(n).drop_last() =~= digits(n / 10));
        assert(digits(n)[0] == digits(n / 10)[0]);
    }
}

/// A text is read as a number exactly when it is made of digits, and every digit adds to ten
/// times what stands before it.
pub proof fn law_digits_are_read_by_position(s: Seq<char>, c: char)
    ensures
        digits_value(Seq::empty()) is None,
        digits_value(seq![c]) == if 48 <= c as u32 <= 57 { Some(c as int - 48) } else { None },
        s.len() > 0 ==> digits_value(s.push(c)) == match digits_value(s) {
            Some(n) => if 48 <= c as u32 <= 57 { Some(n * 10 + (c as int - 48)) } else { None },
            None => None,
        },
{
    assert(s.push(c).drop_last() =~= s);
}

/// A signed number may have one sign in front of its digits; the minus sign negates it.
pub proof fn law_signs_are_read(s: Seq<char>)
    ensures
        integer_value(seq!['-'] + s) == match digits_value(s) {
            Some(n) => Some(-n),
            None => None::<int>,
        },
        integer_value(seq!['+'] + s) == digits_value(s),
        s.len() > 0 && s[0] != '-' && s[0] != '+' ==> integer_value(s) == digits_value(s),
        unsigned_value(seq!['+'] + s) == digits_value(s),
        s.len() > 0 && s[0] != '+' ==> unsigned_value(s) == digits_value(s),
{
    assert((seq!['-'] + s).drop_first() =~= s);
    assert((seq!['+'] + s).drop_first() =~= s);
}

/// A hexadecimal digit is a decimal digit below ten and a letter from `a` on above.
pub proof fn law_hexadecimal_digits(n: int)
    requires
        0 <= n < 16,
    ensures
        n < 10 ==> hex_digit(n) as int == '0' as int + n,
        n >= 10 ==> hex_digit(n) as int == 'a' as int + n - 10,
{
}

/// Lists of strings are seen as their texts, in order, and an optional string as its text.
pub proof fn law_strings_are_seen_as_their_texts(
    v: Seq<String>,
    w: Seq<&str>,
    s: Option<String>,
    i: int,
)
    ensures
        texts(v).len() == v.len(),
        0 <= i < v.len() ==> texts(v)[i] == v[i]@,
        slices(w).len() == w.len(),
        0 <= i < w.len() ==> slices(w)[i] == w[i]@,
        s is None <==> optional(s) is None,
        s matches Some(t) ==> optional(s) == Some(t@),
{
}

} // verus!
