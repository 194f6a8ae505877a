//! Text primitives shared by every parser and renderer of the sidecar.
//!
//! Text is modelled as `Seq<char>`; lengths that the protocols bound in bytes
//! are lengths of the UTF-8 encoding.

use vstd::prelude::*;
use vstd::slice::slice_subrange;
use vstd::utf8::encode_utf8;

verus! {

/// `String::push` appends one character at the end of the text.
pub assume_specification[ String::push ](s: &mut String, c: char)
    ensures
        final(s)@ == old(s)@.push(c),
;

/// The number of bytes of the UTF-8 encoding of `s`.
pub open spec fn byte_length(s: Seq<char>) -> nat {
    encode_utf8(s).len()
}

/// A character of the Unicode class `White_Space`.
pub open spec fn is_whitespace(c: char) -> bool {
    let code = c as u32;
    ||| 0x9 <= code <= 0xd
    ||| code == 0x20
    ||| code == 0x85
    ||| code == 0xa0
    ||| code == 0x1680
    ||| 0x2000 <= code <= 0x200a
    ||| code == 0x2028
    ||| code == 0x2029
    ||| code == 0x202f
    ||| code == 0x205f
    ||| code == 0x3000
}

/// `s` without its leading whitespace.
pub open spec fn trim_start(s: Seq<char>) -> Seq<char>
    decreases s.len(),
{
    if s.len() > 0 && is_whitespace(s[0]) {
        trim_start(s.drop_first())
    } else {
        s
    }
}

/// `s` without its trailing whitespace.
pub open spec fn trim_end(s: Seq<char>) -> Seq<char>
    decreases s.len(),
{
    if s.len() > 0 && is_whitespace(s.last()) {
        trim_end(s.drop_last())
    } else {
        s
    }
}

/// `s` without its leading and trailing whitespace.
pub open spec fn trim(s: Seq<char>) -> Seq<char> {
    trim_end(trim_start(s))
}

/// `s` without the carriage returns and line feeds that end it.
pub open spec fn trim_line_end(s: Seq<char>) -> Seq<char>
    decreases s.len(),
{
    if s.len() > 0 && (s.last() == '\r' || s.last() == '\n') {
        trim_line_end(s.drop_last())
    } else {
        s
    }
}

/// The index of the first `c` in `s`, or the length of `s` when there is none.
pub open spec fn position(s: Seq<char>, c: char) -> int
    decreases s.len(),
{
    if s.len() == 0 || s[0] == c {
        0
    } else {
        1 + position(s.drop_first(), c)
    }
}

/// The part of `s` before the first `c` (all of `s` when there is none).
pub open spec fn before(s: Seq<char>, c: char) -> Seq<char> {
    s.take(position(s, c))
}

/// The part of `s` after the first `c` (empty when there is none).
pub open spec fn after(s: Seq<char>, c: char) -> Seq<char> {
    if s.contains(c) {
        s.skip(position(s, c) + 1)
    } else {
        Seq::empty()
    }
}

/// The pieces of `s` between the separators `c`; one more than there are separators.
pub open spec fn split(s: Seq<char>, c: char) -> Seq<Seq<char>>
    decreases s.len(),
{
    if s.contains(c) {
        proof {
            lemma_position(s, c);
        }
        seq![before(s, c)] + split(s.skip(position(s, c) + 1), c)
    } else {
        seq![s]
    }
}

/// `prefix` starts `s`.
pub open spec fn starts_with(s: Seq<char>, prefix: Seq<char>) -> bool {
    prefix.len() <= s.len() && s.take(prefix.len() as int) == prefix
}

/// `suffix` ends `s`.
pub open spec fn ends_with(s: Seq<char>, suffix: Seq<char>) -> bool {
    suffix.len() <= s.len() && s.skip(s.len() - suffix.len()) == suffix
}

/// A short name of letters, digits and `-`, `_`, `.`.
pub open spec fn plain_name(value: Seq<char>, max: nat) -> bool {
    &&& 0 < value.len() <= max
    &&& forall|i: int| 0 <= i < value.len() ==> is_name_char(#[trigger] value[i])
}

pub open spec fn is_name_char(c: char) -> bool {
    is_ascii_alphanumeric(c) || c == '-' || c == '_' || c == '.'
}

/// `part` stands somewhere in `s`.
pub open spec fn contains_text(s: Seq<char>, part: Seq<char>) -> bool {
    exists|i: int| 0 <= i <= s.len() && #[trigger] starts_with(s.skip(i), part)
}

/// The characters of `s` up to the first that is whitespace.
pub open spec fn until_whitespace(s: Seq<char>) -> Seq<char>
    decreases s.len(),
{
    if s.len() == 0 || is_whitespace(s[0]) {
        Seq::empty()
    } else {
        seq![s[0]] + until_whitespace(s.drop_first())
    }
}

/// The first word of `s`, words being kept apart by whitespace (empty when there is none).
pub open spec fn first_word(s: Seq<char>) -> Seq<char> {
    until_whitespace(trim_start(s))
}

/// The part of `s` behind its first word.
pub open spec fn after_first_word(s: Seq<char>) -> Seq<char> {
    trim_start(s).skip(first_word(s).len() as int)
}

/// ASCII upper-case letters become lower-case, every other character stays.
pub open spec fn lower_char(c: char) -> char {
    if 'A' <= c <= 'Z' {
        ((c as u32) + 32) as char
    } else {
        c
    }
}

/// `s` with its ASCII upper-case letters in lower case.
pub open spec fn lower(s: Seq<char>) -> Seq<char> {
    s.map_values(|c: char| lower_char(c))
}

pub open spec fn is_digit(c: char) -> bool {
    '0' <= c <= '9'
}

pub open spec fn is_ascii_upper(c: char) -> bool {
    'A' <= c <= 'Z'
}

pub open spec fn is_ascii_alphanumeric(c: char) -> bool {
    ||| 'A' <= c <= 'Z'
    ||| 'a' <= c <= 'z'
    ||| '0' <= c <= '9'
}

/// The decimal digit of a number below ten.
pub open spec fn digit(n: nat) -> char {
    ((48 + n) as u32) as char
}

/// The decimal numeral of `n`, without leading zeros.
pub open spec fn decimal(n: nat) -> Seq<char>
    decreases n,
{
    if n < 10 {
        seq![digit(n)]
    } else {
        decimal(n / 10).push(digit(n % 10))
    }
}

/// `s` filled with leading zeros up to `width` characters.
pub open spec fn zero_filled(s: Seq<char>, width: nat) -> Seq<char>
    decreases width - s.len(),
{
    if s.len() < width {
        zero_filled(seq!['0'] + s, width)
    } else {
        s
    }
}

/// The number that a sequence of decimal digits denotes.
pub open spec fn digits_value(s: Seq<char>) -> nat
    decreases s.len(),
{
    if s.len() == 0 {
        0
    } else {
        digits_value(s.drop_last()) * 10 + (s.last() as nat - 48) as nat
    }
}

pub open spec fn all_digits(s: Seq<char>) -> bool {
    forall|i: int| 0 <= i < s.len() ==> is_digit(#[trigger] s[i])
}

/// A non-empty run of decimal digits, optionally after one `+`, of at most `max`.
pub open spec fn parsed_unsigned(s: Seq<char>, max: nat) -> Option<nat> {
    let digits = if s.len() > 0 && s[0] == '+' { s.drop_first() } else { s };
    if digits.len() > 0 && all_digits(digits) && digits_value(digits) <= max {
        Some(digits_value(digits))
    } else {
        None
    }
}

pub proof fn lemma_position(s: Seq<char>, c: char)
    ensures
        0 <= position(s, c) <= s.len(),
        position(s, c) < s.len() <==> s.contains(c),
        position(s, c) < s.len() ==> s[position(s, c)] == c,
        forall|i: int| 0 <= i < position(s, c) ==> #[trigger] s[i] != c,
    decreases s.len(),
{
    if s.len() > 0 && s[0] != c {
        let rest = s.drop_first();
        lemma_position(rest, c);
        assert forall|i: int| 0 <= i < position(s, c) implies #[trigger] s[i] != c by {
            if i > 0 {
                assert(rest[i - 1] == s[i]);
            }
        }
        if s.contains(c) {
            let k = choose|k: int| 0 <= k < s.len() && s[k] == c;
            assert(rest[k - 1] == c);
        }
        if rest.contains(c) {
            let k = choose|k: int| 0 <= k < rest.len() && rest[k] == c;
            assert(s[k + 1] == c);
        }
    } else if s.len() > 0 {
        assert(s[0] == c);
    }
}

/// The index `i` is the position of `c` when `s[i]` is `c` and nothing before it is.
pub proof fn lemma_position_unique(s: Seq<char>, c: char, i: int)
    requires
        0 <= i <= s.len(),
        i < s.len() ==> s[i] == c,
        forall|j: int| 0 <= j < i ==> #[trigger] s[j] != c,
    ensures
        position(s, c) == i,
{
    lemma_position(s, c);
    if position(s, c) < i {
        assert(s[position(s, c)] != c);
    } else if position(s, c) > i {
        assert(s[i] != c);
    }
}

/// Two texts with the same UTF-8 encoding are the same text.
pub proof fn lemma_encoding_injective(a: Seq<char>, b: Seq<char>)
    requires
        encode_utf8(a) == encode_utf8(b),
    ensures
        a == b,
{
    vstd::utf8::encode_utf8_decode_utf8(a);
    vstd::utf8::encode_utf8_decode_utf8(b);
}

/// The characters of `s`, in order.
pub fn chars_of(s: &str) -> (chars: Vec<char>)
    ensures
        chars@ == s@,
{
    let mut chars: Vec<char> = Vec::new();
    for c in it: s.chars()
        invariant
            chars@ == it.seq().take(it.index()),
            it.seq() == s@,
    {
        chars.push(c);
    }
    chars
}

/// The text with the given characters.
pub fn string_of(chars: &[char]) -> (s: String)
    ensures
        s@ == chars@,
{
    let mut s: String = String::new();
    let mut i: usize = 0;
    while i < chars.len()
        invariant
            i <= chars@.len(),
            s@ == chars@.take(i as int),
        decreases chars@.len() - i,
    {
        s.push(chars[i]);
        i += 1;
    }
    s
}

/// The length of `s` in bytes.
pub fn byte_len(s: &str) -> (n: usize)
    ensures
        n == byte_length(s@),
{
    s.as_bytes().len()
}

/// Whether two texts are equal.
pub fn same_text(a: &str, b: &str) -> (same: bool)
    ensures
        same == (a@ == b@),
{
    let left = a.as_bytes();
    let right = b.as_bytes();
    if left.len() != right.len() {
        return false;
    }
    let mut i: usize = 0;
    while i < left.len()
        invariant
            i <= left@.len(),
            left@.len() == right@.len(),
            left@ == encode_utf8(a@),
            right@ == encode_utf8(b@),
            left@.take(i as int) == right@.take(i as int),
        decreases left@.len() - i,
    {
        if left[i] != right[i] {
            assert(left@[i as int] != right@[i as int]);
            return false;
        }
        assert(left@.take(i + 1) =~= left@.take(i as int).push(left@[i as int]));
        assert(right@.take(i + 1) =~= right@.take(i as int).push(right@[i as int]));
        i += 1;
    }
    proof {
        assert(left@ =~= left@.take(i as int));
        assert(right@ =~= right@.take(i as int));
        lemma_encoding_injective(a@, b@);
    }
    true
}

/// Whether characters spell the given text.
pub fn chars_spell(chars: &[char], s: &str) -> (same: bool)
    ensures
        same == (chars@ == s@),
{
    let text = string_of(chars);
    same_text(text.as_str(), s)
}

pub fn whitespace(c: char) -> (w: bool)
    ensures
        w == is_whitespace(c),
{
    let code: u32 = c as u32;
    (0x9 <= code && code <= 0xd) || code == 0x20 || code == 0x85 || code == 0xa0 || code == 0x1680
        || (0x2000 <= code && code <= 0x200a) || code == 0x2028 || code == 0x2029 || code == 0x202f
        || code == 0x205f || code == 0x3000
}

/// The characters without leading and trailing whitespace.
pub fn trimmed<'a>(chars: &'a [char]) -> (out: &'a [char])
    ensures
        out@ == trim(chars@),
{
    let mut start: usize = 0;
    assert(chars@.skip(0) =~= chars@);
    while start < chars.len() && whitespace(chars[start])
        invariant
            start <= chars@.len(),
            trim_start(chars@) == trim_start(chars@.skip(start as int)),
        decreases chars@.len() - start,
    {
        assert(chars@.skip(start as int).drop_first() =~= chars@.skip(start + 1));
        start += 1;
    }
    let ghost body = chars@.skip(start as int);
    assert(trim_start(chars@) == body);
    let mut end: usize = chars.len();
    assert(chars@.subrange(start as int, end as int) =~= body);
    while end > start && whitespace(chars[end - 1])
        invariant
            start <= end <= chars@.len(),
            body == chars@.skip(start as int),
            trim_end(body) == trim_end(chars@.subrange(start as int, end as int)),
        decreases end,
    {
        let ghost now = chars@.subrange(start as int, end as int);
        assert(now.last() == chars@[end - 1]);
        assert(now.drop_last() =~= chars@.subrange(start as int, end - 1));
        end -= 1;
    }
    let ghost rest = chars@.subrange(start as int, end as int);
    assert(rest.len() > 0 ==> rest.last() == chars@[end - 1]);
    slice_subrange(chars, start, end)
}

/// The characters without the carriage returns and line feeds that end them.
pub fn without_line_end<'a>(chars: &'a [char]) -> (out: &'a [char])
    ensures
        out@ == trim_line_end(chars@),
{
    let mut end: usize = chars.len();
    assert(chars@.take(end as int) =~= chars@);
    while end > 0 && (chars[end - 1] == '\r' || chars[end - 1] == '\n')
        invariant
            end <= chars@.len(),
            trim_line_end(chars@) == trim_line_end(chars@.take(end as int)),
        decreases end,
    {
        assert(chars@.take(end as int).drop_last() =~= chars@.take(end - 1));
        end -= 1;
    }
    assert(end > 0 ==> chars@.take(end as int).last() == chars@[end - 1]);
    assert(chars@.subrange(0, end as int) =~= chars@.take(end as int));
    slice_subrange(chars, 0, end)
}

/// The index of the first `c`, or the length when there is none.
pub fn find_char(chars: &[char], c: char) -> (at: usize)
    ensures
        at == position(chars@, c),
        at <= chars@.len(),
        at < chars@.len() <==> chars@.contains(c),
{
    let mut i: usize = 0;
    while i < chars.len() && chars[i] != c
        invariant
            i <= chars@.len(),
            forall|j: int| 0 <= j < i ==> #[trigger] chars@[j] != c,
        decreases chars@.len() - i,
    {
        i += 1;
    }
    proof {
        lemma_position_unique(chars@, c, i as int);
        lemma_position(chars@, c);
    }
    i
}

/// Whether `c` occurs.
pub fn contains_char(chars: &[char], c: char) -> (found: bool)
    ensures
        found == chars@.contains(c),
{
    find_char(chars, c) < chars.len()
}

/// The views of a list of character slices.
pub open spec fn pieces_view(pieces: Seq<&[char]>) -> Seq<Seq<char>> {
    pieces.map_values(|p: &[char]| p@)
}

/// The pieces between the separators `c`.
pub fn split_at_char<'a>(chars: &'a [char], c: char) -> (pieces: Vec<&'a [char]>)
    ensures
        pieces_view(pieces@) == split(chars@, c),
        pieces@.len() >= 1,
{
    let mut pieces: Vec<&'a [char]> = Vec::new();
    let mut rest: &'a [char] = chars;
    assert(pieces_view(pieces@) + split(rest@, c) =~= split(chars@, c));
    loop
        invariant
            pieces_view(pieces@) + split(rest@, c) == split(chars@, c),
        decreases rest@.len(),
    {
        let at = find_char(rest, c);
        let ghost seen = pieces@;
        if at == rest.len() {
            pieces.push(rest);
            assert(pieces_view(pieces@) =~= pieces_view(seen).push(rest@));
            assert(pieces_view(pieces@) =~= pieces_view(seen) + split(rest@, c));
            return pieces;
        }
        let piece = slice_subrange(rest, 0, at);
        let tail = slice_subrange(rest, at + 1, rest.len());
        pieces.push(piece);
        proof {
            assert(piece@ =~= before(rest@, c));
            assert(tail@ =~= rest@.skip(position(rest@, c) + 1));
            assert(pieces_view(pieces@) =~= pieces_view(seen).push(piece@));
            assert(pieces_view(pieces@) + split(tail@, c) =~= pieces_view(seen) + split(rest@, c));
        }
        rest = tail;
    }
}

/// Whether the characters start with `prefix`.
pub fn has_prefix(chars: &[char], prefix: &str) -> (b: bool)
    ensures
        b == starts_with(chars@, prefix@),
{
    let wanted = chars_of(prefix);
    if wanted.len() > chars.len() {
        return false;
    }
    let head = slice_subrange(chars, 0, wanted.len());
    assert(head@ =~= chars@.take(prefix@.len() as int));
    chars_spell(head, prefix)
}

/// Whether the characters end with `suffix`.
pub fn has_suffix(chars: &[char], suffix: &str) -> (b: bool)
    ensures
        b == ends_with(chars@, suffix@),
{
    let wanted = chars_of(suffix);
    if wanted.len() > chars.len() {
        return false;
    }
    let tail = slice_subrange(chars, chars.len() - wanted.len(), chars.len());
    assert(tail@ =~= chars@.skip(chars@.len() - suffix@.len()));
    chars_spell(tail, suffix)
}

fn name_char(c: char) -> (b: bool)
    ensures
        b == is_name_char(c),
{
    ('A' <= c && c <= 'Z') || ('a' <= c && c <= 'z') || ('0' <= c && c <= '9') || c == '-' || c
        == '_' || c == '.'
}

/// Whether `value` is a name of at most `max` bytes. Its characters are all ASCII, so they
/// count as bytes do.
pub fn is_plain_name(value: &str, max: usize) -> (b: bool)
    ensures
        b == plain_name(value@, max as nat),
{
    let chars = chars_of(value);
    if chars.len() == 0 || chars.len() > max {
        return false;
    }
    let mut i: usize = 0;
    while i < chars.len()
        invariant
            chars@ == value@,
            i <= chars@.len(),
            forall|j: int| 0 <= j < i ==> is_name_char(#[trigger] value@[j]),
        decreases chars@.len() - i,
    {
        if !name_char(chars[i]) {
            return false;
        }
        i = i + 1;
    }
    true
}

/// Whether `part` stands somewhere in the characters.
pub fn has_part(chars: &[char], part: &str) -> (b: bool)
    ensures
        b == contains_text(chars@, part@),
{
    let mut i: usize = 0;
    loop
        invariant
            i <= chars@.len(),
            forall|j: int| 0 <= j < i ==> !starts_with(#[trigger] chars@.skip(j), part@),
        decreases chars@.len() - i,
    {
        let rest = slice_subrange(chars, i, chars.len());
        assert(rest@ =~= chars@.skip(i as int));
        if has_prefix(rest, part) {
            return true;
        }
        if i == chars.len() {
            assert forall|j: int| 0 <= j <= chars@.len() implies !(#[trigger] starts_with(
                chars@.skip(j),
                part@,
            )) by {
                assert(chars@.skip(j).len() <= chars@.len());
            }
            return false;
        }
        i = i + 1;
    }
}

/// The first word of the characters, and what stands behind it.
pub fn split_word<'a>(chars: &'a [char]) -> (parts: (&'a [char], &'a [char]))
    ensures
        parts.0@ == first_word(chars@),
        parts.1@ == after_first_word(chars@),
{
    let mut start: usize = 0;
    assert(chars@.skip(0) =~= chars@);
    while start < chars.len() && whitespace(chars[start])
        invariant
            start <= chars@.len(),
            trim_start(chars@.skip(start as int)) == trim_start(chars@),
        decreases chars@.len() - start,
    {
        assert(chars@.skip(start as int).drop_first() =~= chars@.skip(start + 1));
        start = start + 1;
    }
    let ghost stripped = trim_start(chars@);
    assert(stripped == chars@.skip(start as int));
    let mut end: usize = start;
    assert(stripped.take(0) + until_whitespace(stripped.skip(0)) =~= until_whitespace(stripped)) by {
        assert(stripped.skip(0) =~= stripped);
    }
    while end < chars.len() && !whitespace(chars[end])
        invariant
            start <= end <= chars@.len(),
            stripped == chars@.skip(start as int),
            until_whitespace(stripped) == stripped.take(end - start) + until_whitespace(
                stripped.skip(end - start),
            ),
        decreases chars@.len() - end,
    {
        proof {
            let rest = stripped.skip(end - start);
            assert(rest.drop_first() =~= stripped.skip(end + 1 - start));
            assert(until_whitespace(rest) == seq![rest[0]] + until_whitespace(rest.drop_first()));
            assert(stripped.take(end + 1 - start) =~= stripped.take(end - start).push(rest[0]));
            assert(stripped.take(end - start) + (seq![rest[0]] + until_whitespace(
                rest.drop_first(),
            )) =~= stripped.take(end + 1 - start) + until_whitespace(rest.drop_first()));
        }
        end = end + 1;
    }
    let word = slice_subrange(chars, start, end);
    let rest = slice_subrange(chars, end, chars.len());
    proof {
        assert(until_whitespace(stripped.skip(end - start)) =~= Seq::<char>::empty());
        assert(word@ =~= stripped.take(end - start));
        assert(first_word(chars@) =~= word@);
        assert(rest@ =~= stripped.skip(end - start));
    }
    (word, rest)
}

/// The ASCII lower-case form of the characters.
pub fn lowered(chars: &[char]) -> (out: Vec<char>)
    ensures
        out@ == lower(chars@),
{
    let mut out: Vec<char> = Vec::new();
    let mut i: usize = 0;
    while i < chars.len()
        invariant
            i <= chars@.len(),
            out@ == lower(chars@.take(i as int)),
        decreases chars@.len() - i,
    {
        let c = chars[i];
        let low = lowered_char(c);
        out.push(low);
        assert(chars@.take(i + 1) =~= chars@.take(i as int).push(c));
        assert(out@ =~= lower(chars@.take(i + 1)));
        i += 1;
    }
    assert(chars@.take(i as int) =~= chars@);
    out
}

fn lowered_char(c: char) -> (low: char)
    ensures
        low == lower_char(c),
{
    let code: u32 = c as u32;
    if 0x41 <= code && code <= 0x5a {
        let byte: u8 = (code + 32) as u8;
        byte as char
    } else {
        c
    }
}

fn digit_of(n: u64) -> (c: char)
    requires
        n < 10,
    ensures
        c == digit(n as nat),
{
    let byte: u8 = 48 + (n as u8);
    byte as char
}

/// The decimal numeral of `n`.
pub fn decimal_text(n: u64) -> (s: String)
    ensures
        s@ == decimal(n as nat),
    decreases n,
{
    if n < 10 {
        let mut s: String = String::new();
        s.push(digit_of(n));
        assert(s@ =~= seq![digit(n as nat)]);
        s
    } else {
        let mut s = decimal_text(n / 10);
        s.push(digit_of(n % 10));
        s
    }
}

/// The decimal numeral of `n`, filled with leading zeros up to `width` characters.
pub fn padded_decimal_text(n: u64, width: usize) -> (s: String)
    ensures
        s@ == zero_filled(decimal(n as nat), width as nat),
{
    let numeral = decimal_text(n);
    let digits = chars_of(numeral.as_str()).len();
    if digits >= width {
        return numeral;
    }
    let mut zeros: String = String::new();
    let mut filled: usize = digits;
    assert(zeros@ + numeral@ =~= numeral@);
    while filled < width
        invariant
            numeral@ == decimal(n as nat),
            digits == numeral@.len(),
            filled <= width,
            zeros@.len() == filled - digits,
            forall|i: int| 0 <= i < zeros@.len() ==> #[trigger] zeros@[i] == '0',
            zero_filled(numeral@, width as nat) == zero_filled(zeros@ + numeral@, width as nat),
        decreases width - filled,
    {
        let ghost before_push = zeros@;
        zeros.push('0');
        filled += 1;
        assert(seq!['0'] + (before_push + numeral@) =~= zeros@ + numeral@);
    }
    append_text(zeros, numeral.as_str())
}

/// `s` followed by `t`.
pub fn append_text(s: String, t: &str) -> (r: String)
    ensures
        r@ == s@ + t@,
{
    let mut r = s;
    vstd::string::StringExecFns::append(&mut r, t);
    r
}

fn digit_number(c: char) -> (n: Option<u64>)
    ensures
        (match n {
            Some(v) => is_digit(c) && v == c as nat - 48,
            None => !is_digit(c),
        }),
{
    let code: u32 = c as u32;
    if code < 48 || 57 < code {
        None
    } else {
        Some((code - 48) as u64)
    }
}

/// The number that the characters denote, when it is at most `max`.
pub fn parse_unsigned(chars: &[char], max: u64) -> (n: Option<u64>)
    ensures
        (match n {
            Some(v) => parsed_unsigned(chars@, max as nat) == Some(v as nat),
            None => parsed_unsigned(chars@, max as nat) is None,
        }),
{
    let digits = if chars.len() > 0 && chars[0] == '+' {
        slice_subrange(chars, 1, chars.len())
    } else {
        chars
    };
    assert(chars@.len() > 0 ==> chars@.subrange(1, chars@.len() as int) =~= chars@.drop_first());
    if digits.len() == 0 {
        return None;
    }
    let mut value: u64 = 0;
    let mut i: usize = 0;
    while i < digits.len()
        invariant
            i <= digits@.len(),
            all_digits(digits@.take(i as int)),
            value == digits_value(digits@.take(i as int)),
            value <= max,
            digits@.len() > 0,
            digits@ == (if chars@.len() > 0 && chars@[0] == '+' {
                chars@.drop_first()
            } else {
                chars@
            }),
        decreases digits@.len() - i,
    {
        let ghost upto = digits@.take(i + 1);
        assert(upto.drop_last() =~= digits@.take(i as int));
        let step: u64 = match digit_number(digits[i]) {
            Some(d) => d,
            None => {
                assert(!is_digit(digits@[i as int]));
                return None;
            },
        };
        assert(upto.last() == digits@[i as int]);
        if step > max || value > (max - step) / 10 {
            proof {
                assert(digits_value(upto) == value * 10 + step);
                if step <= max {
                    assert(value * 10 + step > max) by (nonlinear_arith)
                        requires
                            value > (max - step) / 10,
                            step <= max,
                    ;
                }
                lemma_digits_grow(digits@, i + 1);
            }
            return None;
        }
        assert(value * 10 + step <= max) by (nonlinear_arith)
            requires
                value <= (max - step) / 10,
                step <= max,
        ;
        value = value * 10 + step;
        assert forall|k: int| 0 <= k < upto.len() implies is_digit(#[trigger] upto[k]) by {
            if k < i {
                assert(digits@.take(i as int)[k] == upto[k]);
            }
        }
        i += 1;
    }
    assert(digits@.take(i as int) =~= digits@);
    Some(value)
}

/// A numeral denotes at least what its leading digits denote.
proof fn lemma_digits_grow(s: Seq<char>, n: int)
    requires
        0 <= n <= s.len(),
    ensures
        digits_value(s.take(n)) <= digits_value(s),
    decreases s.len(),
{
    if n < s.len() {
        lemma_digits_grow(s.drop_last(), n);
        assert(s.drop_last().take(n) =~= s.take(n));
    } else {
        assert(s.take(n) =~= s);
    }
}

/// The length of a text in bytes is that of its UTF-8 encoding: as many bytes as characters
/// for ASCII text, and never fewer.
pub proof fn law_byte_length(s: Seq<char>)
    ensures
        byte_length(s) == encode_utf8(s).len(),
        byte_length(s) >= s.len(),
        vstd::utf8::is_ascii_chars(s) ==> byte_length(s) == s.len(),
    decreases s.len(),
{
    if vstd::utf8::is_ascii_chars(s) {
        vstd::utf8::is_ascii_chars_encode_utf8(s);
    }
    if s.len() > 0 {
        law_byte_length(s.drop_first());
    }
}

proof fn lemma_trim_start(s: Seq<char>) -> (i: int)
    ensures
        0 <= i <= s.len(),
        trim_start(s) == s.skip(i),
        forall|j: int| 0 <= j < i ==> is_whitespace(#[trigger] s[j]),
        i < s.len() ==> !is_whitespace(s[i]),
    decreases s.len(),
{
    if s.len() > 0 && is_whitespace(s[0]) {
        let rest = s.drop_first();
        let i = lemma_trim_start(rest);
        assert(rest.skip(i) =~= s.skip(i + 1));
        assert forall|j: int| 0 <= j < i + 1 implies is_whitespace(#[trigger] s[j]) by {
            if j > 0 {
                assert(rest[j - 1] == s[j]);
            }
        }
        i + 1
    } else {
        assert(s.skip(0) =~= s);
        0
    }
}

proof fn lemma_trim_end(s: Seq<char>) -> (i: int)
    ensures
        0 <= i <= s.len(),
        trim_end(s) == s.take(i),
        forall|j: int| i <= j < s.len() ==> is_whitespace(#[trigger] s[j]),
        i > 0 ==> !is_whitespace(s[i - 1]),
    decreases s.len(),
{
    if s.len() > 0 && is_whitespace(s.last()) {
        let rest = s.drop_last();
        let i = lemma_trim_end(rest);
        assert(rest.take(i) =~= s.take(i));
        assert forall|j: int| i <= j < s.len() implies is_whitespace(#[trigger] s[j]) by {
            if j < rest.len() {
                assert(rest[j] == s[j]);
            }
        }
        i
    } else {
        assert(s.take(s.len() as int) =~= s);
        s.len() as int
    }
}

/// Trimming a text takes whitespace away at both ends, all of it and nothing else.
pub proof fn law_trim(s: Seq<char>)
    ensures
        exists|i: int, j: int|
            0 <= i <= j <= s.len() && #[trigger] s.subrange(i, j) == trim(s) && (forall|k: int|
                0 <= k < i || j <= k < s.len() ==> is_whitespace(#[trigger] s[k])),
        trim(s).len() > 0 ==> !is_whitespace(trim(s)[0]) && !is_whitespace(trim(s).last()),
{
    let i = lemma_trim_start(s);
    let rest = trim_start(s);
    let k = lemma_trim_end(rest);
    assert(rest.take(k) =~= s.subrange(i, i + k));
    assert forall|l: int| 0 <= l < i || i + k <= l < s.len() implies is_whitespace(
        #[trigger] s[l],
    ) by {
        if l >= i {
            assert(rest[l - i] == s[l]);
        }
    }
    assert(s.subrange(i, i + k) == trim(s));
    if k > 0 {
        assert(trim(s)[0] == s[i]);
        assert(trim(s).last() == rest[k - 1]);
    }
}

/// Whitespace around a text that has none at its ends is what trimming takes away.
pub proof fn law_trim_undoes_padding(before: Seq<char>, core: Seq<char>, after: Seq<char>)
    requires
        forall|k: int| 0 <= k < before.len() ==> is_whitespace(#[trigger] before[k]),
        forall|k: int| 0 <= k < after.len() ==> is_whitespace(#[trigger] after[k]),
        core.len() > 0 ==> !is_whitespace(core[0]) && !is_whitespace(core.last()),
    ensures
        trim(before + core + after) == core,
{
    let s = before + core + after;
    let i = lemma_trim_start(s);
    let rest = trim_start(s);
    let k = lemma_trim_end(rest);
    assert forall|l: int| 0 <= l < before.len() implies s[l] == before[l] by {}
    assert forall|l: int| 0 <= l < core.len() implies s[before.len() + l] == core[l] by {}
    assert forall|l: int| 0 <= l < after.len() implies s[before.len() + core.len() + l]
        == after[l] by {}
    if core.len() > 0 {
        let b = before.len() as int;
        assert(s[b] == core[0]);
        if i < b {
            assert(is_whitespace(before[i]));
            assert(s[i] == before[i]);
        }
        if i > b {
            assert(is_whitespace(s[b]));
        }
        assert(i == b);
        let e = core.len() as int;
        assert(rest[e - 1] == core.last());
        if k > e {
            assert(rest[k - 1] == s[i + k - 1]);
            assert(s[b + e + (k - 1 - e)] == after[k - 1 - e]);
        }
        if k < e {
            assert(is_whitespace(rest[e - 1]));
        }
        assert(rest.take(k) =~= core);
    } else {
        if i < s.len() {
            if i < before.len() {
                assert(s[i] == before[i]);
            } else {
                assert(s[i] == after[i - before.len()]);
            }
        }
        assert(rest.len() == 0);
        assert(rest.take(k) =~= core);
    }
}

/// A line without its end is what stands before the carriage returns and line feeds that
/// end it.
pub proof fn law_trim_line_end(s: Seq<char>)
    ensures
        trim_line_end(s).len() <= s.len(),
        trim_line_end(s) == s.take(trim_line_end(s).len() as int),
        forall|k: int|
            trim_line_end(s).len() <= k < s.len() ==> #[trigger] s[k] == '\r' || s[k] == '\n',
        trim_line_end(s).len() > 0 ==> trim_line_end(s).last() != '\r' && trim_line_end(s).last()
            != '\n',
    decreases s.len(),
{
    if s.len() > 0 && (s.last() == '\r' || s.last() == '\n') {
        let rest = s.drop_last();
        law_trim_line_end(rest);
        assert(rest.take(trim_line_end(s).len() as int) =~= s.take(trim_line_end(s).len() as int));
        assert forall|k: int| trim_line_end(s).len() <= k < s.len() implies #[trigger] s[k] == '\r'
            || s[k] == '\n' by {
            if k < rest.len() {
                assert(rest[k] == s[k]);
            }
        }
    } else {
        assert(s.take(s.len() as int) =~= s);
    }
}

/// The first separator parts a text into what stands before it and what stands after it.
pub proof fn law_before_and_after(s: Seq<char>, c: char)
    ensures
        s.contains(c) ==> s == before(s, c) + seq![c] + after(s, c),
        !before(s, c).contains(c),
        !s.contains(c) ==> before(s, c) == s && after(s, c).len() == 0,
{
    lemma_position(s, c);
    let p = position(s, c);
    if before(s, c).contains(c) {
        let i = choose|i: int| 0 <= i < before(s, c).len() && before(s, c)[i] == c;
        assert(s[i] == c);
    }
    if s.contains(c) {
        assert(s =~= before(s, c) + seq![c] + after(s, c));
    } else {
        assert(s.take(p) =~= s);
    }
}

proof fn lemma_position_of_join(a: Seq<char>, c: char, b: Seq<char>)
    requires
        !a.contains(c),
    ensures
        position(a + seq![c] + b, c) == a.len(),
        (a + seq![c] + b).contains(c),
        before(a + seq![c] + b, c) == a,
        after(a + seq![c] + b, c) == b,
{
    let s = a + seq![c] + b;
    assert(s[a.len() as int] == c);
    assert forall|j: int| 0 <= j < a.len() implies #[trigger] s[j] != c by {
        assert(s[j] == a[j]);
        assert(a.contains(a[j]));
    }
    lemma_position_unique(s, c, a.len() as int);
    lemma_position(s, c);
    assert(s.take(a.len() as int) =~= a);
    assert(s.skip(a.len() as int + 1) =~= b);
}

/// Splitting takes a text apart at every separator: a text without one is its only piece,
/// and a piece before a separator is followed by the pieces of the rest.
pub proof fn law_split(a: Seq<char>, c: char, b: Seq<char>)
    requires
        !a.contains(c),
    ensures
        split(a, c) == seq![a],
        split(a + seq![c] + b, c) == seq![a] + split(b, c),
        before(a + seq![c] + b, c) == a,
        after(a + seq![c] + b, c) == b,
{
    lemma_position_of_join(a, c, b);
    lemma_position(a, c);
    let s = a + seq![c] + b;
    assert(split(s, c) =~= seq![a] + split(b, c)) by {
        assert(s.take(position(s, c)) =~= a);
        assert(s.skip(position(s, c) + 1) =~= b);
    }
    assert(split(a, c) =~= seq![a]);
}

/// A text starts or ends with another exactly where it is that text with something behind
/// it or before it.
pub proof fn law_starts_and_ends(s: Seq<char>, part: Seq<char>, other: Seq<char>)
    ensures
        starts_with(part + other, part),
        ends_with(other + part, part),
        starts_with(s, part) ==> part.len() <= s.len() && s == part + s.skip(part.len() as int),
        ends_with(s, part) ==> part.len() <= s.len() && s == s.take(s.len() - part.len()) + part,
{
    assert((part + other).take(part.len() as int) =~= part);
    assert((other + part).skip((other + part).len() - part.len()) =~= part);
    if starts_with(s, part) {
        assert(s =~= part + s.skip(part.len() as int));
    }
    if ends_with(s, part) {
        assert(s =~= s.take(s.len() - part.len()) + part);
    }
}

/// A text contains another exactly where that one stands somewhere in it.
pub proof fn law_contains(s: Seq<char>, part: Seq<char>, front: Seq<char>, back: Seq<char>)
    ensures
        contains_text(front + part + back, part),
        contains_text(s, part) ==> exists|i: int|
            0 <= i <= s.len() - part.len() && #[trigger] s.subrange(i, i + part.len()) == part,
{
    let whole = front + part + back;
    assert(whole.skip(front.len() as int).take(part.len() as int) =~= part);
    assert(starts_with(whole.skip(front.len() as int), part));
    if contains_text(s, part) {
        let i = choose|i: int| 0 <= i <= s.len() && #[trigger] starts_with(s.skip(i), part);
        assert(s.skip(i).take(part.len() as int) =~= s.subrange(i, i + part.len()));
    }
}

/// The lower-case form has a small letter for each capital one and is the same elsewhere.
pub proof fn law_lower(s: Seq<char>)
    ensures
        lower(s).len() == s.len(),
        forall|i: int|
            0 <= i < s.len() && !('A' <= s[i] <= 'Z') ==> #[trigger] lower(s)[i] == s[i],
        forall|i: int|
            0 <= i < s.len() && 'A' <= s[i] <= 'Z' ==> #[trigger] lower(s)[i] as u32 == s[i] as u32
                + 32,
{
    assert forall|i: int| 0 <= i < s.len() && 'A' <= s[i] <= 'Z' implies #[trigger] lower(s)[i]
        as u32 == s[i] as u32 + 32 by {
        lemma_lower_char(s[i]);
    }
}

proof fn lemma_lower_char(c: char)
    requires
        'A' <= c <= 'Z',
    ensures
        lower_char(c) as u32 == c as u32 + 32,
{
}

/// A numeral is read digit by digit, each ten times the worth of the one behind it.
pub proof fn law_digits_value(digits: Seq<char>, next: char)
    requires
        is_digit(next),
    ensures
        digits_value(Seq::<char>::empty()) == 0,
        digits_value(digits.push(next)) == 10 * digits_value(digits) + (next as int - '0' as int),
{
    assert(digits.push(next).drop_last() =~= digits);
}

/// The numeral of a number is the one run of digits without needless zeros that reads as
/// this number.
pub proof fn law_decimal(n: nat)
    ensures
        all_digits(decimal(n)),
        digits_value(decimal(n)) == n,
        decimal(n).len() > 0,
        decimal(n).len() > 1 ==> decimal(n)[0] != '0',
        n > 0 ==> decimal(n)[0] != '0',
    decreases n,
{
    lemma_digit(n % 10);
    if n < 10 {
        assert(decimal(n).drop_last() =~= Seq::<char>::empty());
        assert(digits_value(decimal(n)) == n) by {
            reveal_with_fuel(digits_value, 2);
        }
    } else {
        law_decimal(n / 10);
        assert(decimal(n).drop_last() =~= decimal(n / 10));
        assert(decimal(n)[0] == decimal(n / 10)[0]);
    }
}

proof fn lemma_digit(n: nat)
    requires
        n < 10,
    ensures
        is_digit(digit(n)),
        digit(n) as nat == 48 + n,
        digit(n) == '0' <==> n == 0,
{
}

/// Filling a text with zeros puts them before it, up to the width.
pub proof fn law_zero_filled(s: Seq<char>, width: nat)
    ensures
        zero_filled(s, width).len() == (if s.len() < width {
            width
        } else {
            s.len()
        }),
        zero_filled(s, width).skip(zero_filled(s, width).len() - s.len()) == s,
        forall|i: int|
            0 <= i < zero_filled(s, width).len() - s.len() ==> #[trigger] zero_filled(s, width)[i]
                == '0',
    decreases width - s.len(),
{
    if s.len() < width {
        let longer = seq!['0'] + s;
        law_zero_filled(longer, width);
        let filled = zero_filled(s, width);
        let k = filled.len() - longer.len();
        assert(filled.skip(k + 1) =~= filled.skip(k).skip(1));
        assert(longer.skip(1) =~= s);
        assert(filled.skip(k)[0] == filled[k]);
    } else {
        assert(s.skip(0) =~= s);
    }
}

/// A number is read back from its numeral, with or without a plus sign, exactly where it is
/// within the bound; nothing but digits is read.
pub proof fn law_parsed_unsigned(n: nat, max: nat, s: Seq<char>)
    ensures
        parsed_unsigned(decimal(n), max) == (if n <= max {
            Some(n)
        } else {
            None::<nat>
        }),
        parsed_unsigned(seq!['+'] + decimal(n), max) == parsed_unsigned(decimal(n), max),
        parsed_unsigned(s, max) matches Some(value) ==> value <= max && s.len() > 0 && forall|i: int|
            1 <= i < s.len() ==> is_digit(#[trigger] s[i]),
        s.len() > 0 && all_digits(s) && digits_value(s) <= max ==> parsed_unsigned(s, max) == Some(
            digits_value(s),
        ),
        parsed_unsigned(s, max) is Some ==> is_digit(s[0]) || (s[0] == '+' && s.len() > 1),
        parsed_unsigned(Seq::<char>::empty(), max) is None,
{
    law_decimal(n);
    let numeral = decimal(n);
    assert(is_digit(numeral[0]));
    let signed = seq!['+'] + numeral;
    assert(signed.drop_first() =~= numeral);
    if parsed_unsigned(s, max) is Some {
        let digits = if s[0] == '+' {
            s.drop_first()
        } else {
            s
        };
        assert forall|i: int| 1 <= i < s.len() implies is_digit(#[trigger] s[i]) by {
            if s[0] == '+' {
                assert(digits[i - 1] == s[i]);
            }
        }
        assert(is_digit(digits[0]));
    }
    if s.len() > 0 && all_digits(s) {
        assert(is_digit(s[0]));
    }
}

proof fn lemma_until_whitespace(word: Seq<char>, rest: Seq<char>)
    requires
        forall|k: int| 0 <= k < word.len() ==> !is_whitespace(#[trigger] word[k]),
        rest.len() > 0 ==> is_whitespace(rest[0]),
    ensures
        until_whitespace(word + rest) == word,
    decreases word.len(),
{
    let s = word + rest;
    if word.len() == 0 {
        assert(s =~= rest);
        assert(until_whitespace(s) =~= word);
    } else {
        let tail = word.drop_first();
        assert forall|k: int| 0 <= k < tail.len() implies !is_whitespace(#[trigger] tail[k]) by {
            assert(tail[k] == word[k + 1]);
        }
        lemma_until_whitespace(tail, rest);
        assert(s.drop_first() =~= tail + rest);
        assert(s[0] == word[0]);
        assert(until_whitespace(s) =~= word);
    }
}

/// The first word stands between the whitespace before it and the whitespace or the end
/// behind it.
pub proof fn law_first_word(before: Seq<char>, word: Seq<char>, rest: Seq<char>)
    requires
        forall|k: int| 0 <= k < before.len() ==> is_whitespace(#[trigger] before[k]),
        forall|k: int| 0 <= k < word.len() ==> !is_whitespace(#[trigger] word[k]),
        word.len() > 0,
        rest.len() > 0 ==> is_whitespace(rest[0]),
    ensures
        first_word(before + word + rest) == word,
        after_first_word(before + word + rest) == rest,
{
    let s = before + word + rest;
    let i = lemma_trim_start(s);
    let b = before.len() as int;
    assert(s[b] == word[0]);
    if i < b {
        assert(s[i] == before[i]);
    }
    if i > b {
        assert(is_whitespace(s[b]));
    }
    assert(s.skip(b) =~= word + rest);
    lemma_until_whitespace(word, rest);
    assert((word + rest).skip(word.len() as int) =~= rest);
}

/// A plain name is short, not empty, and made of letters, digits and `-`, `_`, `.` alone.
pub proof fn law_plain_names(value: Seq<char>, max: nat)
    ensures
        plain_name(value, max) <==> value.len() != 0 && value.len() <= max && forall|i: int|
            0 <= i < value.len() ==> {
                ||| 'a' <= #[trigger] value[i] <= 'z'
                ||| 'A' <= value[i] <= 'Z'
                ||| '0' <= value[i] <= '9'
                ||| value[i] == '-'
                ||| value[i] == '_'
                ||| value[i] == '.'
            },
{
}

} // verus!
