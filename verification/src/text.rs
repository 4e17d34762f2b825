//! Text as sequences of characters: reading a string into characters and back, decimal numbers,
//! lines, prefixes, and cutting a string at a byte limit.
use vstd::prelude::*;
use vstd::utf8::{decode_utf8, encode_utf8, is_char_boundary, valid_utf8};
#[allow(unused_imports)]
use vstd::string::StringExecFns;

verus! {

/// `String::push` of std: puts the character behind the last one and changes nothing else.
pub assume_specification[ String::push ](s: &mut String, c: char)
    ensures
        final(s)@ == old(s)@.push(c),
;

/// Calls `std::str::from_utf8`: a string with exactly these bytes if they are well-formed UTF-8,
/// and nothing otherwise.
#[verifier::external_body]
pub(crate) fn utf8_text(data: &[u8]) -> (text: Option<&str>)
    ensures
        match text {
            Some(t) => valid_utf8(data@) && t@ == decode_utf8(data@),
            None => !valid_utf8(data@),
        },
{
    std::str::from_utf8(data).ok()
}

/// The characters of a string.
pub fn chars_of(s: &str) -> (chars: Vec<char>)
    ensures
        chars@ == s@,
{
    let mut chars: Vec<char> = Vec::new();
    for c in it: s.chars()
        invariant
            it.seq() == s@,
            chars@ == it.seq().take(it.index() as int),
    {
        chars.push(c);
    }
    chars
}

/// The string made of the characters from `from` up to `to`.
pub fn text_between(chars: &Vec<char>, from: usize, to: usize) -> (text: String)
    requires
        from <= to <= chars.len(),
    ensures
        text@ == chars@.subrange(from as int, to as int),
{
    let mut text = String::new();
    let mut i: usize = from;
    while i < to
        invariant
            from <= i <= to <= chars.len(),
            text@ == chars@.subrange(from as int, i as int),
        decreases to - i,
    {
        text.push(chars[i]);
        i += 1;
    }
    text
}

/// Two texts, one behind the other.
pub fn join2(a: &str, b: &str) -> (text: String)
    ensures
        text@ == a@ + b@,
{
    let mut text: String = a.to_owned();
    text.append(b);
    text
}

/// Whether two texts are the same.
pub fn same_text(a: &str, b: &str) -> (same: bool)
    ensures
        same == (a@ == b@),
{
    let left: Vec<char> = chars_of(a);
    let right: Vec<char> = chars_of(b);
    if left.len() != right.len() {
        return false;
    }
    let same: bool = has_prefix(&left, &right);
    assert(left@.take(right@.len() as int) =~= left@);
    same
}

/// Whether two dots in a row stand at position `i`.
pub open spec fn dots_at(s: Seq<char>, i: int) -> bool {
    0 <= i && i + 1 < s.len() && s[i] == '.' && s[i + 1] == '.'
}

/// Whether the text holds `..` anywhere.
pub open spec fn has_dots(s: Seq<char>) -> bool {
    exists|i: int| dots_at(s, i)
}

/// Whether the character occurs.
pub fn has_char(chars: &Vec<char>, c: char) -> (found: bool)
    ensures
        found == chars@.contains(c),
{
    let mut i: usize = 0;
    while i < chars.len()
        invariant
            i <= chars.len(),
            forall|j: int| 0 <= j < i ==> chars@[j] != c,
        decreases chars.len() - i,
    {
        if chars[i] == c {
            assert(chars@[i as int] == c);
            return true;
        }
        i += 1;
    }
    false
}

/// Whether `..` occurs.
pub fn has_two_dots(chars: &Vec<char>) -> (found: bool)
    ensures
        found == has_dots(chars@),
{
    let mut i: usize = 0;
    while i < chars.len() && i + 1 < chars.len()
        invariant
            i <= chars.len(),
            forall|j: int| 0 <= j < i ==> !dots_at(chars@, j),
        decreases chars.len() - i,
    {
        if chars[i] == '.' && chars[i + 1] == '.' {
            assert(dots_at(chars@, i as int));
            return true;
        }
        i += 1;
    }
    false
}

/// Whether `chars` begins with `prefix`.
pub fn has_prefix(chars: &Vec<char>, prefix: &Vec<char>) -> (yes: bool)
    ensures
        yes == prefix@.is_prefix_of(chars@),
{
    if prefix.len() > chars.len() {
        return false;
    }
    let mut i: usize = 0;
    while i < prefix.len()
        invariant
            i <= prefix.len() <= chars.len(),
            forall|j: int| 0 <= j < i ==> prefix@[j] == chars@[j],
        decreases prefix.len() - i,
    {
        if chars[i] != prefix[i] {
            assert(prefix@[i as int] != chars@.take(prefix@.len() as int)[i as int]);
            return false;
        }
        i += 1;
    }
    assert(prefix@ =~= chars@.take(prefix@.len() as int));
    true
}

/// The decimal digit of a number below ten.
pub open spec fn digit_char(d: nat) -> char {
    ('0' as int + d) as char
}

/// A number in decimal, without leading zeros.
pub open spec fn decimal(n: nat) -> Seq<char>
    decreases n,
{
    if n < 10 {
        seq![digit_char(n)]
    } else {
        decimal(n / 10).push(digit_char(n % 10))
    }
}

/// Puts the number in decimal behind the text.
pub fn push_decimal(text: &mut String, n: u64)
    ensures
        final(text)@ == old(text)@ + decimal(n as nat),
    decreases n,
{
    if n >= 10 {
        push_decimal(text, n / 10);
    }
    let digit: u8 = 48u8 + (n % 10) as u8;
    text.push(digit as char);
}

/// Whether the character is a decimal digit.
pub open spec fn is_digit(c: char) -> bool {
    '0' <= c && c <= '9'
}

/// The number that a row of digits stands for.
pub open spec fn digits_value(s: Seq<char>) -> nat
    decreases s.len(),
{
    if s.len() == 0 {
        0
    } else {
        digits_value(s.drop_last()) * 10 + (s.last() as int - '0' as int) as nat
    }
}

/// What stands behind an optional leading `+`.
pub open spec fn behind_plus(s: Seq<char>) -> Seq<char> {
    if s.len() > 0 && s[0] == '+' {
        s.skip(1)
    } else {
        s
    }
}

/// The number that the text is: an optional `+`, at least one digit and nothing else, and a value
/// that fits in 64 bits.
pub open spec fn parsed_u64(s: Seq<char>) -> Option<u64> {
    let digits = behind_plus(s);
    if digits.len() > 0 && (forall|i: int| 0 <= i < digits.len() ==> is_digit(#[trigger] digits[i]))
        && digits_value(digits) <= u64::MAX {
        Some(digits_value(digits) as u64)
    } else {
        None
    }
}

proof fn lemma_digits_value_grows(s: Seq<char>, k: int)
    requires
        0 <= k <= s.len(),
    ensures
        digits_value(s.take(k)) <= digits_value(s),
    decreases s.len() - k,
{
    if k < s.len() {
        lemma_digits_value_grows(s, k + 1);
        assert(s.take(k + 1).drop_last() =~= s.take(k));
    } else {
        assert(s.take(k) =~= s);
    }
}

/// Reads a number as std reads a `u64`.
pub fn parse_u64(chars: &Vec<char>) -> (n: Option<u64>)
    ensures
        n == parsed_u64(chars@),
{
    let start: usize = if chars.len() > 0 && chars[0] == '+' {
        1
    } else {
        0
    };
    let ghost digits = behind_plus(chars@);
    assert(digits =~= chars@.skip(start as int));
    if start == chars.len() {
        return None;
    }
    let mut value: u64 = 0;
    let mut i: usize = start;
    while i < chars.len()
        invariant
            start <= i <= chars.len(),
            digits == behind_plus(chars@),
            digits == chars@.skip(start as int),
            value == digits_value(digits.take(i - start)),
            forall|j: int| 0 <= j < i - start ==> is_digit(#[trigger] digits[j]),
        decreases chars.len() - i,
    {
        let c: char = chars[i];
        assert(digits[i - start] == c);
        if !('0' <= c && c <= '9') {
            return None;
        }
        let d: u64 = (c as u32 - 48u32) as u64;
        proof {
            lemma_digits_value_grows(digits, i - start + 1);
            assert(digits.take(i - start + 1).drop_last() =~= digits.take(i - start));
        }
        if value > (u64::MAX - d) / 10 {
            return None;
        }
        value = value * 10 + d;
        i += 1;
    }
    proof {
        assert(digits.take(digits.len() as int) =~= digits);
    }
    Some(value)
}

/// Reading back what `decimal` wrote gives the number.
pub proof fn law_decimal_reads_back(n: u64)
    ensures
        parsed_u64(decimal(n as nat)) == Some(n),
{
    lemma_decimal(n as nat);
    assert(decimal(n as nat)[0] != '+');
}

pub(crate) proof fn lemma_decimal(n: nat)
    ensures
        decimal(n).len() > 0,
        forall|i: int| 0 <= i < decimal(n).len() ==> is_digit(#[trigger] decimal(n)[i]),
        digits_value(decimal(n)) == n,
    decreases n,
{
    if n < 10 {
        let s = decimal(n);
        assert(s.drop_last() =~= Seq::<char>::empty());
        assert(digits_value(s.drop_last()) == 0);
    } else {
        lemma_decimal(n / 10);
        assert(decimal(n).drop_last() =~= decimal(n / 10));
    }
}

/// Where the first line of the text ends: the position of the first newline, or the length.
pub open spec fn line_end(s: Seq<char>) -> nat
    decreases s.len(),
{
    if s.len() == 0 || s[0] == '\n' {
        0
    } else {
        1 + line_end(s.skip(1))
    }
}

/// A line without the carriage return that stood before its newline.
pub open spec fn without_return(s: Seq<char>) -> Seq<char> {
    if s.len() > 0 && s.last() == '\r' {
        s.drop_last()
    } else {
        s
    }
}

/// The lines of a text: each ends at a newline, with or without a carriage return before it, and
/// the last one may lack its newline.
pub open spec fn text_lines(s: Seq<char>) -> Seq<Seq<char>>
    decreases s.len(),
{
    if s.len() == 0 {
        seq![]
    } else if line_end(s) >= s.len() {
        seq![s]
    } else {
        seq![without_return(s.take(line_end(s) as int))] + text_lines(s.skip(line_end(s) as int + 1))
    }
}

pub(crate) proof fn lemma_line_end(s: Seq<char>, k: int)
    requires
        0 <= k <= s.len(),
        forall|j: int| 0 <= j < k ==> s[j] != '\n',
        k < s.len() ==> s[k] == '\n',
    ensures
        line_end(s) == k,
    decreases k,
{
    if k > 0 {
        lemma_line_end(s.skip(1), k - 1);
    }
}

/// A text that begins with a line and its newline.
pub(crate) proof fn lemma_first_line(line: Seq<char>, rest: Seq<char>)
    requires
        !line.contains('\n'),
    ensures
        text_lines(line + seq!['\n'] + rest) == seq![without_return(line)] + text_lines(rest),
{
    let s = line + seq!['\n'] + rest;
    let k = line.len() as int;
    assert forall|j: int| 0 <= j < k implies s[j] != '\n' by {
        assert(line.contains(line[j]));
        assert(s[j] == line[j]);
    }
    lemma_line_end(s, k);
    assert(s.take(k) =~= line);
    assert(s.skip(k + 1) =~= rest);
}

/// The contents of a list of texts.
pub open spec fn char_views(v: Seq<Vec<char>>) -> Seq<Seq<char>> {
    v.map_values(|chars: Vec<char>| chars@)
}

fn chars_between(chars: &Vec<char>, from: usize, to: usize) -> (part: Vec<char>)
    requires
        from <= to <= chars.len(),
    ensures
        part@ == chars@.subrange(from as int, to as int),
{
    let mut part: Vec<char> = Vec::new();
    let mut i: usize = from;
    while i < to
        invariant
            from <= i <= to <= chars.len(),
            part@ == chars@.subrange(from as int, i as int),
        decreases to - i,
    {
        part.push(chars[i]);
        i += 1;
    }
    part
}

/// What stands behind the first `n` characters.
pub fn chars_from(chars: &Vec<char>, n: usize) -> (rest: Vec<char>)
    requires
        n <= chars.len(),
    ensures
        rest@ == chars@.skip(n as int),
{
    chars_between(chars, n, chars.len())
}

/// Cuts a text into its lines.
pub fn split_lines(chars: &Vec<char>) -> (lines: Vec<Vec<char>>)
    ensures
        char_views(lines@) == text_lines(chars@),
{
    let mut lines: Vec<Vec<char>> = Vec::new();
    let mut start: usize = 0;
    let mut i: usize = 0;
    proof {
        assert(chars@.skip(0) =~= chars@);
    }
    while i < chars.len()
        invariant
            start <= i <= chars.len(),
            forall|j: int| start <= j < i ==> chars@[j] != '\n',
            char_views(lines@) + text_lines(chars@.skip(start as int)) == text_lines(chars@),
        decreases chars.len() - i,
    {
        if chars[i] == '\n' {
            let end: usize = if i > start && chars[i - 1] == '\r' {
                i - 1
            } else {
                i
            };
            let ghost rest = chars@.skip(start as int);
            let ghost before = lines@;
            lines.push(chars_between(chars, start, end));
            proof {
                lemma_line_end(rest, i - start);
                assert(rest.take(i - start) =~= chars@.subrange(start as int, i as int));
                assert(without_return(rest.take(i - start)) =~= chars@.subrange(
                    start as int,
                    end as int,
                ));
                assert(rest.skip(i - start + 1) =~= chars@.skip(i + 1));
                assert(char_views(lines@) =~= char_views(before).push(
                    chars@.subrange(start as int, end as int),
                ));
                assert(char_views(lines@) + text_lines(chars@.skip(i + 1)) =~= char_views(before)
                    + text_lines(rest));
            }
            start = i + 1;
        }
        i += 1;
    }
    if start < chars.len() {
        let ghost rest = chars@.skip(start as int);
        let ghost before = lines@;
        lines.push(chars_between(chars, start, chars.len()));
        proof {
            lemma_line_end(rest, rest.len() as int);
            assert(chars@.subrange(start as int, chars@.len() as int) =~= rest);
            assert(char_views(lines@) =~= char_views(before).push(rest));
            assert(char_views(lines@) =~= char_views(before) + text_lines(rest));
        }
    }
    lines
}

/// Where the first segment of a path ends: the position of the first slash, or the length.
pub open spec fn segment_end(s: Seq<char>) -> nat
    decreases s.len(),
{
    if s.len() == 0 || s[0] == '/' {
        0
    } else {
        1 + segment_end(s.skip(1))
    }
}

/// The segments of a path, that is, what stands between its slashes.
pub open spec fn segments(s: Seq<char>) -> Seq<Seq<char>>
    decreases s.len(),
{
    if segment_end(s) >= s.len() {
        seq![s]
    } else {
        seq![s.take(segment_end(s) as int)] + segments(s.skip(segment_end(s) as int + 1))
    }
}

pub(crate) proof fn lemma_segment_end(s: Seq<char>, k: int)
    requires
        0 <= k <= s.len(),
        forall|j: int| 0 <= j < k ==> s[j] != '/',
        k < s.len() ==> s[k] == '/',
    ensures
        segment_end(s) == k,
    decreases k,
{
    if k > 0 {
        lemma_segment_end(s.skip(1), k - 1);
    }
}

pub(crate) proof fn lemma_segment_end_stops(s: Seq<char>)
    ensures
        segment_end(s) <= s.len(),
        forall|j: int| 0 <= j < segment_end(s) ==> s[j] != '/',
        segment_end(s) < s.len() ==> s[segment_end(s) as int] == '/',
    decreases s.len(),
{
    if s.len() > 0 && s[0] != '/' {
        lemma_segment_end_stops(s.skip(1));
        assert forall|j: int| 0 <= j < segment_end(s) implies s[j] != '/' by {
            if j > 0 {
                assert(s[j] == s.skip(1)[j - 1]);
            }
        }
    }
}

/// A path that begins with a segment and its slash.
pub(crate) proof fn lemma_first_segment(segment: Seq<char>, rest: Seq<char>)
    requires
        !segment.contains('/'),
    ensures
        segments(segment + seq!['/'] + rest) == seq![segment] + segments(rest),
{
    let s = segment + seq!['/'] + rest;
    let k = segment.len() as int;
    assert forall|j: int| 0 <= j < k implies s[j] != '/' by {
        assert(segment.contains(segment[j]));
        assert(s[j] == segment[j]);
    }
    lemma_segment_end(s, k);
    assert(s.take(k) =~= segment);
    assert(s.skip(k + 1) =~= rest);
}

/// A path without a slash.
pub(crate) proof fn lemma_only_segment(segment: Seq<char>)
    requires
        !segment.contains('/'),
    ensures
        segments(segment) == seq![segment],
{
    assert forall|j: int| 0 <= j < segment.len() implies segment[j] != '/' by {
        assert(segment.contains(segment[j]));
    }
    lemma_segment_end(segment, segment.len() as int);
}

/// Cuts a path into its segments.
pub fn split_segments(chars: &Vec<char>) -> (parts: Vec<Vec<char>>)
    ensures
        char_views(parts@) == segments(chars@),
{
    let mut parts: Vec<Vec<char>> = Vec::new();
    let mut start: usize = 0;
    let mut i: usize = 0;
    proof {
        assert(chars@.skip(0) =~= chars@);
        assert(char_views(parts@) + segments(chars@) =~= segments(chars@));
    }
    while i < chars.len()
        invariant
            start <= i <= chars.len(),
            forall|j: int| start <= j < i ==> chars@[j] != '/',
            char_views(parts@) + segments(chars@.skip(start as int)) == segments(chars@),
        decreases chars.len() - i,
    {
        if chars[i] == '/' {
            let ghost rest = chars@.skip(start as int);
            let ghost before = parts@;
            parts.push(chars_between(chars, start, i));
            proof {
                lemma_segment_end(rest, i - start);
                assert(rest.take(i - start) =~= chars@.subrange(start as int, i as int));
                assert(rest.skip(i - start + 1) =~= chars@.skip(i + 1));
                assert(char_views(parts@) =~= char_views(before).push(
                    chars@.subrange(start as int, i as int),
                ));
                assert(char_views(parts@) + segments(chars@.skip(i + 1)) =~= char_views(before)
                    + segments(rest));
            }
            start = i + 1;
        }
        i += 1;
    }
    let ghost rest = chars@.skip(start as int);
    let ghost before = parts@;
    parts.push(chars_between(chars, start, chars.len()));
    proof {
        lemma_segment_end(rest, rest.len() as int);
        assert(chars@.subrange(start as int, chars@.len() as int) =~= rest);
        assert(char_views(parts@) =~= char_views(before).push(rest));
        assert(char_views(parts@) =~= char_views(before) + segments(rest));
    }
    parts
}

/// The last position at or before `n` that does not fall inside a character.
pub open spec fn boundary_at_or_before(bytes: Seq<u8>, n: nat) -> nat
    decreases n,
{
    if n == 0 || is_char_boundary(bytes, n as int) {
        n
    } else {
        boundary_at_or_before(bytes, (n - 1) as nat)
    }
}

/// How many bytes of the text are kept by a limit: all of them, or as many whole characters as
/// fit.
pub open spec fn clip_len(text: Seq<char>, limit: nat) -> nat {
    let len = encode_utf8(text).len();
    if len <= limit {
        len
    } else {
        boundary_at_or_before(encode_utf8(text), limit)
    }
}

/// The text cut to at most `limit` bytes, without cutting a character.
pub open spec fn clipped(text: Seq<char>, limit: nat) -> Seq<char> {
    decode_utf8(encode_utf8(text).take(clip_len(text, limit) as int))
}

proof fn lemma_boundary(text: Seq<char>, n: nat)
    requires
        n <= encode_utf8(text).len(),
    ensures
        boundary_at_or_before(encode_utf8(text), n) <= n,
        is_char_boundary(encode_utf8(text), boundary_at_or_before(encode_utf8(text), n) as int),
    decreases n,
{
    vstd::utf8::encode_utf8_valid_utf8(text);
    if n > 0 && !is_char_boundary(encode_utf8(text), n as int) {
        lemma_boundary(text, (n - 1) as nat);
    }
}

proof fn lemma_clip_len(text: Seq<char>, limit: nat)
    ensures
        clip_len(text, limit) <= encode_utf8(text).len(),
        clip_len(text, limit) <= limit,
        is_char_boundary(encode_utf8(text), clip_len(text, limit) as int),
{
    vstd::utf8::encode_utf8_valid_utf8(text);
    vstd::utf8::is_char_boundary_start_end_of_seq(encode_utf8(text));
    if limit < encode_utf8(text).len() {
        lemma_boundary(text, limit);
    }
}

/// Cuts a text to at most `limit` bytes. A character that the limit falls inside of is left out.
pub fn clip(text: &str, limit: usize) -> (head: &str)
    ensures
        head@ == clipped(text@, limit as nat),
{
    let ghost bytes = encode_utf8(text@);
    proof {
        lemma_clip_len(text@, limit as nat);
    }
    let len: usize = text.as_bytes().len();
    let mut n: usize = if len <= limit {
        len
    } else {
        limit
    };
    if len > limit {
        while n > 0 && !text.is_char_boundary(n)
            invariant
                bytes == encode_utf8(text@),
                n <= limit,
                boundary_at_or_before(bytes, n as nat) == boundary_at_or_before(
                    bytes,
                    limit as nat,
                ),
            decreases n,
        {
            n -= 1;
        }
    }
    let (head, _) = text.split_at(n);
    proof {
        vstd::utf8::encode_utf8_decode_utf8(head@);
    }
    head
}

/// Cutting a text keeps its beginning, keeps within the limit, and leaves a text that is short
/// enough as it is.
pub proof fn law_clipping_keeps_the_beginning(text: Seq<char>, limit: nat)
    ensures
        clipped(text, limit).is_prefix_of(text),
        encode_utf8(clipped(text, limit)).len() <= limit,
        encode_utf8(text).len() <= limit ==> clipped(text, limit) == text,
{
    let bytes = encode_utf8(text);
    let n = clip_len(text, limit) as int;
    lemma_clip_len(text, limit);
    vstd::utf8::encode_utf8_valid_utf8(text);
    vstd::utf8::encode_utf8_decode_utf8(text);
    vstd::utf8::valid_utf8_split(bytes, n);
    vstd::utf8::decode_utf8_split(bytes, n);
    vstd::utf8::decode_utf8_encode_utf8(bytes.subrange(0, n));
    assert(bytes.take(n) =~= bytes.subrange(0, n));
    assert(text.take(clipped(text, limit).len() as int) =~= clipped(text, limit));
    if bytes.len() <= limit {
        assert(bytes.take(n) =~= bytes);
    }
}

/// Two dots in a row are found wherever they stand.
pub proof fn law_dots_are_found(before: Seq<char>, behind: Seq<char>)
    ensures
        has_dots(before + seq!['.', '.'] + behind),
{
    assert(dots_at(before + seq!['.', '.'] + behind, before.len() as int));
}

/// Two dots in a row are found only where they stand.
pub proof fn law_dots_are_found_only_where_they_are(s: Seq<char>)
    requires
        forall|i: int| 0 <= i && i + 1 < s.len() && #[trigger] s[i] == '.' ==> s[i + 1] != '.',
    ensures
        !has_dots(s),
{
    if has_dots(s) {
        let i = choose|i: int| dots_at(s, i);
        assert(s[i] == '.' && s[i + 1] == '.');
    }
}

/// A number is written digit by digit: the last digit stands behind the number without it.
pub proof fn law_decimal_grows_by_a_digit(n: nat, d: nat)
    requires
        d < 10,
    ensures
        decimal(d) == seq![('0' as int + d) as char],
        n > 0 ==> decimal(10 * n + d) == decimal(n).push(('0' as int + d) as char),
{
    if n > 0 {
        assert((10 * n + d) / 10 == n);
        assert((10 * n + d) % 10 == d);
    }
}

/// Two numbers are never written alike.
pub proof fn law_decimals_differ(m: nat, n: nat)
    requires
        decimal(m) == decimal(n),
    ensures
        m == n,
{
    lemma_decimal(m);
    lemma_decimal(n);
}

/// A number is read digit by digit: one more digit makes it ten times as large and adds the digit,
/// as far as 64 bits hold the result.
pub proof fn law_reading_grows_by_a_digit(s: Seq<char>, d: nat)
    requires
        d < 10,
    ensures
        parsed_u64(seq![('0' as int + d) as char]) == Some(d as u64),
        s.len() > 0 && s != seq!['+'] ==> parsed_u64(s.push(('0' as int + d) as char)) == (
        match parsed_u64(s) {
            Some(n) if 10 * n + d <= u64::MAX => Some((10 * n + d) as u64),
            _ => None,
        }),
{
    let c = ('0' as int + d) as char;
    let one = seq![c];
    assert(one.drop_last() =~= Seq::<char>::empty());
    assert(digits_value(one.drop_last()) == 0);
    if s.len() > 0 && s != seq!['+'] {
        let digits = behind_plus(s);
        let more = behind_plus(s.push(c));
        assert(more =~= digits.push(c));
        assert(digits.len() > 0) by {
            if digits.len() == 0 {
                assert(s =~= seq!['+']);
            }
        }
        assert(more.drop_last() =~= digits);
        assert(is_digit(c));
        if forall|i: int| 0 <= i < digits.len() ==> is_digit(#[trigger] digits[i]) {
            assert forall|i: int| 0 <= i < more.len() implies is_digit(#[trigger] more[i]) by {
                if i < digits.len() {
                    assert(more[i] == digits[i]);
                }
            }
        } else {
            let i = choose|i: int| 0 <= i < digits.len() && !is_digit(#[trigger] digits[i]);
            assert(more[i] == digits[i]);
        }
    }
}

/// One plus sign may stand before a number and changes nothing.
pub proof fn law_a_plus_sign_changes_nothing(s: Seq<char>)
    ensures
        s.len() == 0 || s[0] != '+' ==> parsed_u64(seq!['+'] + s) == parsed_u64(s),
{
    assert((seq!['+'] + s).skip(1) =~= s);
}

/// A text is no number if it is empty, or if anything but a digit stands in it, other than a plus
/// sign at the beginning.
pub proof fn law_other_texts_are_no_numbers(s: Seq<char>, i: int)
    requires
        s.len() == 0 || (0 <= i < s.len() && !('0' <= s[i] && s[i] <= '9') && (i > 0 || s[i]
            != '+')),
    ensures
        parsed_u64(s) is None,
{
    if s.len() > 0 {
        let digits = behind_plus(s);
        if s[0] == '+' {
            assert(digits[i - 1] == s[i]);
        } else {
            assert(digits[i] == s[i]);
        }
    }
}

/// A line ends at its newline, and a carriage return before the newline is no part of it; the rest
/// of the text has the other lines. What has no newline is one line, unless it is empty.
pub proof fn law_lines_end_at_newlines(line: Seq<char>, rest: Seq<char>)
    requires
        !line.contains('\n'),
    ensures
        text_lines(line + seq!['\n'] + rest) == seq![
            if line.len() > 0 && line.last() == '\r' {
                line.drop_last()
            } else {
                line
            },
        ] + text_lines(rest),
        line.len() > 0 ==> text_lines(line) == seq![line],
        text_lines(Seq::<char>::empty()) == Seq::<Seq<char>>::empty(),
{
    lemma_first_line(line, rest);
    assert forall|j: int| 0 <= j < line.len() implies line[j] != '\n' by {
        assert(line.contains(line[j]));
    }
    lemma_line_end(line, line.len() as int);
}

/// A slash parts the segments before it from those behind it, and what has no slash is one
/// segment.
pub proof fn law_slashes_part_segments(a: Seq<char>, b: Seq<char>)
    ensures
        segments(a + seq!['/'] + b) == segments(a) + segments(b),
        !a.contains('/') ==> segments(a) == seq![a],
    decreases a.len(),
{
    lemma_segment_end_stops(a);
    let k = segment_end(a) as int;
    if k >= a.len() {
        assert forall|j: int| 0 <= j < a.len() implies a[j] != '/' by {}
        assert(!a.contains('/'));
        lemma_only_segment(a);
        lemma_first_segment(a, b);
    } else {
        let head = a.take(k);
        let tail = a.skip(k + 1);
        assert(a.contains(a[k]));
        assert forall|j: int| 0 <= j < head.len() implies head[j] != '/' by {
            assert(head[j] == a[j]);
        }
        assert(a + seq!['/'] + b =~= head + seq!['/'] + (tail + seq!['/'] + b));
        lemma_first_segment(head, tail + seq!['/'] + b);
        assert(a =~= head + seq!['/'] + tail);
        lemma_first_segment(head, tail);
        law_slashes_part_segments(tail, b);
        assert(segments(a) + segments(b) =~= seq![head] + (segments(tail) + segments(b)));
    }
}

/// A list of texts is seen whole.
pub proof fn law_lists_of_texts_are_seen_whole(texts: Seq<Vec<char>>, i: int)
    requires
        0 <= i < texts.len(),
    ensures
        char_views(texts).len() == texts.len(),
        char_views(texts)[i] == texts[i]@,
{
}

proof fn lemma_encoding_joins(a: Seq<char>, b: Seq<char>)
    ensures
        encode_utf8(a + b) == encode_utf8(a) + encode_utf8(b),
        is_char_boundary(encode_utf8(a + b), encode_utf8(a).len() as int),
    decreases a.len(),
{
    let whole = a + b;
    vstd::utf8::encode_utf8_valid_utf8(whole);
    if a.len() == 0 {
        assert(whole =~= b);
    } else {
        assert(whole.drop_first() =~= a.drop_first() + b);
        lemma_encoding_joins(a.drop_first(), b);
        vstd::utf8::encode_utf8_first_scalar(whole);
        let bytes = encode_utf8(whole);
        let first = vstd::utf8::encode_scalar(a[0] as u32);
        assert(bytes =~= first + encode_utf8(whole.drop_first()));
        assert(vstd::utf8::pop_first_scalar(bytes) =~= encode_utf8(whole.drop_first()));
        assert(bytes =~= encode_utf8(a) + encode_utf8(b));
    }
}

proof fn lemma_no_boundary_between(bytes: Seq<u8>, n: nat, m: nat)
    requires
        boundary_at_or_before(bytes, n) < m <= n,
    ensures
        !is_char_boundary(bytes, m as int),
    decreases n,
{
    if m < n {
        lemma_no_boundary_between(bytes, (n - 1) as nat, m);
    }
}

/// Cutting a text drops no character that would have fitted: with one more it would be too long.
pub proof fn law_clipping_drops_only_what_does_not_fit(text: Seq<char>, limit: nat)
    ensures
        clipped(text, limit).len() < text.len() ==> encode_utf8(
            text.take(clipped(text, limit).len() as int + 1),
        ).len() > limit,
{
    law_clipping_keeps_the_beginning(text, limit);
    let kept = clipped(text, limit);
    if kept.len() < text.len() {
        let more = text.take(kept.len() as int + 1);
        let bytes = encode_utf8(text);
        assert(more =~= kept + seq![text[kept.len() as int]]);
        lemma_encoding_joins(kept, seq![text[kept.len() as int]]);
        assert(text =~= more + text.skip(kept.len() as int + 1));
        lemma_encoding_joins(more, text.skip(kept.len() as int + 1));
        let n = clip_len(text, limit) as int;
        lemma_clip_len(text, limit);
        vstd::utf8::encode_utf8_valid_utf8(text);
        vstd::utf8::valid_utf8_split(bytes, n);
        vstd::utf8::decode_utf8_encode_utf8(bytes.subrange(0, n));
        assert(bytes.take(n) =~= bytes.subrange(0, n));
        assert(encode_utf8(kept).len() == n);
        vstd::utf8::encode_utf8_first_scalar(seq![text[kept.len() as int]]);
        assert(encode_utf8(more).len() > n);
        if encode_utf8(more).len() <= limit {
            assert(bytes.len() > limit);
            lemma_no_boundary_between(bytes, limit, encode_utf8(more).len());
        }
    }
}

} // verus!
