//! Percent-encoding of repository paths for use in URLs.
use crate::text::{chars_of, lemma_segment_end, lemma_segment_end_stops, segment_end, segments};
use vstd::prelude::*;

verus! {

/// The characters that a path segment may hold but a URL may not.
pub open spec fn is_escaped(c: char) -> bool {
    c == ' ' || c == '(' || c == ')' || c == '[' || c == ']' || c == '{' || c == '}' || c == '#'
        || c == '?' || c == '+' || c == '%'
}

/// The upper-case hexadecimal digit of a number below sixteen.
pub open spec fn hex_digit(n: int) -> char {
    if n < 10 {
        ('0' as int + n) as char
    } else {
        ('A' as int + n - 10) as char
    }
}

/// What stands in the URL for a character: itself, or a percent sign and its code in hexadecimal.
pub open spec fn escape(c: char) -> Seq<char> {
    if is_escaped(c) {
        seq!['%', hex_digit(c as int / 16), hex_digit(c as int % 16)]
    } else {
        seq![c]
    }
}

/// A path with its reserved characters escaped.
pub open spec fn encoded(path: Seq<char>) -> Seq<char>
    decreases path.len(),
{
    if path.len() == 0 {
        seq![]
    } else {
        escape(path[0]) + encoded(path.skip(1))
    }
}

fn escape_digits(c: char) -> (digits: Option<(char, char)>)
    ensures
        match digits {
            Some((high, low)) => is_escaped(c) && escape(c) == seq!['%', high, low],
            None => !is_escaped(c),
        },
{
    match c {
        ' ' => Some(('2', '0')),
        '(' => Some(('2', '8')),
        ')' => Some(('2', '9')),
        '[' => Some(('5', 'B')),
        ']' => Some(('5', 'D')),
        '{' => Some(('7', 'B')),
        '}' => Some(('7', 'D')),
        '#' => Some(('2', '3')),
        '?' => Some(('3', 'F')),
        '+' => Some(('2', 'B')),
        '%' => Some(('2', '5')),
        _ => None,
    }
}

/// Percent-encode individual path segments while preserving `/`
pub fn encode_path_for_url(path: &str) -> (url_path: String)
    ensures
        url_path@ == encoded(path@),
{
    let chars: Vec<char> = chars_of(path);
    let mut url_path = String::new();
    let mut i: usize = 0;
    proof {
        assert(chars@.skip(0) =~= chars@);
    }
    while i < chars.len()
        invariant
            i <= chars.len(),
            url_path@ + encoded(chars@.skip(i as int)) == encoded(chars@),
        decreases chars.len() - i,
    {
        let ghost before = url_path@;
        match escape_digits(chars[i]) {
            Some((high, low)) => {
                url_path.push('%');
                url_path.push(high);
                url_path.push(low);
            },
            None => {
                url_path.push(chars[i]);
            },
        }
        proof {
            assert(url_path@ =~= before + escape(chars@[i as int]));
            assert(chars@.skip(i as int).skip(1) =~= chars@.skip(i + 1));
            assert(url_path@ + encoded(chars@.skip(i + 1)) =~= before + encoded(
                chars@.skip(i as int),
            ));
        }
        i += 1;
    }
    url_path
}

/// Encoding works character by character, so it can be done piece by piece.
pub proof fn law_encoding_joins(a: Seq<char>, b: Seq<char>)
    ensures
        encoded(a + b) == encoded(a) + encoded(b),
    decreases a.len(),
{
    if a.len() == 0 {
        assert(a + b =~= b);
    } else {
        assert((a + b).skip(1) =~= a.skip(1) + b);
        law_encoding_joins(a.skip(1), b);
    }
}

proof fn lemma_escape(c: char)
    ensures
        forall|i: int|
            0 <= i < escape(c).len() ==> (!is_escaped(#[trigger] escape(c)[i]) || escape(c)[i]
                == '%'),
        c != '/' ==> !escape(c).contains('/'),
        c == '/' ==> escape(c) == seq!['/'],
        escape(c).len() >= 1,
{
}

/// What comes out holds none of the reserved characters, other than the percent signs of the
/// escapes themselves.
pub proof fn law_encoding_leaves_nothing_reserved(path: Seq<char>, i: int)
    requires
        0 <= i < encoded(path).len(),
    ensures
        !is_escaped(encoded(path)[i]) || encoded(path)[i] == '%',
    decreases path.len(),
{
    if path.len() > 0 {
        lemma_escape(path[0]);
        let head = escape(path[0]);
        if i < head.len() {
            assert(encoded(path)[i] == head[i]);
        } else {
            law_encoding_leaves_nothing_reserved(path.skip(1), i - head.len());
        }
    }
}

proof fn lemma_encoding_adds_no_slash(path: Seq<char>)
    requires
        !path.contains('/'),
    ensures
        !encoded(path).contains('/'),
    decreases path.len(),
{
    if path.len() > 0 {
        assert(path.contains(path[0]));
        assert forall|i: int| 0 <= i < path.skip(1).len() implies path.skip(1)[i] != '/' by {
            assert(path.contains(path[i + 1]));
        }
        lemma_encoding_adds_no_slash(path.skip(1));
        lemma_escape(path[0]);
        let head = escape(path[0]);
        let tail = encoded(path.skip(1));
        assert forall|i: int| 0 <= i < encoded(path).len() implies encoded(path)[i] != '/' by {
            if i < head.len() {
                assert(head.contains(head[i]));
            } else {
                assert(tail.contains(tail[i - head.len()]));
            }
        }
    }
}

/// Slashes stay where they are: the segments of the encoded path are the encoded segments.
pub proof fn law_encoding_keeps_segments(path: Seq<char>)
    ensures
        segments(encoded(path)) == segments(path).map_values(|segment: Seq<char>| encoded(segment)),
    decreases path.len(),
{
    let f = |segment: Seq<char>| encoded(segment);
    lemma_segment_end_stops(path);
    let k = segment_end(path) as int;
    let head = path.take(k);
    lemma_encoding_adds_no_slash(head);
    let whole = encoded(path);
    if k >= path.len() {
        assert(head =~= path);
        assert forall|j: int| 0 <= j < whole.len() implies whole[j] != '/' by {
            assert(whole.contains(whole[j]));
        }
        lemma_segment_end(whole, whole.len() as int);
        assert(segments(path).map_values(f) =~= seq![whole]);
    } else {
        let tail = path.skip(k + 1);
        let slash = seq!['/'];
        assert(path =~= head + (slash + tail));
        law_encoding_joins(head, slash + tail);
        law_encoding_joins(slash, tail);
        assert(slash.skip(1) =~= Seq::<char>::empty());
        assert(encoded(slash.skip(1)) =~= Seq::<char>::empty());
        assert(encoded(slash) =~= slash);
        let front = encoded(head);
        assert(whole =~= front + (slash + encoded(tail)));
        assert forall|j: int| 0 <= j < front.len() implies whole[j] != '/' by {
            assert(front.contains(front[j]));
            assert(whole[j] == front[j]);
        }
        lemma_segment_end(whole, front.len() as int);
        assert(whole.take(front.len() as int) =~= front);
        assert(whole.skip(front.len() as int + 1) =~= encoded(tail));
        law_encoding_keeps_segments(tail);
        assert(segments(path).map_values(f) =~= seq![front] + segments(tail).map_values(f));
    }
}

/// The number that an upper-case hexadecimal digit stands for.
pub open spec fn hex_value(c: char) -> Option<int> {
    if '0' <= c && c <= '9' {
        Some(c as int - '0' as int)
    } else if 'A' <= c && c <= 'F' {
        Some(c as int - 'A' as int + 10)
    } else {
        None
    }
}

/// What a server reads in an encoded path: each percent sign with two hexadecimal digits stands
/// for the character with that code, and everything else for itself.
pub open spec fn decoded(url_path: Seq<char>) -> Seq<char>
    decreases url_path.len(),
{
    if url_path.len() == 0 {
        seq![]
    } else if url_path.len() >= 3 && url_path[0] == '%' && hex_value(url_path[1]) is Some
        && hex_value(url_path[2]) is Some {
        seq![(hex_value(url_path[1])->0 * 16 + hex_value(url_path[2])->0) as char] + decoded(
            url_path.skip(3),
        )
    } else {
        seq![url_path[0]] + decoded(url_path.skip(1))
    }
}

/// Decoding gives back the path that was encoded, so two paths never share an encoding.
pub proof fn law_encoding_reads_back(path: Seq<char>)
    ensures
        decoded(encoded(path)) == path,
    decreases path.len(),
{
    if path.len() > 0 {
        let whole = encoded(path);
        let tail = encoded(path.skip(1));
        law_encoding_reads_back(path.skip(1));
        if is_escaped(path[0]) {
            assert(whole.skip(3) =~= tail);
        } else {
            assert(whole.skip(1) =~= tail);
        }
        assert(decoded(whole) =~= seq![path[0]] + path.skip(1));
        assert(seq![path[0]] + path.skip(1) =~= path);
    }
}

/// Each character is encoded for itself: eleven of them as a percent sign and two digits, and every
/// other as it is.
pub proof fn law_characters_are_encoded_one_by_one(c: char)
    ensures
        encoded(seq![c]) == (match c {
            ' ' => seq!['%', '2', '0'],
            '(' => seq!['%', '2', '8'],
            ')' => seq!['%', '2', '9'],
            '[' => seq!['%', '5', 'B'],
            ']' => seq!['%', '5', 'D'],
            '{' => seq!['%', '7', 'B'],
            '}' => seq!['%', '7', 'D'],
            '#' => seq!['%', '2', '3'],
            '?' => seq!['%', '3', 'F'],
            '+' => seq!['%', '2', 'B'],
            '%' => seq!['%', '2', '5'],
            _ => seq![c],
        }),
        encoded(Seq::<char>::empty()) == Seq::<char>::empty(),
{
    assert(seq![c].skip(1) =~= Seq::<char>::empty());
    assert(encoded(seq![c].skip(1)) =~= Seq::<char>::empty());
    assert(encoded(seq![c]) =~= escape(c));
}

} // verus!
