//! Git LFS pointer files: the small text that a repository holds in place of a large file.
use crate::text::{
    char_views, chars_from, chars_of, decimal, has_prefix, law_decimal_reads_back, lemma_decimal,
    lemma_first_line, parse_u64, parsed_u64, split_lines, text_between, text_lines, utf8_text,
};
use vstd::prelude::*;
use vstd::utf8::{decode_utf8, encode_utf8, valid_utf8};

verus! {

/// No pointer has more bytes than this.
pub const MAX_POINTER_BYTES: usize = 512;

/// Parsed Git LFS pointer.
#[derive(Debug)]
pub struct LfsPointer {
    /// The hash of the file, in hexadecimal, without the name of the hash function.
    pub oid: String,
    /// The length of the file in bytes.
    pub size: u64,
}

/// The hash and the size that a pointer gives.
#[verifier::ext_equal]
pub struct LfsPointerView {
    pub oid: Seq<char>,
    pub size: u64,
}

impl View for LfsPointer {
    type V = LfsPointerView;

    open spec fn view(&self) -> LfsPointerView {
        LfsPointerView { oid: self.oid@, size: self.size }
    }
}

/// The text that every pointer begins with.
pub open spec fn version_line() -> Seq<char> {
    "version https://git-lfs.github.com/spec/v1"@
}

/// What stands behind the key on the last line that begins with it.
pub open spec fn last_field(lines: Seq<Seq<char>>, key: Seq<char>) -> Option<Seq<char>>
    decreases lines.len(),
{
    if lines.len() == 0 {
        None
    } else if key.is_prefix_of(lines.last()) {
        Some(lines.last().skip(key.len() as int))
    } else {
        last_field(lines.drop_last(), key)
    }
}

/// A hash without the name of the hash function before it.
pub open spec fn bare_hash(value: Seq<char>) -> Seq<char> {
    if "sha256:"@.is_prefix_of(value) {
        value.skip("sha256:"@.len() as int)
    } else {
        value
    }
}

/// The hash that the lines give.
pub open spec fn oid_field(lines: Seq<Seq<char>>) -> Option<Seq<char>> {
    match last_field(lines, "oid "@) {
        Some(value) => Some(bare_hash(value)),
        None => None,
    }
}

/// The size that the lines give.
pub open spec fn size_field(lines: Seq<Seq<char>>) -> Option<u64> {
    match last_field(lines, "size "@) {
        Some(value) => parsed_u64(value),
        None => None,
    }
}

/// The pointer that a text is, if it is one: it begins with the version, and its lines give both a
/// hash and a size.
pub open spec fn text_pointer(text: Seq<char>) -> Option<LfsPointerView> {
    if version_line().is_prefix_of(text) {
        match (oid_field(text_lines(text)), size_field(text_lines(text))) {
            (Some(oid), Some(size)) => Some(LfsPointerView { oid, size }),
            _ => None,
        }
    } else {
        None
    }
}

/// The pointer that a file is, if it is one: a short, well-formed text that is a pointer.
pub open spec fn lfs_pointer(data: Seq<u8>) -> Option<LfsPointerView> {
    if data.len() <= MAX_POINTER_BYTES && valid_utf8(data) {
        text_pointer(decode_utf8(data))
    } else {
        None
    }
}

/// What stands behind the key, if the line begins with it.
fn field_value(line: &Vec<char>, key: &str) -> (value: Option<Vec<char>>)
    ensures
        match value {
            Some(v) => key@.is_prefix_of(line@) && v@ == line@.skip(key@.len() as int),
            None => !key@.is_prefix_of(line@),
        },
{
    let key_chars: Vec<char> = chars_of(key);
    if has_prefix(line, &key_chars) {
        Some(chars_from(line, key_chars.len()))
    } else {
        None
    }
}

proof fn lemma_keys_differ(line: Seq<char>)
    ensures
        !("oid "@.is_prefix_of(line) && "size "@.is_prefix_of(line)),
{
    reveal_strlit("oid ");
    reveal_strlit("size ");
    if "oid "@.is_prefix_of(line) && "size "@.is_prefix_of(line) {
        assert(line[0] == "oid "@[0]);
        assert(line[0] == "size "@[0]);
    }
}

/// Check if `data` is a Git LFS pointer. Returns parsed fields if so.
pub fn parse_lfs_pointer(data: &[u8]) -> (pointer: Option<LfsPointer>)
    ensures
        match pointer {
            Some(p) => lfs_pointer(data@) == Some(p@),
            None => lfs_pointer(data@) is None,
        },
{
    if data.len() > MAX_POINTER_BYTES {
        return None;
    }
    let text: &str = match utf8_text(data) {
        Some(text) => text,
        None => {
            return None;
        },
    };
    let chars: Vec<char> = chars_of(text);
    let version: Vec<char> = chars_of("version https://git-lfs.github.com/spec/v1");
    if !has_prefix(&chars, &version) {
        return None;
    }
    let lines: Vec<Vec<char>> = split_lines(&chars);
    let ghost views = text_lines(text@);
    let mut oid: Option<String> = None;
    let mut size: Option<u64> = None;
    let mut i: usize = 0;
    while i < lines.len()
        invariant
            i <= lines.len(),
            views == char_views(lines@),
            oid_field(views.take(i as int)) == (match oid {
                Some(o) => Some(o@),
                None => None,
            }),
            size_field(views.take(i as int)) == size,
        decreases lines.len() - i,
    {
        let line: &Vec<char> = &lines[i];
        proof {
            assert(views[i as int] == line@);
            assert(views.take(i + 1).drop_last() =~= views.take(i as int));
            assert(views.take(i + 1).last() == line@);
            lemma_keys_differ(line@);
        }
        match field_value(line, "oid ") {
            Some(value) => {
                match field_value(&value, "sha256:") {
                    Some(hash) => {
                        oid = Some(text_between(&hash, 0, hash.len()));
                        assert(hash@.subrange(0, hash@.len() as int) =~= hash@);
                    },
                    None => {
                        oid = Some(text_between(&value, 0, value.len()));
                        assert(value@.subrange(0, value@.len() as int) =~= value@);
                    },
                }
            },
            None => {
                match field_value(line, "size ") {
                    Some(value) => {
                        size = parse_u64(&value);
                    },
                    None => {},
                }
            },
        }
        i += 1;
    }
    proof {
        assert(views.take(views.len() as int) =~= views);
    }
    match (oid, size) {
        (Some(oid), Some(size)) => Some(LfsPointer { oid, size }),
        _ => None,
    }
}

/// The pointer file that stands for a file with this SHA-256 hash and size.
pub open spec fn pointer_text(oid: Seq<char>, size: u64) -> Seq<char> {
    version_line() + seq!['\n'] + ("oid "@ + "sha256:"@ + oid + seq!['\n'] + ("size "@ + decimal(
        size as nat,
    ) + seq!['\n']))
}

/// A pointer file reads back as the hash and the size that it was written for.
pub proof fn law_pointer_reads_back(oid: Seq<char>, size: u64)
    requires
        !oid.contains('\n'),
        oid.len() > 0 ==> oid.last() != '\r',
        encode_utf8(pointer_text(oid, size)).len() <= MAX_POINTER_BYTES,
    ensures
        lfs_pointer(encode_utf8(pointer_text(oid, size))) == Some(LfsPointerView { oid, size }),
{
    let text = pointer_text(oid, size);
    vstd::utf8::encode_utf8_valid_utf8(text);
    vstd::utf8::encode_utf8_decode_utf8(text);
    reveal_strlit("version https://git-lfs.github.com/spec/v1");
    reveal_strlit("oid ");
    reveal_strlit("size ");
    reveal_strlit("sha256:");
    let digits = decimal(size as nat);
    lemma_decimal(size as nat);
    law_decimal_reads_back(size);
    let first = version_line();
    let second = "oid "@ + "sha256:"@ + oid;
    let third = "size "@ + digits;
    assert(text.take(first.len() as int) =~= first);
    assert(!second.contains('\n')) by {
        assert forall|j: int| 0 <= j < second.len() implies second[j] != '\n' by {
            if j >= 11 {
                assert(oid.contains(oid[j - 11]));
                assert(second[j] == oid[j - 11]);
            }
        }
    }
    assert(!third.contains('\n') && third.last() != '\r') by {
        assert forall|j: int| 0 <= j < third.len() implies third[j] != '\n' by {
            if j >= 5 {
                assert(third[j] == digits[j - 5]);
            }
        }
        assert(third.last() == digits.last());
    }
    lemma_first_line(first, second + seq!['\n'] + (third + seq!['\n']));
    lemma_first_line(second, third + seq!['\n']);
    lemma_first_line(third, seq![]);
    assert(third + seq!['\n'] + seq![] =~= third + seq!['\n']);
    assert(second.last() == if oid.len() > 0 {
        oid.last()
    } else {
        ':'
    });
    let lines = text_lines(text);
    assert(lines =~= seq![first, second, third]);
    assert(lines.drop_last() =~= seq![first, second]);
    lemma_keys_differ(third);
    assert("size "@.is_prefix_of(third)) by {
        assert(third.take(5) =~= "size "@);
    }
    assert(third.skip(5) =~= digits);
    assert("oid "@.is_prefix_of(second)) by {
        assert(second.take(4) =~= "oid "@);
    }
    assert(last_field(lines, "size "@) == Some(digits));
    assert(last_field(lines, "oid "@) == last_field(lines.drop_last(), "oid "@));
    let value = second.skip(4);
    assert(value =~= "sha256:"@ + oid);
    assert(value.take(7) =~= "sha256:"@);
    assert(value.skip(7) =~= oid);
}

/// What is said of a pointer is said of the whole hash and size that it holds.
pub proof fn law_pointers_are_seen_whole(pointer: LfsPointer)
    ensures
        pointer@.oid == pointer.oid@,
        pointer@.size == pointer.size,
{
}

/// A line that begins with a key gives the value of that key, whatever the lines before it say: all
/// that stands behind the key, for a hash without the name of the hash function.
pub proof fn law_the_last_line_of_a_key_counts(lines: Seq<Seq<char>>, value: Seq<char>)
    ensures
        oid_field(lines.push("oid sha256:"@ + value)) == Some(value),
        !"sha256:"@.is_prefix_of(value) ==> oid_field(lines.push("oid "@ + value)) == Some(value),
        size_field(lines.push("size "@ + value)) == parsed_u64(value),
{
    reveal_strlit("oid sha256:");
    reveal_strlit("oid ");
    reveal_strlit("sha256:");
    reveal_strlit("size ");
    let named = "oid sha256:"@ + value;
    assert("oid "@ =~= named.take(4));
    assert(named.skip(4).take(7) =~= "sha256:"@);
    assert(named.skip(4).skip(7) =~= value);
    let bare = "oid "@ + value;
    assert("oid "@ =~= bare.take(4));
    assert(bare.skip(4) =~= value);
    let size = "size "@ + value;
    assert("size "@ =~= size.take(5));
    assert(size.skip(5) =~= value);
}

/// A line that does not begin with a key says nothing of its value, and without lines there is
/// none.
pub proof fn law_other_lines_play_no_part(lines: Seq<Seq<char>>, line: Seq<char>)
    ensures
        !"oid "@.is_prefix_of(line) ==> oid_field(lines.push(line)) == oid_field(lines),
        !"size "@.is_prefix_of(line) ==> size_field(lines.push(line)) == size_field(lines),
        oid_field(Seq::empty()) is None,
        size_field(Seq::empty()) is None,
{
    assert(lines.push(line).drop_last() =~= lines);
}

/// A text is a pointer exactly if it begins with the version and its lines give both a hash and a
/// size; the pointer holds these two.
pub proof fn law_pointers_hold_what_their_lines_give(text: Seq<char>)
    ensures
        text_pointer(text) is Some <==> "version https://git-lfs.github.com/spec/v1"@.is_prefix_of(
            text,
        ) && oid_field(text_lines(text)) is Some && size_field(text_lines(text)) is Some,
        text_pointer(text) matches Some(p) ==> oid_field(text_lines(text)) == Some(p.oid)
            && size_field(text_lines(text)) == Some(p.size),
{
}

/// A file is a pointer exactly if it is a text of at most 512 bytes that is one.
pub proof fn law_pointer_files_are_short_texts(text: Seq<char>, data: Seq<u8>)
    ensures
        encode_utf8(text).len() <= 512 ==> lfs_pointer(encode_utf8(text)) == text_pointer(text),
        data.len() > 512 ==> lfs_pointer(data) is None,
        !valid_utf8(data) ==> lfs_pointer(data) is None,
{
    vstd::utf8::encode_utf8_valid_utf8(text);
    vstd::utf8::encode_utf8_decode_utf8(text);
}

/// The pointer file of a file with this hash and size has three lines: the version, the hash behind
/// the name of its function, and the size.
pub proof fn law_pointer_text_has_three_lines(oid: Seq<char>, size: u64)
    ensures
        pointer_text(oid, size) == "version https://git-lfs.github.com/spec/v1\noid sha256:"@ + oid
            + "\nsize "@ + decimal(size as nat) + "\n"@,
{
    reveal_strlit("version https://git-lfs.github.com/spec/v1\noid sha256:");
    reveal_strlit("\nsize ");
    reveal_strlit("\n");
    reveal_strlit("version https://git-lfs.github.com/spec/v1");
    reveal_strlit("oid ");
    reveal_strlit("sha256:");
    reveal_strlit("size ");
    assert(pointer_text(oid, size) =~= "version https://git-lfs.github.com/spec/v1\noid sha256:"@
        + oid + "\nsize "@ + decimal(size as nat) + "\n"@);
}

} // verus!
