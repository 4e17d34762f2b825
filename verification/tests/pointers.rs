use gitconfig_proxy::pointer::parse_lfs_pointer;
use gitconfig_proxy::text::{chars_of, parse_u64, push_decimal};

const OID: &str = "4dee5767f70b0000000000000000000000000000000000000000000000000000";

fn file(oid_line: &str, size_line: &str) -> String {
    format!("version https://git-lfs.github.com/spec/v1\n{}\n{}\n", oid_line, size_line)
}

fn parse(text: &str) -> Option<(String, u64)> {
    parse_lfs_pointer(text.as_bytes()).map(|p| (p.oid, p.size))
}

#[test]
fn a_pointer_reads_back() {
    let text = file(&format!("oid sha256:{}", OID), "size 100663320");
    assert_eq!(parse(&text), Some((OID.to_string(), 100663320)));
}

#[test]
fn a_hash_without_its_function_is_taken_as_it_is() {
    assert_eq!(parse(&file("oid abc", "size 1")), Some(("abc".to_string(), 1)));
    assert_eq!(parse(&file("oid sha256:sha256:abc", "size 1")), Some(("sha256:abc".to_string(), 1)));
    assert_eq!(parse(&file("oid ", "size 1")), Some((String::new(), 1)));
}

#[test]
fn the_last_line_of_a_key_counts() {
    assert_eq!(parse(&file("oid a\noid b", "size 1\nsize 2")), Some(("b".to_string(), 2)));
    assert_eq!(parse(&file("oid a", "size 1\nsize x")), None);
    assert_eq!(parse(&file("size x\noid a", "size 7")), Some(("a".to_string(), 7)));
}

#[test]
fn line_ends_may_be_of_either_kind() {
    let text = "version https://git-lfs.github.com/spec/v1\r\noid sha256:ab\r\nsize 12\r\n";
    assert_eq!(parse(text), Some(("ab".to_string(), 12)));
    let text = "version https://git-lfs.github.com/spec/v1\noid sha256:ab\nsize 12";
    assert_eq!(parse(text), Some(("ab".to_string(), 12)));
    let text = "version https://git-lfs.github.com/spec/v1\nsize 12\noid ab\r";
    assert_eq!(parse(text), Some(("ab\r".to_string(), 12)));
    let text = "version https://git-lfs.github.com/spec/v1\noid ab\nsize 12\r";
    assert_eq!(parse(text), None);
}

#[test]
fn both_fields_are_needed() {
    assert_eq!(parse(&file("oid sha256:ab", "sizes 1")), None);
    assert_eq!(parse(&file("oidsha256:ab", "size 1")), None);
    assert_eq!(parse("version https://git-lfs.github.com/spec/v1"), None);
}

#[test]
fn the_version_must_come_first() {
    assert_eq!(parse("oid sha256:ab\nsize 1\nversion https://git-lfs.github.com/spec/v1\n"), None);
    assert_eq!(parse("version https://git-lfs.github.com/spec/v2\noid ab\nsize 1\n"), None);
    assert_eq!(parse(""), None);
    assert_eq!(
        parse("version https://git-lfs.github.com/spec/v10\noid ab\nsize 1\n"),
        Some(("ab".to_string(), 1))
    );
}

#[test]
fn sizes_are_read_as_std_reads_them() {
    for size in ["0", "007", "+5", "18446744073709551615", "18446744073709551616", "-1", "+", "", " 1", "1_0", "1 "] {
        let expected = size.parse::<u64>().ok().map(|n| ("ab".to_string(), n));
        assert_eq!(parse(&file("oid ab", &format!("size {}", size))), expected, "{:?}", size);
    }
}

#[test]
fn a_pointer_has_at_most_512_bytes() {
    let short = file("oid sha256:ab", "size 1");
    let fill = 512 - short.len() - 1;
    let full = format!("{}{}\n", short, "x".repeat(fill));
    assert_eq!(full.len(), 512);
    assert!(parse(&full).is_some());
    assert_eq!(parse(&format!("{}x", full)), None);
}

#[test]
fn bytes_that_are_no_text_are_no_pointer() {
    let mut data = file("oid sha256:ab", "size 1").into_bytes();
    data.push(0xff);
    assert!(parse_lfs_pointer(&data).is_none());
    data.pop();
    assert!(parse_lfs_pointer(&data).is_some());
    data.extend_from_slice("\u{e9}".as_bytes());
    assert!(parse_lfs_pointer(&data).is_some());
}

#[test]
fn decimal_numbers_read_back() {
    for n in [0u64, 7, 10, 100663320, u64::MAX] {
        let mut text = String::from("n=");
        push_decimal(&mut text, n);
        assert_eq!(text, format!("n={}", n));
        assert_eq!(parse_u64(&chars_of(&text[2..])), Some(n));
    }
}
