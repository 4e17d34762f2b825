use gitconfig_proxy::encode::encode_path_for_url;

#[test]
fn every_reserved_character_is_escaped() {
    assert_eq!(
        encode_path_for_url("a b/(c)[d]{e}#f?g+h%i"),
        "a%20b/%28c%29%5Bd%5D%7Be%7D%23f%3Fg%2Bh%25i"
    );
}

#[test]
fn other_characters_and_slashes_stay() {
    assert_eq!(encode_path_for_url("EditorFiles/My-Map_1.dze"), "EditorFiles/My-Map_1.dze");
    assert_eq!(encode_path_for_url("a@b&c=d;e,f'g"), "a@b&c=d;e,f'g");
    assert_eq!(encode_path_for_url("h\u{e9}/\u{4e16}"), "h\u{e9}/\u{4e16}");
    assert_eq!(encode_path_for_url("//a//"), "//a//");
    assert_eq!(encode_path_for_url(""), "");
}

#[test]
fn segments_can_be_encoded_one_by_one() {
    let whole = encode_path_for_url("a b/c?d/e");
    let pieces: Vec<String> = "a b/c?d/e".split('/').map(encode_path_for_url).collect();
    assert_eq!(whole, pieces.join("/"));
}

#[test]
fn an_escape_in_the_path_is_not_read_as_one() {
    assert_eq!(encode_path_for_url("a%20b"), "a%2520b");
    assert_ne!(encode_path_for_url("a%20b"), encode_path_for_url("a b"));
}
