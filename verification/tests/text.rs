use mirror_caddy::text::{
    chars_of, join, ensure_trailing_slash, has_prefix_in, same_text, slice_of, strip_dot_slash,
    trim_trailing_slashes,
};

#[test]
fn chars_are_listed_in_order() {
    assert_eq!(chars_of("añb"), vec!['a', 'ñ', 'b']);
    assert_eq!(chars_of(""), Vec::<char>::new());
}

#[test]
fn slices_count_characters_not_bytes() {
    assert_eq!(slice_of("añbc", 1, 3), "ñb");
    assert_eq!(slice_of("abc", 0, 0), "");
    assert_eq!(slice_of("abc", 3, 3), "");
    assert_eq!(slice_of("abc", 0, 3), "abc");
}

#[test]
fn join_puts_both_parts_together() {
    assert_eq!(join("ab", "cd"), "abcd");
    assert_eq!(join("", "x"), "x");
    assert_eq!(join("x", ""), "x");
}

#[test]
fn same_text_compares_characters() {
    assert!(same_text("abc", "abc"));
    assert!(!same_text("abc", "abd"));
    assert!(!same_text("abc", "ab"));
    assert!(same_text("", ""));
}

#[test]
fn prefix_is_sought_within_the_bounds() {
    let s = chars_of("xxetag=v");
    let p = chars_of("etag=");
    assert!(has_prefix_in(&s, 2, 8, &p));
    assert!(has_prefix_in(&s, 2, 7, &p));
    assert!(!has_prefix_in(&s, 2, 6, &p));
    assert!(!has_prefix_in(&s, 1, 8, &p));
    assert!(has_prefix_in(&s, 3, 3, &Vec::new()));
}

#[test]
fn directory_url_gets_one_trailing_slash() {
    assert_eq!(ensure_trailing_slash("http://h/a"), "http://h/a/");
    assert_eq!(ensure_trailing_slash("http://h/a/"), "http://h/a/");
    assert_eq!(ensure_trailing_slash(""), "/");
    assert_eq!(ensure_trailing_slash("a//"), "a//");
}

#[test]
fn all_trailing_slashes_are_trimmed() {
    assert_eq!(trim_trailing_slashes("dir/"), "dir");
    assert_eq!(trim_trailing_slashes("dir///"), "dir");
    assert_eq!(trim_trailing_slashes("a/b"), "a/b");
    assert_eq!(trim_trailing_slashes("/"), "");
    assert_eq!(trim_trailing_slashes(""), "");
    assert_eq!(trim_trailing_slashes("/a/"), "/a");
}

#[test]
fn one_leading_dot_slash_is_stripped() {
    assert_eq!(strip_dot_slash("./a"), "a");
    assert_eq!(strip_dot_slash("././a"), "./a");
    assert_eq!(strip_dot_slash("a"), "a");
    assert_eq!(strip_dot_slash("."), ".");
    assert_eq!(strip_dot_slash("./"), "");
    assert_eq!(strip_dot_slash("../a"), "../a");
    assert_eq!(strip_dot_slash(""), "");
}
