use klamer_dev::strings::{join, replace_all, u64_to_string};
use klamer_dev::strings::get_post_name;

#[test]
fn test_post_name() {
    assert_eq!(get_post_name("/somebullshit/postname"), "postname");
    assert_eq!(get_post_name("/somebullshit/postname.html"), "postname");
    assert_eq!(get_post_name("somebullshit/postname"), "postname");
    assert_eq!(get_post_name("somebullshit/postname.html"), "postname");
    assert_eq!(get_post_name("a/b/c/d/e/r/postname"), "postname");
    assert_eq!(get_post_name("a/b/c/d/e/r/posthtml"), "posthtml");
}

#[test]
fn test_post_name_no_directory() {
    assert_eq!(get_post_name("postname.html"), "postname");
    assert_eq!(get_post_name("postname"), "postname");
}

#[test]
fn test_post_name_repeated_suffix() {
    assert_eq!(get_post_name("dir/post.html.html"), "post");
}

#[test]
fn test_u64_to_string() {
    assert_eq!(u64_to_string(0), "0");
    assert_eq!(u64_to_string(7), "7");
    assert_eq!(u64_to_string(80), "80");
    assert_eq!(u64_to_string(443), "443");
    assert_eq!(u64_to_string(18446744073709551615), "18446744073709551615");
}

#[test]
fn test_join() {
    let parts: Vec<String> = vec!["a".to_string(), "b".to_string(), "c".to_string()];
    assert_eq!(join(&parts, " "), "a b c");
    let one: Vec<String> = vec!["solo".to_string()];
    assert_eq!(join(&one, ", "), "solo");
    let none: Vec<String> = vec![];
    assert_eq!(join(&none, ","), "");
}

#[test]
fn test_replace_all() {
    assert_eq!(replace_all("example.com:80", "80", "443"), "example.com:443");
    assert_eq!(replace_all("host80.com:80", "80", "443"), "host443.com:443");
    assert_eq!(replace_all("no-port.example", "80", "443"), "no-port.example");
    assert_eq!(replace_all("aaa", "aa", "b"), "ba");
}
