use omini::json;
use omini::json::Json;
use omini::order::sorted;
use omini::paths;
use omini::text;
use omini::width;

fn strings(list: &[&str]) -> Vec<String> {
    list.iter().map(|s| s.to_string()).collect()
}

#[test]
fn texts_are_trimmed_and_split() {
    assert_eq!(text::trim(" \u{3000}a b\n"), "a b");
    assert_eq!(text::lines("a\r\nb\n\nc\n"), strings(&["a", "b", "", "c"]));
    assert_eq!(text::lines(""), Vec::<String>::new());
    assert_eq!(text::split_char("a,b,", ','), strings(&["a", "b", ""]));
    assert_eq!(text::split_white("  a \t b\n"), strings(&["a", "b"]));
    assert_eq!(text::join(&strings(&["a", "b"]), ", "), "a, b");
}

#[test]
fn texts_are_searched() {
    assert!(text::contains("hello", "ell"));
    assert!(!text::contains("hello", "elx"));
    assert_eq!(text::strip_prefix("prefix-x", "prefix-"), Some("x".to_string()));
    assert_eq!(text::strip_suffix("x.md", ".md"), Some("x".to_string()));
    assert_eq!(text::split_once("a=b=c", '='), Some(("a".to_string(), "b=c".to_string())));
    assert_eq!(text::replace("a-b-c", "-", "+"), "a+b+c");
}

#[test]
fn numbers_are_written_and_read() {
    assert_eq!(text::decimal_of(0), "0");
    assert_eq!(text::decimal_of(u64::MAX), "18446744073709551615");
    assert_eq!(text::signed_decimal_of(-12), "-12");
    assert_eq!(text::parse_usize("42"), Some(42));
    assert_eq!(text::parse_usize("+42"), Some(42));
    assert_eq!(text::parse_usize(""), None);
    assert_eq!(text::parse_usize("4x"), None);
    assert_eq!(text::parse_usize("99999999999999999999999999"), None);
}

#[test]
fn texts_are_ordered() {
    assert!(text::is_less("a", "b"));
    assert!(text::is_less("a", "aa"));
    assert!(!text::is_less("b", "a"));
    assert_eq!(sorted(&strings(&["b", "c", "a"])), strings(&["a", "b", "c"]));
}

#[test]
fn paths_are_joined_and_taken_apart() {
    assert_eq!(paths::join("/a", "b"), "/a/b");
    assert_eq!(paths::join("/a/", "b"), "/a/b");
    assert_eq!(paths::join("/a", "/b"), "/b");
    assert_eq!(paths::parent("/a/b"), Some("/a".to_string()));
    assert_eq!(paths::file_name("/a/b.txt"), Some("b.txt".to_string()));
    assert_eq!(paths::extension("/a/b.PNG"), Some("PNG".to_string()));
    assert!(paths::is_supported_image_path("/a/b.PNG"));
    assert!(!paths::is_supported_image_path("/a/b.txt"));
}

#[test]
fn columns_are_counted_by_display_width() {
    assert_eq!(width::char_width('a'), 1);
    assert_eq!(width::char_width('你'), 2);
    assert_eq!(width::char_width('\n'), 0);
    assert_eq!(width::str_width("a你b"), 4);
}

#[test]
fn texts_are_cut_to_their_columns() {
    assert_eq!(width::truncate_str("abcdef", 4), "a...");
    assert_eq!(width::truncate_str("abc", 4), "abc");
    assert_eq!(width::ellipsize_width("abcdef", 5), "ab...");
    assert_eq!(width::ellipsize_width("abcdef", 2), "..");
    assert_eq!(width::ellipsize_width("你好吗", 5), "你...");
    assert_eq!(width::truncate_to_width("abcdef", 3), "a…");
    assert_eq!(width::truncate_to_width("abc", 3), "abc");
    assert_eq!(width::truncate_to_width("abc", 0), "");
    assert_eq!(width::pad_display_width("你", 4), "你  ");
    for w in 0..8 {
        assert!(width::str_width(&width::ellipsize_width("a你b你c", w)) <= w);
    }
}

#[test]
fn json_values_are_read() {
    let entries = json::parse_object("{\"a\":1,\"b\":[true,null],\"c\":\"x\"}");
    let value = Json::Object(entries);
    assert_eq!(value.u64_at("a"), Some(1));
    assert_eq!(value.str_at("c"), Some("x".to_string()));
    assert_eq!(
        value.get("b"),
        Some(&Json::Array(vec![Json::Bool(true), Json::Null]))
    );
    assert!(json::parse_object("[1]").is_empty());
    assert!(json::parse_object("{").is_empty());
    assert_eq!(value.copy(), value);
}
