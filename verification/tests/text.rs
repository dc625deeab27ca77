use pugo::utils::merge_url;
use pugo::utils::order::{arrange, descending_order};
use pugo::utils::text::{
    decimal_string, ends_with, join_strings, replace, same_text, signed_decimal_string,
    starts_with, trimmed, two_digit_string, without_suffixes,
};
use pugo::utils::StrMap;

#[test]
fn test_merge_url() {
    assert_eq!(merge_url("a", "b"), "a/b");
    assert_eq!(merge_url("a/", "b"), "a/b");
    assert_eq!(merge_url("a///", "/b"), "a/b");
    assert_eq!(merge_url("a", "/b"), "a/b");
    assert_eq!(merge_url("", "b"), "/b");
    assert_eq!(merge_url("/", ""), "/");
    assert_eq!(merge_url("a", ""), "a/");
    assert_eq!(merge_url("é/", "ü"), "é/ü");
}

#[test]
fn test_replace() {
    assert_eq!(replace("/tag/:tag/page/:page", ":tag", "x"), "/tag/x/page/:page");
    assert_eq!(replace("aaaa", "aa", "b"), "bb");
    assert_eq!(replace("aaa", "aa", "b"), "ba");
    assert_eq!(replace("abc", "d", "e"), "abc");
    assert_eq!(replace("", "d", "e"), "");
    assert_eq!(replace("a-b-c", "-", ""), "abc");
    assert_eq!(replace("ab", "ab", "abab"), "abab");
    assert_eq!(replace("ab", "", "-"), "-a-b-");
    assert_eq!(replace("", "", "-"), "-");
    for s in ["", "a", "abab", "aaaa", "xaxbxa", "a/b/c"] {
        for pat in ["", "a", "ab", "aa", "x", "/", "abc"] {
            for with in ["", "-", "ab"] {
                assert_eq!(replace(s, pat, with), s.replace(pat, with));
            }
        }
    }
}

#[test]
fn test_trimmed() {
    assert_eq!(trimmed("  a b \n\t"), "a b");
    assert_eq!(trimmed("\u{a0}\u{3000}x\u{2028}\u{85}"), "x");
    assert_eq!(trimmed(" \r\n "), "");
    assert_eq!(trimmed("\u{200b}x"), "\u{200b}x");
    assert_eq!(trimmed(""), "");
    for c in 0..0x3100u32 {
        if let Some(c) = char::from_u32(c) {
            let s = format!("{}x{}", c, c);
            assert_eq!(trimmed(&s), s.trim());
        }
    }
}

#[test]
fn test_prefix_and_suffix() {
    assert!(starts_with("/a", "/"));
    assert!(!starts_with("a/", "/"));
    assert!(starts_with("a", ""));
    assert!(!starts_with("", "/"));
    assert!(ends_with("a.html", ".html"));
    assert!(!ends_with("html", ".html"));
    assert!(same_text("abc", "abc"));
    assert!(!same_text("abc", "abd"));
    assert!(!same_text("abc", "ab"));
    assert_eq!(without_suffixes("a.md.md", ".md"), "a");
    assert_eq!(without_suffixes("a.md", ""), "a.md");
}

#[test]
fn test_numerals() {
    assert_eq!(decimal_string(0), "0");
    assert_eq!(decimal_string(10), "10");
    assert_eq!(decimal_string(u64::MAX), "18446744073709551615");
    assert_eq!(signed_decimal_string(-1), "-1");
    assert_eq!(signed_decimal_string(2022), "2022");
    assert_eq!(signed_decimal_string(i64::MIN), "-9223372036854775808");
    assert_eq!(two_digit_string(0), "00");
    assert_eq!(two_digit_string(9), "09");
    assert_eq!(two_digit_string(10), "10");
    assert_eq!(two_digit_string(123), "123");
}

#[test]
fn test_join_strings() {
    let parts = vec!["a".to_string(), "".to_string(), "c".to_string()];
    assert_eq!(join_strings(&parts, ","), "a,,c");
    assert_eq!(join_strings(&parts[..1].to_vec(), ", "), "a");
    assert_eq!(join_strings(&vec![], ","), "");
}

#[test]
fn test_descending_order_is_stable() {
    let order = descending_order(&vec![1, 3, 2, 3, 1, 0]);
    assert_eq!(order, vec![1, 3, 2, 0, 4, 5]);
    let items = vec!["a", "b", "c", "d", "e", "f"];
    assert_eq!(arrange(items, &order), vec!["b", "d", "c", "a", "e", "f"]);
    assert_eq!(descending_order(&vec![]), Vec::<usize>::new());
}

#[test]
fn test_str_map() {
    let mut map: StrMap<String> = StrMap::new();
    assert!(map.is_empty());
    map.insert("a".to_string(), "1".to_string());
    map.insert("b".to_string(), "2".to_string());
    map.insert("a".to_string(), "3".to_string());
    assert_eq!(map.len(), 2);
    assert_eq!(map.get("a").unwrap(), "3");
    assert_eq!(map.get("b").unwrap(), "2");
    assert!(map.get("c").is_none());
    assert_eq!(map.key_at(0), "a");
    assert_eq!(map.value_at(1), "2");
    let copy = map.clone();
    assert_eq!(copy.len(), 2);
    assert_eq!(copy.get("a").unwrap(), "3");
}
