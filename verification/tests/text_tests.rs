use xlauchez::text::{
    str_concat, from_chars, join, replace_all, split_whitespace, str_eq, strip_prefix_or_self_exec,
    to_chars, u32_to_decimal,
};

#[test]
fn replace_all_replaces_every_occurrence() {
    assert_eq!(replace_all("a${x}b${x}", "${x}", "Z"), "aZbZ");
    assert_eq!(replace_all("no placeholder", "${x}", "Z"), "no placeholder");
    assert_eq!(replace_all("aaa", "aa", "b"), "ba");
    assert_eq!(replace_all("${x}", "${x}", ""), "");
}

#[test]
fn replace_all_matches_std_replace() {
    let cases = [
        ("${a}${a}${", "${a}", "xy"),
        ("abcabc", "bc", "${bc}"),
        ("", "q", "r"),
        ("abc", "", "x"),
        ("", "", "x"),
        ("ééé", "é", "e"),
    ];
    for (s, p, r) in cases {
        assert_eq!(replace_all(s, p, r), s.replace(p, r));
    }
}

#[test]
fn split_whitespace_gives_words() {
    let w = split_whitespace("  --username ${auth_player_name}\t--version  ${version_name} ");
    assert_eq!(w, vec!["--username", "${auth_player_name}", "--version", "${version_name}"]);
    assert!(split_whitespace("   ").is_empty());
    assert!(split_whitespace("").is_empty());
    assert_eq!(split_whitespace("one"), vec!["one"]);
}

#[test]
fn join_puts_separator_between() {
    let parts = vec!["a".to_string(), "b".to_string(), "c".to_string()];
    assert_eq!(join(&parts, ":"), "a:b:c");
    assert_eq!(join(&parts[..1], ":"), "a");
    assert_eq!(join(&[], ":"), "");
}

#[test]
fn decimal_rendering() {
    assert_eq!(u32_to_decimal(0), "0");
    assert_eq!(u32_to_decimal(7), "7");
    assert_eq!(u32_to_decimal(2048), "2048");
    assert_eq!(u32_to_decimal(u32::MAX), "4294967295");
}

#[test]
fn char_conversions_round_trip() {
    let s = "Тёмная … ok";
    let v = to_chars(s);
    assert_eq!(v.len(), s.chars().count());
    assert_eq!(from_chars(&v), s);
}

#[test]
fn string_equality_and_concat() {
    assert!(str_eq("dark", "dark"));
    assert!(!str_eq("dark", "darker"));
    assert!(!str_eq("dark", "light"));
    assert_eq!(str_concat("d=", "token"), "d=token");
}

#[test]
fn strip_prefix_only_when_present() {
    assert_eq!(strip_prefix_or_self_exec("./css/main.css", "./"), "css/main.css");
    assert_eq!(strip_prefix_or_self_exec("css/main.css", "./"), "css/main.css");
    assert_eq!(strip_prefix_or_self_exec(".", "./"), ".");
}

fn white_space_code_point(u: u32) -> bool {
    (0x9..=0xd).contains(&u)
        || u == 0x20
        || u == 0x85
        || u == 0xa0
        || u == 0x1680
        || (0x2000..=0x200a).contains(&u)
        || u == 0x2028
        || u == 0x2029
        || u == 0x202f
        || u == 0x205f
        || u == 0x3000
}

#[test]
fn whitespace_is_the_white_space_property() {
    for u in 0..=0x10ffffu32 {
        if let Some(c) = char::from_u32(u) {
            assert_eq!(c.is_whitespace(), white_space_code_point(u), "U+{:04X}", u);
        }
    }
}

#[test]
fn split_whitespace_on_unicode_spaces() {
    assert_eq!(
        split_whitespace("a\u{3000}b\u{85}c\u{a0}d\u{200b}e"),
        vec!["a".to_string(), "b".into(), "c".into(), "d\u{200b}e".into()]
    );
}
