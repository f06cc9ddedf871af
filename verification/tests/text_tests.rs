use cyberflow::text::{
    chars_of, decimal_string, eq_ignore_ascii_case, remove_char,
    signed_decimal_string, str_contains, str_eq, string_of, strip_prefix, trim, wide_to_text,
};

#[test]
fn decimal_forms() {
    assert_eq!(decimal_string(0), "0");
    assert_eq!(decimal_string(37824), "37824");
    assert_eq!(decimal_string(u64::MAX), u64::MAX.to_string());
    assert_eq!(signed_decimal_string(-32700), "-32700");
    assert_eq!(signed_decimal_string(-32001), "-32001");
    assert_eq!(signed_decimal_string(i64::MIN), i64::MIN.to_string());
    assert_eq!(signed_decimal_string(7), "7");
}

#[test]
fn substring_search() {
    assert!(str_contains("mstsc window not found — is Remote Desktop open?", "mstsc window not found"));
    assert!(str_contains("abc", ""));
    assert!(!str_contains("ab", "abc"));
    assert!(str_contains("自动登录", "登录"));
    assert!(!str_contains("Log in", "登录"));
    assert!(str_eq("登录", "登录"));
    assert!(!str_eq("登录", "登录 "));
}

#[test]
fn prefix_stripping() {
    assert_eq!(strip_prefix("Bearer abc", "Bearer "), Some("abc".to_string()));
    assert_eq!(strip_prefix("Bearer ", "Bearer "), Some(String::new()));
    assert_eq!(strip_prefix("bearer abc", "Bearer "), None);
    assert_eq!(strip_prefix("Bear", "Bearer "), None);
}

#[test]
fn trimming() {
    assert_eq!(trim("  abc \n"), "abc");
    assert_eq!(trim("\t登录\u{3000}"), "登录");
    assert_eq!(trim("   "), "");
    assert_eq!(trim(""), "");
    assert_eq!(trim("a b"), "a b");
}

#[test]
fn ascii_case_and_char_removal() {
    assert!(eq_ignore_ascii_case("SangforCSClient.EXE", "sangforcsclient.exe"));
    assert!(!eq_ignore_ascii_case("mstsc.exe", "mstsc.ex"));
    let v = remove_char("连接(&N)", '&');
    assert_eq!(v.iter().collect::<String>(), "连接(N)");
    let c = chars_of("héllo");
    assert_eq!(string_of(&c, 1, 3), "él");
    let c = chars_of("ab登");
    assert_eq!(string_of(&c, 0, 3), "ab登");
    assert_eq!(string_of(&c, 2, 2), "");
}

#[test]
fn utf16_decoding_and_encoding() {
    assert_eq!(wide_to_text(&[0xD800, 0x41, 0]), "\u{FFFD}A");
    assert_eq!(wide_to_text(&[0xD83D, 0xDE00]), "😀");
    assert_eq!(wide_to_text(&[0xDC00, 0xD800]), "\u{FFFD}\u{FFFD}");
    assert_eq!(cyberflow::commands::dialog::plan_typing("a😀", 0).units, vec![0x61, 0xD83D, 0xDE00]);
    assert_eq!(cyberflow::commands::dialog::plan_typing("", 0).units, Vec::<u16>::new());
    assert_eq!(wide_to_text(&[0x48, 0x69, 0, 0x41]), "Hi");
    assert_eq!(wide_to_text(&[0x41, 0x42]), "AB");
    assert_eq!(wide_to_text(&[0, 0x41]), "");
}
