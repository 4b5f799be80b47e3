use ares_core::text::{dec_string, str_eq, str_has_prefix, strip_prefix_or_self};

#[test]
fn it_works() {
    let result = ares_core::add(2, 2);
    assert_eq!(result, 4);
}

#[test]
fn decimal_rendering() {
    assert_eq!(dec_string(0), "0");
    assert_eq!(dec_string(7), "7");
    assert_eq!(dec_string(12345), "12345");
    assert_eq!(dec_string(u64::MAX), "18446744073709551615");
}

#[test]
fn prefix_helpers() {
    assert!(str_has_prefix("installing : download", "installing : "));
    assert!(!str_has_prefix("install", "installing : "));
    assert!(str_eq("abc", "abc"));
    assert!(!str_eq("abc", "abd"));
    assert!(!str_eq("abc", "ab"));
    assert_eq!(strip_prefix_or_self("installing : writing", "installing : "), "writing");
    assert_eq!(strip_prefix_or_self("done", "installing : "), "done");
}
