use snake::harness::TestMode;
use snake::harness::mask_api_key;
use snake::harness::mask_string;

#[test]
fn short_strings_are_fully_starred() {
    assert_eq!(mask_string(""), "");
    assert_eq!(mask_string("abc"), "***");
    assert_eq!(mask_string("12345678"), "********");
}

#[test]
fn long_strings_show_four_chars_each_side() {
    assert_eq!(mask_string("123456789"), "1234...6789");
    assert_eq!(mask_string("account-id-value"), "acco...alue");
}

#[test]
fn short_keys_are_fully_starred() {
    assert_eq!(mask_api_key(""), "");
    assert_eq!(mask_api_key("0123456789"), "**********");
}

#[test]
fn long_keys_show_six_then_four_chars() {
    assert_eq!(mask_api_key("0123456789a"), "012345...789a");
    assert_eq!(mask_api_key("sk-0123456789abcdef"), "sk-012...cdef");
}

#[test]
fn test_modes_cover_the_three_harness_choices() {
    let all = TestMode::All;
    let gw = TestMode::Gateway;
    let provider = TestMode::Provider("openai".to_string());
    assert!(matches!(all, TestMode::All));
    assert!(matches!(gw, TestMode::Gateway));
    match provider.clone() {
        TestMode::Provider(name) => assert_eq!(name, "openai"),
        _ => panic!("provider mode keeps its name"),
    }
}
