use dropwire::error::DropWireError;
use dropwire::types::{safe_path, ChannelId, CodePhrase};
use dropwire::wordlist::get_wordlist;

#[test]
fn test_valid_code_phrase() {
    let result = CodePhrase::new("7-guitar-abandon");
    assert!(result.is_ok());
}

#[test]
fn test_invalid_format() {
    let result = CodePhrase::new("invalid");
    assert!(matches!(result, Err(DropWireError::InvalidCodePhrase(_))));
}

#[test]
fn test_number_too_large() {
    let result = CodePhrase::new("1000-guitar-abandon");
    assert!(matches!(result, Err(DropWireError::InvalidCodePhrase(_))));
}

#[test]
fn test_number_leading_zero() {
    let result = CodePhrase::new("07-guitar-abandon");
    assert!(matches!(result, Err(DropWireError::InvalidCodePhrase(_))));
}

#[test]
fn test_number_zero() {
    let result = CodePhrase::new("0-guitar-abandon");
    assert!(matches!(result, Err(DropWireError::InvalidCodePhrase(_))));
}

#[test]
fn test_invalid_word() {
    let result = CodePhrase::new("1-INVALIDWORD-word");
    assert!(matches!(result, Err(DropWireError::InvalidCodePhrase(_))));
}

#[test]
fn code_phrase_keeps_the_text() {
    let c = CodePhrase::new("999-zoo-abandon").unwrap();
    assert_eq!(c.0, "999-zoo-abandon");
}

#[test]
fn code_phrase_error_carries_the_phrase() {
    match CodePhrase::new("7-guitar") {
        Err(DropWireError::InvalidCodePhrase(m)) => assert_eq!(m, "7-guitar"),
        _ => panic!("expected an invalid code phrase"),
    }
}

#[test]
fn code_phrase_refuses_uppercase_word() {
    assert!(CodePhrase::new("7-Guitar-abandon").is_err());
}

#[test]
fn code_phrase_accepts_plus_sign() {
    assert!(CodePhrase::new("+7-guitar-abandon").is_ok());
}

#[test]
fn code_phrase_refuses_four_parts() {
    assert!(CodePhrase::new("7-guitar-abandon-zoo").is_err());
}

#[test]
fn channel_is_text_before_first_dash() {
    assert_eq!(ChannelId::derive("7-guitar-abandon").0, "7");
    assert_eq!(ChannelId::derive("nodash").0, "nodash");
    assert_eq!(ChannelId::derive("-x").0, "");
}

#[test]
fn wordlist_has_every_word_in_order() {
    let w: Vec<String> = get_wordlist().iter().map(|x| x.iter().collect()).collect();
    assert_eq!(w.len(), 2048);
    assert_eq!(w[0], "abandon");
    assert_eq!(w[1], "ability");
    assert_eq!(w[2047], "zoo");
    for i in 1..w.len() {
        assert!(w[i - 1] < w[i]);
    }
}

#[test]
fn safe_path_keeps_normal_components() {
    assert_eq!(safe_path("a/b/c.txt").unwrap(), "a/b/c.txt");
    assert_eq!(safe_path("./a//b/").unwrap(), "a/b");
}

#[test]
fn safe_path_refuses_traversal() {
    assert!(matches!(safe_path("../etc/passwd"), Err(DropWireError::Protocol(_))));
    assert!(matches!(safe_path("a/../../b"), Err(DropWireError::Protocol(_))));
    assert!(matches!(safe_path("/etc/passwd"), Err(DropWireError::Protocol(_))));
}

#[test]
fn no_word_holds_a_dash_or_uppercase() {
    for w in get_wordlist() {
        assert!(!w.is_empty());
        assert!(w.iter().all(|c| c.is_ascii_lowercase()));
    }
}
