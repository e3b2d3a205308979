use pi_stellar_nexus::stablecoin::utils::{is_valid_base32_char, validate_address};

#[test]
fn accepts_an_address_of_56_letters_and_digits() {
    let address = "GABCD123456789012345678901234567890123456789012345678901";
    assert_eq!(address.len(), 56);
    assert!(validate_address(address));
}

#[test]
fn test_invalid_length() {
    let invalid_address = "GABCD1234567890123456789012345678901234567890123";
    assert!(!validate_address(invalid_address));
}

#[test]
fn test_invalid_prefix() {
    let invalid_address = "XABCD12345678901234567890123456789012345678901234";
    assert!(!validate_address(invalid_address));
}

#[test]
fn test_invalid_character() {
    let invalid_address = "GABCD1234567890123456789012345678901234567890123$";
    assert!(!validate_address(invalid_address));
}

#[test]
fn rejects_a_wrong_prefix_at_full_length() {
    let address = "XABCD123456789012345678901234567890123456789012345678901";
    assert_eq!(address.len(), 56);
    assert!(!validate_address(address));
}

#[test]
fn rejects_a_symbol_at_full_length() {
    let address = "GABCD12345678901234567890123456789012345678901234567890$";
    assert_eq!(address.len(), 56);
    assert!(!validate_address(address));
}

#[test]
fn rejects_a_letter_outside_ascii() {
    let address = "GABCD1234567890123456789012345678901234567890123456789é";
    assert_eq!(address.chars().count(), 55);
    assert!(!validate_address(address));
    let address = "GABCD12345678901234567890123456789012345678901234567890é";
    assert_eq!(address.chars().count(), 56);
    assert!(!validate_address(address));
}

#[test]
fn rejects_the_empty_address() {
    assert!(!validate_address(""));
}

#[test]
fn address_characters_are_ascii_letters_and_digits() {
    for c in ['0', '9', 'A', 'Z', 'a', 'z', 'G', '5'] {
        assert!(is_valid_base32_char(c));
    }
    for c in ['$', ' ', '-', '/', ':', '@', '[', '`', '{', 'é'] {
        assert!(!is_valid_base32_char(c));
    }
}
