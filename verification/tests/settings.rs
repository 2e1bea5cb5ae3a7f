use ankicode::settings::{
    generate_pairing_code, pairing_code_from_indices, validate_settings_fields, validate_timezone,
    SettingsError, DEFAULT_TIMEZONE, PAIRING_CODE_LEN,
};

#[test]
fn pairing_code_is_eight_uppercase_alnum() {
    let code = generate_pairing_code();
    assert_eq!(code.len(), 8);
    assert!(code
        .chars()
        .all(|ch| ch.is_ascii_uppercase() || ch.is_ascii_digit()));
}

#[test]
fn pairing_codes_are_spelled_from_the_alphabet() {
    assert_eq!(pairing_code_from_indices(&[0, 25, 26, 35]), "AZ09");
    assert_eq!(pairing_code_from_indices(&[]), "");
    assert_eq!(PAIRING_CODE_LEN, 8);
    let first = generate_pairing_code();
    let second = generate_pairing_code();
    assert_eq!(first.len(), second.len());
}

#[test]
fn timezone_validation() {
    assert!(validate_timezone("America/New_York").is_ok());
    assert!(validate_timezone(DEFAULT_TIMEZONE).is_ok());
    assert!(validate_timezone("UTC").is_ok());
    assert_eq!(
        validate_timezone("Not/A_Zone"),
        Err(SettingsError::InvalidTimeZone("Not/A_Zone".to_owned()))
    );
}

#[test]
fn settings_fields_are_checked_in_order() {
    assert_eq!(
        validate_settings_fields("Mars/Base", false, ""),
        Err(SettingsError::InvalidTimeZone("Mars/Base".to_owned()))
    );
    assert_eq!(
        validate_settings_fields("UTC", false, ""),
        Err(SettingsError::InvalidRetention)
    );
    assert_eq!(
        validate_settings_fields("UTC", true, "  "),
        Err(SettingsError::EmptyPairingCode)
    );
    assert_eq!(validate_settings_fields("UTC", true, "ABCD1234"), Ok(()));
}
