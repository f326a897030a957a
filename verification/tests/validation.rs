use shackle_core::validation::profanity_words;
use shackle_core::validation::validate_username;
use shackle_core::validation::ValidationError;

#[test]
fn test_acceptable_usernames() {
    const EXPECTED: Result<(), ValidationError> = Ok(());
    let names_to_test = [
        "Alaric",
        "Alaric Ganthaeter",
        "Yslith",
        "Tyrlia",
        "CaptainJaeger",
        "Captain Jaeger",
    ];

    names_to_test.iter().for_each(|name| {
        let result = validate_username(name);
        assert_eq!(result, EXPECTED, "{name} should be accepted as valid.");
    });
}

#[test]
fn test_too_short_usernames() {
    const EXPECTED: Result<(), ValidationError> = Err(ValidationError::TooShort);
    let names_to_test = ["Al", "H3", "A", "CJ"];

    names_to_test.iter().for_each(|name| {
        let result = validate_username(name);
        assert_eq!(result, EXPECTED, "{name} should be too short.");
    });
}

#[test]
fn test_too_long_usernames() {
    const EXPECTED: Result<(), ValidationError> = Err(ValidationError::TooLong);
    let names_to_test = [
        "AlaricAlaricAlaricAlaricAlaricAlaric",
        "CaptainJaegerCaptainJaegerCaptainJaegerCaptainJaegerCaptainJaeger",
    ];

    names_to_test.iter().for_each(|name| {
        let result = validate_username(name);
        assert_eq!(result, EXPECTED, "{name} should be too long.");
    });
}

#[test]
fn test_profane_usernames() {
    profanity_words().iter().for_each(|profanity| {
        let expected = Err(ValidationError::ContainsProfanity(vec![
            profanity.to_string()
        ]));
        let name = &format!("AB{profanity}cd");
        let result = validate_username(name);
        assert_eq!(result, expected, "{name} should be rejected for profanity.");
    });
}

#[test]
fn test_capitalized_profane_usernames() {
    profanity_words()
        .iter()
        .map(|s| s.to_uppercase())
        .for_each(|profanity| {
            let expected = Err(ValidationError::ContainsProfanity(vec![profanity
                .to_lowercase()
                .to_string()]));
            let name = &format!("AB{profanity}cd");
            let result = validate_username(name);
            assert_eq!(result, expected, "{name} should be rejected for profanity.");
        });
}

#[test]
fn test_length_boundaries() {
    assert_eq!(validate_username("Ala"), Ok(()), "three characters is enough");
    let twenty = "A".repeat(20);
    assert_eq!(validate_username(&twenty), Ok(()), "twenty characters still fits");
    let twenty_one = "A".repeat(21);
    assert_eq!(validate_username(&twenty_one), Err(ValidationError::TooLong));
}

#[test]
fn test_profanity_anywhere_in_name() {
    let words = profanity_words();
    let first = words[0];
    let result = validate_username(&format!("{first}head"));
    assert!(matches!(result, Err(ValidationError::ContainsProfanity(_))));
}

#[test]
fn test_validation_error_messages() {
    assert_eq!(
        ValidationError::TooShort.message(),
        "Username must have a minimum length of 3 characters."
    );
    assert_eq!(
        ValidationError::TooLong.message(),
        "Username cannot exceed a maximum length of 20 characters."
    );
    let err = ValidationError::ContainsProfanity(vec!["one".to_string(), "two".to_string()]);
    assert_eq!(
        err.message(),
        "The entered username contains the following disallowed words: [one, two]"
    );
}
