use cachypac::telegram_robust::{MessageValidator, RateLimiter, TelegramConfig, TelegramError};

#[test]
fn test_token_validation() {
    // A 34-character secret is one short of the required minimum.
    assert!(!TelegramConfig::is_valid_token(
        "123456789:ABC-DEF1234ghIkl-zyx57W2v1u123ew11"
    ));
    assert!(TelegramConfig::is_valid_token(
        "123456789:ABC-DEF1234ghIkl-zyx57W2v1u123ew11a"
    ));
    assert!(!TelegramConfig::is_valid_token("invalid_token"));
    assert!(!TelegramConfig::is_valid_token("123456789"));
}

#[test]
fn test_chat_id_validation() {
    assert!(TelegramConfig::is_valid_chat_id("123456789"));
    assert!(TelegramConfig::is_valid_chat_id("@username"));
    assert!(!TelegramConfig::is_valid_chat_id(""));
}

#[test]
fn test_message_validation() {
    assert!(MessageValidator::validate_message("Test simple").is_ok());
    assert!(MessageValidator::validate_message("<b>Test HTML</b>").is_ok());

    let long_message = "A".repeat(5000);
    assert!(matches!(
        MessageValidator::validate_message(&long_message),
        Err(TelegramError::MessageTooLong(_))
    ));
}

#[test]
fn test_rate_limiter() {
    let mut limiter = RateLimiter::new(2, 5);

    assert!(limiter.check_rate_limit(1000).outcome.is_ok());

    assert!(limiter.check_rate_limit(1001).outcome.is_ok());

    assert!(matches!(
        limiter.check_rate_limit(1002).outcome,
        Err(TelegramError::RateLimit(_))
    ));
}
