use cachypac::telegram_robust::{
    BotInfo, DiagnosticProbes, HttpProbe, MessageValidator, OverallStatus, RateLimiter,
    RetryConfig, RobustTelegramNotifier, SendStep, TelegramApiResponse, TelegramConfig,
    TelegramError, TestResult,
};

fn notifier() -> RobustTelegramNotifier {
    let config = TelegramConfig::new(
        "123456789:ABC-DEF1234ghIkl-zyx57W2v1u123ew11a".to_string(),
        "123456789".to_string(),
    )
    .unwrap();
    RobustTelegramNotifier::new(config).unwrap()
}

#[test]
fn test_burst_of_four_within_one_second() {
    let mut limiter = RateLimiter::new(3, 10);
    assert!(limiter.check_rate_limit(10_000).outcome.is_ok());
    assert!(limiter.check_rate_limit(10_300).outcome.is_ok());
    assert!(limiter.check_rate_limit(10_600).outcome.is_ok());
    let fourth = limiter.check_rate_limit(10_900);
    assert!(matches!(fourth.outcome, Err(TelegramError::RateLimit(1))));
    assert_eq!(fourth.wait_ms, 1100);
}

#[test]
fn test_per_minute_wait_and_recovery() {
    let mut limiter = RateLimiter::new(10, 2);
    assert!(limiter.check_rate_limit(1_000).outcome.is_ok());
    assert!(limiter.check_rate_limit(5_000).outcome.is_ok());
    let third = limiter.check_rate_limit(31_000);
    // The window is full; the wait runs until the oldest entry ages out.
    assert!(matches!(third.outcome, Err(TelegramError::RateLimit(30))));
    assert_eq!(third.wait_ms, 30_000);
    // Once the oldest entry is older than a minute, a call is admitted.
    assert!(limiter.check_rate_limit(62_000).outcome.is_ok());
}

#[test]
fn test_message_limit_boundaries() {
    let long_message = "A".repeat(5000);
    assert!(matches!(
        MessageValidator::validate_message(&long_message),
        Err(TelegramError::MessageTooLong(5000))
    ));
    let limit_message = "A".repeat(4096);
    assert!(MessageValidator::validate_message(&limit_message).is_ok());
}

#[test]
fn test_sanitization_preserves_allowed_tags() {
    let out = MessageValidator::validate_message("<script>x</script><b>y</b>").unwrap();
    assert!(out.contains("&lt;script&gt;"));
    assert!(out.contains("<b>y</b>"));
    assert_eq!(out, "&lt;script&gt;x&lt;/script&gt;<b>y</b>");
}

#[test]
fn test_unmatched_tag_is_rejected() {
    let result = MessageValidator::validate_message("<b>gras sans fin");
    match result {
        Err(TelegramError::ApiError(m)) => assert_eq!(m, "Balise non fermée: <b>"),
        other => panic!("unexpected result: {:?}", other),
    }
    let result = MessageValidator::validate_message("du <code>code ouvert");
    match result {
        Err(TelegramError::ApiError(m)) => assert_eq!(m, "Balise non fermée: <code>"),
        other => panic!("unexpected result: {:?}", other),
    }
}

#[test]
fn test_backoff_exact_values() {
    let config = RetryConfig::default();
    let n = notifier();
    assert_eq!(n.calculate_backoff_delay(&config, 1), 500);
    assert_eq!(n.calculate_backoff_delay(&config, 2), 1000);
    assert_eq!(n.calculate_backoff_delay(&config, 3), 2000);
    assert_eq!(n.calculate_backoff_delay(&config, 20), 30_000);
}

#[test]
fn test_two_failures_then_success_bookkeeping() {
    let mut n = notifier();
    let retry = RetryConfig::default();

    let step1 = n.process_attempt(
        &retry,
        "hello",
        1,
        Err(TelegramError::Network("down".to_string())),
        10,
        1_000,
    );
    assert!(matches!(step1, SendStep::RetryAfterMs(500)));

    let step2 = n.process_attempt(
        &retry,
        "hello",
        2,
        Err(TelegramError::Timeout),
        20,
        2_000,
    );
    assert!(matches!(step2, SendStep::RetryAfterMs(1000)));

    let step3 = n.process_attempt(&retry, "hello", 3, Ok(()), 30, 3_000);
    assert!(matches!(step3, SendStep::Completed(Ok(()))));

    let metrics = n.get_metrics();
    assert_eq!(metrics.retry_attempts, 2);
    assert_eq!(metrics.successful_messages, 1);
    assert_eq!(metrics.total_messages, 1);
    assert_eq!(metrics.failed_messages, 0);

    let history = n.get_message_history();
    assert_eq!(history.len(), 1);
    assert!(history[0].success);
    assert_eq!(history[0].retry_count, 2);
    assert_eq!(history[0].content, "hello");
}

#[test]
fn test_exhausted_retries_record_last_error() {
    let mut n = notifier();
    let retry = RetryConfig::default();

    let s1 = n.process_attempt(
        &retry,
        "msg",
        1,
        Err(TelegramError::RateLimit(1)),
        5,
        100,
    );
    assert!(matches!(s1, SendStep::RetryAfterMs(500)));
    let s2 = n.process_attempt(&retry, "msg", 2, Err(TelegramError::Timeout), 6, 200);
    assert!(matches!(s2, SendStep::RetryAfterMs(1000)));
    let s3 = n.process_attempt(&retry, "msg", 3, Err(TelegramError::Timeout), 7, 300);
    assert!(matches!(
        s3,
        SendStep::Completed(Err(TelegramError::Timeout))
    ));

    let metrics = n.get_metrics();
    assert_eq!(metrics.retry_attempts, 2);
    assert_eq!(metrics.rate_limit_hits, 1);
    assert_eq!(metrics.failed_messages, 1);
    assert_eq!(metrics.total_messages, 1);
    assert_eq!(metrics.last_error.as_deref(), Some("Timeout de connexion"));

    let history = n.get_message_history();
    assert_eq!(history.len(), 1);
    assert!(!history[0].success);
    assert_eq!(history[0].retry_count, 2);
}

#[test]
fn test_response_classification_table() {
    let n = notifier();
    assert!(n.handle_api_response(200, "").is_ok());
    assert!(n.handle_api_response(204, "").is_ok());
    match n.handle_api_response(400, "champ manquant") {
        Err(TelegramError::ApiError(m)) => {
            assert_eq!(m, "Requête invalide: champ manquant")
        }
        other => panic!("unexpected result: {:?}", other),
    }
    assert!(matches!(
        n.handle_api_response(401, ""),
        Err(TelegramError::InvalidToken)
    ));
    match n.handle_api_response(403, "") {
        Err(TelegramError::ApiError(m)) => {
            assert_eq!(m, "Bot bloqué ou permissions insuffisantes")
        }
        other => panic!("unexpected result: {:?}", other),
    }
    match n.handle_api_response(404, "") {
        Err(TelegramError::InvalidChatId(c)) => assert_eq!(c, "123456789"),
        other => panic!("unexpected result: {:?}", other),
    }
    assert!(matches!(
        n.handle_api_response(429, ""),
        Err(TelegramError::RateLimit(60))
    ));
    match n.handle_api_response(500, "oops") {
        Err(TelegramError::ApiError(m)) => assert_eq!(m, "Erreur HTTP 500: oops"),
        other => panic!("unexpected result: {:?}", other),
    }
}

#[test]
fn test_error_descriptions() {
    assert_eq!(
        TelegramError::MessageTooLong(5000).describe(),
        "Message trop long: 5000 caractères (max: 4096)"
    );
    assert_eq!(
        TelegramError::RateLimit(60).describe(),
        "Rate limit atteint, retry dans 60s"
    );
    assert_eq!(
        TelegramError::Network("hs".to_string()).describe(),
        "Erreur réseau: hs"
    );
    assert_eq!(TelegramError::InvalidToken.describe(), "Token bot invalide");
    assert_eq!(
        TelegramError::RateLimit(0).describe(),
        "Rate limit atteint, retry dans 0s"
    );
    assert_eq!(
        TelegramError::MessageTooLong(10050).describe(),
        "Message trop long: 10050 caractères (max: 4096)"
    );
    assert_eq!(
        TelegramError::InvalidChatId("@x".to_string()).describe(),
        "Chat ID invalide: @x"
    );
    assert_eq!(
        TelegramError::InvalidConfig("x".to_string()).describe(),
        "Configuration invalide: x"
    );
    assert_eq!(
        TelegramError::WebhookError("y".to_string()).describe(),
        "Webhook erreur: y"
    );
    assert_eq!(
        TelegramError::ApiError("z".to_string()).describe(),
        "API Telegram erreur: z"
    );
    assert_eq!(TelegramError::Timeout.describe(), "Timeout de connexion");
}

#[test]
fn test_auth_check_message_with_negative_id() {
    let n = notifier();
    let bot = BotInfo {
        id: -42,
        is_bot: true,
        first_name: "Bot".to_string(),
        username: None,
        can_join_groups: None,
        can_read_all_group_messages: None,
        supports_inline_queries: None,
    };
    match n.test_bot_authentication(&Ok(bot)) {
        TestResult::Success(m) => assert_eq!(m, "Bot authentifié: Bot (ID: -42)"),
        other => panic!("unexpected result: {:?}", other),
    }
    match n.test_bot_authentication(&Err(TelegramError::Timeout)) {
        TestResult::Failure(m) => {
            assert_eq!(m, "Erreur authentification: Timeout de connexion")
        }
        other => panic!("unexpected result: {:?}", other),
    }
}

#[test]
fn test_auth_interpretation() {
    let bot = BotInfo {
        id: -42,
        is_bot: true,
        first_name: "Bot".to_string(),
        username: None,
        can_join_groups: None,
        can_read_all_group_messages: None,
        supports_inline_queries: None,
    };
    let envelope = TelegramApiResponse {
        ok: true,
        result: Some(bot),
        description: None,
        error_code: None,
    };
    let r = TelegramConfig::interpret_auth_response(200, envelope);
    assert_eq!(r.unwrap().id, -42);

    let envelope: TelegramApiResponse<BotInfo> = TelegramApiResponse {
        ok: false,
        result: None,
        description: Some("Unauthorized".to_string()),
        error_code: Some(401),
    };
    assert!(matches!(
        TelegramConfig::interpret_auth_response(401, envelope),
        Err(TelegramError::InvalidToken)
    ));

    let envelope: TelegramApiResponse<BotInfo> = TelegramApiResponse {
        ok: false,
        result: None,
        description: Some("Bad Gateway".to_string()),
        error_code: Some(502),
    };
    match TelegramConfig::interpret_auth_response(502, envelope) {
        Err(TelegramError::ApiError(m)) => assert_eq!(m, "Bad Gateway"),
        other => panic!("unexpected result: {:?}", other),
    }
}

#[test]
fn test_diagnostics_healthy_run() {
    let n = notifier();
    let probes = DiagnosticProbes {
        internet: HttpProbe::Status(200),
        api: HttpProbe::Status(200),
        auth: Ok(BotInfo {
            id: 7,
            is_bot: true,
            first_name: "Bot".to_string(),
            username: None,
            can_join_groups: None,
            can_read_all_group_messages: None,
            supports_inline_queries: None,
        }),
        send_probe: HttpProbe::Status(200),
    };
    let report = n.run_diagnostics(&probes, 123).unwrap();
    assert_eq!(report.timestamp_ms, 123);
    assert_eq!(report.tests.len(), 5);
    assert_eq!(report.tests[0].0, "Connectivité Internet");
    assert_eq!(report.tests[4].0, "Validation Messages");
    assert!(matches!(report.overall_status, OverallStatus::Healthy));
    assert!(report.recommendations.is_empty());
}

#[test]
fn test_diagnostics_critical_run() {
    let n = notifier();
    let probes = DiagnosticProbes {
        internet: HttpProbe::TransportError("dns".to_string()),
        api: HttpProbe::Status(503),
        auth: Err(TelegramError::InvalidToken),
        send_probe: HttpProbe::Status(403),
    };
    let report = n.run_diagnostics(&probes, 0).unwrap();
    assert!(matches!(report.overall_status, OverallStatus::Critical));
    assert!(report
        .recommendations
        .contains(&"Vérifiez votre connexion Internet".to_string()));
    assert!(report
        .recommendations
        .contains(&"Vérifiez votre token bot Telegram".to_string()));
    assert!(report
        .recommendations
        .contains(&"Vérifiez que le bot a accès au chat".to_string()));
}

#[test]
fn test_chat_id_round_trip() {
    assert!(TelegramConfig::is_valid_chat_id("-123456789"));
    assert!(TelegramConfig::is_valid_chat_id("@channel"));
    assert!(!TelegramConfig::is_valid_chat_id(""));
    assert!(!TelegramConfig::is_valid_chat_id("abc"));
}

#[test]
fn test_chat_id_numeric_bounds() {
    assert!(TelegramConfig::is_valid_chat_id("9223372036854775807"));
    assert!(!TelegramConfig::is_valid_chat_id("9223372036854775808"));
    assert!(TelegramConfig::is_valid_chat_id("-9223372036854775808"));
    assert!(!TelegramConfig::is_valid_chat_id("-9223372036854775809"));
    assert!(TelegramConfig::is_valid_chat_id("+123"));
    assert!(!TelegramConfig::is_valid_chat_id("12 3"));
}

#[test]
fn test_token_shape_bounds() {
    // The bot id must be non-empty.
    assert!(!TelegramConfig::is_valid_token(
        ":AAAAAAAAAAAAAAAAAAAAAAAAAAAAAAAAAAA"
    ));
    // The secret must have at least 35 characters.
    assert!(!TelegramConfig::is_valid_token(
        "1:AAAAAAAAAAAAAAAAAAAAAAAAAAAAAAAAAA"
    ));
    assert!(TelegramConfig::is_valid_token(
        "1:AAAAAAAAAAAAAAAAAAAAAAAAAAAAAAAAAAA"
    ));
    // Two colons are refused.
    assert!(!TelegramConfig::is_valid_token(
        "12:34:AAAAAAAAAAAAAAAAAAAAAAAAAAAAAAAAAAA"
    ));
}

#[test]
fn test_per_minute_full_window_boundary() {
    // A full window is denied even when its oldest entry sits exactly at
    // the window's edge; one millisecond later it has aged out.
    let mut limiter = RateLimiter::new(10, 1);
    assert!(limiter.check_rate_limit(0).outcome.is_ok());
    let at_edge = limiter.check_rate_limit(60_000);
    assert!(matches!(at_edge.outcome, Err(TelegramError::RateLimit(0))));
    assert_eq!(at_edge.wait_ms, 0);
    assert!(limiter.check_rate_limit(60_001).outcome.is_ok());
}
