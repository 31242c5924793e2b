use cachypac::config::{Config, ConfigCache};
use cachypac::history::OperationType;
use cachypac::i18n::SupportedLanguage;
use cachypac::logs::LogLevel;

#[test]
fn test_supported_language_conversion() {
    assert_eq!(
        SupportedLanguage::from_code("fr"),
        Some(SupportedLanguage::French)
    );
    assert_eq!(
        SupportedLanguage::from_code("en"),
        Some(SupportedLanguage::English)
    );
    assert_eq!(SupportedLanguage::from_code("invalid"), None);
}

#[test]
fn test_language_native_names() {
    assert_eq!(SupportedLanguage::French.native_name(), "Français");
    assert_eq!(SupportedLanguage::English.native_name(), "English");
    assert_eq!(SupportedLanguage::German.native_name(), "Deutsch");
}

#[test]
fn test_language_codes_and_listing() {
    assert_eq!(SupportedLanguage::Japanese.code(), "ja");
    assert_eq!(SupportedLanguage::Russian.code(), "ru");
    let all = SupportedLanguage::all();
    assert_eq!(all.len(), 9);
    assert_eq!(all[0], SupportedLanguage::French);
    assert_eq!(all[8], SupportedLanguage::Japanese);
}

#[test]
fn test_language_case_insensitive() {
    assert_eq!(
        SupportedLanguage::from_code("FR"),
        Some(SupportedLanguage::French)
    );
    assert_eq!(
        SupportedLanguage::from_code("En_GB"),
        Some(SupportedLanguage::English)
    );
    assert_eq!(
        SupportedLanguage::from_code("PORTUGUESE"),
        Some(SupportedLanguage::Portuguese)
    );
}

#[test]
fn test_config_loading() {
    let config = Config::default();
    assert!(config.validate().is_ok());
}

#[test]
fn test_configuration_validation_edge_cases() {
    // Test de validation de configuration avec des cas limites
    let mut config = Config::default();

    // Configuration valide par défaut
    assert!(config.validate().is_ok());

    // Test avec intervalle de vérification invalide
    config.general.check_interval = 0;
    assert!(config.validate().is_err());

    // Restaurer une valeur valide
    config.general.check_interval = 60;
    assert!(config.validate().is_ok());

    // Test avec répertoire de données vide
    config.general.data_dir = String::new();
    assert!(config.validate().is_err());

    // Restaurer une valeur valide
    config.general.data_dir = "/tmp/cachypac".to_string();
    assert!(config.validate().is_ok());
}

#[test]
fn test_configuration_telegram_fields() {
    let mut config = Config::default();
    config.telegram.enabled = true;
    assert!(config.validate().is_err());
    config.telegram.bot_token = "123456789:ABC".to_string();
    assert!(config.validate().is_err());
    config.telegram.chat_id = "123".to_string();
    assert!(config.validate().is_ok());
}

#[test]
fn test_config_cache_expiry() {
    let config = Config::default();
    let cache = ConfigCache::new(config, 300_000, 1_000);
    assert!(!cache.is_expired(1_000));
    assert!(!cache.is_expired(301_000));
    assert!(cache.is_expired(301_001));

    let mut slot = Some(cache);
    assert!(Config::is_cached(&slot, 2_000));
    assert!(!Config::is_cached(&slot, 400_000));
    Config::invalidate_cache(&mut slot);
    assert!(slot.is_none());
    assert!(!Config::is_cached(&slot, 2_000));
}

#[test]
fn test_operation_type_display() {
    // Test de l'affichage des types d'opération
    assert_eq!(
        OperationType::CheckUpdates.label(),
        "Vérification des mises à jour"
    );
    assert_eq!(OperationType::ManualUpdate.label(), "Mise à jour manuelle");
    assert_eq!(OperationType::AutoUpdate.label(), "Mise à jour automatique");
    assert_eq!(
        OperationType::SystemMaintenance.label(),
        "Maintenance système"
    );
}

#[test]
fn test_log_level_display() {
    // Test de l'affichage des niveaux de log
    assert_eq!(LogLevel::Error.label(), "ERROR");
    assert_eq!(LogLevel::Warn.label(), "WARN");
    assert_eq!(LogLevel::Info.label(), "INFO");
    assert_eq!(LogLevel::Debug.label(), "DEBUG");
    assert_eq!(LogLevel::Trace.label(), "TRACE");
}
