//! Application configuration: the settings tree, its validation rules,
//! and the explicit time-to-live cache that callers own.
//!
//! Loading and saving the configuration are file I/O and stay with the
//! caller; the rules about what a usable configuration looks like live
//! here.

use vstd::prelude::*;
use vstd::string::StringExecFns;

use crate::telegram_robust::TelegramError;

verus! {

/// General application settings.
#[derive(Debug, Clone)]
pub struct GeneralConfig {
    pub data_dir: String,
    pub log_level: String,
    pub check_interval: u64,
    pub auto_update: bool,
    pub backup_before_update: bool,
}

/// Package-manager settings.
#[derive(Debug, Clone)]
pub struct PacmanConfig {
    pub timeout: u64,
    pub retry_count: u32,
    pub retry_delay: u64,
    pub exclude_packages: Vec<String>,
    pub include_aur: bool,
    pub clean_cache_after: bool,
    pub check_keyring: bool,
}

/// Scheduler settings.
#[derive(Debug, Clone)]
pub struct SchedulerConfig {
    pub enabled: bool,
    pub cron_expression: String,
    pub maintenance_window_start: String,
    pub maintenance_window_end: String,
    pub max_concurrent_jobs: u32,
}

/// Notification settings.
#[derive(Debug, Clone)]
pub struct TelegramConfig {
    pub enabled: bool,
    pub bot_token: String,
    pub chat_id: String,
    pub notify_on_updates: bool,
    pub notify_on_errors: bool,
    pub notify_on_success: bool,
    pub message_format: String,
}

/// Desktop interface settings.
#[derive(Debug, Clone)]
pub struct GuiConfig {
    pub theme: String,
    pub window_width: u32,
    pub window_height: u32,
    pub auto_start_minimized: bool,
    pub show_system_tray: bool,
    pub close_to_tray: bool,
}

/// The whole configuration tree.
#[derive(Debug, Clone)]
pub struct Config {
    pub general: GeneralConfig,
    pub pacman: PacmanConfig,
    pub scheduler: SchedulerConfig,
    pub telegram: TelegramConfig,
    pub gui: GuiConfig,
}

/// A configuration held with its load time and time-to-live, owned
/// explicitly by the caller.
#[derive(Debug, Clone)]
pub struct ConfigCache {
    pub config: Config,
    pub loaded_at_ms: u64,
    pub ttl_ms: u64,
}

/// Whether a cache entry is older than its time-to-live at time `now`.
pub open spec fn cache_expired(c: ConfigCache, now_ms: u64) -> bool {
    (if now_ms >= c.loaded_at_ms {
        now_ms - c.loaded_at_ms
    } else {
        0
    }) > c.ttl_ms
}

impl ConfigCache {
    /// A cache entry loaded at `now_ms` that lives for `ttl_ms`.
    pub fn new(config: Config, ttl_ms: u64, now_ms: u64) -> (r: ConfigCache)
        ensures
            r.config == config,
            r.loaded_at_ms == now_ms,
            r.ttl_ms == ttl_ms,
    {
        ConfigCache { config, loaded_at_ms: now_ms, ttl_ms }
    }

    /// Whether the entry has outlived its time-to-live.
    pub fn is_expired(&self, now_ms: u64) -> (b: bool)
        ensures
            b == cache_expired(*self, now_ms),
    {
        let elapsed = if now_ms >= self.loaded_at_ms {
            now_ms - self.loaded_at_ms
        } else {
            0
        };
        elapsed > self.ttl_ms
    }
}

/// A configuration the rest of the system can run with: a data
/// directory, a positive check interval, and, when notifications are on,
/// both credentials present.
pub open spec fn config_valid(c: Config) -> bool {
    &&& c.general.data_dir@.len() > 0
    &&& c.general.check_interval > 0
    &&& (c.telegram.enabled ==> c.telegram.bot_token@.len() > 0 && c.telegram.chat_id@.len()
        > 0)
}

impl Config {
    /// Forgets the cached configuration.
    pub fn invalidate_cache(cache: &mut Option<ConfigCache>)
        ensures
            (*final(cache)) is None,
    {
        *cache = None;
    }

    /// Whether a live cached configuration is present at time `now_ms`.
    pub fn is_cached(cache: &Option<ConfigCache>, now_ms: u64) -> (b: bool)
        ensures
            b == ((*cache) matches Some(c) && !cache_expired(c, now_ms)),
    {
        match cache {
            Some(c) => !c.is_expired(now_ms),
            None => false,
        }
    }

    /// Checks the configuration, reporting the first rule it breaks:
    /// the data directory must be set, the check interval positive, and
    /// the credentials present when notifications are enabled.
    pub fn validate(&self) -> (r: Result<(), TelegramError>)
        ensures
            match r {
                Ok(()) => config_valid(*self),
                Err(e) => e matches TelegramError::InvalidConfig(m) && {
                    ||| (self.general.data_dir@.len() == 0 && m@
                        == "Le répertoire de données ne peut pas être vide"@)
                    ||| (self.general.data_dir@.len() > 0 && self.general.check_interval == 0
                        && m@ == "L'intervalle de vérification doit être supérieur à 0"@)
                    ||| (self.general.data_dir@.len() > 0 && self.general.check_interval > 0
                        && self.telegram.enabled && self.telegram.bot_token@.len() == 0 && m@
                        == "Token Telegram manquant"@)
                    ||| (self.general.data_dir@.len() > 0 && self.general.check_interval > 0
                        && self.telegram.enabled && self.telegram.bot_token@.len() > 0
                        && self.telegram.chat_id@.len() == 0 && m@
                        == "Chat ID Telegram manquant"@)
                },
            },
    {
        if self.general.data_dir.as_str().is_empty() {
            return Err(
                TelegramError::InvalidConfig(
                    String::from_str("Le répertoire de données ne peut pas être vide"),
                ),
            );
        }
        if self.general.check_interval == 0 {
            return Err(
                TelegramError::InvalidConfig(
                    String::from_str("L'intervalle de vérification doit être supérieur à 0"),
                ),
            );
        }
        if self.telegram.enabled {
            if self.telegram.bot_token.as_str().is_empty() {
                return Err(
                    TelegramError::InvalidConfig(String::from_str("Token Telegram manquant")),
                );
            }
            if self.telegram.chat_id.as_str().is_empty() {
                return Err(
                    TelegramError::InvalidConfig(String::from_str("Chat ID Telegram manquant")),
                );
            }
        }
        Ok(())
    }
}

impl Default for Config {
    /// The built-in defaults: notifications and the scheduler off, a
    /// fallback data directory, and the standard window geometry.
    fn default() -> (r: Config)
        ensures
            r.general.data_dir@ == "/tmp/cachypac"@,
            r.general.log_level@ == "info"@,
            r.general.check_interval == 60,
            !r.general.auto_update,
            r.general.backup_before_update,
            r.pacman.timeout == 300,
            r.pacman.retry_count == 3,
            r.pacman.retry_delay == 5,
            r.pacman.exclude_packages@.len() == 0,
            !r.pacman.include_aur,
            r.pacman.clean_cache_after,
            r.pacman.check_keyring,
            !r.scheduler.enabled,
            r.scheduler.cron_expression@ == "0 2 * * *"@,
            r.scheduler.maintenance_window_start@ == "02:00"@,
            r.scheduler.maintenance_window_end@ == "06:00"@,
            r.scheduler.max_concurrent_jobs == 1,
            !r.telegram.enabled,
            r.telegram.bot_token@.len() == 0,
            r.telegram.chat_id@.len() == 0,
            r.telegram.notify_on_updates,
            r.telegram.notify_on_errors,
            r.telegram.notify_on_success,
            r.telegram.message_format@ == "html"@,
            r.gui.theme@ == "dark"@,
            r.gui.window_width == 1000,
            r.gui.window_height == 700,
            !r.gui.auto_start_minimized,
            r.gui.show_system_tray,
            r.gui.close_to_tray,
    {
        Config {
            general: GeneralConfig {
                data_dir: String::from_str("/tmp/cachypac"),
                log_level: String::from_str("info"),
                check_interval: 60,
                auto_update: false,
                backup_before_update: true,
            },
            pacman: PacmanConfig {
                timeout: 300,
                retry_count: 3,
                retry_delay: 5,
                exclude_packages: Vec::new(),
                include_aur: false,
                clean_cache_after: true,
                check_keyring: true,
            },
            scheduler: SchedulerConfig {
                enabled: false,
                cron_expression: String::from_str("0 2 * * *"),
                maintenance_window_start: String::from_str("02:00"),
                maintenance_window_end: String::from_str("06:00"),
                max_concurrent_jobs: 1,
            },
            telegram: TelegramConfig {
                enabled: false,
                bot_token: String::new(),
                chat_id: String::new(),
                notify_on_updates: true,
                notify_on_errors: true,
                notify_on_success: true,
                message_format: String::from_str("html"),
            },
            gui: GuiConfig {
                theme: String::from_str("dark"),
                window_width: 1000,
                window_height: 700,
                auto_start_minimized: false,
                show_system_tray: true,
                close_to_tray: true,
            },
        }
    }
}

} // verus!
