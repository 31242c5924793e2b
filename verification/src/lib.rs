pub mod config;
pub mod history;
pub mod i18n;
pub mod logs;
pub mod telegram_robust;
pub mod text;
