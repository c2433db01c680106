use elvui_manager::config::{verbose_to_log_level, ConfigError, LogLevel};

#[test]
fn no_flag_means_info() {
    assert_eq!(verbose_to_log_level(0), Ok(LogLevel::Info));
}

#[test]
fn one_flag_means_debug() {
    assert_eq!(verbose_to_log_level(1), Ok(LogLevel::Debug));
}

#[test]
fn two_flags_mean_trace() {
    assert_eq!(verbose_to_log_level(2), Ok(LogLevel::Trace));
}

#[test]
fn other_counts_are_rejected_with_their_value() {
    assert_eq!(verbose_to_log_level(3), Err(ConfigError::UnexpectedVerbosity(3)));
    assert_eq!(verbose_to_log_level(-1), Err(ConfigError::UnexpectedVerbosity(-1)));
    assert_eq!(verbose_to_log_level(i8::MAX), Err(ConfigError::UnexpectedVerbosity(i8::MAX)));
    assert_eq!(verbose_to_log_level(i8::MIN), Err(ConfigError::UnexpectedVerbosity(i8::MIN)));
}

#[test]
fn default_add_ons_directory_is_the_retail_one() {
    assert_eq!(
        elvui_manager::config::DEFAULT_ADDONS_PATH,
        "/Applications/World of Warcraft/_retail_/Interface/Addons"
    );
}
