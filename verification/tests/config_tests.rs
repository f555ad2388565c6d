use aurora_lights_proxy::config::{
    decimal_string, parse_number, u16_setting, u32_setting, validate_fps, validate_packet_size, validate_universe,
    Config, ConfigError, ParseFailure, SettingKey, DEFAULT_TARGET_IP, MAX_PACKET_SIZE, MAX_UNIVERSE,
    MIN_PACKET_SIZE,
};

fn owned(s: &str) -> Option<String> {
    Some(s.to_string())
}

#[test]
fn from_env_requires_url_and_key() {
    let err = Config::from_settings(None, None, None, None, None, None, None)
        .err()
        .expect("missing URL accepted");
    let msg = err.message();
    assert!(msg.contains("URL"), "expected URL error, got: {msg}");
}

#[test]
fn parse_env_or_returns_default_when_unset() {
    let v: u16 = u16_setting(&None, 42u16, SettingKey::Universe).unwrap();
    assert_eq!(v, 42);
}

#[test]
fn parse_env_or_uses_env_value() {
    let v: u16 = u16_setting(&owned("99"), 1u16, SettingKey::Universe).unwrap();
    assert_eq!(v, 99);
}

#[test]
fn validate_universe_accepts_zero() {
    assert_eq!(validate_universe(0).unwrap(), 0);
}

#[test]
fn validate_universe_accepts_max() {
    assert_eq!(validate_universe(MAX_UNIVERSE).unwrap(), MAX_UNIVERSE);
}

#[test]
fn validate_universe_rejects_over_max() {
    let err = validate_universe(MAX_UNIVERSE + 1).unwrap_err();
    assert!(err.message().contains("UNIVERSE"));
}

#[test]
fn validate_packet_size_rejects_below_min() {
    let err = validate_packet_size(0).unwrap_err();
    assert!(err.message().contains("PACKET_SIZE"));
}

#[test]
fn validate_packet_size_rejects_odd() {
    let err = validate_packet_size(511).unwrap_err();
    assert!(err.message().contains("even"));
}

#[test]
fn validate_packet_size_rejects_oversized() {
    let err = validate_packet_size(514).unwrap_err();
    assert!(err.message().contains("PACKET_SIZE"));
}

#[test]
fn validate_packet_size_accepts_boundaries() {
    assert_eq!(
        validate_packet_size(MIN_PACKET_SIZE).unwrap(),
        MIN_PACKET_SIZE
    );
    assert_eq!(
        validate_packet_size(MAX_PACKET_SIZE).unwrap(),
        MAX_PACKET_SIZE
    );
}

#[test]
fn validate_fps_rejects_zero() {
    assert!(validate_fps(0).is_err());
    assert_eq!(validate_fps(1).unwrap(), 1);
}

#[test]
fn error_messages_are_exact() {
    assert_eq!(
        ConfigError::UniverseOutOfRange(32768).message(),
        "UNIVERSE must be in 0..=32767, got 32768"
    );
    assert_eq!(
        ConfigError::PacketSizeOutOfRange(0).message(),
        "PACKET_SIZE must be in 2..=512, got 0"
    );
    assert_eq!(
        ConfigError::PacketSizeOdd(511).message(),
        "PACKET_SIZE must be even, got 511"
    );
    assert_eq!(ConfigError::FpsZero.message(), "FPS must be greater than 0");
    assert_eq!(
        ConfigError::Missing(SettingKey::ApiKey).message(),
        "API_KEY env var is required"
    );
    assert_eq!(
        ConfigError::InvalidValue(SettingKey::TargetIp, ParseFailure::BadAddress).message(),
        "invalid value for TARGET_IP: invalid IPv4 address syntax"
    );
    assert_eq!(
        ConfigError::InvalidValue(SettingKey::Universe, ParseFailure::InvalidDigit).message(),
        "invalid value for UNIVERSE: invalid digit found in string"
    );
    assert_eq!(
        ConfigError::InvalidValue(SettingKey::Fps, ParseFailure::Empty).message(),
        "invalid value for FPS: cannot parse integer from empty string"
    );
    assert_eq!(
        ConfigError::InvalidValue(SettingKey::PacketSize, ParseFailure::TooLarge).message(),
        "invalid value for PACKET_SIZE: number too large to fit in target type"
    );
}

#[test]
fn decimal_string_writes_numbers() {
    assert_eq!(decimal_string(0), "0");
    assert_eq!(decimal_string(7), "7");
    assert_eq!(decimal_string(10), "10");
    assert_eq!(decimal_string(65535), "65535");
    assert_eq!(decimal_string(4294967295), "4294967295");
}

#[test]
fn numeric_settings_parse_decimal_text() {
    let bad = |why| Err(ConfigError::InvalidValue(SettingKey::PacketSize, why));
    assert_eq!(u16_setting(&owned("+7"), 1, SettingKey::PacketSize), Ok(7));
    assert_eq!(u16_setting(&owned("007"), 1, SettingKey::PacketSize), Ok(7));
    assert_eq!(u16_setting(&owned("65535"), 1, SettingKey::PacketSize), Ok(65535));
    assert_eq!(
        u16_setting(&owned("70000"), 1, SettingKey::PacketSize),
        bad(ParseFailure::TooLarge)
    );
    assert_eq!(
        u16_setting(&owned(" 7"), 1, SettingKey::PacketSize),
        bad(ParseFailure::InvalidDigit)
    );
    assert_eq!(u16_setting(&owned(""), 1, SettingKey::PacketSize), bad(ParseFailure::Empty));
    assert_eq!(
        u16_setting(&owned("-1"), 1, SettingKey::PacketSize),
        bad(ParseFailure::InvalidDigit)
    );
    assert_eq!(u32_setting(&owned("70000"), 1, SettingKey::Fps), Ok(70000));
    assert_eq!(
        u32_setting(&owned("4294967296"), 1, SettingKey::Fps),
        Err(ConfigError::InvalidValue(SettingKey::Fps, ParseFailure::TooLarge))
    );
}

#[test]
fn parse_number_reports_the_first_failure() {
    assert_eq!(parse_number("+", 65535), Err(ParseFailure::InvalidDigit));
    assert_eq!(parse_number("-", 65535), Err(ParseFailure::InvalidDigit));
    assert_eq!(parse_number("+0", 65535), Ok(0));
    assert_eq!(parse_number("99999x", 65535), Err(ParseFailure::TooLarge));
    assert_eq!(parse_number("9x9999", 65535), Err(ParseFailure::InvalidDigit));
    assert_eq!(parse_number("12é", 65535), Err(ParseFailure::InvalidDigit));
    assert_eq!(parse_number("4294967295", u32::MAX), Ok(4294967295));
}

#[test]
fn parse_number_agrees_with_std() {
    for text in ["", "+", "-", "0", "+12", "-3", "65535", "65536", "99999x", "1 ", "x1", "0012"] {
        let ours = parse_number(text, 65535).ok().map(|v| v as u16);
        assert_eq!(ours, text.parse::<u16>().ok(), "text {text:?}");
    }
}

#[test]
fn defaults_fill_unset_settings() {
    let cfg = Config::from_settings(
        owned("http://localhost:3000"),
        owned("super-secret-do-not-log"),
        None,
        None,
        None,
        None,
        None,
    )
    .unwrap();
    assert_eq!(cfg.url, "http://localhost:3000");
    assert_eq!(cfg.api_key, "super-secret-do-not-log");
    assert_eq!(cfg.log_level, "info");
    assert_eq!(cfg.target_ip, DEFAULT_TARGET_IP);
    assert_eq!(cfg.target_ip, [169, 254, 0, 2]);
    assert_eq!(cfg.universe, 0);
    assert_eq!(cfg.packet_size, 512);
    assert_eq!(cfg.fps, 40);
}

#[test]
fn settings_values_are_used() {
    let cfg = Config::from_settings(
        owned("http://core"),
        owned("k"),
        owned("debug"),
        Some(Some([10, 0, 0, 9])),
        owned("300"),
        owned("64"),
        owned("25"),
    )
    .unwrap();
    assert_eq!(cfg.log_level, "debug");
    assert_eq!(cfg.target_ip, [10, 0, 0, 9]);
    assert_eq!(cfg.universe, 300);
    assert_eq!(cfg.packet_size, 64);
    assert_eq!(cfg.fps, 25);
}

fn settings_error(
    target_ip: Option<Option<[u8; 4]>>,
    universe: &str,
    packet_size: &str,
    fps: &str,
) -> ConfigError {
    Config::from_settings(
        owned("u"),
        owned("k"),
        None,
        target_ip,
        owned(universe),
        owned(packet_size),
        owned(fps),
    )
    .err()
    .expect("settings accepted")
}

#[test]
fn each_setting_error_is_reported() {
    assert_eq!(
        Config::from_settings(owned("u"), None, None, None, None, None, None).err(),
        Some(ConfigError::Missing(SettingKey::ApiKey))
    );
    assert_eq!(
        settings_error(Some(None), "0", "512", "40"),
        ConfigError::InvalidValue(SettingKey::TargetIp, ParseFailure::BadAddress)
    );
    assert_eq!(
        settings_error(None, "x", "512", "40"),
        ConfigError::InvalidValue(SettingKey::Universe, ParseFailure::InvalidDigit)
    );
    assert_eq!(
        settings_error(None, "40000", "512", "40"),
        ConfigError::UniverseOutOfRange(40000)
    );
    assert_eq!(
        settings_error(None, "0", "1024", "40"),
        ConfigError::PacketSizeOutOfRange(1024)
    );
    assert_eq!(
        settings_error(None, "0", "511", "40"),
        ConfigError::PacketSizeOdd(511)
    );
    assert_eq!(
        settings_error(None, "0", "", "40"),
        ConfigError::InvalidValue(SettingKey::PacketSize, ParseFailure::Empty)
    );
    assert_eq!(
        settings_error(None, "0", "512", "0"),
        ConfigError::FpsZero
    );
    assert_eq!(
        settings_error(None, "0", "512", "fast"),
        ConfigError::InvalidValue(SettingKey::Fps, ParseFailure::InvalidDigit)
    );
}

#[test]
fn first_error_wins() {
    assert_eq!(
        Config::from_settings(None, None, None, Some(None), owned("x"), None, None).err(),
        Some(ConfigError::Missing(SettingKey::Url))
    );
    assert_eq!(
        settings_error(None, "99999", "3", "0"),
        ConfigError::InvalidValue(SettingKey::Universe, ParseFailure::TooLarge)
    );
}

#[test]
fn debug_redacts_api_key() {
    let cfg = Config::from_settings(
        owned("http://localhost:3000"),
        owned("super-secret-do-not-log"),
        owned("info"),
        Some(Some([169, 254, 0, 2])),
        owned("0"),
        owned("512"),
        owned("40"),
    )
    .unwrap();
    let rendered = cfg.debug_text();
    assert!(
        !rendered.contains("super-secret-do-not-log"),
        "api_key leaked in Debug output: {rendered}"
    );
    assert!(
        rendered.contains("<redacted>"),
        "Debug output should mark the api_key as redacted: {rendered}"
    );
}

#[test]
fn debug_text_lists_every_other_field() {
    let cfg = Config::from_settings(
        owned("http://core/\"x\""),
        owned("k"),
        None,
        Some(Some([10, 0, 0, 9])),
        owned("300"),
        owned("64"),
        owned("25"),
    )
    .unwrap();
    assert_eq!(
        cfg.debug_text(),
        "Config { url: \"http://core/\\\"x\\\"\", api_key: \"<redacted>\", log_level: \"info\", \
         target_ip: 10.0.0.9, universe: 300, packet_size: 64, fps: 25 }"
    );
}

#[test]
fn invalid_setting_message_names_the_parse_failure() {
    let err = settings_error(None, "abc", "512", "40");
    assert_eq!(err.message(), "invalid value for UNIVERSE: invalid digit found in string");
}
