use omn::settings::parse_u16;
use omn::settings::ConfigError;
use omn::settings::Settings;

#[test]
fn missing_host_and_port_fall_back_to_defaults() {
    let s = Settings::resolve(None, None, Some(String::from("db://host/db"))).unwrap();
    assert_eq!(s.host, "0.0.0.0");
    assert_eq!(s.port, 7878);
    assert_eq!(s.db_url, "db://host/db");
}

#[test]
fn supplied_values_are_kept() {
    let s = Settings::resolve(
        Some(String::from("127.0.0.1")),
        Some(String::from("8080")),
        Some(String::from("db://elsewhere")),
    )
    .unwrap();
    assert_eq!(s.host, "127.0.0.1");
    assert_eq!(s.port, 8080);
    assert_eq!(s.db_url, "db://elsewhere");
}

#[test]
fn missing_store_address_fails_startup() {
    assert_eq!(
        Settings::resolve(None, None, None),
        Err(ConfigError::MissingDbUrl)
    );
    assert_eq!(
        Settings::resolve(Some(String::from("h")), Some(String::from("80")), None),
        Err(ConfigError::MissingDbUrl)
    );
}

#[test]
fn malformed_port_fails_startup() {
    assert_eq!(
        Settings::resolve(None, Some(String::from("abc")), Some(String::from("db://x"))),
        Err(ConfigError::InvalidPort(String::from("abc")))
    );
    assert_eq!(
        Settings::resolve(None, Some(String::from("65536")), Some(String::from("db://x"))),
        Err(ConfigError::InvalidPort(String::from("65536")))
    );
    assert_eq!(
        Settings::resolve(None, Some(String::from("")), Some(String::from("db://x"))),
        Err(ConfigError::InvalidPort(String::from("")))
    );
    assert_eq!(
        Settings::resolve(None, Some(String::from("-1")), Some(String::from("db://x"))),
        Err(ConfigError::InvalidPort(String::from("-1")))
    );
}

#[test]
fn port_parsing_covers_the_whole_16_bit_range() {
    assert_eq!(parse_u16("0"), Some(0));
    assert_eq!(parse_u16("7878"), Some(7878));
    assert_eq!(parse_u16("65535"), Some(65535));
    assert_eq!(parse_u16("65536"), None);
    assert_eq!(parse_u16("999999999999999999"), None);
    assert_eq!(parse_u16("007"), Some(7));
    assert_eq!(parse_u16(""), None);
    assert_eq!(parse_u16("12a"), None);
    assert_eq!(parse_u16(" 1"), None);
}
