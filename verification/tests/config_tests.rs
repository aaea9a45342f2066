use organise::config::{parse_port, Config};

#[test]
fn defaults_fill_in_for_missing_values() {
    let c = Config::from_env_values(None, None);
    assert_eq!(c.database_url, "sqlite://:memory:");
    assert_eq!(c.port, 8080);
}

#[test]
fn given_values_are_kept() {
    let c = Config::from_env_values(
        Some("mongodb://localhost:27017".to_string()),
        Some("3000".to_string()),
    );
    assert_eq!(c.database_url, "mongodb://localhost:27017");
    assert_eq!(c.port, 3000);
}

#[test]
fn an_unparsable_port_falls_back() {
    let c = Config::from_env_values(None, Some("not-a-port".to_string()));
    assert_eq!(c.port, 8080);
    let too_big = Config::from_env_values(None, Some("65536".to_string()));
    assert_eq!(too_big.port, 8080);
    let empty = Config::from_env_values(None, Some(String::new()));
    assert_eq!(empty.port, 8080);
}

#[test]
fn port_parsing_matches_the_stated_rule() {
    assert_eq!(parse_port("0"), Some(0));
    assert_eq!(parse_port("8080"), Some(8080));
    assert_eq!(parse_port("+443"), Some(443));
    assert_eq!(parse_port("65535"), Some(65535));
    assert_eq!(parse_port("65536"), None);
    assert_eq!(parse_port("99999"), None);
    assert_eq!(parse_port(""), None);
    assert_eq!(parse_port("+"), None);
    assert_eq!(parse_port("-1"), None);
    assert_eq!(parse_port("80a"), None);
    assert_eq!(parse_port(" 80"), None);
}
