use portfolio::config::{parse_port, Config, DbConfig};

#[test]
fn parse_port_agrees_with_std() {
    let samples = [
        "", "+", "-", "0", "00080", "+80", "-1", "65535", "65536", "99999999999", "3000", " 3000",
        "3000 ", "3a", "١٢", "+-1", "++1", "0x10",
    ];
    for s in samples {
        assert_eq!(parse_port(s), s.parse::<u16>().ok(), "{:?}", s);
    }
    for n in 0u32..70000 {
        let s = n.to_string();
        assert_eq!(parse_port(&s), s.parse::<u16>().ok());
    }
}

#[test]
fn config_defaults() {
    let c = Config::from_values(None, None, None, None);
    assert_eq!(c.host, "0.0.0.0");
    assert_eq!(c.port, 3000);
    assert_eq!(c.site_url, "http://localhost:3000");
    assert!(c.discord_webhook_url.is_none());
}

#[test]
fn config_reads_values() {
    let c = Config::from_values(
        Some("127.0.0.1".into()),
        Some("8080".into()),
        Some("https://example.org".into()),
        Some("https://hook".into()),
    );
    assert_eq!(c.host, "127.0.0.1");
    assert_eq!(c.port, 8080);
    assert_eq!(c.site_url, "https://example.org");
    assert_eq!(c.discord_webhook_url.as_deref(), Some("https://hook"));
}

#[test]
fn config_bad_port_falls_back() {
    assert_eq!(Config::from_values(None, Some("http".into()), None, None).port, 3000);
    assert_eq!(Config::from_values(None, Some("70000".into()), None, None).port, 3000);
}

#[test]
fn db_config_defaults() {
    let d = DbConfig::from_values(None, None, None, None, None);
    assert_eq!(d.url, "ws://127.0.0.1:8000");
    assert_eq!(d.username, "root");
    assert_eq!(d.password, "root");
    assert_eq!(d.namespace, "portfolio");
    assert_eq!(d.database, "main");
    let d = DbConfig::from_values(Some("mem://".into()), Some("u".into()), Some("p".into()), Some("n".into()), Some("d".into()));
    assert_eq!((d.url.as_str(), d.username.as_str(), d.password.as_str(), d.namespace.as_str(), d.database.as_str()), ("mem://", "u", "p", "n", "d"));
}
