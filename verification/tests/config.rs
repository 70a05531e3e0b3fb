use srvcs_xnor::config::Config;
/// The port of a `host:port` bind address.
fn port_of(c: &Config) -> u16 {
    let (_, port) = c.bind_addr.rsplit_once(':').expect("SRVCS_BIND_ADDR must be host:port");
    port.parse().expect("SRVCS_BIND_ADDR must be host:port")
}

#[test]
fn defaults_are_sane() {
    let c = Config::from_vars(None, None, None, None, None);
    assert_eq!(port_of(&c), 8080);
    assert_eq!(c.environment, "development");
    assert_eq!(c.xor_url, "http://127.0.0.1:8080");
    assert_eq!(c.not_url, "http://127.0.0.1:8080");
}

#[test]
fn parses_explicit_bind_addr() {
    let c = Config::from_vars(Some("127.0.0.1:9000".into()), None, None, None, None);
    assert_eq!(port_of(&c), 9000);
}

#[test]
fn given_values_win_over_defaults() {
    let c = Config::from_vars(
        None,
        Some("debug".into()),
        Some("production".into()),
        Some("http://xor:1".into()),
        Some("http://not:2".into()),
    );
    assert_eq!(c.bind_addr, "0.0.0.0:8080");
    assert_eq!(c.log_level, "debug");
    assert_eq!(c.environment, "production");
    assert_eq!(c.xor_url, "http://xor:1");
    assert_eq!(c.not_url, "http://not:2");
}

#[test]
fn default_log_level() {
    let c = Config::from_vars(None, None, None, None, None);
    assert_eq!(c.log_level, "info,tower_http=info");
    assert_eq!(c.bind_addr, "0.0.0.0:8080");
}
