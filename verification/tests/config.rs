use server_axum::config::{parse_port, u16_to_string, Config};

fn build(
    app_env: Option<&str>,
    host: Option<&str>,
    port: Option<&str>,
) -> Config {
    Config::from_parts(
        app_env.map(String::from),
        host.map(String::from),
        port.map(String::from),
        String::from("mongodb://localhost:27017"),
    )
}

#[test]
fn defaults_apply_when_nothing_is_set() {
    let c = build(None, None, None);
    assert_eq!(c.app_env, "development");
    assert_eq!(c.host, "127.0.0.1");
    assert_eq!(c.port, 3000);
    assert_eq!(c.mongodb_uri, "mongodb://localhost:27017");
}

#[test]
fn given_values_are_kept() {
    let c = build(Some("production"), Some("0.0.0.0"), Some("8080"));
    assert_eq!(c.app_env, "production");
    assert_eq!(c.host, "0.0.0.0");
    assert_eq!(c.port, 8080);
}

#[test]
fn unparsable_port_falls_back_to_default() {
    assert_eq!(build(None, None, Some("abc")).port, 3000);
    assert_eq!(build(None, None, Some("")).port, 3000);
    assert_eq!(build(None, None, Some("-1")).port, 3000);
    assert_eq!(build(None, None, Some("70000")).port, 3000);
    assert_eq!(build(None, None, Some("80 ")).port, 3000);
}

#[test]
fn address_joins_host_and_port() {
    let c = build(None, None, None);
    assert_eq!(c.address(), "127.0.0.1:3000");
    let c = build(None, Some("0.0.0.0"), Some("65535"));
    assert_eq!(c.address(), "0.0.0.0:65535");
}

#[test]
fn port_parses_like_a_u16() {
    assert_eq!(parse_port("0"), Some(0));
    assert_eq!(parse_port("3000"), Some(3000));
    assert_eq!(parse_port("+8080"), Some(8080));
    assert_eq!(parse_port("65535"), Some(65535));
    assert_eq!(parse_port("65536"), None);
    assert_eq!(parse_port("99999999999999999999"), None);
    assert_eq!(parse_port("+"), None);
    assert_eq!(parse_port("12a"), None);
    assert_eq!(parse_port("007"), Some(7));
}

#[test]
fn ports_render_in_decimal() {
    assert_eq!(u16_to_string(0), "0");
    assert_eq!(u16_to_string(7), "7");
    assert_eq!(u16_to_string(3000), "3000");
    assert_eq!(u16_to_string(65535), "65535");
}
