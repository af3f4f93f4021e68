use sv_manage::console::{parse_port, rcon_config, trim, RconConfig};

fn props(v: &[(&str, &str)]) -> Vec<(String, String)> {
    v.iter().map(|(k, x)| (k.to_string(), x.to_string())).collect()
}

#[test]
fn trim_strips_white_space() {
    assert_eq!(trim("  a b \t\n"), "a b");
    assert_eq!(trim("   "), "");
    assert_eq!(trim(""), "");
    assert_eq!(trim("\u{3000}x\u{a0}"), "x");
}

#[test]
fn port_parsing() {
    assert_eq!(parse_port("25575"), Some(25575));
    assert_eq!(parse_port("+80"), Some(80));
    assert_eq!(parse_port("65535"), Some(65535));
    assert_eq!(parse_port("65536"), None);
    assert_eq!(parse_port(""), None);
    assert_eq!(parse_port("+"), None);
    assert_eq!(parse_port("-1"), None);
    assert_eq!(parse_port("12a"), None);
    assert_eq!(parse_port("99999999999"), None);
}

#[test]
fn rcon_enabled_config() {
    let p = props(&[("enable-rcon", " true "), ("rcon.port", "25575 "), ("rcon.password", " pw ")]);
    assert_eq!(rcon_config(&p), Some(RconConfig { port: 25575, password: " pw ".to_string() }));
}

#[test]
fn rcon_disabled_or_incomplete() {
    assert_eq!(rcon_config(&props(&[("enable-rcon", "false"), ("rcon.port", "1"), ("rcon.password", "x")])), None);
    assert_eq!(rcon_config(&props(&[("enable-rcon", "true"), ("rcon.port", "x"), ("rcon.password", "x")])), None);
    assert_eq!(rcon_config(&props(&[("enable-rcon", "true"), ("rcon.port", "1"), ("rcon.password", "  ")])), None);
    assert_eq!(rcon_config(&props(&[("enable-rcon", "true"), ("rcon.port", "1")])), None);
}
