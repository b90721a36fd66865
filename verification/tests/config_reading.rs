use ini::Ini;
use xphttpbridge::config::{Config, ServerConfig, DEFAULT_PORT};

#[test]
fn configured_port_and_address_are_read() {
    let c = Config::from_file_contents("[server]\nport=8080\naddress=0.0.0.0\n").unwrap();
    assert_eq!(c.server.port, 8080);
    assert_eq!(c.server.address, "0.0.0.0");
}

#[test]
fn missing_server_section_gives_defaults() {
    let c = Config::from_file_contents("[other]\nport=1234\n").unwrap();
    assert_eq!(c.server.port, 49000);
    assert_eq!(c.server.address, "127.0.0.1");
    let c = Config::from_file_contents("").unwrap();
    assert_eq!(c.server.port, DEFAULT_PORT);
    assert_eq!(c.server.address, "127.0.0.1");
}

#[test]
fn unreadable_port_falls_back_to_default() {
    let c = Config::from_file_contents("[server]\nport=seventy\n").unwrap();
    assert_eq!(c.server.port, 49000);
    let c = Config::from_file_contents("[server]\nport=70000\naddress=10.0.0.1\n").unwrap();
    assert_eq!(c.server.port, 49000);
    assert_eq!(c.server.address, "10.0.0.1");
}

#[test]
fn byte_order_mark_is_skipped() {
    let c = Config::from_file_contents("\u{feff}[server]\nport=5000\n").unwrap();
    assert_eq!(c.server.port, 5000);
}

#[test]
fn syntax_error_is_reported() {
    let text = "[server\nport=1\n";
    let e = Config::from_file_contents(text).unwrap_err();
    let expected = Ini::load_from_str(text).unwrap_err();
    assert_eq!(e.line, expected.line);
    assert_eq!(e.column, expected.col);
    assert_eq!(e.message, expected.msg.to_string());
}

#[test]
fn from_ini_reads_the_first_server_section() {
    let mut doc = Ini::new();
    doc.with_section(Some("server")).set("port", "+6000").set("address", "::1");
    let c = Config::from_ini(&doc);
    assert_eq!(c.server.port, 6000);
    assert_eq!(c.server.address, "::1");
}

#[test]
fn defaults_are_the_documented_ones() {
    let d = ServerConfig::defaults();
    assert_eq!(d.port, 49000);
    assert_eq!(d.address, "127.0.0.1");
}

#[test]
fn decimal_port_setting_reads_back() {
    for p in [0u16, 80, 49000, 65535] {
        let c = ServerConfig::from_settings(Some(p.to_string()), None);
        assert_eq!(c.port, p);
        assert_eq!(c.address, "127.0.0.1");
    }
    let c = ServerConfig::from_settings(Some("x".to_string()), Some("h".to_string()));
    assert_eq!((c.port, c.address.as_str()), (49000, "h"));
}
