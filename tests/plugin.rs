use kcp_tunnel::config::{Config, DEFAULT_SOCKBUF};
use kcp_tunnel::plugin::{parse_port, ConfigError, PluginConfig, PluginOptions};

fn vars(pairs: &[(&str, &str)]) -> Vec<(String, String)> {
    pairs.iter().map(|(k, v)| (k.to_string(), v.to_string())).collect()
}

#[test]
fn parse_port_reads_decimal() {
    assert_eq!(parse_port("8080"), Ok(8080));
    assert_eq!(parse_port("0"), Ok(0));
    assert_eq!(parse_port("65535"), Ok(65535));
    assert_eq!(parse_port("+80"), Ok(80));
    assert_eq!(parse_port("007"), Ok(7));
}

#[test]
fn parse_port_rejects_bad_input() {
    for s in ["", "+", "-1", "65536", "99999999999", "12a", " 80", "8 0", "++1"] {
        assert_eq!(parse_port(s), Err(ConfigError::InvalidPort), "{}", s);
    }
}

#[test]
fn options_default_to_server() {
    assert!(!PluginOptions::new(None).is_client);
    assert!(!PluginOptions::new(Some("")).is_client);
    assert!(!PluginOptions::new(Some("foo=bar")).is_client);
}

#[test]
fn options_select_client() {
    assert!(PluginOptions::new(Some("client=true")).is_client);
    assert!(PluginOptions::new(Some("a=b;client=true;c=d")).is_client);
    assert!(!PluginOptions::new(Some("client=false")).is_client);
    assert!(!PluginOptions::new(Some("client=TRUE")).is_client);
}

#[test]
fn options_last_setting_wins() {
    assert!(PluginOptions::new(Some("client=false;client=true")).is_client);
    assert!(!PluginOptions::new(Some("client=true;client=no")).is_client);
    assert!(PluginOptions::new(Some("client=true;client")).is_client);
}

#[test]
fn options_ignore_malformed_items() {
    assert!(!PluginOptions::new(Some("client=true=x")).is_client);
    assert!(!PluginOptions::new(Some("client")).is_client);
    assert!(!PluginOptions::new(Some("clients=true")).is_client);
}

#[test]
fn client_defaults() {
    let c = PluginConfig::new_client(&Vec::new()).unwrap();
    assert!(c.is_client());
    let local = c.client_local_addr();
    assert_eq!((local.host.as_str(), local.port), ("127.0.0.1", 12948));
    let remote = c.client_remote_addr();
    assert_eq!((remote.host.as_str(), remote.port), ("127.0.0.1", 29900));
}

#[test]
fn server_defaults() {
    let c = PluginConfig::new_server(&Vec::new()).unwrap();
    assert!(!c.is_client());
    let listen = c.server_listen_addr();
    assert_eq!((listen.host.as_str(), listen.port), ("127.0.0.1", 29900));
    let target = c.server_target_addr();
    assert_eq!((target.host.as_str(), target.port), ("127.0.0.1", 12948));
}

#[test]
fn default_config_is_server_on_loopback() {
    let c = PluginConfig::default();
    assert!(!c.is_client());
    assert_eq!(c.client_local_addr().port, 12948);
    assert_eq!(c.client_remote_addr().port, 29900);
}

#[test]
fn variables_override_defaults() {
    let v = vars(&[
        ("SS_LOCAL_HOST", "10.0.0.1"),
        ("SS_LOCAL_PORT", "1080"),
        ("HOME", "/root"),
        ("SS_REMOTE_HOST", "example.org"),
        ("SS_REMOTE_PORT", "443"),
    ]);
    let c = PluginConfig::new_client(&v).unwrap();
    let local = c.client_local_addr();
    assert_eq!((local.host.as_str(), local.port), ("10.0.0.1", 1080));
    let remote = c.client_remote_addr();
    assert_eq!((remote.host.as_str(), remote.port), ("example.org", 443));
    let s = PluginConfig::new_server(&v).unwrap();
    assert_eq!(s.server_listen_addr().port, 443);
    assert_eq!(s.server_target_addr().host, "10.0.0.1");
}

#[test]
fn later_variable_wins() {
    let v = vars(&[("SS_LOCAL_PORT", "1"), ("SS_LOCAL_PORT", "2")]);
    assert_eq!(PluginConfig::new_client(&v).unwrap().client_local_addr().port, 2);
}

#[test]
fn bad_port_variable_is_an_error() {
    let v = vars(&[("SS_REMOTE_PORT", "http")]);
    assert_eq!(PluginConfig::new_server(&v).err(), Some(ConfigError::InvalidPort));
    let v = vars(&[("SS_LOCAL_PORT", "70000"), ("SS_LOCAL_PORT", "80")]);
    assert_eq!(PluginConfig::new_client(&v).err(), Some(ConfigError::InvalidPort));
}

#[test]
fn client_config_settings() {
    let c = Config::new_client(&Vec::new()).unwrap();
    assert_eq!(c.sockbuf, 4 * 1024 * 1024);
    assert_eq!(DEFAULT_SOCKBUF, 4194304);
    assert_eq!(c.server_kcp_stream_read_timeout_secs, None);
    assert!(c.plugin.is_client());
    assert!(c.kcp.nodelay.nodelay);
    assert_eq!(c.kcp.nodelay.interval, 10);
    assert_eq!(c.kcp.nodelay.resend, 2);
    assert!(c.kcp.nodelay.nc);
}

#[test]
fn server_config_settings() {
    let c = Config::new_server(&Vec::new()).unwrap();
    assert_eq!(c.sockbuf, 4194304);
    assert_eq!(c.server_kcp_stream_read_timeout_secs, Some(5));
    assert!(!c.plugin.is_client());
    assert!(c.kcp.nodelay.nodelay);
    let smux = Config::new_smux();
    assert_eq!(smux.version, 1);
}

#[test]
fn config_error_propagates() {
    let v = vars(&[("SS_LOCAL_PORT", "")]);
    assert!(Config::new_client(&v).is_err());
    assert!(Config::new_server(&v).is_err());
}
