use lan_iot_hub::config::{EnvOverrides, FileConfig, HubConfig};

fn env() -> EnvOverrides {
    EnvOverrides {
        ha_url: None,
        ha_token: None,
        agent_url: None,
        hub_port: None,
        hub_bind: None,
        registry_poll_secs: None,
        auth_required: None,
        auth_secret: None,
        mongodb_uri: None,
        mongodb_database: None,
    }
}

#[test]
fn defaults_without_file_or_env() {
    let c = HubConfig::load(None, &env());
    assert_eq!(c.bind, "0.0.0.0");
    assert_eq!(c.port, 3000);
    assert_eq!(c.ha_url, "http://homeassistant:8123");
    assert_eq!(c.ha_token, "");
    assert_eq!(c.agent_url, "http://agent:8000");
    assert_eq!(c.registry_poll_secs, 30);
    assert!(!c.auth_required);
    assert_eq!(c.mongodb_uri, "mongodb://mongo:27017");
    assert_eq!(c.mongodb_database, "lan_iot");
    assert!(!c.ha_configured());
    assert_eq!(c.listen_address(), "0.0.0.0:3000");
    assert_eq!(HubConfig::config_path(None), "/etc/lan-iot/hub.toml");
    assert_eq!(HubConfig::config_path(Some("/x.toml")), "/x.toml");
}

#[test]
fn env_overrides_file() {
    let mut f = FileConfig::default();
    f.ha.token = "filetok".into();
    f.hub.port = 4000;
    let mut e = env();
    e.ha_url = Some("".into());
    e.ha_token = Some("".into());
    e.hub_port = Some("8080".into());
    e.registry_poll_secs = Some("abc".into());
    e.auth_required = Some("TRUE".into());
    e.hub_bind = Some("127.0.0.1".into());
    let c = HubConfig::load(Some(f), &e);
    assert_eq!(c.ha_url, "http://homeassistant:8123");
    assert_eq!(c.ha_token, "");
    assert_eq!(c.port, 8080);
    assert_eq!(c.registry_poll_secs, 30);
    assert!(c.auth_required);
    assert_eq!(c.listen_address(), "127.0.0.1:8080");
    let mut e = env();
    e.hub_port = Some("70000".into());
    assert_eq!(HubConfig::load(None, &e).port, 3000);
}

#[test]
fn local_fallback() {
    let mut c = HubConfig::load(None, &env());
    assert!(c.needs_local_fallback(false));
    assert!(!c.needs_local_fallback(true));
    let mut local = FileConfig::default();
    local.ha.url = "http://192.168.1.2:8123".into();
    local.ha.token = "tok".into();
    local.mongodb.uri = "".into();
    c.apply_local(local);
    assert_eq!(c.ha_url, "http://192.168.1.2:8123");
    assert_eq!(c.ha_token, "tok");
    assert_eq!(c.mongodb_uri, "mongodb://mongo:27017");
    assert!(c.ha_configured());
    assert!(!c.needs_local_fallback(false));
}
