use mihomo_tui::config::mihomo_config::MihomoConfig;
use mihomo_tui::config::node::Node;
use mihomo_tui::settings::Settings;
use std::time::Duration;

#[test]
fn default_config_values() {
    let c = MihomoConfig::default_config(&Settings::default());
    assert_eq!(c.port, 7890);
    assert_eq!(c.socks_port, 7891);
    assert!(c.allow_lan);
    assert_eq!(c.mode, "Rule");
    assert_eq!(c.log_level, "info");
    assert_eq!(c.external_controller, ":9090");
    assert_eq!(c.keep_alive_interval, 360);
    assert_eq!(c.proxy_groups.len(), 1);
    assert_eq!(c.proxy_groups[0].name, "Proxy");
    assert_eq!(c.proxy_groups[0].proxies, vec!["DIRECT".to_string()]);
    assert!(c.proxy_providers.is_none());
    assert_eq!(c.rules.len(), 12);
    assert_eq!(c.rules[11], "MATCH,Proxy");
    assert_eq!(c.sniffer.skip_domain, vec!["Mijia Cloud".to_string(), "dlg.io.mi.com".to_string()]);
}

#[test]
fn default_config_takes_ports_from_settings() {
    let mut s = Settings::default();
    s.mixed_port = 7897;
    s.socks_port = 7898;
    s.external_controller = "127.0.0.1:9097".to_string();
    let c = MihomoConfig::default_config(&s);
    assert_eq!(c.port, 7897);
    assert_eq!(c.socks_port, 7898);
    assert_eq!(c.external_controller, "127.0.0.1:9097");
}

#[test]
fn insert_sub_uses_md5_key() {
    let mut c = MihomoConfig::default_config(&Settings::default());
    let key = c.insert_sub("abc".to_string());
    assert_eq!(key, "900150983cd24fb0d6963f7d28e17f72");
    assert_eq!(c.provider_count(), 1);
    assert_eq!(c.provider_key_by_index(0), Some(key.clone()));
    let p = &c.proxy_providers.as_ref().unwrap()[&key];
    assert_eq!(p.provider_type, "http");
    assert_eq!(p.url, "abc");
    assert_eq!(p.interval, 3600);
}

#[test]
fn insert_same_sub_twice_keeps_one_entry() {
    let mut c = MihomoConfig::default_config(&Settings::default());
    let k1 = c.insert_sub("https://a.example/sub".to_string());
    let k2 = c.insert_sub("https://a.example/sub".to_string());
    assert_eq!(k1, k2);
    assert_eq!(c.provider_count(), 1);
}

#[test]
fn remove_sub_undoes_insert_sub() {
    let mut c = MihomoConfig::default_config(&Settings::default());
    let key = c.insert_sub("https://a.example/sub".to_string());
    c.remove_sub(&key);
    assert!(c.proxy_providers.is_none());
    assert_eq!(c.provider_count(), 0);
}

#[test]
fn remove_sub_keeps_order_of_rest() {
    let mut c = MihomoConfig::default_config(&Settings::default());
    c.insert_named_sub("u1".to_string(), "one".to_string());
    c.insert_named_sub("u2".to_string(), "two".to_string());
    c.insert_named_sub("u3".to_string(), "three".to_string());
    c.remove_sub("two");
    assert_eq!(c.provider_count(), 2);
    assert_eq!(c.provider_key_by_index(0), Some("one".to_string()));
    assert_eq!(c.provider_key_by_index(1), Some("three".to_string()));
    assert_eq!(c.provider_key_by_index(2), None);
    assert_eq!(c.provider_index_by_key("three"), Some(1));
    assert_eq!(c.provider_index_by_key("two"), None);
}

#[test]
fn insert_existing_name_keeps_place() {
    let mut c = MihomoConfig::default_config(&Settings::default());
    c.insert_named_sub("u1".to_string(), "one".to_string());
    c.insert_named_sub("u2".to_string(), "two".to_string());
    c.insert_named_sub("u3".to_string(), "one".to_string());
    assert_eq!(c.provider_count(), 2);
    assert_eq!(c.provider_key_by_index(0), Some("one".to_string()));
    assert_eq!(c.proxy_providers.as_ref().unwrap()["one"].url, "u3");
}

#[test]
fn remove_missing_sub_changes_nothing() {
    let mut c = MihomoConfig::default_config(&Settings::default());
    c.remove_sub("nothing");
    assert!(c.proxy_providers.is_none());
    c.insert_named_sub("u1".to_string(), "one".to_string());
    c.remove_sub("nothing");
    assert_eq!(c.provider_count(), 1);
}

#[test]
fn node_new_is_unmeasured() {
    let n = Node::new("HK 01".to_string());
    assert_eq!(n.name, "HK 01");
    assert_eq!(n.speed, "-");
}

#[test]
fn settings_defaults_and_durations() {
    let s = Settings::default();
    assert_eq!(s.mihomo_api, "http://127.0.0.1:9090");
    assert_eq!(s.mixed_port, 7890);
    assert_eq!(s.channel_capacity, 16);
    assert_eq!(s.http_timeout(), Duration::from_millis(5000));
    assert_eq!(s.delay_http_timeout(), Duration::from_millis(6000));
    assert_eq!(s.provider_retry_interval(), Duration::from_millis(500));
    assert_eq!(s.poll_interval(), Duration::from_millis(100));
}
