use mihomo_tui::settings::Settings;
use mihomo_tui::app::{Action, App, Key, PopupMode};
use mihomo_tui::config::mihomo_config::MihomoConfig;
use mihomo_tui::config::node::ProxyReport;
use mihomo_tui::log::LogType;

fn report(all: &[&str], now: &str) -> ProxyReport {
    ProxyReport {
        alive: true,
        all: all.iter().map(|s| s.to_string()).collect(),
        dialer_proxy: String::new(),
        hidden: false,
        icon: String::new(),
        interface: String::new(),
        name: "Proxy".to_string(),
        now: now.to_string(),
        node_type: "Selector".to_string(),
    }
}

fn app_with_nodes(all: &[&str], now: &str) -> App {
    let mut app = App::new(MihomoConfig::default_config(&Settings::default()), false, true);
    app.apply_proxy_report(Ok(report(all, now)));
    app
}

fn last_log(app: &App) -> (LogType, String) {
    let all = app.logs.find_logs(None);
    let l = all.last().unwrap();
    (l.log_type(), l.msg().to_string())
}

#[test]
fn new_app_starts_closed_and_empty() {
    let app = App::new(MihomoConfig::default_config(&Settings::default()), true, false);
    assert_eq!(app.popup_mode, PopupMode::Closed);
    assert!(app.proxy_running);
    assert!(!app.mihomo_running);
    assert_eq!(app.select_provider, 0);
    assert!(app.current_nodes.is_empty());
    assert!(app.is_ready());
}

#[test]
fn new_app_selects_provider_used_by_first_group() {
    let mut config = MihomoConfig::default_config(&Settings::default());
    config.insert_named_sub("u1".to_string(), "one".to_string());
    config.insert_named_sub("u2".to_string(), "two".to_string());
    config.proxy_groups[0].use_list = vec!["two".to_string()];
    let app = App::new(config, false, false);
    assert_eq!(app.select_provider, 1);
}

#[test]
fn proxy_report_selects_current_node() {
    let app = app_with_nodes(&["A", "B", "C"], "B");
    assert_eq!(app.current_nodes.len(), 3);
    assert_eq!(app.select_node, 1);
    assert_eq!(app.active_node, Some(1));
    assert_eq!(app.current_nodes[2].speed, "-");
    assert_eq!(last_log(&app), (LogType::Info, "更新代理信息".to_string()));
}

#[test]
fn proxy_report_takes_last_match() {
    let app = app_with_nodes(&["A", "B", "A"], "A");
    assert_eq!(app.select_node, 2);
    assert_eq!(app.active_node, Some(2));
}

#[test]
fn proxy_report_without_match_keeps_active() {
    let mut app = app_with_nodes(&["A", "B"], "B");
    app.apply_proxy_report(Ok(report(&["X", "Y"], "Z")));
    assert_eq!(app.select_node, 0);
    assert_eq!(app.active_node, Some(1));
}

#[test]
fn proxy_report_error_is_logged() {
    let mut app = app_with_nodes(&["A"], "A");
    app.apply_proxy_report(Err("boom".to_string()));
    assert_eq!(app.current_nodes.len(), 1);
    assert_eq!(last_log(&app), (LogType::Error, "boom".to_string()));
}

#[test]
fn navigation_wraps_around() {
    let mut app = app_with_nodes(&["A", "B", "C"], "A");
    assert_eq!(app.select_node, 0);
    app.handle_key(Key::Up);
    assert_eq!(app.select_node, 2);
    app.handle_key(Key::Down);
    assert_eq!(app.select_node, 0);
    app.handle_key(Key::Down);
    app.handle_key(Key::Down);
    assert_eq!(app.select_node, 2);
    app.handle_key(Key::Down);
    assert_eq!(app.select_node, 0);
}

#[test]
fn navigation_on_empty_list_stays() {
    let mut app = App::new(MihomoConfig::default_config(&Settings::default()), false, false);
    app.navigate_node(1);
    assert_eq!(app.select_node, 0);
    app.navigate_provider(-1);
    assert_eq!(app.select_provider, 0);
}

#[test]
fn navigation_on_empty_list_ignores_any_selection() {
    let mut app = App::new(MihomoConfig::default_config(&Settings::default()), false, false);
    app.select_node = usize::MAX;
    app.select_provider = usize::MAX;
    assert!(app.is_ready());
    app.navigate_node(1);
    app.navigate_provider(-1);
    assert_eq!(app.select_node, usize::MAX);
    assert_eq!(app.select_provider, usize::MAX);
}

#[test]
fn deleted_provider_key_is_gone() {
    let mut config = MihomoConfig::default_config(&Settings::default());
    config.insert_named_sub("u1".to_string(), "one".to_string());
    config.insert_named_sub("u2".to_string(), "two".to_string());
    config.insert_named_sub("u3".to_string(), "one".to_string());
    let mut app = App::new(config, false, false);
    app.handle_key(Key::Char('c'));
    assert!(matches!(app.handle_key(Key::Char('d')), Action::SaveConfigAndReload));
    assert_eq!(app.config.provider_index_by_key("one"), None);
    assert_eq!(app.config.provider_count(), 1);
    assert_eq!(app.config.provider_key_by_index(0), Some("two".to_string()));
}

#[test]
fn enter_switches_to_selected_node() {
    let mut app = app_with_nodes(&["A", "B"], "A");
    app.handle_key(Key::Down);
    match app.handle_key(Key::Enter) {
        Action::SwitchNode(name) => assert_eq!(name, "B"),
        other => panic!("unexpected {:?}", other),
    }
    assert_eq!(app.active_node, Some(1));
}

#[test]
fn enter_without_nodes_does_nothing() {
    let mut app = App::new(MihomoConfig::default_config(&Settings::default()), false, false);
    assert!(matches!(app.handle_key(Key::Enter), Action::Nothing));
    assert_eq!(app.active_node, None);
}

#[test]
fn url_popup_edits_and_submits() {
    let mut app = App::new(MihomoConfig::default_config(&Settings::default()), false, false);
    assert!(matches!(app.handle_key(Key::Char('u')), Action::Nothing));
    assert_eq!(app.popup_mode, PopupMode::UrlInput);
    for c in "http://xq".chars() {
        app.handle_key(Key::Char(c));
    }
    app.handle_key(Key::Backspace);
    assert_eq!(app.url_input, "http://x");
    app.handle_key(Key::Char('q'));
    assert!(!app.should_quit);
    match app.handle_key(Key::Enter) {
        Action::SubmitSubscription(url) => assert_eq!(url, "http://xq"),
        other => panic!("unexpected {:?}", other),
    }
    assert_eq!(app.popup_mode, PopupMode::Closed);
    assert_eq!(app.url_input, "");
    assert_eq!(last_log(&app), (LogType::Info, "正在验证URL...".to_string()));
}

#[test]
fn empty_url_is_not_submitted() {
    let mut app = App::new(MihomoConfig::default_config(&Settings::default()), false, false);
    app.handle_key(Key::Char('u'));
    assert!(matches!(app.handle_key(Key::Enter), Action::Nothing));
    assert_eq!(app.popup_mode, PopupMode::UrlInput);
}

#[test]
fn escape_closes_popups() {
    let mut app = App::new(MihomoConfig::default_config(&Settings::default()), false, false);
    app.handle_key(Key::Char('u'));
    app.handle_key(Key::Char('a'));
    app.handle_key(Key::Esc);
    assert_eq!(app.popup_mode, PopupMode::Closed);
    assert_eq!(app.url_input, "");
    app.handle_key(Key::Char('?'));
    assert_eq!(app.popup_mode, PopupMode::HelpKey);
    app.handle_key(Key::Char('x'));
    assert_eq!(app.popup_mode, PopupMode::HelpKey);
    app.handle_key(Key::Esc);
    assert_eq!(app.popup_mode, PopupMode::Closed);
    app.handle_key(Key::Char('c'));
    assert_eq!(app.popup_mode, PopupMode::AgencySelect);
    app.handle_key(Key::Esc);
    assert_eq!(app.popup_mode, PopupMode::Closed);
}

#[test]
fn q_quits_without_popup() {
    let mut app = App::new(MihomoConfig::default_config(&Settings::default()), false, false);
    app.handle_key(Key::Char('q'));
    assert!(app.should_quit);
}

#[test]
fn command_keys_ask_for_work() {
    let mut app = App::new(MihomoConfig::default_config(&Settings::default()), false, false);
    assert!(matches!(app.handle_key(Key::Char('s')), Action::ToggleMihomo));
    assert!(matches!(app.handle_key(Key::Char('p')), Action::ToggleSystemProxy));
    assert!(matches!(app.handle_key(Key::Char('T')), Action::ToggleTun));
    assert!(matches!(app.handle_key(Key::Char('r')), Action::RefreshNodes));
    assert!(matches!(app.handle_key(Key::Char('d')), Action::InstallMihomo));
    assert!(matches!(app.handle_key(Key::Char('z')), Action::Nothing));
}

#[test]
fn delay_test_runs_once() {
    let mut app = app_with_nodes(&["A", "B"], "A");
    assert!(matches!(app.handle_key(Key::Char('t')), Action::MeasureDelays));
    assert!(app.is_test_delay);
    assert_eq!(app.current_nodes[0].speed, "wait");
    assert!(matches!(app.handle_key(Key::Char('t')), Action::Nothing));
    assert_eq!(last_log(&app), (LogType::Warn, "已经在测速了!".to_string()));
}

#[test]
fn delays_fill_speeds() {
    let mut app = app_with_nodes(&["A", "B"], "A");
    app.start_delay_test();
    app.apply_delays(Ok(vec![("B".to_string(), 123)]));
    assert!(!app.is_test_delay);
    assert_eq!(app.current_nodes[0].speed, "-");
    assert_eq!(app.current_nodes[1].speed, "123ms");
    assert_eq!(last_log(&app), (LogType::Info, "测速完成".to_string()));
}

#[test]
fn failed_delays_end_measurement() {
    let mut app = app_with_nodes(&["A"], "A");
    app.start_delay_test();
    app.apply_delays(Err("timeout".to_string()));
    assert!(!app.is_test_delay);
    assert_eq!(last_log(&app), (LogType::Error, "timeout".to_string()));
}

#[test]
fn provider_popup_selects_and_deletes() {
    let mut config = MihomoConfig::default_config(&Settings::default());
    config.insert_named_sub("u1".to_string(), "one".to_string());
    config.insert_named_sub("u2".to_string(), "two".to_string());
    let mut app = App::new(config, false, false);
    app.handle_key(Key::Char('c'));
    app.handle_key(Key::Down);
    assert_eq!(app.select_provider, 1);
    match app.handle_key(Key::Enter) {
        Action::SwitchProvider(name) => assert_eq!(name, "two"),
        other => panic!("unexpected {:?}", other),
    }
    assert!(matches!(app.handle_key(Key::Char('d')), Action::SaveConfigAndReload));
    assert_eq!(app.config.provider_count(), 1);
    assert_eq!(app.config.provider_key_by_index(0), Some("one".to_string()));
    assert!(matches!(app.handle_key(Key::Enter), Action::Nothing));
    app.handle_key(Key::Up);
    assert_eq!(app.select_provider, 0);
    assert!(matches!(app.handle_key(Key::Char('d')), Action::SaveConfigAndReload));
    assert_eq!(app.config.provider_count(), 0);
    assert!(app.config.proxy_providers.is_some());
    assert!(matches!(app.handle_key(Key::Char('d')), Action::Nothing));
}

#[test]
fn outcomes_are_logged() {
    let mut app = App::new(MihomoConfig::default_config(&Settings::default()), false, false);
    app.on_mihomo_started(Ok(()));
    assert!(app.mihomo_running);
    assert_eq!(last_log(&app), (LogType::Info, "mihomo启动".to_string()));
    app.on_mihomo_stopped(Err("no".to_string()));
    assert!(app.mihomo_running);
    assert_eq!(last_log(&app), (LogType::Error, "no".to_string()));
    app.on_mihomo_stopped(Ok(()));
    assert!(!app.mihomo_running);
    app.on_system_proxy_toggled(false, Ok(()));
    assert!(app.proxy_running);
    assert_eq!(last_log(&app), (LogType::Info, "开启系统代理".to_string()));
    app.on_system_proxy_toggled(true, Err("denied".to_string()));
    assert!(!app.proxy_running);
    assert_eq!(last_log(&app), (LogType::Error, "denied".to_string()));
    app.on_node_switched("HK".to_string(), Ok(()));
    assert_eq!(last_log(&app), (LogType::Info, "切换节点：HK".to_string()));
}

#[test]
fn tun_toggle_outcomes() {
    let mut app = App::new(MihomoConfig::default_config(&Settings::default()), false, false);
    assert!(app.on_tun_toggled(Ok(()), Some("warn".to_string())));
    assert!(app.tun_enabled);
    assert_eq!(last_log(&app), (LogType::Warn, "warn".to_string()));
    assert!(app.on_tun_toggled(Ok(()), Some("ignored".to_string())));
    assert!(!app.tun_enabled);
    assert_eq!(last_log(&app), (LogType::Info, "TUN已关闭".to_string()));
    assert!(!app.on_tun_toggled(Err("bad".to_string()), None));
    assert!(!app.tun_enabled);
}

#[test]
fn reload_outcome_closes_popup() {
    let mut app = App::new(MihomoConfig::default_config(&Settings::default()), false, false);
    app.handle_key(Key::Char('c'));
    assert!(app.on_config_reloaded(Ok(())));
    assert_eq!(app.popup_mode, PopupMode::Closed);
    assert_eq!(last_log(&app), (LogType::Info, "重置配置成功".to_string()));
    assert!(!app.on_config_reloaded(Err("x".to_string())));
}

#[test]
fn subscription_named_or_fallback() {
    let mut app = App::new(MihomoConfig::default_config(&Settings::default()), false, false);
    let name = app.begin_subscription("u1".to_string(), Ok("Airport".to_string()));
    assert_eq!(name, "Airport");
    assert_eq!(app.config.provider_key_by_index(0), Some("Airport".to_string()));
    let name = app.begin_subscription("u2".to_string(), Err("无法解析订阅名称".to_string()));
    assert_eq!(name, "订阅2");
    assert_eq!(
        last_log(&app),
        (LogType::Warn, "无法解析订阅名称，使用默认名称 订阅2".to_string())
    );
    assert_eq!(app.config.provider_count(), 2);
    assert!(app.on_subscription_saved(name, Ok(())));
    assert_eq!(last_log(&app), (LogType::Info, "插入代理商：订阅2".to_string()));
}

#[test]
fn download_runs_once() {
    let mut app = App::new(MihomoConfig::default_config(&Settings::default()), false, false);
    assert!(app.begin_download());
    assert!(app.is_downloading);
    assert!(!app.begin_download());
    assert_eq!(last_log(&app), (LogType::Warn, "正在安装mihomo".to_string()));
    app.on_download_finished(Ok(()));
    assert!(!app.is_downloading);
    assert_eq!(last_log(&app), (LogType::Info, "下载mihomo成功".to_string()));
    app.note_already_installed();
    assert_eq!(last_log(&app), (LogType::Warn, "mihomo已经安装过了".to_string()));
}

#[test]
fn provider_switch_outcome() {
    let mut app = App::new(MihomoConfig::default_config(&Settings::default()), false, false);
    assert!(app.on_provider_prepared(Ok(())));
    assert_eq!(last_log(&app), (LogType::Info, "正在切换代理商...".to_string()));
    assert!(!app.on_provider_prepared(Err("e".to_string())));
}

#[test]
fn typing_then_erasing_restores_input() {
    let mut app = App::new(MihomoConfig::default_config(&Settings::default()), false, false);
    app.handle_key(Key::Char('u'));
    app.handle_key(Key::Char('a'));
    let before = app.url_input.clone();
    app.handle_key(Key::Char('z'));
    app.handle_key(Key::Backspace);
    assert_eq!(app.url_input, before);
    assert_eq!(app.popup_mode, PopupMode::UrlInput);
}

#[test]
fn down_then_up_restores_selection() {
    let mut app = app_with_nodes(&["A", "B", "C"], "C");
    assert_eq!(app.select_node, 2);
    app.navigate_node(1);
    app.navigate_node(-1);
    assert_eq!(app.select_node, 2);
}

#[test]
fn switch_provider_rewrites_first_group() {
    let mut config = MihomoConfig::default_config(&Settings::default());
    assert!(config.prepare_switch_provider("two").is_ok());
    assert_eq!(config.proxy_groups[0].use_list, vec!["two".to_string()]);
    assert_eq!(config.proxy_groups[0].name, "Proxy");
    config.proxy_groups.clear();
    assert_eq!(config.prepare_switch_provider("x"), Err("配置中没有代理组".to_string()));
}
