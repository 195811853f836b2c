use mihomo_tui::app::{system_proxy_address, App};
use mihomo_tui::command::api::{delay_url, proxy_group_url, reload_config_url};
use mihomo_tui::command::process::{
    cap_eff_of_status, cmdline_mentions, image_name_from, is_mihomo_comm, kill_outcome,
    mihomo_image_name, proc_pid, stop_mihomo, taskkill_outcome, tun_capability_message,
};
use mihomo_tui::config::mihomo_config::MihomoConfig;
use mihomo_tui::config::node::ProxyReport;
use mihomo_tui::settings::Settings;
use mihomo_tui::ui::{help_rows, provider_lines, status_line, status_rows};

#[test]
fn pid_parsing() {
    assert_eq!(proc_pid("1234"), Some(1234));
    assert_eq!(proc_pid("+7"), Some(7));
    assert_eq!(proc_pid("self"), None);
    assert_eq!(proc_pid(""), None);
    assert_eq!(proc_pid("+"), None);
    assert_eq!(proc_pid("4294967295"), Some(u32::MAX));
    assert_eq!(proc_pid("4294967296"), None);
    assert_eq!(proc_pid("-1"), None);
}

#[test]
fn comm_and_cmdline() {
    assert!(is_mihomo_comm("mihomo\n"));
    assert!(!is_mihomo_comm("mihomo-x"));
    assert!(cmdline_mentions("/usr/bin/mihomo\0-d\0/home/u/.config/mihomors", "/home/u/.config/mihomors"));
    assert!(!cmdline_mentions("/usr/bin/mihomo", "/etc"));
    assert!(cmdline_mentions("anything", ""));
}

#[test]
fn capability_parsing() {
    let status = "Name:\tmihomo\nCapPrm:\t0000000000000000\r\nCapEff:\t0000000000003000\n";
    assert_eq!(cap_eff_of_status(status), Some(0x3000));
    assert_eq!(cap_eff_of_status("Name:\tx\n"), None);
    assert_eq!(cap_eff_of_status("CapEff:\tzz\nCapEff:\t1f\n"), Some(0x1f));
    assert_eq!(cap_eff_of_status("CapEff:\t  ff  "), Some(0xff));
    assert_eq!(cap_eff_of_status("capeff:\tff"), None);
}

#[test]
fn capability_warning() {
    assert_eq!(tun_capability_message(5, 0x3000), None);
    assert_eq!(tun_capability_message(5, 0xffff_ffff), None);
    let w = tun_capability_message(42, 0x1000).unwrap();
    assert!(w.starts_with("mihomo(PID=42)缺少CAP_NET_ADMIN/CAP_NET_RAW"));
}

#[test]
fn stop_outcomes() {
    assert_eq!(kill_outcome(0), Err("未找到 mihomo 进程".to_string()));
    assert_eq!(kill_outcome(2), Ok(()));
    assert_eq!(
        taskkill_outcome("ERROR: The process \"m.exe\" NOT FOUND.", false, "m.exe"),
        Err("未找到 mihomo 进程".to_string())
    );
    assert_eq!(taskkill_outcome("SUCCESS", true, "m.exe"), Ok(()));
    assert_eq!(
        taskkill_outcome("Access denied", false, "m.exe"),
        Err("停止mihomo进程(m.exe)失败: Access denied".to_string())
    );
}

#[test]
fn image_names() {
    assert_eq!(image_name_from("bin/m.exe", Some("m.exe".to_string())), "m.exe");
    assert_eq!(image_name_from("..", None), "..");
    assert_eq!(mihomo_image_name("/opt/mihomo/mihomo"), "mihomo");
    assert_eq!(stop_mihomo(&Settings::default()), "mihomo-windows-amd64.exe");
}

#[test]
fn image_name_of_paths_without_file_name() {
    assert_eq!(mihomo_image_name(".."), "..");
    assert_eq!(mihomo_image_name("bin/.."), "bin/..");
    assert_eq!(mihomo_image_name("/"), "/");
    assert_eq!(mihomo_image_name(""), "");
    assert_eq!(mihomo_image_name("."), ".");
    assert_eq!(mihomo_image_name("bin/mihomo/."), "mihomo");
    assert_eq!(mihomo_image_name("bin/mihomo/"), "mihomo");
    assert_eq!(mihomo_image_name("bin//mihomo//"), "mihomo");
    assert_eq!(mihomo_image_name("..."), "...");
}

#[test]
fn image_name_ignores_directory() {
    assert_eq!(mihomo_image_name("mihomo"), "mihomo");
    assert_eq!(mihomo_image_name("d/mihomo"), "mihomo");
    assert_eq!(mihomo_image_name("a/b/c/mihomo-linux"), "mihomo-linux");
    assert_eq!(mihomo_image_name("/usr/local/bin/mihomo"), "mihomo");
    let mut s = Settings::default();
    s.mihomo_exe = "/opt/kernel/mihomo".to_string();
    let first = stop_mihomo(&s);
    s.mihomo_exe = "./other/dir/mihomo".to_string();
    assert_eq!(stop_mihomo(&s), first);
    assert_eq!(first, "mihomo");
    assert_eq!(mihomo_image_name("C:/Program Files/mihomo/mihomo.exe"), "mihomo.exe");
    assert_eq!(mihomo_image_name("/opt/m:x"), "m:x");
}

#[test]
fn api_addresses() {
    let s = Settings::default();
    assert_eq!(
        delay_url(&s),
        "http://127.0.0.1:9090/group/Proxy/delay?timeout=5000&url=https://www.gstatic.com/generate_204"
    );
    assert_eq!(proxy_group_url(&s), "http://127.0.0.1:9090/proxies/Proxy");
    assert_eq!(reload_config_url(&s), "http://127.0.0.1:9090/configs?force=true");
    assert_eq!(system_proxy_address(&s), "127.0.0.1:7890");
    let mut other = Settings::default();
    other.mixed_port = 7891;
    assert_eq!(system_proxy_address(&other), "127.0.0.1:7891");
}

#[test]
fn status_texts() {
    let settings = Settings::default();
    let mut app = App::new(MihomoConfig::default_config(&Settings::default()), false, true);
    assert_eq!(
        status_line(&app, &settings),
        "\u{1f534} 代理已停止 | \u{1f7e2} mihomo内核(运行中) | 系统代理（关闭） | TUN（关闭）"
    );
    app.apply_proxy_report(Ok(ProxyReport {
        alive: true,
        all: vec!["A".to_string(), "B".to_string()],
        dialer_proxy: String::new(),
        hidden: false,
        icon: String::new(),
        interface: String::new(),
        name: "Proxy".to_string(),
        now: "B".to_string(),
        node_type: "Selector".to_string(),
    }));
    assert_eq!(
        status_line(&app, &settings),
        "\u{1f7e2} 代理运行中 (127.0.0.1:7890) - B | \u{1f7e2} mihomo内核(运行中) | 系统代理（关闭） | TUN（关闭） | 共2个节点"
    );
    let rows = status_rows(&app, &settings);
    assert_eq!(rows[0], ("代理".to_string(), "127.0.0.1:7890".to_string()));
    assert_eq!(rows[1], ("节点".to_string(), "B".to_string()));
    assert_eq!(rows[2], ("mihomo内核".to_string(), "运行中".to_string()));
    let mut moved = Settings::default();
    moved.mixed_port = 8080;
    assert_eq!(status_rows(&app, &moved)[0], ("代理".to_string(), "127.0.0.1:8080".to_string()));
    assert!(status_line(&app, &moved).starts_with("\u{1f7e2} 代理运行中 (127.0.0.1:8080) - B"));
    let help = help_rows(&app);
    assert_eq!(help.len(), 10);
    assert_eq!(help[7], ("p".to_string(), "系统代理(关闭)".to_string()));
    assert_eq!(help[9], ("s".to_string(), "mihomo(开启)".to_string()));
}

#[test]
fn provider_popup_lines() {
    let mut config = MihomoConfig::default_config(&Settings::default());
    assert!(provider_lines(&config, 0).is_empty());
    config.insert_named_sub("u1".to_string(), "one".to_string());
    config.insert_named_sub("u2".to_string(), "two".to_string());
    assert_eq!(provider_lines(&config, 1), vec!["   one".to_string(), ">> two".to_string()]);
}
