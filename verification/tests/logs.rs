use mihomo_tui::log::{LogType, Logs};

#[test]
fn new_log_is_empty() {
    let logs = Logs::new();
    assert!(logs.is_empty());
    assert_eq!(logs.len(), 0);
    assert!(logs.find_logs(None).is_empty());
}

#[test]
fn add_then_find_by_type() {
    let mut logs = Logs::new();
    logs.add_log(LogType::Info, "a".to_string());
    logs.add_log(LogType::Error, "b".to_string());
    logs.add_log(LogType::Info, "c".to_string());
    let infos = logs.find_logs(Some(LogType::Info));
    assert_eq!(infos.len(), 2);
    assert_eq!(infos[0].msg(), "a");
    assert_eq!(infos[1].msg(), "c");
    let errors = logs.find_logs(Some(LogType::Error));
    assert_eq!(errors.len(), 1);
    assert_eq!(errors[0].msg(), "b");
    assert_eq!(errors[0].log_type(), LogType::Error);
    assert!(logs.find_logs(Some(LogType::Debug)).is_empty());
}

#[test]
fn find_all_keeps_order() {
    let mut logs = Logs::new();
    logs.add_log(LogType::Warn, "1".to_string());
    logs.add_log(LogType::Debug, "2".to_string());
    let all = logs.find_logs(None);
    let msgs: Vec<&str> = all.iter().map(|l| l.msg()).collect();
    assert_eq!(msgs, vec!["1", "2"]);
    assert_eq!(logs.len(), 2);
}

#[test]
fn severities_partition_the_log() {
    let mut logs = Logs::new();
    for (i, t) in [LogType::Info, LogType::Warn, LogType::Error, LogType::Info, LogType::Debug]
        .into_iter()
        .enumerate()
    {
        logs.add_log(t, i.to_string());
    }
    let total: usize = [LogType::Info, LogType::Warn, LogType::Error, LogType::Debug]
        .into_iter()
        .map(|t| logs.find_logs(Some(t)).len())
        .sum();
    assert_eq!(total, logs.len());
}

#[test]
fn query_after_add() {
    let mut logs = Logs::new();
    logs.add_log(LogType::Warn, "w".to_string());
    let before = logs.find_logs(Some(LogType::Info)).len();
    logs.add_log(LogType::Info, "i".to_string());
    let after = logs.find_logs(Some(LogType::Info));
    assert_eq!(after.len(), before + 1);
    assert_eq!(after.last().unwrap().msg(), "i");
    assert_eq!(logs.find_logs(Some(LogType::Warn)).len(), 1);
}
