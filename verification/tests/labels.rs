use screc::models::{LogLevel, ModelStreamStatus};

#[test]
fn status_labels() {
    assert_eq!(ModelStreamStatus::Public.label(), "在线");
    assert_eq!(ModelStreamStatus::Private.label(), "私人秀");
    assert_eq!(ModelStreamStatus::Offline.label(), "离线");
    assert_eq!(ModelStreamStatus::LongOffline.label(), "长时间离线");
    assert_eq!(ModelStreamStatus::Error.label(), "错误");
    assert_eq!(ModelStreamStatus::Unknown.label(), "未知");
    assert_eq!(ModelStreamStatus::NotExist.label(), "不存在");
    assert_eq!(ModelStreamStatus::Restricted.label(), "受限");
    assert_eq!(ModelStreamStatus::Blocked.label(), "已封禁");
}

#[test]
fn level_labels() {
    assert_eq!(LogLevel::Info.label(), "INFO");
    assert_eq!(LogLevel::Warn.label(), "WARN");
    assert_eq!(LogLevel::Error.label(), "ERROR");
    assert_eq!(LogLevel::Debug.label(), "DEBUG");
}
