//! The models that the window lists: their state, the commands about them, and the log.
use vstd::prelude::*;

verus! {

/// A command from the window to the recording manager.
#[derive(Debug, PartialEq)]
pub enum ModelCommand {
    Enable(String),
    Disable(String),
    Add(String, bool),
    Remove(String),
    /// Start recording all models that are enabled.
    StartAll,
    /// Stop all recordings.
    StopAll,
}

pub enum ModelCommandView {
    Enable(Seq<char>),
    Disable(Seq<char>),
    Add(Seq<char>, bool),
    Remove(Seq<char>),
    StartAll,
    StopAll,
}

impl View for ModelCommand {
    type V = ModelCommandView;

    open spec fn view(&self) -> ModelCommandView {
        match self {
            ModelCommand::Enable(username) => ModelCommandView::Enable(username@),
            ModelCommand::Disable(username) => ModelCommandView::Disable(username@),
            ModelCommand::Add(username, enabled) => ModelCommandView::Add(username@, *enabled),
            ModelCommand::Remove(username) => ModelCommandView::Remove(username@),
            ModelCommand::StartAll => ModelCommandView::StartAll,
            ModelCommand::StopAll => ModelCommandView::StopAll,
        }
    }
}

/// A moment of local time: the seconds since the start of 1970 in UTC, the nanoseconds behind
/// them, and how many seconds the local clock is ahead of UTC.
#[derive(Debug, Clone, Copy, PartialEq, Eq, Structural)]
pub struct LocalTime {
    pub seconds: i64,
    pub nanoseconds: u32,
    pub utc_offset_seconds: i32,
}

/// Calls `chrono::Local::now` and takes the moment apart. Nothing is believed of it: each call may
/// give any moment.
#[verifier::external_body]
pub(crate) fn local_now() -> LocalTime {
    let now = chrono::Local::now();
    LocalTime {
        seconds: now.timestamp(),
        nanoseconds: now.timestamp_subsec_nanos(),
        utc_offset_seconds: now.offset().local_minus_utc(),
    }
}

/// How a model's stream stands.
#[derive(Debug, Clone, Copy, PartialEq, Eq, Structural)]
pub enum ModelStreamStatus {
    Public,
    Private,
    Offline,
    LongOffline,
    Error,
    Unknown,
    NotExist,
    Restricted,
    Blocked,
}

impl ModelStreamStatus {
    /// The status as the window shows it.
    pub open spec fn label_text(self) -> Seq<char> {
        match self {
            ModelStreamStatus::Public => "在线"@,
            ModelStreamStatus::Private => "私人秀"@,
            ModelStreamStatus::Offline => "离线"@,
            ModelStreamStatus::LongOffline => "长时间离线"@,
            ModelStreamStatus::Error => "错误"@,
            ModelStreamStatus::Unknown => "未知"@,
            ModelStreamStatus::NotExist => "不存在"@,
            ModelStreamStatus::Restricted => "受限"@,
            ModelStreamStatus::Blocked => "已封禁"@,
        }
    }

    /// The status as the window shows it.
    pub fn label(&self) -> (label: &str)
        ensures
            label@ == self.label_text(),
    {
        match self {
            Self::Public => "在线",
            Self::Private => "私人秀",
            Self::Offline => "离线",
            Self::LongOffline => "长时间离线",
            Self::Error => "错误",
            Self::Unknown => "未知",
            Self::NotExist => "不存在",
            Self::Restricted => "受限",
            Self::Blocked => "已封禁",
        }
    }
}

/// How serious a log entry is.
#[derive(Debug, Clone, Copy, PartialEq, Eq, Structural)]
pub enum LogLevel {
    Info,
    Warn,
    Error,
    Debug,
}

impl LogLevel {
    /// The level as the window shows it.
    pub open spec fn label_text(self) -> Seq<char> {
        match self {
            LogLevel::Info => "INFO"@,
            LogLevel::Warn => "WARN"@,
            LogLevel::Error => "ERROR"@,
            LogLevel::Debug => "DEBUG"@,
        }
    }

    /// The level as the window shows it.
    pub fn label(&self) -> (label: &str)
        ensures
            label@ == self.label_text(),
    {
        match self {
            Self::Info => "INFO",
            Self::Warn => "WARN",
            Self::Error => "ERROR",
            Self::Debug => "DEBUG",
        }
    }
}

/// The window shows different statuses differently.
pub proof fn law_status_labels_differ(a: ModelStreamStatus, b: ModelStreamStatus)
    requires
        a.label_text() == b.label_text(),
    ensures
        a == b,
{
    reveal_strlit("在线");
    reveal_strlit("私人秀");
    reveal_strlit("离线");
    reveal_strlit("长时间离线");
    reveal_strlit("错误");
    reveal_strlit("未知");
    reveal_strlit("不存在");
    reveal_strlit("受限");
    reveal_strlit("已封禁");
    assert("在线"@[0] == '在' && "私人秀"@[0] == '私' && "离线"@[0] == '离' && "长时间离线"@[0] == '长');
    assert("错误"@[0] == '错' && "未知"@[0] == '未' && "不存在"@[0] == '不');
    assert("受限"@[0] == '受' && "已封禁"@[0] == '已');
    assert(a.label_text()[0] == b.label_text()[0]);
}

/// The window shows different levels differently.
pub proof fn law_level_labels_differ(a: LogLevel, b: LogLevel)
    requires
        a.label_text() == b.label_text(),
    ensures
        a == b,
{
    reveal_strlit("INFO");
    reveal_strlit("WARN");
    reveal_strlit("ERROR");
    reveal_strlit("DEBUG");
    assert("INFO"@[0] == 'I' && "WARN"@[0] == 'W' && "ERROR"@[0] == 'E' && "DEBUG"@[0] == 'D');
    assert(a.label_text()[0] == b.label_text()[0]);
}

/// A model that the configuration lists.
#[derive(Debug, PartialEq)]
pub struct ModelEntry {
    pub username: String,
    pub enabled: bool,
}

pub struct ModelEntryView {
    pub username: Seq<char>,
    pub enabled: bool,
}

impl View for ModelEntry {
    type V = ModelEntryView;

    open spec fn view(&self) -> ModelEntryView {
        ModelEntryView { username: self.username@, enabled: self.enabled }
    }
}

/// A model as the window shows it.
#[derive(Debug)]
pub struct ModelStatus {
    pub username: String,
    pub enabled: bool,
    pub status: ModelStreamStatus,
    pub is_recording: bool,
    pub recording_start: Option<LocalTime>,
    pub last_check: Option<LocalTime>,
    pub file_path: Option<String>,
}

pub struct ModelView {
    pub username: Seq<char>,
    pub enabled: bool,
    pub status: ModelStreamStatus,
    pub is_recording: bool,
    pub recording_start: Option<LocalTime>,
    pub last_check: Option<LocalTime>,
    pub file_path: Option<Seq<char>>,
}

impl View for ModelStatus {
    type V = ModelView;

    open spec fn view(&self) -> ModelView {
        ModelView {
            username: self.username@,
            enabled: self.enabled,
            status: self.status,
            is_recording: self.is_recording,
            recording_start: self.recording_start,
            last_check: self.last_check,
            file_path: crate::playlist::optional_text(self.file_path),
        }
    }
}

impl ModelView {
    /// A model of which nothing is known yet.
    pub open spec fn fresh(username: Seq<char>, enabled: bool) -> ModelView {
        ModelView {
            username,
            enabled,
            status: ModelStreamStatus::Unknown,
            is_recording: false,
            recording_start: None,
            last_check: None,
            file_path: None,
        }
    }

    /// A recording has a start, and only a recording has a start or a file.
    pub open spec fn consistent(self) -> bool {
        &&& self.is_recording == (self.recording_start is Some)
        &&& !self.is_recording ==> self.file_path is None
    }
}

impl ModelStatus {
    /// A model of which nothing is known yet.
    pub(crate) fn fresh(username: String, enabled: bool) -> (model: ModelStatus)
        ensures
            model@ == ModelView::fresh(username@, enabled),
    {
        ModelStatus {
            username,
            enabled,
            status: ModelStreamStatus::Unknown,
            is_recording: false,
            recording_start: None,
            last_check: None,
            file_path: None,
        }
    }
}

impl Clone for ModelStatus {
    fn clone(&self) -> (copy: Self)
        ensures
            copy@ == self@,
    {
        ModelStatus {
            username: self.username.clone(),
            enabled: self.enabled,
            status: self.status,
            is_recording: self.is_recording,
            recording_start: self.recording_start,
            last_check: self.last_check,
            file_path: match &self.file_path {
                Some(path) => Some(path.clone()),
                None => None,
            },
        }
    }
}

/// An entry of the log.
#[derive(Debug)]
pub struct LogEntry {
    pub timestamp: LocalTime,
    pub level: LogLevel,
    pub message: String,
}

pub struct LogView {
    pub timestamp: LocalTime,
    pub level: LogLevel,
    pub message: Seq<char>,
}

impl View for LogEntry {
    type V = LogView;

    open spec fn view(&self) -> LogView {
        LogView { timestamp: self.timestamp, level: self.level, message: self.message@ }
    }
}

impl Clone for LogEntry {
    fn clone(&self) -> (copy: Self)
        ensures
            copy@ == self@,
    {
        LogEntry {
            timestamp: self.timestamp,
            level: self.level,
            message: self.message.clone(),
        }
    }
}

} // verus!
