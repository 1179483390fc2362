use screc::models::{LocalTime, ModelEntry};
use screc::shared_state::Effects;
use screc::{LogLevel, ModelCommand, ModelStreamStatus, SharedGuiState};
use std::path::PathBuf;

const NOON: LocalTime = LocalTime { seconds: 1_700_000_000, nanoseconds: 5, utc_offset_seconds: 28_800 };

fn entry(username: &str, enabled: bool) -> ModelEntry {
    ModelEntry { username: username.to_string(), enabled }
}

fn state(names: &[&str]) -> SharedGuiState<u32> {
    let mut state = SharedGuiState::new();
    let entries: Vec<ModelEntry> = names.iter().map(|name| entry(name, true)).collect();
    state.init_models(&entries);
    state
}

fn names(state: &SharedGuiState<u32>) -> Vec<String> {
    state.get_models().into_iter().map(|model| model.username).collect()
}

#[test]
fn a_new_state_is_empty() {
    let state: SharedGuiState<u32> = SharedGuiState::new();
    assert!(state.get_models().is_empty());
    assert!(state.get_logs().is_empty());
    assert_eq!(state.models_version(), 0);
    assert_eq!(state.log_version(), 0);
    assert_eq!(state.config_version(), 0);
    assert_eq!(state.get_config_path(), None);
    assert!(!state.is_recording_active());
    assert!(state.sync_config().is_none());
}

#[test]
fn models_come_from_the_configuration() {
    let mut state: SharedGuiState<u32> = SharedGuiState::new();
    state.init_models(&vec![entry("a", true), entry("b", false)]);
    let models = state.get_models();
    assert_eq!(models.len(), 2);
    assert_eq!(models[1].username, "b");
    assert!(!models[1].enabled && models[0].enabled);
    assert_eq!(models[0].status, ModelStreamStatus::Unknown);
    assert!(!models[0].is_recording);
    assert_eq!(models[0].recording_start, None);
    assert_eq!(models[0].last_check, None);
    assert_eq!(models[0].file_path, None);
    assert_eq!(state.models_version(), 1);
}

#[test]
fn status_updates() {
    let mut state = state(&["a", "b", "b"]);
    state.update_status_at("b", ModelStreamStatus::Public, NOON);
    let models = state.get_models();
    assert_eq!(models[1].status, ModelStreamStatus::Public);
    assert_eq!(models[1].last_check, Some(NOON));
    assert_eq!(models[0].status, ModelStreamStatus::Unknown);
    assert_eq!(models[2].status, ModelStreamStatus::Unknown);
    assert_eq!(state.models_version(), 2);
    state.update_status_at("x", ModelStreamStatus::Public, NOON);
    assert_eq!(state.models_version(), 2);
}

#[test]
fn the_clock_is_read() {
    let mut state = state(&["a"]);
    state.update_status("a", ModelStreamStatus::Private);
    let checked = state.get_models()[0].last_check.unwrap();
    assert!(checked.seconds > 1_500_000_000);
    assert!(checked.nanoseconds < 2_000_000_000);
    assert!(checked.utc_offset_seconds.abs() < 86_400);
    state.set_recording("a", true, None);
    assert!(state.get_models()[0].recording_start.unwrap().seconds >= checked.seconds);
    state.push_log(LogLevel::Info, "x".to_string());
    assert!(state.get_logs()[0].timestamp.seconds >= checked.seconds);
}

#[test]
fn recording_marks() {
    let mut state = state(&["a"]);
    state.set_recording_at("a", true, Some("a.mp4".to_string()), NOON);
    let model = &state.get_models()[0];
    assert!(model.is_recording);
    assert_eq!(model.recording_start, Some(NOON));
    assert_eq!(model.file_path, Some("a.mp4".to_string()));
    state.set_recording_at("a", false, Some("b.mp4".to_string()), NOON);
    let model = &state.get_models()[0];
    assert!(!model.is_recording);
    assert_eq!(model.recording_start, None);
    assert_eq!(model.file_path, None);
    assert_eq!(state.models_version(), 3);
    state.set_recording_at("x", true, None, NOON);
    assert_eq!(state.models_version(), 3);
}

#[test]
fn the_log_keeps_the_last_entries() {
    let mut state: SharedGuiState<u32> = SharedGuiState::new();
    for i in 0..100_003u32 {
        state.push_log_at(LogLevel::Debug, i.to_string(), NOON);
    }
    let logs = state.get_logs();
    assert_eq!(logs.len(), 100_000);
    assert_eq!(logs[0].message, "3");
    assert_eq!(logs[99_999].message, "100002");
    assert_eq!(logs[0].level, LogLevel::Debug);
    assert_eq!(logs[0].timestamp, NOON);
    assert_eq!(state.log_version(), 100_003);
}

#[test]
fn only_the_last_write_counts() {
    let mut state: SharedGuiState<u32> = SharedGuiState::new();
    assert!(!state.is_latest_config_write("quality", 0));
    assert_eq!(state.begin_config_write("quality"), 1);
    assert_eq!(state.begin_config_write("folder"), 1);
    assert_eq!(state.begin_config_write("quality"), 2);
    assert!(!state.is_latest_config_write("quality", 1));
    assert!(state.is_latest_config_write("quality", 2));
    assert!(!state.is_latest_config_write("quality", 3));
    assert!(state.is_latest_config_write("folder", 1));
    assert!(!state.is_latest_config_write("other", 1));
}

#[test]
fn enabling_a_model() {
    let mut state = state(&["a"]);
    assert_eq!(state.set_model_enabled("a", false), Effects { command: None, sync_config: true });
    assert!(!state.get_models()[0].enabled);
    state.set_command_sender();
    assert_eq!(
        state.set_model_enabled("a", true),
        Effects { command: Some(ModelCommand::Enable("a".to_string())), sync_config: true }
    );
    assert_eq!(state.models_version(), 3);
    assert_eq!(
        state.set_model_enabled("x", false),
        Effects { command: Some(ModelCommand::Disable("x".to_string())), sync_config: true }
    );
    assert_eq!(state.models_version(), 3);
}

#[test]
fn adding_a_model() {
    let mut state = state(&["a"]);
    state.set_command_sender();
    assert_eq!(state.add_model("a", true), Effects { command: None, sync_config: false });
    assert_eq!(state.models_version(), 1);
    assert_eq!(
        state.add_model("b", true),
        Effects { command: Some(ModelCommand::Add("b".to_string(), true)), sync_config: true }
    );
    assert_eq!(state.add_model("c", false), Effects { command: None, sync_config: true });
    assert_eq!(names(&state), vec!["a", "b", "c"]);
    assert!(!state.get_models()[2].enabled);
    assert_eq!(state.models_version(), 3);
}

#[test]
fn removing_a_model() {
    let mut state = state(&["a", "b", "a", "c"]);
    state.set_command_sender();
    assert_eq!(
        state.remove_model("a"),
        Effects { command: Some(ModelCommand::Remove("a".to_string())), sync_config: true }
    );
    assert_eq!(names(&state), vec!["b", "c"]);
    assert_eq!(state.models_version(), 2);
    state.remove_model("a");
    assert_eq!(names(&state), vec!["b", "c"]);
    assert_eq!(state.models_version(), 3);
}

#[test]
fn removing_undoes_adding() {
    let mut state = state(&["a", "b"]);
    state.add_model("c", true);
    state.remove_model("c");
    assert_eq!(names(&state), vec!["a", "b"]);
}

#[test]
fn moving_a_model() {
    let mut state = state(&["a", "b", "c", "d"]);
    assert!(state.move_model("b", 1));
    assert_eq!(names(&state), vec!["a", "c", "b", "d"]);
    assert!(state.move_model("b", -1));
    assert_eq!(names(&state), vec!["a", "b", "c", "d"]);
    assert!(state.move_model("d", -3));
    assert_eq!(names(&state), vec!["d", "a", "b", "c"]);
    assert_eq!(state.models_version(), 4);
}

#[test]
fn moves_stop_at_the_ends() {
    let mut state = state(&["a", "b", "c"]);
    assert!(!state.move_model("a", -1));
    assert!(!state.move_model("c", 1));
    assert!(!state.move_model("b", 0));
    assert!(!state.move_model("x", 1));
    assert_eq!(state.models_version(), 1);
    assert!(state.move_model("b", 100));
    assert_eq!(names(&state), vec!["a", "c", "b"]);
    assert!(state.move_model("b", i32::MIN));
    assert_eq!(names(&state), vec!["b", "a", "c"]);
}

#[test]
fn switching_recording() {
    let mut state = state(&["a"]);
    assert_eq!(state.set_recording_active(true), None);
    assert!(state.is_recording_active());
    state.set_command_sender();
    assert_eq!(state.set_recording_active(false), Some(ModelCommand::StopAll));
    assert_eq!(state.set_recording_active(true), Some(ModelCommand::StartAll));
    assert!(state.is_recording_active());
}

#[test]
fn replacing_the_configuration() {
    let mut state = state(&["a"]);
    state.set_app_config(7);
    state.set_command_sender();
    state.set_recording_active(true);
    assert_eq!(state.begin_switch_config(), Some(ModelCommand::StopAll));
    assert!(!state.is_recording_active());
    assert_eq!(state.config_version(), 0);
    state.switch_config(PathBuf::from("/tmp/new.json"), &vec![entry("z", false)]);
    assert_eq!(state.config_version(), 1);
    assert_eq!(state.models_version(), 2);
    assert_eq!(names(&state), vec!["z"]);
    assert_eq!(state.get_config_path(), Some(PathBuf::from("/tmp/new.json")));
}

#[test]
fn using_the_configuration() {
    let mut state = state(&[]);
    assert!(!state.has_app_config());
    state.set_app_config(7);
    assert!(state.has_app_config());
    assert_eq!(state.with_app_config(|config| *config + 1), 8);
    let before = state.with_app_config_mut(|config| {
        let before = *config;
        *config = 9;
        before
    });
    assert_eq!(before, 7);
    assert_eq!(state.with_app_config(|config| *config), 9);
}

#[test]
fn saving_the_models() {
    let mut state = state(&["a", "b"]);
    state.set_model_enabled("b", false);
    state.set_config_path(PathBuf::from("config.json"));
    let sync = state.sync_config().unwrap();
    assert_eq!(sync.path, PathBuf::from("config.json"));
    assert_eq!(sync.field, "usernames");
    assert_eq!(sync.entries, vec![entry("a", true), entry("b", false)]);
    let mut other: SharedGuiState<u32> = SharedGuiState::new();
    other.init_models(&sync.entries);
    assert_eq!(names(&other), vec!["a", "b"]);
}

#[test]
fn the_whole_configuration_is_written_first() {
    let mut state = state(&[]);
    state.set_config_path(PathBuf::from("config.json"));
    let sync = state.sync_config().unwrap();
    assert!(!sync.has_app_config);
    assert!(!sync.writes_whole_config(false));
    state.set_app_config(1);
    let sync = state.sync_config().unwrap();
    assert!(sync.has_app_config);
    assert!(sync.writes_whole_config(false));
    assert!(!sync.writes_whole_config(true));
}

#[test]
fn recordings_stop_before_a_configuration_is_asked_for() {
    let mut state = state(&["a"]);
    state.set_command_sender();
    state.set_recording_active(true);
    assert_eq!(state.begin_switch_config(), Some(ModelCommand::StopAll));
    assert!(!state.is_recording_active());
}

#[test]
fn recording_marks_agree_after_many_calls() {
    let mut state = state(&["a", "b", "c"]);
    state.set_app_config(1);
    state.set_recording_at("a", true, Some("a.mp4".to_string()), NOON);
    state.set_recording_at("b", true, None, NOON);
    state.move_model("a", 2);
    state.update_status_at("b", ModelStreamStatus::Offline, NOON);
    state.set_recording_at("a", false, Some("x.mp4".to_string()), NOON);
    state.add_model("d", true);
    state.remove_model("c");
    state.set_recording_active(true);
    assert_eq!(names(&state), vec!["b", "a", "d"]);
    for model in state.get_models() {
        assert_eq!(model.is_recording, model.recording_start.is_some());
        assert!(model.is_recording || model.file_path.is_none());
    }
    assert!(state.get_models()[0].is_recording);
    state.switch_config(PathBuf::from("n.json"), &[entry("b", true)]);
    assert!(!state.get_models()[0].is_recording);
    assert_eq!(state.get_models()[0].recording_start, None);
}

#[test]
fn other_calls_leave_log_and_writes_alone() {
    let mut state = state(&["a"]);
    for i in 0..3u32 {
        state.push_log_at(LogLevel::Warn, i.to_string(), NOON);
        state.begin_config_write("folder");
        state.set_recording_at("a", i % 2 == 0, None, NOON);
        state.add_model("b", true);
        state.remove_model("b");
        state.set_recording_active(i == 1);
    }
    assert_eq!(state.begin_config_write("quality"), 1);
    let messages: Vec<String> = state.get_logs().into_iter().map(|entry| entry.message).collect();
    assert_eq!(messages, vec!["0", "1", "2"]);
    assert_eq!(state.log_version(), 3);
    assert!(state.is_latest_config_write("folder", 3));
    assert!(!state.is_latest_config_write("folder", 2));
    assert!(state.is_latest_config_write("quality", 1));
}
