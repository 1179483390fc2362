//! The state that the window and the recording manager share: the list of models, the log, and
//! what is known of the configuration.
use crate::models::{
    local_now, LocalTime, LogEntry, LogLevel, ModelCommand, ModelEntry, ModelStatus,
    ModelStreamStatus,
};
#[allow(unused_imports)]
use crate::models::{LogView, ModelCommandView, ModelEntryView, ModelView};
#[allow(unused_imports)]
use crate::playlist::optional_text;
use std::collections::VecDeque;
use std::path::PathBuf;
use vstd::hash_map::StringHashMap;
use vstd::prelude::*;

verus! {

/// How many log entries are kept.
pub const MAX_LOGS: usize = 100_000;

/// `std::path::PathBuf`: a path that is only carried through.
#[verifier::external_type_specification]
#[verifier::external_body]
pub struct ExPathBuf(PathBuf);

/// `PathBuf::clone` gives the same path.
pub assume_specification[ <PathBuf as Clone>::clone ](path: &PathBuf) -> (copy: PathBuf)
    ensures
        copy == *path,
;

/// The state that the window and the recording manager share. `C` is the application's
/// configuration, or a handle to it. What a handle leads to can be replaced without a change to
/// this state.
pub struct SharedGuiState<C> {
    models: Vec<ModelStatus>,
    models_version: u64,
    logs: VecDeque<LogEntry>,
    log_serial: u64,
    config_path: Option<PathBuf>,
    has_command_sender: bool,
    recording_active: bool,
    app_config: Option<C>,
    config_version: u64,
    config_write_generations: StringHashMap<u64>,
}

/// The shared state: the models in their order and the number of changes to them, the log and the
/// number of entries ever added to it (in the range of `u64`), the configuration's file, whether
/// commands can be sent, whether recording is switched on, the configuration and the number of
/// its replacements, and for each configuration field the last generation of a pending write.
#[verifier::ext_equal]
pub struct GuiView<C> {
    pub models: Seq<ModelView>,
    pub models_version: nat,
    pub logs: Seq<LogView>,
    pub log_serial: nat,
    pub config_path: Option<PathBuf>,
    pub has_command_sender: bool,
    pub recording_active: bool,
    pub app_config: Option<C>,
    pub config_version: nat,
    pub generations: Map<Seq<char>, u64>,
}

pub open spec fn model_views(models: Seq<ModelStatus>) -> Seq<ModelView> {
    models.map_values(|model: ModelStatus| model@)
}

pub open spec fn log_views(logs: Seq<LogEntry>) -> Seq<LogView> {
    logs.map_values(|entry: LogEntry| entry@)
}

pub open spec fn entry_views(entries: Seq<ModelEntry>) -> Seq<ModelEntryView> {
    entries.map_values(|entry: ModelEntry| entry@)
}

pub open spec fn command_view(command: Option<ModelCommand>) -> Option<ModelCommandView> {
    match command {
        Some(inner) => Some(inner@),
        None => None,
    }
}

impl<C> View for SharedGuiState<C> {
    type V = GuiView<C>;

    closed spec fn view(&self) -> GuiView<C> {
        GuiView {
            models: model_views(self.models@),
            models_version: self.models_version as nat,
            logs: log_views(self.logs@),
            log_serial: self.log_serial as nat,
            config_path: self.config_path,
            has_command_sender: self.has_command_sender,
            recording_active: self.recording_active,
            app_config: self.app_config,
            config_version: self.config_version as nat,
            generations: self.config_write_generations@,
        }
    }
}

/// `i` is the position of the first model with this name.
pub open spec fn is_first_model(models: Seq<ModelView>, username: Seq<char>, i: int) -> bool {
    &&& 0 <= i < models.len()
    &&& models[i].username == username
    &&& forall|j: int| 0 <= j < i ==> models[j].username != username
}

/// The position of the first model with this name, if there is one.
pub open spec fn first_model(models: Seq<ModelView>, username: Seq<char>) -> Option<int> {
    if exists|i: int| is_first_model(models, username, i) {
        Some(choose|i: int| is_first_model(models, username, i))
    } else {
        None
    }
}

/// The models that a configuration lists, of which nothing is known yet.
pub open spec fn fresh_models(entries: Seq<ModelEntryView>) -> Seq<ModelView> {
    entries.map_values(|entry: ModelEntryView| ModelView::fresh(entry.username, entry.enabled))
}

/// What is written to the configuration about the models.
pub open spec fn model_entries(models: Seq<ModelView>) -> Seq<ModelEntryView> {
    models.map_values(
        |model: ModelView| ModelEntryView { username: model.username, enabled: model.enabled },
    )
}

/// Where a model at position `index` of `count` comes to stand when it is moved by `delta`: as far
/// as it goes, and no further than either end.
pub open spec fn move_target(index: int, delta: int, count: int) -> int {
    if index + delta < 0 {
        0
    } else if index + delta >= count {
        count - 1
    } else {
        index + delta
    }
}

/// The last generation of a pending write of a field; zero where there was none.
pub open spec fn generation(generations: Map<Seq<char>, u64>, key: Seq<char>) -> nat {
    if generations.contains_key(key) {
        generations[key] as nat
    } else {
        0
    }
}

/// A field has one more pending write.
pub open spec fn next_generation(
    generations: Map<Seq<char>, u64>,
    key: Seq<char>,
) -> Map<Seq<char>, u64> {
    generations.insert(key, (generation(generations, key) + 1) as u64)
}

/// The write of this generation is the last one that was announced for the field.
pub open spec fn is_latest(generations: Map<Seq<char>, u64>, key: Seq<char>, write: u64) -> bool {
    generations.contains_key(key) && generations[key] == write
}

/// The log with one more entry; a full log loses its oldest entry.
pub open spec fn with_entry(logs: Seq<LogView>, entry: LogView) -> Seq<LogView> {
    if logs.len() >= MAX_LOGS {
        logs.skip(1).push(entry)
    } else {
        logs.push(entry)
    }
}

impl<C> GuiView<C> {
    /// No models, no log and no configuration.
    pub open spec fn empty() -> GuiView<C> {
        GuiView {
            models: seq![],
            models_version: 0,
            logs: seq![],
            log_serial: 0,
            config_path: None,
            has_command_sender: false,
            recording_active: false,
            app_config: None,
            config_version: 0,
            generations: Map::empty(),
        }
    }

    /// The log is not longer than allowed.
    pub open spec fn wf(self) -> bool {
        self.logs.len() <= MAX_LOGS
    }

    pub open spec fn has_model(self, username: Seq<char>) -> bool {
        first_model(self.models, username) is Some
    }

    /// The command, if commands can be sent.
    pub open spec fn command(self, command: ModelCommandView) -> Option<ModelCommandView> {
        if self.has_command_sender {
            Some(command)
        } else {
            None
        }
    }

    /// Other models, counted as one change.
    pub open spec fn with_models(self, models: Seq<ModelView>) -> GuiView<C> {
        GuiView { models, models_version: self.models_version + 1, ..self }
    }

    /// The models are those of a configuration.
    pub open spec fn with_entries(self, entries: Seq<ModelEntryView>) -> GuiView<C> {
        self.with_models(fresh_models(entries))
    }

    /// The first model with this name has a new status, found at `now`.
    pub open spec fn with_status(
        self,
        username: Seq<char>,
        status: ModelStreamStatus,
        now: LocalTime,
    ) -> GuiView<C> {
        match first_model(self.models, username) {
            Some(i) => self.with_models(
                self.models.update(
                    i,
                    ModelView { status, last_check: Some(now), ..self.models[i] },
                ),
            ),
            None => self,
        }
    }

    /// The first model with this name is being recorded, or no longer, as of `now`.
    pub open spec fn with_recording(
        self,
        username: Seq<char>,
        recording: bool,
        file_path: Option<Seq<char>>,
        now: LocalTime,
    ) -> GuiView<C> {
        match first_model(self.models, username) {
            Some(i) => self.with_models(
                self.models.update(
                    i,
                    ModelView {
                        is_recording: recording,
                        recording_start: if recording {
                            Some(now)
                        } else {
                            None
                        },
                        file_path: if recording {
                            file_path
                        } else {
                            None
                        },
                        ..self.models[i]
                    },
                ),
            ),
            None => self,
        }
    }

    /// The log has one more entry.
    pub open spec fn with_log(self, entry: LogView) -> GuiView<C> {
        GuiView {
            logs: with_entry(self.logs, entry),
            log_serial: if self.log_serial == u64::MAX {
                0
            } else {
                self.log_serial + 1
            },
            ..self
        }
    }

    /// The first model with this name is enabled or disabled.
    pub open spec fn with_enabled(self, username: Seq<char>, enabled: bool) -> GuiView<C> {
        match first_model(self.models, username) {
            Some(i) => self.with_models(
                self.models.update(i, ModelView { enabled, ..self.models[i] }),
            ),
            None => self,
        }
    }

    /// The list has one more model, unless it has one with this name.
    pub open spec fn with_added(self, username: Seq<char>, enabled: bool) -> GuiView<C> {
        if self.has_model(username) {
            self
        } else {
            self.with_models(self.models.push(ModelView::fresh(username, enabled)))
        }
    }

    /// The list has no model with this name. This counts as a change even where there was none.
    pub open spec fn with_removed(self, username: Seq<char>) -> GuiView<C> {
        self.with_models(self.models.filter(|model: ModelView| model.username != username))
    }

    /// The move of a model changes the order.
    pub open spec fn moves(self, username: Seq<char>, delta: int) -> bool {
        first_model(self.models, username) matches Some(i) && move_target(
            i,
            delta,
            self.models.len() as int,
        ) != i
    }

    /// The first model with this name stands `delta` places further down, as far as that goes.
    pub open spec fn with_moved(self, username: Seq<char>, delta: int) -> GuiView<C> {
        if self.moves(username, delta) {
            let i = first_model(self.models, username)->0;
            let target = move_target(i, delta, self.models.len() as int);
            self.with_models(self.models.remove(i).insert(target, self.models[i]))
        } else {
            self
        }
    }

    /// The configuration was replaced.
    pub open spec fn with_config(self, path: PathBuf, entries: Seq<ModelEntryView>) -> GuiView<C> {
        GuiView {
            config_path: Some(path),
            config_version: self.config_version + 1,
            ..self.with_entries(entries)
        }
    }
}

/// What is to be done after a change to the models: a command for the recording manager, and
/// whether the configuration file is to be brought up to date.
#[derive(Debug, PartialEq)]
pub struct Effects {
    pub command: Option<ModelCommand>,
    pub sync_config: bool,
}

/// What is to be written to the configuration file.
#[derive(Debug)]
pub struct ConfigSync {
    pub path: PathBuf,
    /// The field of the configuration that lists the models.
    pub field: &'static str,
    pub entries: Vec<ModelEntry>,
    /// Whether there is a configuration that can be written as a whole.
    pub has_app_config: bool,
}

impl ConfigSync {
    /// Whether the whole configuration is to be written before the models are: where its file does
    /// not exist and there is a configuration to write.
    pub fn writes_whole_config(&self, file_exists: bool) -> (writes: bool)
        ensures
            writes == (!file_exists && self.has_app_config),
    {
        !file_exists && self.has_app_config
    }
}

pub proof fn lemma_first_model(models: Seq<ModelView>, username: Seq<char>, i: int)
    requires
        is_first_model(models, username, i),
    ensures
        first_model(models, username) == Some(i),
{
    let k = choose|k: int| is_first_model(models, username, k);
    assert(is_first_model(models, username, k));
    if k < i {
        assert(models[k].username != username);
    } else if i < k {
        assert(models[i].username != username);
    }
}

/// The models that a configuration lists.
fn build_models(entries: &[ModelEntry]) -> (models: Vec<ModelStatus>)
    ensures
        model_views(models@) == fresh_models(entry_views(entries@)),
{
    let mut models: Vec<ModelStatus> = Vec::new();
    let mut i: usize = 0;
    while i < entries.len()
        invariant
            i <= entries@.len(),
            models@.len() == i,
            forall|j: int|
                0 <= j < i ==> (#[trigger] models@[j])@ == fresh_models(entry_views(entries@))[j],
        decreases entries@.len() - i,
    {
        models.push(ModelStatus::fresh(entries[i].username.clone(), entries[i].enabled));
        i = i + 1;
    }
    assert(model_views(models@) =~= fresh_models(entry_views(entries@)));
    models
}

impl<C> SharedGuiState<C> {
    /// A state with no models, no log and no configuration.
    pub fn new() -> (state: SharedGuiState<C>)
        ensures
            state@ == GuiView::<C>::empty(),
            state@.wf(),
    {
        let state: SharedGuiState<C> = SharedGuiState {
            models: Vec::new(),
            models_version: 0,
            logs: VecDeque::new(),
            log_serial: 0,
            config_path: None,
            has_command_sender: false,
            recording_active: false,
            app_config: None,
            config_version: 0,
            config_write_generations: StringHashMap::new(),
        };
        assert(model_views(state.models@) =~= seq![]);
        assert(log_views(state.logs@) =~= seq![]);
        state
    }

    /// Sets the file of the configuration, into which the switches are saved.
    pub fn set_config_path(&mut self, path: PathBuf)
        ensures
            final(self)@ == (GuiView { config_path: Some(path), ..old(self)@ }),
    {
        self.config_path = Some(path);
    }

    /// The file of the configuration.
    pub fn get_config_path(&self) -> (path: Option<PathBuf>)
        ensures
            path == self@.config_path,
    {
        match &self.config_path {
            Some(path) => Some(path.clone()),
            None => None,
        }
    }

    /// How often the configuration was replaced.
    pub fn config_version(&self) -> (version: u64)
        ensures
            version == self@.config_version,
    {
        self.config_version
    }

    /// The first half of replacing the configuration, once the new one is loaded: recording is
    /// switched off, and all recordings are to be stopped.
    pub fn begin_switch_config(&mut self) -> (command: Option<ModelCommand>)
        ensures
            final(self)@ == (GuiView { recording_active: false, ..old(self)@ }),
            command_view(command) == old(self)@.command(ModelCommandView::StopAll),
    {
        self.recording_active = false;
        if self.has_command_sender {
            Some(ModelCommand::StopAll)
        } else {
            None
        }
    }

    /// The second half of replacing the configuration: the new file, and the models that the new
    /// configuration lists. The handle to the configuration, which must be set, stays as it is:
    /// what it leads to is replaced between the two halves.
    pub fn switch_config(&mut self, new_path: PathBuf, entries: &[ModelEntry])
        requires
            old(self)@.app_config is Some,
            old(self)@.models_version < u64::MAX,
            old(self)@.config_version < u64::MAX,
        ensures
            final(self)@ == old(self)@.with_config(new_path, entry_views(entries@)),
    {
        self.config_path = Some(new_path);
        self.config_version = self.config_version + 1;
        self.models = build_models(entries);
        self.models_version = self.models_version + 1;
    }

    /// From now on commands can be sent to the recording manager.
    pub fn set_command_sender(&mut self)
        ensures
            final(self)@ == (GuiView { has_command_sender: true, ..old(self)@ }),
    {
        self.has_command_sender = true;
    }

    /// Sets the application's configuration.
    pub fn set_app_config(&mut self, config: C)
        ensures
            final(self)@ == (GuiView { app_config: Some(config), ..old(self)@ }),
    {
        self.app_config = Some(config);
    }

    /// Whether there is a configuration.
    pub fn has_app_config(&self) -> (set: bool)
        ensures
            set == (self@.app_config is Some),
    {
        self.app_config.is_some()
    }

    /// Lets `f` read the application's configuration.
    pub fn with_app_config<F, R>(&self, f: F) -> (result: R) where F: FnOnce(&C) -> R
        requires
            self@.app_config matches Some(config) && call_requires(f, (&config,)),
        ensures
            self@.app_config matches Some(config) && call_ensures(f, (&config,), result),
    {
        f(self.app_config.as_ref().unwrap())
    }

    /// Lets `f` change the application's configuration.
    pub fn with_app_config_mut<F, R>(&mut self, f: F) -> (result: R) where F: FnOnce(&mut C) -> R
        requires
            old(self)@.app_config is Some,
            forall|config: &mut C|
                *config == old(self)@.app_config->0 ==> call_requires(f, (config,)),
        ensures
            exists|config: &mut C|
                {
                    &&& *config == old(self)@.app_config->0
                    &&& final(self)@ == (GuiView { app_config: Some(*final(config)), ..old(self)@ })
                    &&& call_ensures(f, (config,), result)
                },
    {
        let config: &mut C = self.app_config.as_mut().unwrap();
        f(config)
    }

    /// Sets or replaces the list of models.
    pub fn init_models(&mut self, entries: &[ModelEntry])
        requires
            old(self)@.models_version < u64::MAX,
        ensures
            final(self)@ == old(self)@.with_entries(entry_views(entries@)),
    {
        self.models = build_models(entries);
        self.models_version = self.models_version + 1;
    }

    /// The position of the first model with this name.
    fn find_model(&self, username: &str) -> (position: Option<usize>)
        ensures
            match position {
                Some(i) => {
                    &&& i < self.models@.len()
                    &&& is_first_model(self@.models, username@, i as int)
                    &&& first_model(self@.models, username@) == Some(i as int)
                },
                None => first_model(self@.models, username@) is None,
            },
    {
        let name: String = username.to_string();
        let mut i: usize = 0;
        while i < self.models.len()
            invariant
                i <= self.models@.len(),
                name@ == username@,
                self@.models.len() == self.models@.len(),
                forall|j: int| 0 <= j < self.models@.len() ==> self@.models[j] == (#[trigger] self.models@[j])@,
                forall|j: int| 0 <= j < i ==> (#[trigger] self@.models[j]).username != username@,
            decreases self.models@.len() - i,
        {
            if self.models[i].username == name {
                proof {
                    lemma_first_model(self@.models, username@, i as int);
                }
                return Some(i);
            }
            i = i + 1;
        }
        None
    }

    /// Sets the status of a model, found at `now`.
    pub fn update_status_at(&mut self, username: &str, status: ModelStreamStatus, now: LocalTime)
        requires
            old(self)@.has_model(username@) ==> old(self)@.models_version < u64::MAX,
        ensures
            final(self)@ == old(self)@.with_status(username@, status, now),
    {
        if let Some(i) = self.find_model(username) {
            self.models[i].status = status;
            self.models[i].last_check = Some(now);
            self.models_version = self.models_version + 1;
            assert(self@.models =~= old(self)@.with_status(username@, status, now).models);
        }
    }

    /// Sets the status of a model, found just now.
    pub fn update_status(&mut self, username: &str, status: ModelStreamStatus)
        requires
            old(self)@.has_model(username@) ==> old(self)@.models_version < u64::MAX,
        ensures
            exists|now: LocalTime| final(self)@ == old(self)@.with_status(username@, status, now),
    {
        let now: LocalTime = local_now();
        self.update_status_at(username, status, now);
    }

    /// Marks a model as being recorded, or no longer, as of `now`.
    pub fn set_recording_at(
        &mut self,
        username: &str,
        recording: bool,
        file_path: Option<String>,
        now: LocalTime,
    )
        requires
            old(self)@.has_model(username@) ==> old(self)@.models_version < u64::MAX,
        ensures
            final(self)@ == old(self)@.with_recording(
                username@,
                recording,
                optional_text(file_path),
                now,
            ),
    {
        if let Some(i) = self.find_model(username) {
            self.models[i].is_recording = recording;
            if recording {
                self.models[i].recording_start = Some(now);
                self.models[i].file_path = file_path;
            } else {
                self.models[i].recording_start = None;
                self.models[i].file_path = None;
            }
            self.models_version = self.models_version + 1;
            assert(self@.models =~= old(self)@.with_recording(
                username@,
                recording,
                optional_text(file_path),
                now,
            ).models);
        }
    }

    /// Marks a model as being recorded, or no longer, as of just now.
    pub fn set_recording(&mut self, username: &str, recording: bool, file_path: Option<String>)
        requires
            old(self)@.has_model(username@) ==> old(self)@.models_version < u64::MAX,
        ensures
            exists|now: LocalTime|
                final(self)@ == old(self)@.with_recording(
                    username@,
                    recording,
                    optional_text(file_path),
                    now,
                ),
    {
        let now: LocalTime = local_now();
        self.set_recording_at(username, recording, file_path, now);
    }

    /// Adds an entry to the log, as of `now`.
    pub fn push_log_at(&mut self, level: LogLevel, message: String, now: LocalTime)
        requires
            old(self)@.wf(),
        ensures
            final(self)@ == old(self)@.with_log(
                LogView { timestamp: now, level, message: message@ },
            ),
            final(self)@.wf(),
    {
        let entry: LogEntry = LogEntry { timestamp: now, level, message };
        if self.logs.len() >= MAX_LOGS {
            let oldest: Option<LogEntry> = self.logs.pop_front();
            assert(oldest is Some);
        }
        self.logs.push_back(entry);
        self.log_serial = self.log_serial.wrapping_add(1);
        assert(self@.logs =~= with_entry(
            old(self)@.logs,
            LogView { timestamp: now, level, message: message@ },
        ));
    }

    /// Adds an entry to the log, as of just now.
    pub fn push_log(&mut self, level: LogLevel, message: String)
        requires
            old(self)@.wf(),
        ensures
            exists|now: LocalTime|
                final(self)@ == old(self)@.with_log(
                    LogView { timestamp: now, level, message: message@ },
                ),
            final(self)@.wf(),
    {
        let now: LocalTime = local_now();
        self.push_log_at(level, message, now);
    }

    /// A number that grows, around the end of its range, with each log entry.
    pub fn log_version(&self) -> (version: u64)
        ensures
            version == self@.log_serial,
    {
        self.log_serial
    }

    /// A number that grows with each change to the models.
    pub fn models_version(&self) -> (version: u64)
        ensures
            version == self@.models_version,
    {
        self.models_version
    }

    /// Announces a write of a configuration field, and gives its generation. Of several writes
    /// that are announced for one field, only the last is to be carried out.
    pub fn begin_config_write(&mut self, key: &str) -> (write: u64)
        requires
            generation(old(self)@.generations, key@) < u64::MAX,
        ensures
            final(self)@ == (GuiView {
                generations: next_generation(old(self)@.generations, key@),
                ..old(self)@
            }),
            write == generation(old(self)@.generations, key@) + 1,
    {
        let last: u64 = match self.config_write_generations.get(key) {
            Some(count) => *count,
            None => 0,
        };
        let write: u64 = last + 1;
        self.config_write_generations.insert(key.to_string(), write);
        write
    }

    /// Whether the write of this generation is the last one announced for the field.
    pub fn is_latest_config_write(&self, key: &str, generation: u64) -> (latest: bool)
        ensures
            latest == is_latest(self@.generations, key@, generation),
    {
        match self.config_write_generations.get(key) {
            Some(last) => *last == generation,
            None => false,
        }
    }

    /// A copy of the models.
    pub fn get_models(&self) -> (models: Vec<ModelStatus>)
        ensures
            model_views(models@) == self@.models,
    {
        let models: Vec<ModelStatus> = self.models.clone();
        assert(model_views(models@) =~= self@.models);
        models
    }

    /// Enables or disables a model. The recording manager is told, and the configuration file is
    /// to be brought up to date, also where no model has this name.
    pub fn set_model_enabled(&mut self, username: &str, enabled: bool) -> (effects: Effects)
        requires
            old(self)@.has_model(username@) ==> old(self)@.models_version < u64::MAX,
        ensures
            final(self)@ == old(self)@.with_enabled(username@, enabled),
            command_view(effects.command) == old(self)@.command(
                if enabled {
                    ModelCommandView::Enable(username@)
                } else {
                    ModelCommandView::Disable(username@)
                },
            ),
            effects.sync_config,
    {
        if let Some(i) = self.find_model(username) {
            self.models[i].enabled = enabled;
            self.models_version = self.models_version + 1;
            assert(self@.models =~= old(self)@.with_enabled(username@, enabled).models);
        }
        let command: Option<ModelCommand> = if self.has_command_sender {
            if enabled {
                Some(ModelCommand::Enable(username.to_string()))
            } else {
                Some(ModelCommand::Disable(username.to_string()))
            }
        } else {
            None
        };
        Effects { command, sync_config: true }
    }

    /// A copy of the log.
    pub fn get_logs(&self) -> (logs: Vec<LogEntry>)
        ensures
            log_views(logs@) == self@.logs,
    {
        let mut logs: Vec<LogEntry> = Vec::new();
        let mut i: usize = 0;
        while i < self.logs.len()
            invariant
                i <= self.logs@.len(),
                logs@.len() == i,
                forall|j: int| 0 <= j < i ==> (#[trigger] logs@[j])@ == self.logs@[j]@,
            decreases self.logs@.len() - i,
        {
            logs.push(self.logs[i].clone());
            i = i + 1;
        }
        assert(log_views(logs@) =~= self@.logs);
        logs
    }

    /// Adds a model. The recording manager is told of one that is enabled. Where a model has this
    /// name already, nothing happens.
    pub fn add_model(&mut self, username: &str, enabled: bool) -> (effects: Effects)
        requires
            !old(self)@.has_model(username@) ==> old(self)@.models_version < u64::MAX,
        ensures
            final(self)@ == old(self)@.with_added(username@, enabled),
            effects.sync_config == !old(self)@.has_model(username@),
            command_view(effects.command) == if !old(self)@.has_model(username@) && enabled {
                old(self)@.command(ModelCommandView::Add(username@, true))
            } else {
                None
            },
    {
        if self.find_model(username).is_some() {
            return Effects { command: None, sync_config: false };
        }
        self.models.push(ModelStatus::fresh(username.to_string(), enabled));
        self.models_version = self.models_version + 1;
        assert(self@.models =~= old(self)@.with_added(username@, enabled).models);
        let command: Option<ModelCommand> = if enabled && self.has_command_sender {
            Some(ModelCommand::Add(username.to_string(), true))
        } else {
            None
        };
        Effects { command, sync_config: true }
    }

    /// Whether recording is switched on.
    pub fn is_recording_active(&self) -> (active: bool)
        ensures
            active == self@.recording_active,
    {
        self.recording_active
    }

    /// Switches recording on or off, and tells the recording manager.
    pub fn set_recording_active(&mut self, active: bool) -> (command: Option<ModelCommand>)
        ensures
            final(self)@ == (GuiView { recording_active: active, ..old(self)@ }),
            command_view(command) == old(self)@.command(
                if active {
                    ModelCommandView::StartAll
                } else {
                    ModelCommandView::StopAll
                },
            ),
    {
        self.recording_active = active;
        if self.has_command_sender {
            if active {
                Some(ModelCommand::StartAll)
            } else {
                Some(ModelCommand::StopAll)
            }
        } else {
            None
        }
    }

    /// Removes every model with this name, and tells the recording manager.
    pub fn remove_model(&mut self, username: &str) -> (effects: Effects)
        requires
            old(self)@.models_version < u64::MAX,
        ensures
            final(self)@ == old(self)@.with_removed(username@),
            command_view(effects.command) == old(self)@.command(ModelCommandView::Remove(username@)),
            effects.sync_config,
    {
        let command: Option<ModelCommand> = if self.has_command_sender {
            Some(ModelCommand::Remove(username.to_string()))
        } else {
            None
        };
        let name: String = username.to_string();
        let ghost all = model_views(self.models@);
        let ghost keep = |model: ModelView| model.username != username@;
        let ghost mut seen: int = 0;
        let mut i: usize = 0;
        assert(all.take(0).filter(keep) =~= Seq::<ModelView>::empty()) by {
            reveal(Seq::filter);
        }
        assert(model_views(self.models@) =~= all.take(0).filter(keep) + all.skip(0));
        while i < self.models.len()
            invariant
                name@ == username@,
                all == old(self)@.models,
                keep == (|model: ModelView| model.username != username@),
                0 <= seen <= all.len(),
                i == all.take(seen).filter(keep).len(),
                self.models@.len() == i + (all.len() - seen),
                model_views(self.models@) == all.take(seen).filter(keep) + all.skip(seen),
                self@ == (GuiView { models: self@.models, ..old(self)@ }),
                self@.models == model_views(self.models@),
            decreases self.models@.len() - i,
        {
            let ghost before = all.take(seen).filter(keep);
            proof {
                reveal(Seq::filter);
                assert(all.take(seen + 1).drop_last() =~= all.take(seen));
                assert(all.take(seen + 1).last() == all[seen]);
                assert(model_views(self.models@)[i as int] == all[seen]);
                assert(self.models@[i as int]@ == all[seen]);
            }
            if self.models[i].username == name {
                let ghost models_before = self.models@;
                self.models.remove(i);
                proof {
                    assert(model_views(self.models@) =~= model_views(models_before).remove(i as int));
                    assert(model_views(self.models@) =~= before + all.skip(seen + 1));
                }
            } else {
                i = i + 1;
                assert(model_views(self.models@) =~= before.push(all[seen]) + all.skip(seen + 1));
            }
            proof {
                seen = seen + 1;
            }
        }
        proof {
            assert(all.take(seen) =~= all);
            assert(all.skip(seen) =~= Seq::<ModelView>::empty());
            assert(self@.models =~= all.filter(keep));
        }
        self.models_version = self.models_version + 1;
        Effects { command, sync_config: true }
    }

    /// Moves a model up or down the list: `delta` is -1 for one place up and 1 for one place down.
    /// Says whether the configuration file is to be brought up to date.
    pub fn move_model(&mut self, username: &str, delta: i32) -> (sync_config: bool)
        requires
            old(self)@.has_model(username@) ==> old(self)@.models.len() <= i32::MAX,
            first_model(old(self)@.models, username@) matches Some(i) ==> i + delta <= i32::MAX,
            old(self)@.moves(username@, delta as int) ==> old(self)@.models_version < u64::MAX,
        ensures
            final(self)@ == old(self)@.with_moved(username@, delta as int),
            sync_config == old(self)@.moves(username@, delta as int),
    {
        let position: Option<usize> = self.find_model(username);
        let ix: usize = match position {
            Some(i) => i,
            None => return false,
        };
        let count: i32 = self.models.len() as i32;
        let wanted: i32 = ix as i32 + delta;
        let new_ix: usize = if wanted < 0 {
            0
        } else if wanted > count - 1 {
            (count - 1) as usize
        } else {
            wanted as usize
        };
        if new_ix == ix {
            return false;
        }
        let model: ModelStatus = self.models.remove(ix);
        self.models.insert(new_ix, model);
        self.models_version = self.models_version + 1;
        assert(self@.models =~= old(self)@.models.remove(ix as int).insert(
            new_ix as int,
            old(self)@.models[ix as int],
        ));
        true
    }

    /// What is to be written to the configuration file to bring it up to date. Nothing, where no
    /// file is set.
    pub fn sync_config(&self) -> (sync: Option<ConfigSync>)
        ensures
            match sync {
                Some(inner) => {
                    &&& self@.config_path == Some(inner.path)
                    &&& inner.field@ == "usernames"@
                    &&& entry_views(inner.entries@) == model_entries(self@.models)
                    &&& inner.has_app_config == (self@.app_config is Some)
                },
                None => self@.config_path is None,
            },
    {
        let path: PathBuf = match &self.config_path {
            Some(path) => path.clone(),
            None => return None,
        };
        let mut entries: Vec<ModelEntry> = Vec::new();
        let mut i: usize = 0;
        while i < self.models.len()
            invariant
                i <= self.models@.len(),
                entries@.len() == i,
                self@.models == model_views(self.models@),
                forall|j: int| 0 <= j < i ==> (#[trigger] entries@[j])@ == model_entries(self@.models)[j],
            decreases self.models@.len() - i,
        {
            entries.push(
                ModelEntry {
                    username: self.models[i].username.clone(),
                    enabled: self.models[i].enabled,
                },
            );
            i = i + 1;
        }
        assert(entry_views(entries@) =~= model_entries(self@.models));
        Some(
            ConfigSync {
                path,
                field: "usernames",
                entries,
                has_app_config: self.app_config.is_some(),
            },
        )
    }
}

} // verus!
