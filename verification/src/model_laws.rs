//! Laws of the calls on the shared state: what each of them does to the list of models, to the log
//! and to the configuration, and what the others then show.
use crate::models::{
    LocalTime, LogEntry, LogLevel, ModelCommand, ModelEntry, ModelEntryView, ModelStatus,
    ModelStreamStatus, ModelView,
};
use crate::shared_state::{
    entry_views, first_model, is_first_model, lemma_first_model, model_entries, ConfigSync, Effects,
    GuiView, SharedGuiState,
};
use crate::shared_state_laws::lemma_first_model_exists;
use std::path::PathBuf;
use vstd::prelude::*;

verus! {

/// All but the models and the number of changes to them is the same.
pub open spec fn same_but_models<C>(before: GuiView<C>, after: GuiView<C>) -> bool {
    &&& after.logs == before.logs
    &&& after.log_serial == before.log_serial
    &&& after.config_path == before.config_path
    &&& after.has_command_sender == before.has_command_sender
    &&& after.recording_active == before.recording_active
    &&& after.app_config == before.app_config
    &&& after.config_version == before.config_version
    &&& after.generations == before.generations
}

/// Some model of the list has this name.
pub open spec fn is_listed(models: Seq<ModelView>, username: Seq<char>) -> bool {
    exists|i: int| 0 <= i < models.len() && (#[trigger] models[i]).username == username
}

/// The model at this position is the first one with this name.
pub open spec fn is_first(models: Seq<ModelView>, username: Seq<char>, i: int) -> bool {
    &&& 0 <= i < models.len()
    &&& models[i].username == username
    &&& forall|j: int| 0 <= j < i ==> (#[trigger] models[j]).username != username
}

/// A model of which nothing is known but its name and its switch.
pub open spec fn is_fresh(model: ModelView, username: Seq<char>, enabled: bool) -> bool {
    &&& model.username == username
    &&& model.enabled == enabled
    &&& model.status == ModelStreamStatus::Unknown
    &&& !model.is_recording
    &&& model.recording_start is None
    &&& model.last_check is None
    &&& model.file_path is None
}

/// One change was counted, at the model at `i` alone: every other model is the same.
pub open spec fn only_changed_at<C>(before: GuiView<C>, after: GuiView<C>, i: int) -> bool {
    &&& same_but_models(before, after)
    &&& after.models_version == before.models_version + 1
    &&& after.models.len() == before.models.len()
    &&& forall|j: int| 0 <= j < before.models.len() && j != i ==> #[trigger] after.models[j]
        == before.models[j]
}

/// The command, where it is sent, is this one about this model.
pub open spec fn is_enable(command: Option<ModelCommand>, username: Seq<char>) -> bool {
    command matches Some(ModelCommand::Enable(name)) && name@ == username
}

pub open spec fn is_disable(command: Option<ModelCommand>, username: Seq<char>) -> bool {
    command matches Some(ModelCommand::Disable(name)) && name@ == username
}

pub open spec fn is_add(command: Option<ModelCommand>, username: Seq<char>) -> bool {
    command matches Some(ModelCommand::Add(name, enabled)) && name@ == username && enabled
}

pub open spec fn is_remove(command: Option<ModelCommand>, username: Seq<char>) -> bool {
    command matches Some(ModelCommand::Remove(name)) && name@ == username
}

/// The first model with a name is found exactly where it stands, and none where there is none.
pub proof fn law_models_are_found_by_name(models: Seq<ModelView>, username: Seq<char>)
    ensures
        forall|i: int| is_first(models, username, i) ==> first_model(models, username) == Some(i),
        first_model(models, username) is None <==> !is_listed(models, username),
        first_model(models, username) matches Some(i) ==> is_first(models, username, i),
{
    assert forall|i: int| is_first(models, username, i) implies first_model(models, username)
        == Some(i) by {
        lemma_first_model(models, username, i);
    }
    if is_listed(models, username) {
        let k = choose|k: int| 0 <= k < models.len() && (#[trigger] models[k]).username == username;
        lemma_first_model_exists(models, username, k);
    }
    if first_model(models, username) is Some {
        let i = choose|i: int| is_first_model(models, username, i);
        assert(is_first_model(models, username, i));
    }
}

/// What is saved of the models is the name and the switch of each, in their order.
pub proof fn law_saved_entries(models: Seq<ModelView>, i: int)
    ensures
        model_entries(models).len() == models.len(),
        0 <= i < models.len() ==> model_entries(models)[i].username == models[i].username
            && model_entries(models)[i].enabled == models[i].enabled,
{
}

/// An added model stands behind all others, with the name and the switch that were given and
/// nothing else known of it, and is saved so. The manager is told of one that is enabled. Where a
/// model has the name, nothing happens.
pub proof fn law_added_models_are_listed<C>(username: &str, enabled: bool, effects: Effects)
    ensures
        forall|state: &mut SharedGuiState<C>| #[trigger]
            call_ensures(SharedGuiState::<C>::add_model, (state, username, enabled), effects) ==> {
                let before = (*state)@;
                let after = (*final(state))@;
                &&& is_listed(before.models, username@) ==> after == before && effects.command
                    is None && !effects.sync_config
                &&& !is_listed(before.models, username@) ==> {
                    &&& after.models.len() == before.models.len() + 1
                    &&& after.models.drop_last() == before.models
                    &&& is_fresh(after.models.last(), username@, enabled)
                    &&& after.models_version == before.models_version + 1
                    &&& same_but_models(before, after)
                    &&& model_entries(after.models) == model_entries(before.models).push(
                        ModelEntryView { username: username@, enabled },
                    )
                    &&& effects.sync_config
                    &&& enabled && before.has_command_sender ==> is_add(effects.command, username@)
                    &&& !(enabled && before.has_command_sender) ==> effects.command is None
                }
            },
{
    assert forall|state: &mut SharedGuiState<C>| #[trigger]
        call_ensures(SharedGuiState::<C>::add_model, (state, username, enabled), effects) implies {
        let before = (*state)@;
        let after = (*final(state))@;
        &&& is_listed(before.models, username@) ==> after == before && effects.command is None
            && !effects.sync_config
        &&& !is_listed(before.models, username@) ==> {
            &&& after.models.len() == before.models.len() + 1
            &&& after.models.drop_last() == before.models
            &&& is_fresh(after.models.last(), username@, enabled)
            &&& after.models_version == before.models_version + 1
            &&& same_but_models(before, after)
            &&& model_entries(after.models) == model_entries(before.models).push(
                ModelEntryView { username: username@, enabled },
            )
            &&& effects.sync_config
            &&& enabled && before.has_command_sender ==> is_add(effects.command, username@)
            &&& !(enabled && before.has_command_sender) ==> effects.command is None
        }
    } by {
        let before = (*state)@;
        let after = (*final(state))@;
        law_models_are_found_by_name(before.models, username@);
        if !is_listed(before.models, username@) {
            assert(after.models.drop_last() =~= before.models);
            assert(model_entries(after.models) =~= model_entries(before.models).push(
                ModelEntryView { username: username@, enabled },
            ));
        }
    }
}

/// What a change of status has done: the first model with the name has just this status and was
/// looked at just now, and all else is as it was. Where no model has the name, nothing happens.
pub open spec fn status_is_shown<C>(
    before: GuiView<C>,
    after: GuiView<C>,
    username: Seq<char>,
    status: ModelStreamStatus,
    now: LocalTime,
) -> bool {
    &&& !is_listed(before.models, username) ==> after == before
    &&& forall|i: int| #[trigger]
        is_first(before.models, username, i) ==> {
            &&& only_changed_at(before, after, i)
            &&& after.models[i].status == status
            &&& after.models[i].last_check == Some(now)
            &&& after.models[i].username == username
            &&& after.models[i].enabled == before.models[i].enabled
            &&& after.models[i].is_recording == before.models[i].is_recording
            &&& after.models[i].recording_start == before.models[i].recording_start
            &&& after.models[i].file_path == before.models[i].file_path
        }
}

/// A change of status shows the given status, whatever it was before.
pub proof fn law_status_is_what_was_set<C>(
    username: &str,
    status: ModelStreamStatus,
    now: LocalTime,
)
    ensures
        forall|state: &mut SharedGuiState<C>| #[trigger]
            call_ensures(
                SharedGuiState::<C>::update_status_at,
                (state, username, status, now),
                (),
            ) ==> status_is_shown((*state)@, (*final(state))@, username@, status, now),
        forall|state: &mut SharedGuiState<C>| #[trigger]
            call_ensures(SharedGuiState::<C>::update_status, (state, username, status), ())
                ==> exists|moment: LocalTime|
                status_is_shown((*state)@, (*final(state))@, username@, status, moment),
{
    assert forall|before: GuiView<C>, moment: LocalTime| #[trigger]
        status_is_shown(
            before,
            before.with_status(username@, status, moment),
            username@,
            status,
            moment,
        ) by {
        law_models_are_found_by_name(before.models, username@);
    }
    assert forall|state: &mut SharedGuiState<C>| #[trigger]
        call_ensures(
            SharedGuiState::<C>::update_status,
            (state, username, status),
            (),
        ) implies exists|moment: LocalTime|
        status_is_shown((*state)@, (*final(state))@, username@, status, moment) by {
        let moment = choose|moment: LocalTime|
            (*final(state))@ == (*state)@.with_status(username@, status, moment);
        assert(status_is_shown((*state)@, (*state)@.with_status(username@, status, moment), username@, status, moment));
    }
    assert forall|state: &mut SharedGuiState<C>| #[trigger]
        call_ensures(
            SharedGuiState::<C>::update_status_at,
            (state, username, status, now),
            (),
        ) implies status_is_shown((*state)@, (*final(state))@, username@, status, now) by {
        assert(status_is_shown((*state)@, (*state)@.with_status(username@, status, now), username@, status, now));
    }
}

/// Of two changes of status in a row the second one is shown.
pub proof fn law_the_last_status_is_shown<C>(
    start: GuiView<C>,
    between: GuiView<C>,
    end: GuiView<C>,
    username: Seq<char>,
    first: ModelStreamStatus,
    second: ModelStreamStatus,
    earlier: LocalTime,
    later: LocalTime,
    i: int,
)
    requires
        status_is_shown(start, between, username, first, earlier),
        status_is_shown(between, end, username, second, later),
        is_first(start.models, username, i),
    ensures
        end.models[i].status == second,
        end.models[i].last_check == Some(later),
        end.models_version == start.models_version + 2,
{
    assert(is_first(between.models, username, i));
}

/// What a change of the recording marks has done.
pub open spec fn recording_is_shown<C>(
    before: GuiView<C>,
    after: GuiView<C>,
    username: Seq<char>,
    recording: bool,
    file_path: Option<String>,
    now: LocalTime,
) -> bool {
    &&& !is_listed(before.models, username) ==> after == before
    &&& forall|i: int| #[trigger]
        is_first(before.models, username, i) ==> {
            &&& only_changed_at(before, after, i)
            &&& after.models[i].is_recording == recording
            &&& recording ==> {
                &&& after.models[i].recording_start == Some(now)
                &&& file_path is None ==> after.models[i].file_path is None
                &&& file_path matches Some(path) ==> after.models[i].file_path == Some(path@)
            }
            &&& !recording ==> after.models[i].recording_start is None
                && after.models[i].file_path is None
            &&& after.models[i].username == username
            &&& after.models[i].enabled == before.models[i].enabled
            &&& after.models[i].status == before.models[i].status
            &&& after.models[i].last_check == before.models[i].last_check
        }
}

/// A recording that starts shows its start and its file; one that stops shows neither. All else is
/// as it was.
pub proof fn law_recording_is_what_was_set<C>(
    username: &str,
    recording: bool,
    file_path: Option<String>,
    now: LocalTime,
)
    ensures
        forall|state: &mut SharedGuiState<C>| #[trigger]
            call_ensures(
                SharedGuiState::<C>::set_recording_at,
                (state, username, recording, file_path, now),
                (),
            ) ==> recording_is_shown(
                (*state)@,
                (*final(state))@,
                username@,
                recording,
                file_path,
                now,
            ),
        forall|state: &mut SharedGuiState<C>| #[trigger]
            call_ensures(
                SharedGuiState::<C>::set_recording,
                (state, username, recording, file_path),
                (),
            ) ==> exists|moment: LocalTime|
                recording_is_shown(
                    (*state)@,
                    (*final(state))@,
                    username@,
                    recording,
                    file_path,
                    moment,
                ),
{
    let path = crate::playlist::optional_text(file_path);
    assert forall|before: GuiView<C>, moment: LocalTime| #[trigger]
        recording_is_shown(
            before,
            before.with_recording(username@, recording, path, moment),
            username@,
            recording,
            file_path,
            moment,
        ) by {
        law_models_are_found_by_name(before.models, username@);
    }
    assert forall|state: &mut SharedGuiState<C>| #[trigger]
        call_ensures(
            SharedGuiState::<C>::set_recording_at,
            (state, username, recording, file_path, now),
            (),
        ) implies recording_is_shown(
        (*state)@,
        (*final(state))@,
        username@,
        recording,
        file_path,
        now,
    ) by {
        assert(recording_is_shown((*state)@, (*state)@.with_recording(username@, recording, path, now), username@, recording, file_path, now));
    }
    assert forall|state: &mut SharedGuiState<C>| #[trigger]
        call_ensures(
            SharedGuiState::<C>::set_recording,
            (state, username, recording, file_path),
            (),
        ) implies exists|moment: LocalTime|
        recording_is_shown(
            (*state)@,
            (*final(state))@,
            username@,
            recording,
            file_path,
            moment,
        ) by {
        let moment = choose|moment: LocalTime|
            (*final(state))@ == (*state)@.with_recording(username@, recording, path, moment);
        assert(recording_is_shown((*state)@, (*state)@.with_recording(username@, recording, path, moment), username@, recording, file_path, moment));
    }
}

/// A switched model has just this switch and is otherwise as it was. The manager is told, and the
/// configuration file is brought up to date, also where no model has the name.
pub open spec fn switch_is_shown<C>(
    before: GuiView<C>,
    after: GuiView<C>,
    username: Seq<char>,
    enabled: bool,
    effects: Effects,
) -> bool {
    &&& effects.sync_config
    &&& !before.has_command_sender ==> effects.command is None
    &&& before.has_command_sender && enabled ==> is_enable(effects.command, username)
    &&& before.has_command_sender && !enabled ==> is_disable(effects.command, username)
    &&& !is_listed(before.models, username) ==> after == before
    &&& forall|i: int| #[trigger]
        is_first(before.models, username, i) ==> {
            &&& only_changed_at(before, after, i)
            &&& after.models[i].enabled == enabled
            &&& after.models[i].username == username
            &&& after.models[i].status == before.models[i].status
            &&& after.models[i].is_recording == before.models[i].is_recording
            &&& after.models[i].recording_start == before.models[i].recording_start
            &&& after.models[i].last_check == before.models[i].last_check
            &&& after.models[i].file_path == before.models[i].file_path
        }
}

/// A model is enabled or disabled as it was asked, whatever its switch was before.
pub proof fn law_switch_is_what_was_set<C>(username: &str, enabled: bool, effects: Effects)
    ensures
        forall|state: &mut SharedGuiState<C>| #[trigger]
            call_ensures(
                SharedGuiState::<C>::set_model_enabled,
                (state, username, enabled),
                effects,
            ) ==> switch_is_shown((*state)@, (*final(state))@, username@, enabled, effects),
{
    assert forall|state: &mut SharedGuiState<C>| #[trigger]
        call_ensures(
            SharedGuiState::<C>::set_model_enabled,
            (state, username, enabled),
            effects,
        ) implies switch_is_shown((*state)@, (*final(state))@, username@, enabled, effects) by {
        law_models_are_found_by_name((*state)@.models, username@);
    }
}

/// After a removal the list holds exactly the models with other names, in their order. The manager
/// is told, and the configuration file is brought up to date.
pub proof fn law_removed_models_leave<C>(username: &str, effects: Effects)
    ensures
        forall|state: &mut SharedGuiState<C>| #[trigger]
            call_ensures(SharedGuiState::<C>::remove_model, (state, username), effects) ==> {
                let before = (*state)@;
                let after = (*final(state))@;
                &&& after.models == before.models.filter(
                    |model: ModelView| model.username != username@,
                )
                &&& after.models_version == before.models_version + 1
                &&& same_but_models(before, after)
                &&& effects.sync_config
                &&& before.has_command_sender ==> is_remove(effects.command, username@)
                &&& !before.has_command_sender ==> effects.command is None
            },
{
}

/// A moved model stands as many places further as was asked, or at the end of the list that it was
/// moved towards, and the others keep their order. Where that is its own place, or no model has the
/// name, nothing happens and nothing is saved.
pub open spec fn move_is_shown<C>(
    before: GuiView<C>,
    after: GuiView<C>,
    username: Seq<char>,
    delta: int,
    saved: bool,
) -> bool {
    &&& !is_listed(before.models, username) ==> after == before && !saved
    &&& forall|i: int| #[trigger]
        is_first(before.models, username, i) ==> {
            let last = before.models.len() - 1;
            let target: int = if i + delta < 0 {
                0
            } else if i + delta > last {
                last
            } else {
                i + delta
            };
            &&& target == i ==> after == before && !saved
            &&& target != i ==> {
                &&& saved
                &&& after.models.len() == before.models.len()
                &&& after.models[target] == before.models[i]
                &&& after.models.remove(target) == before.models.remove(i)
                &&& after.models_version == before.models_version + 1
                &&& same_but_models(before, after)
            }
        }
}

/// Moving a model.
pub proof fn law_moved_models_stand_where_asked<C>(username: &str, delta: i32, saved: bool)
    ensures
        forall|state: &mut SharedGuiState<C>| #[trigger]
            call_ensures(SharedGuiState::<C>::move_model, (state, username, delta), saved)
                ==> move_is_shown((*state)@, (*final(state))@, username@, delta as int, saved),
{
    assert forall|state: &mut SharedGuiState<C>| #[trigger]
        call_ensures(
            SharedGuiState::<C>::move_model,
            (state, username, delta),
            saved,
        ) implies move_is_shown((*state)@, (*final(state))@, username@, delta as int, saved) by {
        let before = (*state)@;
        let after = (*final(state))@;
        law_models_are_found_by_name(before.models, username@);
        assert forall|i: int| #[trigger] is_first(before.models, username@, i) implies {
            let last = before.models.len() - 1;
            let target: int = if i + delta < 0 {
                0
            } else if i + delta > last {
                last
            } else {
                i + delta
            };
            &&& target == i ==> after == before && !saved
            &&& target != i ==> {
                &&& saved
                &&& after.models.len() == before.models.len()
                &&& after.models[target] == before.models[i]
                &&& after.models.remove(target) == before.models.remove(i)
                &&& after.models_version == before.models_version + 1
                &&& same_but_models(before, after)
            }
        } by {
            let last = before.models.len() - 1;
            let target: int = if i + delta < 0 {
                0
            } else if i + delta > last {
                last
            } else {
                i + delta
            };
            if target != i {
                assert(after.models.remove(target) =~= before.models.remove(i));
            }
        }
    }
}

/// The list is the one of the configuration: each model at its place, with its name and its switch
/// and nothing else known of it.
pub open spec fn lists_entries(models: Seq<ModelView>, entries: Seq<ModelEntry>) -> bool {
    &&& models.len() == entries.len()
    &&& forall|i: int|
        0 <= i < entries.len() ==> is_fresh(
            #[trigger] models[i],
            entries[i].username@,
            entries[i].enabled,
        )
}

/// A list that is set, by itself or with another configuration, is listed as it is.
pub proof fn law_lists_are_what_was_set<C>(entries: &[ModelEntry], path: PathBuf)
    ensures
        forall|state: &mut SharedGuiState<C>| #[trigger]
            call_ensures(SharedGuiState::<C>::init_models, (state, entries), ()) ==> {
                let before = (*state)@;
                let after = (*final(state))@;
                &&& lists_entries(after.models, entries@)
                &&& after.models_version == before.models_version + 1
                &&& same_but_models(before, after)
            },
        forall|state: &mut SharedGuiState<C>| #[trigger]
            call_ensures(SharedGuiState::<C>::switch_config, (state, path, entries), ()) ==> {
                let before = (*state)@;
                let after = (*final(state))@;
                &&& lists_entries(after.models, entries@)
                &&& after.models_version == before.models_version + 1
                &&& after.config_version == before.config_version + 1
                &&& after.config_path == Some(path)
                &&& after.logs == before.logs
                &&& after.log_serial == before.log_serial
                &&& after.has_command_sender == before.has_command_sender
                &&& after.recording_active == before.recording_active
                &&& after.app_config == before.app_config
                &&& after.generations == before.generations
            },
{
}

/// A log entry stands behind all others, with its level, its message and its moment; a log of a
/// hundred thousand entries loses its oldest one.
pub proof fn law_log_entries_are_kept<C>(level: LogLevel, message: String, now: LocalTime)
    ensures
        forall|state: &mut SharedGuiState<C>| #[trigger]
            call_ensures(SharedGuiState::<C>::push_log_at, (state, level, message, now), ()) ==> {
                let before = (*state)@;
                let after = (*final(state))@;
                &&& after.logs.len() > 0
                &&& after.logs.last().level == level
                &&& after.logs.last().message == message@
                &&& after.logs.last().timestamp == now
                &&& before.logs.len() < 100_000 ==> after.logs.drop_last() == before.logs
                &&& before.logs.len() == 100_000 ==> after.logs.drop_last() == before.logs.skip(1)
                &&& before.log_serial < u64::MAX ==> after.log_serial == before.log_serial + 1
                &&& before.log_serial == u64::MAX ==> after.log_serial == 0
                &&& after.models == before.models
                &&& after.models_version == before.models_version
                &&& after.generations == before.generations
            },
{
    assert forall|state: &mut SharedGuiState<C>| #[trigger]
        call_ensures(SharedGuiState::<C>::push_log_at, (state, level, message, now), ()) implies {
        let before = (*state)@;
        let after = (*final(state))@;
        &&& after.logs.len() > 0
        &&& before.logs.len() < 100_000 ==> after.logs.drop_last() == before.logs
        &&& before.logs.len() == 100_000 ==> after.logs.drop_last() == before.logs.skip(1)
    } by {
        let before = (*state)@;
        let after = (*final(state))@;
        if before.logs.len() < 100_000 {
            assert(after.logs.drop_last() =~= before.logs);
        } else {
            assert(after.logs.drop_last() =~= before.logs.skip(1));
        }
    }
}

/// What is shown is what is there: each model and each log entry at its place, with every field.
pub proof fn law_shown_is_what_is_there<C>(
    state: &SharedGuiState<C>,
    models: Vec<ModelStatus>,
    logs: Vec<LogEntry>,
    i: int,
)
    requires
        call_ensures(SharedGuiState::<C>::get_models, (state,), models),
        call_ensures(SharedGuiState::<C>::get_logs, (state,), logs),
    ensures
        models@.len() == state@.models.len(),
        logs@.len() == state@.logs.len(),
        0 <= i < models@.len() ==> {
            &&& models@[i].username@ == state@.models[i].username
            &&& models@[i].enabled == state@.models[i].enabled
            &&& models@[i].status == state@.models[i].status
            &&& models@[i].is_recording == state@.models[i].is_recording
            &&& models@[i].recording_start == state@.models[i].recording_start
            &&& models@[i].last_check == state@.models[i].last_check
            &&& models@[i].file_path is None <==> state@.models[i].file_path is None
            &&& models@[i].file_path matches Some(path) ==> state@.models[i].file_path == Some(
                path@,
            )
        },
        0 <= i < logs@.len() ==> {
            &&& logs@[i].timestamp == state@.logs[i].timestamp
            &&& logs@[i].level == state@.logs[i].level
            &&& logs@[i].message@ == state@.logs[i].message
        },
{
    if 0 <= i < models@.len() {
        assert(crate::shared_state::model_views(models@)[i] == models@[i]@);
    }
    if 0 <= i < logs@.len() {
        assert(crate::shared_state::log_views(logs@)[i] == logs@[i]@);
    }
    assert(crate::shared_state::model_views(models@).len() == models@.len());
    assert(crate::shared_state::log_views(logs@).len() == logs@.len());
}

/// What is saved goes to the file that was set, and lists every model at its place with its name
/// and its switch. Without a file nothing is saved.
pub proof fn law_saved_is_what_is_there<C>(
    state: &SharedGuiState<C>,
    sync: Option<ConfigSync>,
    i: int,
)
    requires
        call_ensures(SharedGuiState::<C>::sync_config, (state,), sync),
    ensures
        sync is None <==> state@.config_path is None,
        sync matches Some(what) ==> {
            &&& state@.config_path == Some(what.path)
            &&& what.field@ == "usernames"@
            &&& what.entries@.len() == state@.models.len()
            &&& 0 <= i < what.entries@.len() ==> what.entries@[i].username@
                == state@.models[i].username && what.entries@[i].enabled == state@.models[i].enabled
            &&& what.has_app_config <==> state@.app_config is Some
        },
{
    if let Some(what) = sync {
        assert(entry_views(what.entries@).len() == what.entries@.len());
        if 0 <= i < what.entries@.len() {
            assert(entry_views(what.entries@)[i] == what.entries@[i]@);
        }
    }
}

/// A new state is empty.
pub proof fn law_new_states_are_empty<C>(state: SharedGuiState<C>)
    requires
        call_ensures(SharedGuiState::<C>::new, (), state),
    ensures
        state@.models.len() == 0,
        state@.models_version == 0,
        state@.logs.len() == 0,
        state@.log_serial == 0,
        state@.config_path is None,
        !state@.has_command_sender,
        !state@.recording_active,
        state@.app_config is None,
        state@.config_version == 0,
        forall|key: Seq<char>| !(#[trigger] state@.generations.contains_key(key)),
{
}

/// Switching recording on or off sends one command for all, where commands can be sent, and so does
/// the first half of replacing the configuration.
pub proof fn law_recording_switch<C>(active: bool, command: Option<ModelCommand>)
    ensures
        forall|state: &mut SharedGuiState<C>| #[trigger]
            call_ensures(
                SharedGuiState::<C>::set_recording_active,
                (state, active),
                command,
            ) ==> {
                &&& (*final(state))@.recording_active == active
                &&& (*final(state))@.models == (*state)@.models
                &&& (*final(state))@.models_version == (*state)@.models_version
                &&& !(*state)@.has_command_sender ==> command is None
                &&& (*state)@.has_command_sender && active ==> command == Some(
                    ModelCommand::StartAll,
                )
                &&& (*state)@.has_command_sender && !active ==> command == Some(
                    ModelCommand::StopAll,
                )
            },
        forall|state: &mut SharedGuiState<C>| #[trigger]
            call_ensures(SharedGuiState::<C>::begin_switch_config, (state,), command) ==> {
                &&& !(*final(state))@.recording_active
                &&& (*final(state))@.models == (*state)@.models
                &&& !(*state)@.has_command_sender ==> command is None
                &&& (*state)@.has_command_sender ==> command == Some(ModelCommand::StopAll)
            },
{
}

/// Announcing a write of a field gives the number behind the field's last one, one for the first,
/// and makes it the latest of the field; other fields keep theirs.
pub proof fn law_announced_writes_are_numbered<C>(key: &str, write: u64)
    ensures
        forall|state: &mut SharedGuiState<C>| #[trigger]
            call_ensures(SharedGuiState::<C>::begin_config_write, (state, key), write) ==> {
                let before = (*state)@.generations;
                let after = (*final(state))@.generations;
                &&& before.contains_key(key@) ==> write == before[key@] + 1
                &&& !before.contains_key(key@) ==> write == 1
                &&& after == before.insert(key@, write)
                &&& (*final(state))@.models == (*state)@.models
                &&& (*final(state))@.logs == (*state)@.logs
            },
        forall|state: &SharedGuiState<C>, latest: bool| #[trigger]
            call_ensures(SharedGuiState::<C>::is_latest_config_write, (state, key, write), latest)
                ==> latest == (state@.generations.contains_key(key@) && state@.generations[key@]
                == write),
{
}

} // verus!
