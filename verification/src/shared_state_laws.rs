//! Laws of the shared state: what every change keeps, and what changes add up to.
use crate::models::{LocalTime, LogView, ModelEntryView, ModelStreamStatus, ModelView};
use crate::shared_state::{
    first_model, fresh_models, generation, is_first_model, is_latest, lemma_first_model,
    model_entries, move_target, next_generation, GuiView, MAX_LOGS,
};
use std::path::PathBuf;
use vstd::prelude::*;

verus! {

/// A change to the models.
pub enum ModelChange {
    Init { entries: Seq<ModelEntryView> },
    Switch { path: PathBuf, entries: Seq<ModelEntryView> },
    Status { username: Seq<char>, status: ModelStreamStatus, now: LocalTime },
    Recording { username: Seq<char>, recording: bool, file_path: Option<Seq<char>>, now: LocalTime },
    Enable { username: Seq<char>, enabled: bool },
    Add { username: Seq<char>, enabled: bool },
    Remove { username: Seq<char> },
    Move { username: Seq<char>, delta: int },
}

/// The state after a change.
pub open spec fn changed<C>(state: GuiView<C>, change: ModelChange) -> GuiView<C> {
    match change {
        ModelChange::Init { entries } => state.with_entries(entries),
        ModelChange::Switch { path, entries } => state.with_config(path, entries),
        ModelChange::Status { username, status, now } => state.with_status(username, status, now),
        ModelChange::Recording { username, recording, file_path, now } => state.with_recording(
            username,
            recording,
            file_path,
            now,
        ),
        ModelChange::Enable { username, enabled } => state.with_enabled(username, enabled),
        ModelChange::Add { username, enabled } => state.with_added(username, enabled),
        ModelChange::Remove { username } => state.with_removed(username),
        ModelChange::Move { username, delta } => state.with_moved(username, delta),
    }
}

/// The list that the change brings along, if it brings one, names no model twice.
pub open spec fn brings_distinct_names(change: ModelChange) -> bool {
    match change {
        ModelChange::Init { entries } => distinct_names(fresh_models(entries)),
        ModelChange::Switch { path, entries } => distinct_names(fresh_models(entries)),
        _ => true,
    }
}

/// No two models have the same name.
pub open spec fn distinct_names(models: Seq<ModelView>) -> bool {
    forall|i: int, j: int|
        0 <= i < j < models.len() ==> (#[trigger] models[i]).username != (
        #[trigger] models[j]).username
}

/// Every model's recording marks agree with each other.
pub open spec fn all_consistent(models: Seq<ModelView>) -> bool {
    forall|i: int| 0 <= i < models.len() ==> (#[trigger] models[i]).consistent()
}

/// A call that changes the shared state.
pub enum StateCall<C> {
    Models(ModelChange),
    SetConfigPath { path: PathBuf },
    BeginSwitch,
    SetCommandSender,
    SetAppConfig { config: C },
    ChangeAppConfig { config: C },
    PushLog { entry: LogView },
    BeginConfigWrite { key: Seq<char> },
    SetRecordingActive { active: bool },
}

/// The state after a call.
pub open spec fn called<C>(state: GuiView<C>, call: StateCall<C>) -> GuiView<C> {
    match call {
        StateCall::Models(change) => changed(state, change),
        StateCall::SetConfigPath { path } => GuiView { config_path: Some(path), ..state },
        StateCall::BeginSwitch => GuiView { recording_active: false, ..state },
        StateCall::SetCommandSender => GuiView { has_command_sender: true, ..state },
        StateCall::SetAppConfig { config } => GuiView { app_config: Some(config), ..state },
        StateCall::ChangeAppConfig { config } => GuiView { app_config: Some(config), ..state },
        StateCall::PushLog { entry } => state.with_log(entry),
        StateCall::BeginConfigWrite { key } => GuiView {
            generations: next_generation(state.generations, key),
            ..state
        },
        StateCall::SetRecordingActive { active } => GuiView { recording_active: active, ..state },
    }
}

/// The state after several calls.
pub open spec fn after_calls<C>(state: GuiView<C>, calls: Seq<StateCall<C>>) -> GuiView<C>
    decreases calls.len(),
{
    if calls.len() == 0 {
        state
    } else {
        called(after_calls(state, calls.drop_last()), calls.last())
    }
}

/// No list of models that one of the calls brings along names a model twice.
pub open spec fn all_bring_distinct_names<C>(calls: Seq<StateCall<C>>) -> bool {
    forall|i: int|
        0 <= i < calls.len() ==> (#[trigger] calls[i] matches StateCall::Models(change)
            ==> brings_distinct_names(change))
}

pub proof fn lemma_first_model_exists(models: Seq<ModelView>, username: Seq<char>, k: int)
    requires
        0 <= k < models.len(),
        models[k].username == username,
    ensures
        first_model(models, username) matches Some(i) && is_first_model(models, username, i) && i <= k,
    decreases k,
{
    if exists|j: int| 0 <= j < k && models[j].username == username {
        let j = choose|j: int| 0 <= j < k && models[j].username == username;
        lemma_first_model_exists(models, username, j);
    } else {
        lemma_first_model(models, username, k);
    }
}

/// A version that did not grow means that no model has changed: whoever has seen the models at some
/// version needs to look again only when the version is another one.
pub proof fn law_version_tells_of_changes<C>(state: GuiView<C>, change: ModelChange)
    ensures
        changed(state, change).models_version == state.models_version || changed(
            state,
            change,
        ).models_version == state.models_version + 1,
        changed(state, change).models_version == state.models_version ==> changed(state, change)
            == state,
{
}

/// No change brings a name into the list twice, unless it brings a list of its own that does.
pub proof fn law_names_stay_distinct<C>(state: GuiView<C>, change: ModelChange)
    requires
        distinct_names(state.models),
        brings_distinct_names(change),
    ensures
        distinct_names(changed(state, change).models),
{
    let models = state.models;
    match change {
        ModelChange::Add { username, enabled } => {
            if !state.has_model(username) {
                assert forall|i: int| 0 <= i < models.len() implies (
                #[trigger] models[i]).username != username by {
                    if models[i].username == username {
                        lemma_first_model_exists(models, username, i);
                    }
                }
            }
        },
        ModelChange::Remove { username } => {
            lemma_filter_distinct(models, username);
        },
        ModelChange::Move { username, delta } => {
            if state.moves(username, delta) {
                let i = first_model(models, username)->0;
                let t = move_target(i, delta, models.len() as int);
                let moved = models.remove(i).insert(t, models[i]);
                assert forall|a: int, b: int| 0 <= a < b < moved.len() implies (
                #[trigger] moved[a]).username != (#[trigger] moved[b]).username by {
                    let p = origin(i, t, a);
                    let q = origin(i, t, b);
                    assert(moved[a] == models[p]);
                    assert(moved[b] == models[q]);
                    assert(models[p].username != models[q].username);
                }
            }
        },
        _ => {},
    }
}

/// Where the model at position `a` stood before the model at `i` was moved to `t`.
spec fn origin(i: int, t: int, a: int) -> int {
    let b = if a < t {
        a
    } else {
        a - 1
    };
    if a == t {
        i
    } else if b < i {
        b
    } else {
        b + 1
    }
}

proof fn lemma_filter_distinct(models: Seq<ModelView>, username: Seq<char>)
    requires
        distinct_names(models),
    ensures
        distinct_names(models.filter(|model: ModelView| model.username != username)),
    decreases models.len(),
{
    reveal(Seq::filter);
    let keep = |model: ModelView| model.username != username;
    if models.len() > 0 {
        let front = models.drop_last();
        lemma_filter_distinct(front, username);
        let kept = front.filter(keep);
        assert forall|i: int| 0 <= i < kept.len() implies (#[trigger] kept[i]).username
            != models.last().username by {
            front.lemma_filter_contains_rev(keep, kept[i]);
            let k = choose|k: int| 0 <= k < front.len() && front[k] == kept[i];
            assert(models[k].username != models[models.len() - 1].username);
        }
    }
}

/// The marks of a recording always agree: a model that is being recorded has a start, and one that
/// is not has neither a start nor a file.
pub proof fn law_recording_marks_agree<C>(state: GuiView<C>, change: ModelChange)
    requires
        all_consistent(state.models),
    ensures
        all_consistent(changed(state, change).models),
{
    let models = state.models;
    match change {
        ModelChange::Remove { username } => {
            let keep = |model: ModelView| model.username != username;
            let kept = models.filter(keep);
            assert forall|i: int| 0 <= i < kept.len() implies (#[trigger] kept[i]).consistent() by {
                models.lemma_filter_contains_rev(keep, kept[i]);
            }
        },
        ModelChange::Move { username, delta } => {
            if state.moves(username, delta) {
                let i = first_model(models, username)->0;
                let t = move_target(i, delta, models.len() as int);
                let moved = models.remove(i).insert(t, models[i]);
                assert forall|a: int| 0 <= a < moved.len() implies (#[trigger] moved[a]).consistent() by {
                    assert(moved[a] == models[origin(i, t, a)]);
                }
            }
        },
        _ => {},
    }
}

/// Whatever was called on a new state, and in whatever order, the marks of every model's recording
/// agree, and the log is not longer than allowed.
pub proof fn law_recording_marks_agree_over_any_calls<C>(calls: Seq<StateCall<C>>)
    ensures
        all_consistent(after_calls(GuiView::<C>::empty(), calls).models),
        after_calls(GuiView::<C>::empty(), calls).wf(),
    decreases calls.len(),
{
    if calls.len() > 0 {
        law_recording_marks_agree_over_any_calls(calls.drop_last());
        let before = after_calls(GuiView::<C>::empty(), calls.drop_last());
        if let StateCall::Models(change) = calls.last() {
            law_recording_marks_agree(before, change);
        }
    }
}

/// Whatever was called on a new state, and in whatever order, no two models have the same name, as
/// long as no list that was brought along names a model twice.
pub proof fn law_names_stay_distinct_over_any_calls<C>(calls: Seq<StateCall<C>>)
    requires
        all_bring_distinct_names(calls),
    ensures
        distinct_names(after_calls(GuiView::<C>::empty(), calls).models),
    decreases calls.len(),
{
    if calls.len() > 0 {
        let front = calls.drop_last();
        assert forall|i: int| 0 <= i < front.len() implies (
        #[trigger] front[i] matches StateCall::Models(change) ==> brings_distinct_names(change)) by {
            assert(front[i] == calls[i]);
        }
        law_names_stay_distinct_over_any_calls(front);
        let last = calls[calls.len() - 1];
        if let StateCall::Models(change) = last {
            assert(brings_distinct_names(change));
            law_names_stay_distinct(after_calls(GuiView::<C>::empty(), front), change);
        }
    }
}

/// Over any calls the version of the models never goes back, and where it is the same before and
/// after, the models are the same.
pub proof fn law_version_tells_of_changes_over_any_calls<C>(
    state: GuiView<C>,
    calls: Seq<StateCall<C>>,
)
    ensures
        state.models_version <= after_calls(state, calls).models_version,
        state.models_version == after_calls(state, calls).models_version ==> state.models
            == after_calls(state, calls).models,
    decreases calls.len(),
{
    if calls.len() > 0 {
        law_version_tells_of_changes_over_any_calls(state, calls.drop_last());
        let before = after_calls(state, calls.drop_last());
        if let StateCall::Models(change) = calls.last() {
            law_version_tells_of_changes(before, change);
        }
    }
}

/// Only the models with the name that a change is about are touched: all others keep their state
/// and their order.
pub proof fn law_other_models_are_untouched<C>(state: GuiView<C>, username: Seq<char>, change: ModelChange)
    requires
        match change {
            ModelChange::Status { username: name, .. } => name == username,
            ModelChange::Recording { username: name, .. } => name == username,
            ModelChange::Enable { username: name, .. } => name == username,
            ModelChange::Add { username: name, .. } => name == username,
            ModelChange::Remove { username: name } => name == username,
            ModelChange::Move { username: name, .. } => name == username,
            _ => false,
        },
    ensures
        changed(state, change).models.filter(|model: ModelView| model.username != username)
            == state.models.filter(|model: ModelView| model.username != username),
{
    let keep = |model: ModelView| model.username != username;
    let models = state.models;
    let after = changed(state, change).models;
    match change {
        ModelChange::Remove { .. } => {
            lemma_filter_twice(models, keep);
        },
        ModelChange::Add { enabled, .. } => {
            if !state.has_model(username) {
                reveal(Seq::filter);
                assert(after.drop_last() =~= models);
            }
        },
        ModelChange::Move { delta, .. } => {
            if state.moves(username, delta) {
                let i = first_model(models, username)->0;
                let t = move_target(i, delta, models.len() as int);
                let rest = models.remove(i);
                lemma_filter_insert(rest, t, models[i], keep);
                lemma_filter_insert(rest, i, models[i], keep);
                assert(rest.insert(i, models[i]) =~= models);
            }
        },
        _ => {
            if let Some(i) = first_model(models, username) {
                let rest = models.remove(i);
                lemma_filter_insert(rest, i, models[i], keep);
                lemma_filter_insert(rest, i, after[i], keep);
                assert(rest.insert(i, models[i]) =~= models);
                assert(rest.insert(i, after[i]) =~= after);
            }
        },
    }
}

proof fn lemma_filter_twice(models: Seq<ModelView>, keep: spec_fn(ModelView) -> bool)
    ensures
        models.filter(keep).filter(keep) == models.filter(keep),
    decreases models.len(),
{
    reveal(Seq::filter);
    if models.len() > 0 {
        let front = models.drop_last();
        lemma_filter_twice(front, keep);
        if keep(models.last()) {
            assert(models.filter(keep).drop_last() =~= front.filter(keep));
        }
    }
}

/// A model that is filtered out leaves no trace, wherever it stands.
proof fn lemma_filter_insert(
    models: Seq<ModelView>,
    i: int,
    model: ModelView,
    keep: spec_fn(ModelView) -> bool,
)
    requires
        0 <= i <= models.len(),
        !keep(model),
    ensures
        models.insert(i, model).filter(keep) == models.filter(keep),
    decreases models.len(),
{
    reveal(Seq::filter);
    let with = models.insert(i, model);
    if i == models.len() {
        assert(with.drop_last() =~= models);
    } else {
        assert(with.drop_last() =~= models.drop_last().insert(i, model));
        lemma_filter_insert(models.drop_last(), i, model, keep);
    }
}

/// Moving a model only changes the order: each model is in the list as often as before.
pub proof fn law_moving_keeps_the_models<C>(state: GuiView<C>, username: Seq<char>, delta: int)
    ensures
        state.with_moved(username, delta).models.to_multiset() == state.models.to_multiset(),
{
    let models = state.models;
    if state.moves(username, delta) {
        let i = first_model(models, username)->0;
        let t = move_target(i, delta, models.len() as int);
        broadcast use vstd::seq_lib::group_to_multiset_ensures;
        let rest = models.remove(i);
        vstd::seq_lib::to_multiset_remove(models, i);
        vstd::seq_lib::to_multiset_insert(rest, t, models[i]);
        assert(models.contains(models[i]));
        assert(models.to_multiset().contains(models[i]));
        assert(rest.insert(t, models[i]).to_multiset() =~= models.to_multiset());
    }
}

/// A move that is not cut short at either end is undone by the opposite move, where no other model
/// has the same name.
pub proof fn law_moving_back_restores_the_order<C>(
    state: GuiView<C>,
    username: Seq<char>,
    index: int,
    delta: int,
)
    requires
        distinct_names(state.models),
        is_first_model(state.models, username, index),
        0 <= index + delta < state.models.len(),
    ensures
        state.with_moved(username, delta).with_moved(username, -delta).models == state.models,
{
    let models = state.models;
    lemma_first_model(models, username, index);
    let t = index + delta;
    if delta != 0 {
        let moved = state.with_moved(username, delta).models;
        assert(moved =~= models.remove(index).insert(t, models[index]));
        assert forall|j: int| 0 <= j < t implies moved[j].username != username by {
            let p = origin(index, t, j);
            assert(moved[j] == models[p]);
            if p < index {
                assert(models[p].username != models[index].username);
            } else {
                assert(models[index].username != models[p].username);
            }
        }
        assert(is_first_model(moved, username, t));
        lemma_first_model(moved, username, t);
        assert(moved.remove(t) =~= models.remove(index));
        assert(models.remove(index).insert(index, models[index]) =~= models);
    }
}

/// A model that was added and then removed leaves the list as it was, where no model had its name.
pub proof fn law_removing_undoes_adding<C>(state: GuiView<C>, username: Seq<char>, enabled: bool)
    requires
        !state.has_model(username),
    ensures
        state.with_added(username, enabled).with_removed(username).models == state.models,
{
    let models = state.models;
    let keep = |model: ModelView| model.username != username;
    assert forall|i: int| 0 <= i < models.len() implies keep(#[trigger] models[i]) by {
        if models[i].username == username {
            lemma_first_model_exists(models, username, i);
        }
    }
    reveal(Seq::filter);
    let added = models.push(ModelView::fresh(username, enabled));
    assert(added.drop_last() =~= models);
    lemma_filter_keeps_all(models, keep);
}

proof fn lemma_filter_keeps_all(models: Seq<ModelView>, keep: spec_fn(ModelView) -> bool)
    requires
        forall|i: int| 0 <= i < models.len() ==> keep(#[trigger] models[i]),
    ensures
        models.filter(keep) == models,
    decreases models.len(),
{
    reveal(Seq::filter);
    if models.len() > 0 {
        let front = models.drop_last();
        assert forall|i: int| 0 <= i < front.len() implies keep(#[trigger] front[i]) by {
            assert(front[i] == models[i]);
        }
        lemma_filter_keeps_all(front, keep);
        assert(front.push(models.last()) =~= models);
    }
}

/// No model with a removed name is left.
pub proof fn law_removed_models_are_gone<C>(state: GuiView<C>, username: Seq<char>)
    ensures
        !state.with_removed(username).has_model(username),
{
    let keep = |model: ModelView| model.username != username;
    let kept = state.models.filter(keep);
    assert forall|i: int| !is_first_model(kept, username, i) by {
        if 0 <= i < kept.len() {
            state.models.lemma_filter_pred(keep, i);
            assert(keep(kept[i]));
        }
    }
}

/// The list that is written to the configuration file brings the same models back, in the same
/// order and with the same switches.
pub proof fn law_saved_models_come_back<C>(state: GuiView<C>, other: GuiView<C>)
    ensures
        ({
            let restored = other.with_entries(model_entries(state.models)).models;
            &&& restored.len() == state.models.len()
            &&& model_entries(restored) == model_entries(state.models)
        }),
{
    let restored = fresh_models(model_entries(state.models));
    assert(model_entries(restored) =~= model_entries(state.models));
}

/// The log entries that the calls add, in their order.
pub open spec fn pushed<C>(calls: Seq<StateCall<C>>) -> Seq<LogView>
    decreases calls.len(),
{
    if calls.len() == 0 {
        seq![]
    } else {
        match calls.last() {
            StateCall::PushLog { entry } => pushed(calls.drop_last()).push(entry),
            _ => pushed(calls.drop_last()),
        }
    }
}

/// The last entries, as many as the log keeps.
pub open spec fn last_entries(entries: Seq<LogView>) -> Seq<LogView> {
    if entries.len() <= MAX_LOGS {
        entries
    } else {
        entries.skip(entries.len() - MAX_LOGS)
    }
}

/// A call other than an addition to the log leaves the log alone.
proof fn lemma_other_calls_keep_the_log<C>(state: GuiView<C>, call: StateCall<C>)
    requires
        !(call is PushLog),
    ensures
        called(state, call).logs == state.logs,
        called(state, call).log_serial == state.log_serial,
{
}

/// Over any calls the log holds the last entries in the order in which they were added, as many as
/// it keeps, and its version grows by one with each entry, around the end of its range.
pub proof fn law_log_holds_the_last_entries<C>(state: GuiView<C>, calls: Seq<StateCall<C>>)
    requires
        state.wf(),
        state.log_serial <= u64::MAX,
    ensures
        after_calls(state, calls).logs == last_entries(state.logs + pushed(calls)),
        after_calls(state, calls).log_serial == (state.log_serial + pushed(calls).len()) % 0x1_0000_0000_0000_0000,
    decreases calls.len(),
{
    let all = state.logs + pushed(calls);
    if calls.len() == 0 {
        assert(all =~= state.logs);
    } else {
        let front = calls.drop_last();
        let before = after_calls(state, front);
        law_log_holds_the_last_entries(state, front);
        if let StateCall::PushLog { entry } = calls.last() {
            let earlier = state.logs + pushed(front);
            assert(all =~= earlier.push(entry));
            if all.len() > MAX_LOGS {
                assert(last_entries(earlier).skip(1).push(entry) =~= last_entries(all));
            }
        } else {
            lemma_other_calls_keep_the_log(before, calls.last());
        }
    }
}

/// Whatever was called on a new state, its log is the last of the entries that were added, and its
/// version is their number in the range of `u64`.
pub proof fn law_log_of_a_new_state<C>(calls: Seq<StateCall<C>>)
    ensures
        after_calls(GuiView::<C>::empty(), calls).logs == last_entries(pushed(calls)),
        after_calls(GuiView::<C>::empty(), calls).log_serial == pushed(calls).len() % 0x1_0000_0000_0000_0000,
{
    law_log_holds_the_last_entries(GuiView::<C>::empty(), calls);
    assert(GuiView::<C>::empty().logs + pushed(calls) =~= pushed(calls));
}

/// Each log entry changes the log's version.
pub proof fn law_log_version_tells_of_entries<C>(state: GuiView<C>, entry: LogView)
    ensures
        state.with_log(entry).log_serial != state.log_serial,
{
}

/// The call announces a write of this field.
pub open spec fn announces<C>(call: StateCall<C>, key: Seq<char>) -> bool {
    call matches StateCall::BeginConfigWrite { key: name } && name == key
}

/// How many of the calls announce a write of this field.
pub open spec fn announcements<C>(calls: Seq<StateCall<C>>, key: Seq<char>) -> nat
    decreases calls.len(),
{
    if calls.len() == 0 {
        0
    } else {
        announcements(calls.drop_last(), key) + if announces(calls.last(), key) {
            1nat
        } else {
            0nat
        }
    }
}

/// A call other than an announcement of the field leaves the field's generation alone.
proof fn lemma_other_calls_keep_the_generation<C>(
    state: GuiView<C>,
    call: StateCall<C>,
    key: Seq<char>,
)
    requires
        !announces(call, key),
    ensures
        generation(called(state, call).generations, key) == generation(state.generations, key),
        called(state, call).generations.contains_key(key) == state.generations.contains_key(key),
{
}

/// Over any calls the generation of a field grows by one with each announcement of the field and
/// stays as it is otherwise.
pub proof fn law_generations_count_announcements<C>(
    state: GuiView<C>,
    calls: Seq<StateCall<C>>,
    key: Seq<char>,
)
    requires
        generation(state.generations, key) + announcements(calls, key) <= u64::MAX,
    ensures
        ({
            let after = after_calls(state, calls).generations;
            &&& generation(after, key) == generation(state.generations, key) + announcements(
                calls,
                key,
            )
            &&& after.contains_key(key) == (state.generations.contains_key(key) || announcements(
                calls,
                key,
            ) > 0)
        }),
    decreases calls.len(),
{
    if calls.len() > 0 {
        law_generations_count_announcements(state, calls.drop_last(), key);
        if !announces(calls.last(), key) {
            lemma_other_calls_keep_the_generation(
                after_calls(state, calls.drop_last()),
                calls.last(),
                key,
            );
        }
    }
}

/// Whatever was called on a new state, a generation is the latest of a field exactly if the field
/// was announced and the generation is the number of its announcements.
pub proof fn law_latest_write_of_a_new_state<C>(
    calls: Seq<StateCall<C>>,
    key: Seq<char>,
    write: u64,
)
    requires
        announcements(calls, key) <= u64::MAX,
    ensures
        is_latest(after_calls(GuiView::<C>::empty(), calls).generations, key, write) <==> (
        announcements(calls, key) > 0 && write == announcements(calls, key)),
{
    law_generations_count_announcements(GuiView::<C>::empty(), calls, key);
}

/// Behind a position, announcements of a field only add up.
proof fn lemma_later_announcements<C>(calls: Seq<StateCall<C>>, key: Seq<char>, i: int)
    requires
        0 <= i < calls.len(),
        announces(calls[i], key),
    ensures
        announcements(calls.take(i), key) + 1 <= announcements(calls, key),
        announcements(calls.take(i), key) + 1 == announcements(calls, key) <==> forall|j: int|
            i < j < calls.len() ==> !announces(#[trigger] calls[j], key),
    decreases calls.len(),
{
    let front = calls.drop_last();
    if i == calls.len() - 1 {
        assert(calls.take(i) =~= front);
    } else {
        assert(front.take(i) =~= calls.take(i));
        assert(front[i] == calls[i]);
        lemma_later_announcements(front, key, i);
        assert forall|j: int| i < j < front.len() implies #[trigger] front[j] == calls[j] by {}
        assert forall|j: int| i < j < front.len() implies #[trigger] calls[j] == front[j] by {}
        if announces(calls.last(), key) {
            assert(announces(calls[calls.len() - 1], key));
        }
    }
}

/// Of all writes that are announced over any calls, exactly the last one of each field is the one
/// to carry out: the generation that an announcement gave out is the latest after all calls if and
/// only if no later call announced the same field.
pub proof fn law_only_the_last_write_counts<C>(
    state: GuiView<C>,
    calls: Seq<StateCall<C>>,
    i: int,
    key: Seq<char>,
)
    requires
        0 <= i < calls.len(),
        announces(calls[i], key),
        generation(state.generations, key) + announcements(calls, key) <= u64::MAX,
    ensures
        ({
            let given_out = generation(after_calls(state, calls.take(i)).generations, key) + 1;
            &&& given_out <= u64::MAX
            &&& is_latest(after_calls(state, calls).generations, key, given_out as u64)
                <==> forall|j: int| i < j < calls.len() ==> !announces(#[trigger] calls[j], key)
        }),
{
    lemma_later_announcements(calls, key, i);
    law_generations_count_announcements(state, calls, key);
    law_generations_count_announcements(state, calls.take(i), key);
}

} // verus!
