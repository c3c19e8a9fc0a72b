//! The commands that a client gives the daemon.

use crate::dispatch::{
    change_runs, command_views, event_runs, has_path, law_changes_run_watchers,
    law_event_runs_exactly, law_event_runs_once, law_event_runs_subscribers, law_watcher_follows, listed_name, run_views,
    runs_for_event, watch_changes, watch_commands, watched_after, watched_paths, watches,
    ChangedPathView, FileEventKind, PluginRun, PluginRunView, WatcherCommand, WatcherCommandView,
};
use crate::event::{plain, plain_event, Event, EventView};
use crate::name_map::{as_map, key_index, lemma_entry, lemma_key, lemma_placed, placed};
use crate::plugin::{
    is_registry, lemma_stays_registry, loaded_unless_failed, opt_entries, user_dir_of,
    user_plugins_dir, Plugin, PluginEntries, PluginReadingView, PluginView, Registry,
};
use crate::text::{lists, opt_text};
use vstd::prelude::*;

verus! {

/// A command to the daemon.
pub enum DaemonCommand {
    List,
    Info(String),
    Enable(String),
    Disable(String),
    Trigger(String, String, Option<String>),
    Reload,
    Status,
}

/// A command to the daemon, as a plain value.
#[verifier::ext_equal]
pub enum DaemonCommandView {
    List,
    Info(Seq<char>),
    Enable(Seq<char>),
    Disable(Seq<char>),
    Trigger(Seq<char>, Seq<char>, Option<Seq<char>>),
    Reload,
    Status,
}

impl View for DaemonCommand {
    type V = DaemonCommandView;

    open spec fn view(&self) -> DaemonCommandView {
        match self {
            DaemonCommand::List => DaemonCommandView::List,
            DaemonCommand::Info(name) => DaemonCommandView::Info(name@),
            DaemonCommand::Enable(name) => DaemonCommandView::Enable(name@),
            DaemonCommand::Disable(name) => DaemonCommandView::Disable(name@),
            DaemonCommand::Trigger(name, event, data) => DaemonCommandView::Trigger(
                name@,
                event@,
                opt_text(*data),
            ),
            DaemonCommand::Reload => DaemonCommandView::Reload,
            DaemonCommand::Status => DaemonCommandView::Status,
        }
    }
}

/// A request to the daemon: who asks, from which home directory, and for what.
pub struct CommandRequest {
    pub home: Option<String>,
    pub current_user: Option<String>,
    pub daemon_command: DaemonCommand,
}

/// The command reads the manifests anew before it does anything else.
pub open spec fn rereads(command: DaemonCommandView) -> bool {
    command is List || command is Info || command is Reload
}

/// Does the command read the manifests anew?
pub fn needs_load(command: &DaemonCommand) -> (r: bool)
    ensures
        r == rereads(command@),
{
    match command {
        DaemonCommand::List => true,
        DaemonCommand::Info(_) => true,
        DaemonCommand::Reload => true,
        _ => false,
    }
}

/// The directory of the plugins of the user who asks, if the request names a
/// home directory.
pub fn requested_dir(request: &CommandRequest) -> (r: Option<Vec<u8>>)
    ensures
        r is Some <==> request.home is Some,
        r is Some ==> r->0@ == user_dir_of(request.home->0@),
{
    match &request.home {
        Some(home) => Some(user_plugins_dir(home.as_str())),
        None => None,
    }
}

/// What a client is answered.
pub enum Reply {
    /// All plugins.
    Plugins,
    /// One plugin, or that there is none of that name.
    Info(Option<Plugin>),
    /// That the command was carried out.
    Done,
}

/// What a client is answered, as a plain value.
#[verifier::ext_equal]
pub enum ReplyView {
    Plugins,
    Info(Option<PluginView>),
    Done,
}

impl View for Reply {
    type V = ReplyView;

    open spec fn view(&self) -> ReplyView {
        match self {
            Reply::Plugins => ReplyView::Plugins,
            Reply::Info(Some(plugin)) => ReplyView::Info(Some(plugin@)),
            Reply::Info(None) => ReplyView::Info(None),
            Reply::Done => ReplyView::Done,
        }
    }
}

/// The text of an answer, where the answer is but a text.
pub open spec fn text_of(reply: ReplyView) -> Option<Seq<char>> {
    match reply {
        ReplyView::Done => Some("OK"@),
        _ => None,
    }
}

/// The text of an answer, where the answer is but a text: `OK`, where the command
/// was carried out. Plugins are no such answer.
pub fn reply_text(reply: &Reply) -> (r: Option<&'static str>)
    ensures
        r is Some <==> text_of(reply@) is Some,
        r is Some ==> r->0@ == text_of(reply@)->0,
{
    match reply {
        Reply::Done => Some("OK"),
        _ => None,
    }
}

/// What follows from a command: what the watcher of the file system is to do,
/// then the plugins that are to be run, whether the client is left without an
/// answer where something fails, and the answer, if there is to be one.
pub struct Outcome {
    pub watch: Vec<WatcherCommand>,
    pub runs: Vec<PluginRun>,
    pub must_succeed: bool,
    pub reply: Option<Reply>,
}

/// What follows from a command, as a plain value.
#[verifier::ext_equal]
pub struct OutcomeView {
    pub watch: Seq<WatcherCommandView>,
    pub runs: Seq<PluginRunView>,
    pub must_succeed: bool,
    pub reply: Option<ReplyView>,
}

impl View for Outcome {
    type V = OutcomeView;

    open spec fn view(&self) -> OutcomeView {
        OutcomeView {
            watch: command_views(self.watch@),
            runs: run_views(self.runs@),
            must_succeed: self.must_succeed,
            reply: match self.reply {
                Some(reply) => Some(reply@),
                None => None,
            },
        }
    }
}

/// Nothing follows but the answer.
pub open spec fn only_reply(reply: ReplyView) -> OutcomeView {
    OutcomeView {
        watch: Seq::empty(),
        runs: Seq::empty(),
        must_succeed: false,
        reply: Some(reply),
    }
}

/// Nothing follows, not even an answer: the manifests could not be read.
pub open spec fn not_loaded() -> OutcomeView {
    OutcomeView { watch: Seq::empty(), runs: Seq::empty(), must_succeed: true, reply: None }
}

/// A plugin with its switch set.
pub open spec fn switched(plugin: PluginView, enabled: bool) -> PluginView {
    PluginView { enabled, ..plugin }
}

/// The plugins after one of them was switched on or off, if it is among them.
pub open spec fn with_switch(entries: PluginEntries, name: Seq<char>, enabled: bool) -> PluginEntries {
    if as_map(entries).dom().contains(name) {
        placed(entries, name, switched(as_map(entries)[name], enabled))
    } else {
        entries
    }
}

/// The plugins after a command; `fresh` are those that were read for it, if they
/// could be read. Where they could not, the plugins stay as they were.
pub open spec fn plugins_after(
    entries: PluginEntries,
    command: DaemonCommandView,
    fresh: Option<PluginEntries>,
) -> PluginEntries {
    match command {
        DaemonCommandView::Enable(name) => with_switch(entries, name, true),
        DaemonCommandView::Disable(name) => with_switch(entries, name, false),
        _ => match fresh {
            Some(plugins) => if rereads(command) {
                plugins
            } else {
                entries
            },
            None => entries,
        },
    }
}

/// The runs of a single plugin, if it is among the plugins.
pub open spec fn single_run(
    entries: PluginEntries,
    name: Seq<char>,
    event_name: Seq<char>,
    ctl_user: Option<Seq<char>>,
    event_data: Option<Seq<char>>,
) -> Seq<PluginRunView> {
    if as_map(entries).dom().contains(name) {
        seq![PluginRunView { plugin: as_map(entries)[name], event_name, ctl_user, event_data }]
    } else {
        Seq::empty()
    }
}

/// The runs of a single plugin for an event without data, if it is among the
/// plugins and has the event among its events.
pub open spec fn listed_run(
    entries: PluginEntries,
    name: Seq<char>,
    event_name: Seq<char>,
    ctl_user: Option<Seq<char>>,
) -> Seq<PluginRunView> {
    if as_map(entries).dom().contains(name) && as_map(entries)[name].event.contains(event_name) {
        single_run(entries, name, event_name, ctl_user, None)
    } else {
        Seq::empty()
    }
}

/// What follows from a command.
pub open spec fn outcome_of(
    entries: PluginEntries,
    command: DaemonCommandView,
    ctl_user: Option<Seq<char>>,
    fresh: Option<PluginEntries>,
) -> OutcomeView {
    let after = plugins_after(entries, command, fresh);
    if rereads(command) && fresh is None {
        not_loaded()
    } else {
        match command {
            DaemonCommandView::List => only_reply(ReplyView::Plugins),
            DaemonCommandView::Info(name) => only_reply(
                ReplyView::Info(
                    if as_map(after).dom().contains(name) {
                        Some(as_map(after)[name])
                    } else {
                        None
                    },
                ),
            ),
            DaemonCommandView::Enable(name) => OutcomeView {
                runs: listed_run(after, name, "OnEnabled"@, ctl_user),
                ..only_reply(ReplyView::Done)
            },
            DaemonCommandView::Disable(name) => OutcomeView {
                runs: listed_run(after, name, "OnDisabled"@, ctl_user),
                ..only_reply(ReplyView::Done)
            },
            DaemonCommandView::Trigger(name, event, data) => OutcomeView {
                runs: if as_map(entries).dom().contains(name) && as_map(entries)[name].enabled {
                    single_run(entries, name, event, ctl_user, data)
                } else {
                    Seq::empty()
                },
                must_succeed: true,
                ..only_reply(ReplyView::Done)
            },
            DaemonCommandView::Reload => OutcomeView {
                watch: watch_commands(watched_paths(entries), watched_paths(after)),
                runs: event_runs(after, plain("OnReload"@), ctl_user),
                ..only_reply(ReplyView::Done)
            },
            DaemonCommandView::Status => only_reply(ReplyView::Done),
        }
    }
}

fn just(reply: Reply) -> (r: Outcome)
    ensures
        r@ == only_reply(reply@),
{
    let r = Outcome {
        watch: Vec::new(),
        runs: Vec::new(),
        must_succeed: false,
        reply: Some(reply),
    };
    assert(r@ =~= only_reply(reply@));
    r
}

/// The run of one plugin, as the only thing that follows but for the answer.
fn just_run(
    plugin: Plugin,
    event_name: &str,
    ctl_user: Option<String>,
    event_data: Option<String>,
    must_succeed: bool,
) -> (r: Outcome)
    ensures
        r@ == (OutcomeView {
            runs: seq![
                PluginRunView {
                    plugin: plugin@,
                    event_name: event_name@,
                    ctl_user: opt_text(ctl_user),
                    event_data: opt_text(event_data),
                },
            ],
            must_succeed,
            ..only_reply(ReplyView::Done)
        }),
{
    let run = PluginRun { plugin, event_name: event_name.to_string(), ctl_user, event_data };
    let mut runs: Vec<PluginRun> = Vec::new();
    runs.push(run);
    assert(run_views(runs@) =~= seq![run@]);
    let watch: Vec<WatcherCommand> = Vec::new();
    assert(command_views(watch@) =~= Seq::empty());
    Outcome { watch, runs, must_succeed, reply: Some(Reply::Done) }
}

/// The run of a plugin for an event without data, if the plugin lists the event.
fn run_if_listed(plugin: Plugin, event_name: &str, ctl_user: Option<String>) -> (r: Outcome)
    ensures
        r@ == (OutcomeView {
            runs: if plugin@.event.contains(event_name@) {
                seq![
                    PluginRunView {
                        plugin: plugin@,
                        event_name: event_name@,
                        ctl_user: opt_text(ctl_user),
                        event_data: None,
                    },
                ]
            } else {
                Seq::empty()
            },
            ..only_reply(ReplyView::Done)
        }),
{
    if lists(&plugin.event, event_name) {
        just_run(plugin, event_name, ctl_user, None, false)
    } else {
        just(Reply::Done)
    }
}

/// Switches a plugin on or off, and gives it back, if it is among the plugins.
fn switch_plugin(registry: &mut Registry, name: &str, enabled: bool) -> (r: Option<Plugin>)
    requires
        is_registry(old(registry).entries()),
    ensures
        is_registry(final(registry).entries()),
        final(registry).entries() == with_switch(old(registry).entries(), name@, enabled),
        r is Some <==> as_map(old(registry).entries()).dom().contains(name@),
        r is Some ==> r->0@ == switched(as_map(old(registry).entries())[name@], enabled),
{
    let found: Option<Plugin> = match registry.get(name) {
        Some(plugin) => Some(plugin.clone()),
        None => None,
    };
    match found {
        Some(plugin) => {
            let mut changed: Plugin = plugin;
            changed.enabled = enabled;
            proof {
                lemma_key(registry.entries(), name@);
                assert(changed@.name == name@);
                lemma_stays_registry(registry.entries(), changed@);
            }
            let copy: Plugin = changed.clone();
            registry.insert(name.to_string(), copy);
            Some(changed)
        },
        None => None,
    }
}

/// Carries out a command on the plugins. For a command that reads the manifests
/// anew, `fresh` are the plugins that were read; without them the command fails,
/// and nothing comes of it.
pub fn handle_client(
    registry: &mut Registry,
    command: DaemonCommand,
    ctl_user: Option<String>,
    fresh: Option<Registry>,
) -> (r: Outcome)
    requires
        is_registry(old(registry).entries()),
        fresh is Some ==> is_registry(fresh->0.entries()),
    ensures
        is_registry(final(registry).entries()),
        final(registry).entries() == plugins_after(
            old(registry).entries(),
            command@,
            opt_entries(fresh),
        ),
        r@ == outcome_of(
            old(registry).entries(),
            command@,
            opt_text(ctl_user),
            opt_entries(fresh),
        ),
{
    let ghost before = registry.entries();
    match (command, fresh) {
        (DaemonCommand::List, Some(plugins)) => {
            *registry = plugins;
            just(Reply::Plugins)
        },
        (DaemonCommand::Info(name), Some(plugins)) => {
            *registry = plugins;
            let found: Option<Plugin> = match registry.get(name.as_str()) {
                Some(plugin) => Some(plugin.clone()),
                None => None,
            };
            just(Reply::Info(found))
        },
        (DaemonCommand::Enable(name), _) => {
            proof {
                lemma_placed(before, name@, switched(as_map(before)[name@], true));
            }
            match switch_plugin(registry, name.as_str(), true) {
                Some(plugin) => run_if_listed(plugin, "OnEnabled", ctl_user),
                None => just(Reply::Done),
            }
        },
        (DaemonCommand::Disable(name), _) => {
            proof {
                lemma_placed(before, name@, switched(as_map(before)[name@], false));
            }
            match switch_plugin(registry, name.as_str(), false) {
                Some(plugin) => run_if_listed(plugin, "OnDisabled", ctl_user),
                None => just(Reply::Done),
            }
        },
        (DaemonCommand::Trigger(name, event, data), _) => {
            let found: Option<Plugin> = match registry.get(name.as_str()) {
                Some(plugin) => if plugin.enabled {
                    Some(plugin.clone())
                } else {
                    None
                },
                None => None,
            };
            match found {
                Some(plugin) => just_run(plugin, event.as_str(), ctl_user, data, true),
                None => {
                    let mut r: Outcome = just(Reply::Done);
                    r.must_succeed = true;
                    r
                },
            }
        },
        (DaemonCommand::Reload, Some(plugins)) => {
            let watch: Vec<WatcherCommand> = watch_changes(registry, &plugins);
            *registry = plugins;
            let event: Event = plain_event("OnReload");
            let runs: Vec<PluginRun> = runs_for_event(registry, &event, &ctl_user);
            Outcome { watch, runs, must_succeed: false, reply: Some(Reply::Done) }
        },
        (DaemonCommand::Status, _) => just(Reply::Done),
        (_, None) => {
            let r = Outcome {
                watch: Vec::new(),
                runs: Vec::new(),
                must_succeed: true,
                reply: None,
            };
            assert(r@ =~= not_loaded());
            r
        },
    }
}

/// The answer to a client, once the runs are over; none, where a run had to
/// succeed and failed, or where the manifests could not be read.
pub open spec fn answer_of(outcome: OutcomeView, run_failed: bool) -> Option<ReplyView> {
    if outcome.must_succeed && run_failed {
        None
    } else {
        outcome.reply
    }
}

/// The answer to a client, once the runs are over, if there is to be one.
pub fn answer(outcome: Outcome, run_failed: bool) -> (r: Option<Reply>)
    ensures
        r is Some <==> answer_of(outcome@, run_failed) is Some,
        r is Some ==> r->0@ == answer_of(outcome@, run_failed)->0,
{
    if outcome.must_succeed && run_failed {
        None
    } else {
        outcome.reply
    }
}

/// Switching a plugin on or off changes that one switch and nothing else; for a
/// name that no plugin has, it changes nothing.
pub proof fn law_switch_is_local(
    entries: PluginEntries,
    name: Seq<char>,
    enabled: bool,
    other: Seq<char>,
)
    requires
        is_registry(entries),
    ensures
        ({
            let before = as_map(entries);
            let after = as_map(with_switch(entries, name, enabled));
            &&& after.dom() =~= before.dom()
            &&& other != name && before.dom().contains(other) ==> after[other] == before[other]
            &&& before.dom().contains(name) ==> after[name] == switched(before[name], enabled)
            &&& !before.dom().contains(name) ==> with_switch(entries, name, enabled) == entries
        }),
{
    if as_map(entries).dom().contains(name) {
        lemma_placed(entries, name, switched(as_map(entries)[name], enabled));
    }
}

/// A plugin is off: it is not enabled, or there is none of that name.
pub open spec fn is_off(entries: PluginEntries, name: Seq<char>) -> bool {
    as_map(entries).dom().contains(name) ==> !as_map(entries)[name].enabled
}

/// A plugin that is off is run by no event, by no change of a file and by no
/// request to trigger it.
pub proof fn law_disabled_plugins_rest(
    entries: PluginEntries,
    name: Seq<char>,
    event: EventView,
    kind: FileEventKind,
    changes: Seq<ChangedPathView>,
    ctl_user: Option<Seq<char>>,
    fresh: Option<PluginEntries>,
)
    requires
        is_registry(entries),
        is_off(entries, name),
    ensures
        forall|i: int|
            0 <= i < event_runs(entries, event, ctl_user).len() ==> (#[trigger] event_runs(
                entries,
                event,
                ctl_user,
            )[i]).plugin.name != name,
        forall|i: int|
            0 <= i < change_runs(entries, kind, changes).len() ==> (#[trigger] change_runs(
                entries,
                kind,
                changes,
            )[i]).plugin.name != name,
        outcome_of(
            entries,
            DaemonCommandView::Trigger(name, event.name, event.data),
            ctl_user,
            fresh,
        ).runs == Seq::<PluginRunView>::empty(),
{
    law_event_runs_subscribers(entries, event, ctl_user, name);
    let runs = change_runs(entries, kind, changes);
    assert forall|i: int| 0 <= i < runs.len() implies (#[trigger] runs[i]).plugin.name != name by {
        let run = runs[i];
        assert(runs.contains(run));
        law_changes_run_watchers(entries, kind, changes, run);
        let (e, k) = choose|e: int, k: int|
            0 <= e < entries.len() && 0 <= k < changes.len() && run.plugin == (
            #[trigger] entries[e]).1 && watches(run.plugin, (#[trigger] changes[k]).path)
                && listed_name(run.plugin.event, kind) == Some(run.event_name) && run.ctl_user
                == None::<Seq<char>> && run.event_data == Some(changes[k].shown);
        lemma_entry(entries, e);
        assert(entries[e].1.name == entries[e].0);
    }
}

/// A plugin that was disabled is off, and stays off through every command, until
/// it is enabled or the manifests are read again.
pub proof fn law_disabled_plugins_stay_off(
    entries: PluginEntries,
    name: Seq<char>,
    command: DaemonCommandView,
    fresh: Option<PluginEntries>,
)
    requires
        is_registry(entries),
    ensures
        is_off(plugins_after(entries, DaemonCommandView::Disable(name), fresh), name),
        is_registry(plugins_after(entries, DaemonCommandView::Disable(name), fresh)),
        is_off(entries, name) && command != DaemonCommandView::Enable(name) && !(rereads(command)
            && fresh is Some) ==> is_off(plugins_after(entries, command, fresh), name)
            && is_registry(plugins_after(entries, command, fresh)),
{
    lemma_switch_keeps_registry(entries, name, false);
    law_switch_is_local(entries, name, false, name);
    match command {
        DaemonCommandView::Enable(other) => {
            lemma_switch_keeps_registry(entries, other, true);
            law_switch_is_local(entries, other, true, name);
        },
        DaemonCommandView::Disable(other) => {
            lemma_switch_keeps_registry(entries, other, false);
            law_switch_is_local(entries, other, false, name);
        },
        _ => {},
    }
}

proof fn lemma_switch_keeps_registry(entries: PluginEntries, name: Seq<char>, enabled: bool)
    requires
        is_registry(entries),
    ensures
        is_registry(with_switch(entries, name, enabled)),
{
    lemma_key(entries, name);
    if as_map(entries).dom().contains(name) {
        lemma_stays_registry(entries, switched(as_map(entries)[name], enabled));
    }
}

/// Enabling or disabling a plugin sets its switch and changes nothing else of it.
/// If the plugin lists the event of that, it is run for it exactly once, as it is
/// after the switch, for the user who asked and without data; if not, nothing is
/// run. A name that no plugin has changes nothing and runs nothing. Either way
/// the client is told that it was done.
pub proof fn law_switching_runs_listed_events(
    entries: PluginEntries,
    name: Seq<char>,
    enabled: bool,
    ctl_user: Option<Seq<char>>,
    fresh: Option<PluginEntries>,
)
    requires
        is_registry(entries),
    ensures
        ({
            let command = if enabled {
                DaemonCommandView::Enable(name)
            } else {
                DaemonCommandView::Disable(name)
            };
            let event_name = if enabled {
                "OnEnabled"@
            } else {
                "OnDisabled"@
            };
            let plugin = as_map(entries)[name];
            let after = plugins_after(entries, command, fresh);
            let outcome = outcome_of(entries, command, ctl_user, fresh);
            let known = as_map(entries).dom().contains(name);
            &&& known ==> as_map(after) == as_map(entries).insert(
                name,
                (PluginView { enabled, ..plugin }),
            )
            &&& !known ==> after == entries
            &&& known && plugin.event.contains(event_name) ==> outcome.runs == seq![
                PluginRunView {
                    plugin: (PluginView { enabled, ..plugin }),
                    event_name,
                    ctl_user,
                    event_data: None,
                },
            ]
            &&& !known || !plugin.event.contains(event_name) ==> outcome.runs == Seq::<
                PluginRunView,
            >::empty()
            &&& outcome.watch == Seq::<WatcherCommandView>::empty()
            &&& !outcome.must_succeed
            &&& outcome.reply == Some(ReplyView::Done)
        }),
{
    law_switch_is_local(entries, name, enabled, name);
    if as_map(entries).dom().contains(name) {
        lemma_placed(entries, name, switched(as_map(entries)[name], enabled));
    }
}

/// A request to trigger a plugin changes no plugin, and runs it exactly once with
/// the event and the data that were asked for and for the user who asked, if it
/// is there and enabled, whatever its events; and else nothing. The run must
/// succeed for the client to be answered.
pub proof fn law_trigger(
    entries: PluginEntries,
    name: Seq<char>,
    event_name: Seq<char>,
    event_data: Option<Seq<char>>,
    ctl_user: Option<Seq<char>>,
    fresh: Option<PluginEntries>,
)
    ensures
        ({
            let command = DaemonCommandView::Trigger(name, event_name, event_data);
            let outcome = outcome_of(entries, command, ctl_user, fresh);
            let plugin = as_map(entries)[name];
            let ready = as_map(entries).dom().contains(name) && plugin.enabled;
            &&& plugins_after(entries, command, fresh) == entries
            &&& ready ==> outcome.runs == seq![
                PluginRunView { plugin, event_name, ctl_user, event_data },
            ]
            &&& !ready ==> outcome.runs == Seq::<PluginRunView>::empty()
            &&& outcome.watch == Seq::<WatcherCommandView>::empty()
            &&& answer_of(outcome, false) == Some(ReplyView::Done)
            &&& answer_of(outcome, true) is None
        }),
{
}

/// A list, a description and a status run nothing and leave the watcher alone. A
/// list is answered with the plugins, a description with the plugin that was
/// read, or that there is none of the name, and a status with that all is well.
/// Only a list, a description and a reload read the manifests anew.
pub proof fn law_questions(
    entries: PluginEntries,
    name: Seq<char>,
    ctl_user: Option<Seq<char>>,
    fresh: PluginEntries,
    failed: bool,
)
    ensures
        ({
            let none = Seq::<PluginRunView>::empty();
            let still = Seq::<WatcherCommandView>::empty();
            let list = outcome_of(entries, DaemonCommandView::List, ctl_user, Some(fresh));
            let info = outcome_of(entries, DaemonCommandView::Info(name), ctl_user, Some(fresh));
            let status = outcome_of(entries, DaemonCommandView::Status, ctl_user, Some(fresh));
            &&& list.runs == none && list.watch == still && answer_of(list, failed) == Some(
                ReplyView::Plugins,
            )
            &&& info.runs == none && info.watch == still
            &&& as_map(fresh).dom().contains(name) ==> answer_of(info, failed) == Some(
                ReplyView::Info(Some(as_map(fresh)[name])),
            )
            &&& !as_map(fresh).dom().contains(name) ==> answer_of(info, failed) == Some(
                ReplyView::Info(None),
            )
            &&& status.runs == none && status.watch == still && answer_of(status, failed) == Some(
                ReplyView::Done,
            )
            &&& plugins_after(entries, DaemonCommandView::List, Some(fresh)) == fresh
            &&& plugins_after(entries, DaemonCommandView::Info(name), Some(fresh)) == fresh
            &&& plugins_after(entries, DaemonCommandView::Reload, Some(fresh)) == fresh
            &&& plugins_after(entries, DaemonCommandView::Status, Some(fresh)) == entries
        }),
        rereads(DaemonCommandView::List),
        rereads(DaemonCommandView::Info(name)),
        rereads(DaemonCommandView::Reload),
        !rereads(DaemonCommandView::Status),
        !rereads(DaemonCommandView::Enable(name)),
        !rereads(DaemonCommandView::Disable(name)),
        !rereads(DaemonCommandView::Trigger(name, name, ctl_user)),
{
}

/// A reload runs exactly the plugins that were read, are enabled and list
/// `OnReload`, in order, for the user who asked and without data, and tells the
/// watcher what the change of the watched paths asks for. It is answered, also
/// where a run fails.
pub proof fn law_reload(
    entries: PluginEntries,
    ctl_user: Option<Seq<char>>,
    fresh: PluginEntries,
    failed: bool,
)
    ensures
        ({
            let outcome = outcome_of(entries, DaemonCommandView::Reload, ctl_user, Some(fresh));
            &&& outcome.runs == fresh.filter(
                |e: (Seq<char>, PluginView)| e.1.enabled && e.1.event.contains("OnReload"@),
            ).map_values(
                |e: (Seq<char>, PluginView)|
                    PluginRunView {
                        plugin: e.1,
                        event_name: "OnReload"@,
                        ctl_user,
                        event_data: None,
                    },
            )
            &&& outcome.watch == watch_commands(watched_paths(entries), watched_paths(fresh))
            &&& answer_of(outcome, failed) == Some(ReplyView::Done)
        }),
{
    law_event_runs_exactly(fresh, plain("OnReload"@), ctl_user);
}

/// The answer is the one that follows from the command, unless a run had to
/// succeed and did not.
pub proof fn law_answers(outcome: OutcomeView)
    ensures
        answer_of(outcome, false) == outcome.reply,
        !outcome.must_succeed ==> answer_of(outcome, true) == outcome.reply,
        outcome.must_succeed ==> answer_of(outcome, true) is None,
        text_of(ReplyView::Done) == Some("OK"@),
        text_of(ReplyView::Plugins) is None,
{
}

/// A plugin that was enabled is run by the events that it lists, and by a
/// request to trigger it, whatever its events.
pub proof fn law_enabled_plugins_run(
    entries: PluginEntries,
    name: Seq<char>,
    event: EventView,
    ctl_user: Option<Seq<char>>,
    fresh: Option<PluginEntries>,
)
    requires
        is_registry(entries),
        as_map(entries).dom().contains(name),
    ensures
        ({
            let after = plugins_after(entries, DaemonCommandView::Enable(name), fresh);
            &&& as_map(entries)[name].event.contains(event.name) ==> exists|i: int|
                0 <= i < event_runs(after, event, ctl_user).len() && (#[trigger] event_runs(
                    after,
                    event,
                    ctl_user,
                )[i]).plugin.name == name
            &&& outcome_of(
                after,
                DaemonCommandView::Trigger(name, event.name, event.data),
                ctl_user,
                fresh,
            ).runs == seq![
                PluginRunView {
                    plugin: switched(as_map(entries)[name], true),
                    event_name: event.name,
                    ctl_user,
                    event_data: event.data,
                },
            ]
        }),
{
    let after = with_switch(entries, name, true);
    lemma_switch_keeps_registry(entries, name, true);
    law_switch_is_local(entries, name, true, name);
    law_event_runs_subscribers(after, event, ctl_user, name);
}

/// Disabling an enabled plugin and enabling it again gives back the plugins as
/// they were.
pub proof fn law_enable_undoes_disable(entries: PluginEntries, name: Seq<char>)
    requires
        is_registry(entries),
        as_map(entries).dom().contains(name) ==> as_map(entries)[name].enabled,
    ensures
        with_switch(with_switch(entries, name, false), name, true) == entries,
{
    lemma_key(entries, name);
    if as_map(entries).dom().contains(name) {
        let off = with_switch(entries, name, false);
        law_switch_is_local(entries, name, false, name);
        lemma_switch_keeps_registry(entries, name, false);
        lemma_key(off, name);
        let k = key_index(entries, name);
        assert(off[k].0 == name);
        lemma_entry(off, k);
        assert(with_switch(off, name, true) =~= entries);
    }
}

/// A command that reads the manifests anew forgets which plugins were disabled:
/// after it the plugins are those that were read. The other commands add and
/// remove no plugin.
pub proof fn law_commands_and_plugins(
    entries: PluginEntries,
    command: DaemonCommandView,
    fresh: Option<PluginEntries>,
)
    requires
        is_registry(entries),
    ensures
        rereads(command) && fresh is Some ==> plugins_after(entries, command, fresh) == fresh->0,
        !rereads(command) ==> as_map(plugins_after(entries, command, fresh)).dom() =~= as_map(
            entries,
        ).dom(),
        command is Trigger || command is Status ==> plugins_after(entries, command, fresh)
            == entries,
{
    match command {
        DaemonCommandView::Enable(name) => law_switch_is_local(entries, name, true, name),
        DaemonCommandView::Disable(name) => law_switch_is_local(entries, name, false, name),
        _ => {},
    }
}

/// Where the manifests could not be read, the plugins stay as they were, the
/// watcher is left alone, nothing is run and the client gets no answer.
pub proof fn law_failed_load_changes_nothing(
    entries: PluginEntries,
    command: DaemonCommandView,
    ctl_user: Option<Seq<char>>,
    run_failed: bool,
)
    requires
        rereads(command),
    ensures
        plugins_after(entries, command, None) == entries,
        outcome_of(entries, command, ctl_user, None).watch == Seq::<WatcherCommandView>::empty(),
        outcome_of(entries, command, ctl_user, None).runs == Seq::<PluginRunView>::empty(),
        answer_of(outcome_of(entries, command, ctl_user, None), run_failed) is None,
{
}

/// A directory that could not be listed, be it the system's or that of the user
/// who asks, fails the whole load: no plugin of the other is taken in, and the
/// command changes nothing.
pub proof fn law_failed_listing_changes_nothing(
    entries: PluginEntries,
    command: DaemonCommandView,
    ctl_user: Option<Seq<char>>,
    system: Option<Seq<PluginReadingView>>,
    user: Option<Option<Seq<PluginReadingView>>>,
    run_failed: bool,
)
    requires
        rereads(command),
        system is None || user == Some(None::<Seq<PluginReadingView>>),
    ensures
        ({
            let fresh = loaded_unless_failed(system, user);
            let outcome = outcome_of(entries, command, ctl_user, fresh);
            &&& plugins_after(entries, command, fresh) == entries
            &&& outcome.watch == Seq::<WatcherCommandView>::empty()
            &&& outcome.runs == Seq::<PluginRunView>::empty()
            &&& answer_of(outcome, run_failed) is None
        }),
{
    law_failed_load_changes_nothing(entries, command, ctl_user, run_failed);
}

/// Every command that was carried out and asks for no plugin's description is
/// answered with the text `OK`, unless a run that had to succeed failed.
pub proof fn law_commands_are_acknowledged(
    entries: PluginEntries,
    command: DaemonCommandView,
    ctl_user: Option<Seq<char>>,
    fresh: Option<PluginEntries>,
    run_failed: bool,
)
    requires
        !(command is List || command is Info),
        command is Reload ==> fresh is Some,
        command is Trigger ==> !run_failed,
    ensures
        ({
            let reply = answer_of(outcome_of(entries, command, ctl_user, fresh), run_failed);
            reply is Some && text_of(reply->0) == Some("OK"@)
        }),
{
}

/// A reload runs each plugin that was read and lists `OnReload`, and no other,
/// once, for the user who asked.
pub proof fn law_reload_runs_for_the_user(
    entries: PluginEntries,
    fresh: PluginEntries,
    ctl_user: Option<Seq<char>>,
    name: Seq<char>,
)
    requires
        is_registry(fresh),
    ensures
        ({
            let runs = outcome_of(
                entries,
                DaemonCommandView::Reload,
                ctl_user,
                Some(fresh),
            ).runs;
            &&& (exists|i: int| 0 <= i < runs.len() && (#[trigger] runs[i]).plugin.name == name)
                <==> as_map(fresh).dom().contains(name) && as_map(fresh)[name].enabled && as_map(
                fresh,
            )[name].event.contains("OnReload"@)
            &&& forall|i: int, j: int|
                0 <= i < j < runs.len() ==> (#[trigger] runs[i]).plugin.name != (
                #[trigger] runs[j]).plugin.name
            &&& forall|i: int|
                0 <= i < runs.len() ==> (#[trigger] runs[i]).event_name == "OnReload"@
                    && runs[i].event_data is None && runs[i].ctl_user == ctl_user
        }),
{
    law_event_runs_subscribers(fresh, plain("OnReload"@), ctl_user, name);
    law_event_runs_once(fresh, plain("OnReload"@), ctl_user);
}

/// A watcher that watches the paths of the plugins before a reload watches,
/// once it has carried out the commands of the reload, the paths of the plugins
/// after it and no others.
pub proof fn law_reload_rewatches(
    entries: PluginEntries,
    fresh: PluginEntries,
    ctl_user: Option<Seq<char>>,
    path: Seq<char>,
)
    ensures
        watched_after(
            outcome_of(entries, DaemonCommandView::Reload, ctl_user, Some(fresh)).watch,
            path,
            has_path(watched_paths(entries), path),
        ) == has_path(
            watched_paths(plugins_after(entries, DaemonCommandView::Reload, Some(fresh))),
            path,
        ),
{
    law_watcher_follows(watched_paths(entries), watched_paths(fresh), path);
}

/// What was just read is what a client is told of a plugin.
pub proof fn law_info_tells_what_was_read(
    entries: PluginEntries,
    fresh: PluginEntries,
    ctl_user: Option<Seq<char>>,
    i: int,
)
    requires
        is_registry(fresh),
        0 <= i < fresh.len(),
    ensures
        outcome_of(entries, DaemonCommandView::Info(fresh[i].0), ctl_user, Some(fresh)).reply
            == Some(ReplyView::Info(Some(fresh[i].1))),
{
    lemma_entry(fresh, i);
}

} // verus!
