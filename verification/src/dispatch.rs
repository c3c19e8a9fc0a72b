//! Which plugins an event runs, and which paths are watched for them.

use crate::bytes::{faithful, lossy_text, utf8_lossy};
use crate::event::{Event, EventView};
use crate::gather::{
    gathered, lemma_gathered_contains, lemma_gathered_filter, lemma_gathered_same,
    lemma_gathered_step,
};
use crate::name_map::{as_map, key_index, lemma_entry, lemma_key};
use crate::path::{is_same_path, is_within, parts_of, same_path, within};
use crate::plugin::{is_registry, Plugin, PluginEntries, PluginView, Registry};
use crate::text::{copy_option, lists, opt_text, strings};
use vstd::prelude::*;
use vstd::utf8::encode_utf8;

verus! {

/// A plugin that is to be run, and what it is told: the event, the user who
/// asked for it, if one did, and the data of the event.
pub struct PluginRun {
    pub plugin: Plugin,
    pub event_name: String,
    pub ctl_user: Option<String>,
    pub event_data: Option<String>,
}

/// A plugin that is to be run, as a plain value.
#[verifier::ext_equal]
pub struct PluginRunView {
    pub plugin: PluginView,
    pub event_name: Seq<char>,
    pub ctl_user: Option<Seq<char>>,
    pub event_data: Option<Seq<char>>,
}

impl View for PluginRun {
    type V = PluginRunView;

    open spec fn view(&self) -> PluginRunView {
        PluginRunView {
            plugin: self.plugin@,
            event_name: self.event_name@,
            ctl_user: opt_text(self.ctl_user),
            event_data: opt_text(self.event_data),
        }
    }
}

/// The runs of a list.
pub open spec fn run_views(v: Seq<PluginRun>) -> Seq<PluginRunView> {
    v.map_values(|r: PluginRun| r@)
}

/// A plugin is enabled and has this event among its events.
pub open spec fn answers(plugin: PluginView, event_name: Seq<char>) -> bool {
    plugin.enabled && plugin.event.contains(event_name)
}

/// The run of the plugin of an entry, if it answers the event; `ctl_user` is the
/// user who asked for it, if one did.
pub open spec fn entry_run(
    event: EventView,
    ctl_user: Option<Seq<char>>,
) -> spec_fn((Seq<char>, PluginView)) -> Seq<PluginRunView> {
    |e: (Seq<char>, PluginView)|
        if answers(e.1, event.name) {
            seq![
                PluginRunView {
                    plugin: e.1,
                    event_name: event.name,
                    ctl_user,
                    event_data: event.data,
                },
            ]
        } else {
            Seq::empty()
        }
}

/// The runs that an event causes.
pub open spec fn event_runs(
    entries: PluginEntries,
    event: EventView,
    ctl_user: Option<Seq<char>>,
) -> Seq<PluginRunView> {
    gathered(entries, entry_run(event, ctl_user))
}

/// The runs that an event causes, where `ctl_user` asked for it.
pub(crate) fn runs_for_event(
    registry: &Registry,
    event: &Event,
    ctl_user: &Option<String>,
) -> (r: Vec<PluginRun>)
    ensures
        run_views(r@) == event_runs(registry.entries(), event@, opt_text(*ctl_user)),
{
    let ghost all = registry.entries();
    let ghost f = entry_run(event@, opt_text(*ctl_user));
    let mut r: Vec<PluginRun> = Vec::new();
    let mut i: usize = 0;
    assert(run_views(r@) =~= gathered(all.take(0), f));
    while i < registry.len()
        invariant
            all == registry.entries(),
            f == entry_run(event@, opt_text(*ctl_user)),
            i <= all.len(),
            run_views(r@) == gathered(all.take(i as int), f),
        decreases all.len() - i,
    {
        proof {
            lemma_gathered_step(all, f, i as int);
        }
        let ghost before = r@;
        let plugin: &Plugin = registry.value_at(i);
        if plugin.enabled && lists(&plugin.event, event.name.as_str()) {
            let run = PluginRun {
                plugin: plugin.clone(),
                event_name: event.name.clone(),
                ctl_user: copy_option(ctl_user),
                event_data: copy_option(&event.data),
            };
            r.push(run);
            assert(run_views(r@) =~= run_views(before).push(run@));
        }
        assert(run_views(r@) =~= gathered(all.take(i + 1), f));
        i += 1;
    }
    assert(all.take(i as int) =~= all);
    r
}

/// The runs that an event of the system causes: one of every plugin that is
/// enabled and has the event among its events. No user asked for them.
pub fn trigger_event_for_all(registry: &Registry, event: &Event) -> (r: Vec<PluginRun>)
    ensures
        run_views(r@) == event_runs(registry.entries(), event@, None),
{
    runs_for_event(registry, event, &None)
}

/// What kind of change the file system reports.
#[derive(Clone, Copy)]
pub enum FileEventKind {
    Any,
    Access,
    Create,
    Modify,
    Remove,
    Other,
}

/// The event of a kind of change.
pub open spec fn file_event_name(kind: FileEventKind) -> Seq<char> {
    match kind {
        FileEventKind::Create => "OnFileCreate"@,
        FileEventKind::Modify => "OnFileModify"@,
        FileEventKind::Remove => "OnFileDelete"@,
        FileEventKind::Access => "OnFileAccess"@,
        FileEventKind::Any => "OnFileChange"@,
        FileEventKind::Other => "OnFileChange"@,
    }
}

/// The bare name of a kind of change, which a manifest can list as well.
pub open spec fn file_type_name(kind: FileEventKind) -> Seq<char> {
    match kind {
        FileEventKind::Create => "Create"@,
        FileEventKind::Modify => "Modify"@,
        FileEventKind::Remove => "Remove"@,
        FileEventKind::Access => "Access"@,
        FileEventKind::Any => "Any"@,
        FileEventKind::Other => "Other"@,
    }
}

/// The name under which a list of events has a kind of change, if it has it.
pub open spec fn listed_name(listed: Seq<Seq<char>>, kind: FileEventKind) -> Option<Seq<char>> {
    if listed.contains(file_event_name(kind)) {
        Some(file_event_name(kind))
    } else if listed.contains(file_type_name(kind)) {
        Some(file_type_name(kind))
    } else {
        None
    }
}

fn event_name_of(kind: FileEventKind) -> (r: &'static str)
    ensures
        r@ == file_event_name(kind),
{
    match kind {
        FileEventKind::Create => "OnFileCreate",
        FileEventKind::Modify => "OnFileModify",
        FileEventKind::Remove => "OnFileDelete",
        FileEventKind::Access => "OnFileAccess",
        FileEventKind::Any => "OnFileChange",
        FileEventKind::Other => "OnFileChange",
    }
}

fn type_name_of(kind: FileEventKind) -> (r: &'static str)
    ensures
        r@ == file_type_name(kind),
{
    match kind {
        FileEventKind::Create => "Create",
        FileEventKind::Modify => "Modify",
        FileEventKind::Remove => "Remove",
        FileEventKind::Access => "Access",
        FileEventKind::Any => "Any",
        FileEventKind::Other => "Other",
    }
}

/// The name under which a list of events has a kind of change, if it has it.
pub fn name_listed(listed: &Vec<String>, kind: FileEventKind) -> (r: Option<&'static str>)
    ensures
        r is Some <==> listed_name(strings(listed@), kind) is Some,
        r is Some ==> r->0@ == listed_name(strings(listed@), kind)->0,
{
    if lists(listed, event_name_of(kind)) {
        Some(event_name_of(kind))
    } else if lists(listed, type_name_of(kind)) {
        Some(type_name_of(kind))
    } else {
        None
    }
}

/// A path that changed, and the text that is shown for it.
pub struct ChangedPath {
    pub path: Vec<u8>,
    pub shown: String,
}

/// A path that changed, as a plain value.
#[verifier::ext_equal]
pub struct ChangedPathView {
    pub path: Seq<u8>,
    pub shown: Seq<char>,
}

impl View for ChangedPath {
    type V = ChangedPathView;

    open spec fn view(&self) -> ChangedPathView {
        ChangedPathView { path: self.path@, shown: self.shown@ }
    }
}

/// The changed paths of a list.
pub open spec fn changed_views(v: Seq<ChangedPath>) -> Seq<ChangedPathView> {
    v.map_values(|c: ChangedPath| c@)
}

/// Changed paths, shown as text.
pub open spec fn all_shown(v: Seq<Vec<u8>>) -> Seq<ChangedPathView> {
    v.map_values(|p: Vec<u8>| ChangedPathView { path: p@, shown: utf8_lossy(p@) })
}

/// The plugin is enabled and watches the path, or a directory above it.
pub open spec fn watches(plugin: PluginView, path: Seq<u8>) -> bool {
    plugin.enabled && plugin.watch_path is Some && within(path, encode_utf8(plugin.watch_path->0))
}

/// The run of a plugin for a changed path, if it watches the path and has the
/// kind of change among its events.
pub open spec fn change_run(plugin: PluginView, kind: FileEventKind) -> spec_fn(
    ChangedPathView,
) -> Seq<PluginRunView> {
    |c: ChangedPathView|
        if watches(plugin, c.path) && listed_name(plugin.event, kind) is Some {
            seq![
                PluginRunView {
                    plugin,
                    event_name: listed_name(plugin.event, kind)->0,
                    ctl_user: None,
                    event_data: Some(c.shown),
                },
            ]
        } else {
            Seq::empty()
        }
}

/// The runs of the plugin of an entry for changed paths.
pub open spec fn entry_change_runs(
    kind: FileEventKind,
    changes: Seq<ChangedPathView>,
) -> spec_fn((Seq<char>, PluginView)) -> Seq<PluginRunView> {
    |e: (Seq<char>, PluginView)| gathered(changes, change_run(e.1, kind))
}

/// The runs that changed paths cause.
pub open spec fn change_runs(
    entries: PluginEntries,
    kind: FileEventKind,
    changes: Seq<ChangedPathView>,
) -> Seq<PluginRunView> {
    gathered(entries, entry_change_runs(kind, changes))
}

/// Adds the runs of one plugin for changed paths.
fn add_change_runs(
    r: &mut Vec<PluginRun>,
    plugin: &Plugin,
    kind: FileEventKind,
    changes: &Vec<ChangedPath>,
)
    ensures
        run_views(final(r)@) == run_views(old(r)@) + gathered(
            changed_views(changes@),
            change_run(plugin@, kind),
        ),
{
    let ghost all = changed_views(changes@);
    let ghost f = change_run(plugin@, kind);
    let ghost start = run_views(r@);
    let mut i: usize = 0;
    assert(start =~= start + gathered(all.take(0), f));
    while i < changes.len()
        invariant
            all == changed_views(changes@),
            f == change_run(plugin@, kind),
            i <= changes@.len(),
            run_views(r@) == start + gathered(all.take(i as int), f),
        decreases changes@.len() - i,
    {
        proof {
            lemma_gathered_step(all, f, i as int);
            assert(all[i as int] == changes@[i as int]@);
        }
        let ghost before = r@;
        let watched = match &plugin.watch_path {
            Some(base) => plugin.enabled && is_within(
                changes[i].path.as_slice(),
                base.as_str().as_bytes(),
            ),
            None => false,
        };
        if watched {
            if let Some(name) = name_listed(&plugin.event, kind) {
                let run = PluginRun {
                    plugin: plugin.clone(),
                    event_name: name.to_string(),
                    ctl_user: None,
                    event_data: Some(changes[i].shown.clone()),
                };
                r.push(run);
                assert(run_views(r@) =~= run_views(before).push(run@));
            }
        }
        assert(run_views(r@) =~= start + gathered(all.take(i + 1), f));
        i += 1;
    }
    assert(all.take(i as int) =~= all);
}

/// The runs that changed paths cause.
pub fn runs_for_changes(
    registry: &Registry,
    kind: FileEventKind,
    changes: &Vec<ChangedPath>,
) -> (r: Vec<PluginRun>)
    ensures
        run_views(r@) == change_runs(registry.entries(), kind, changed_views(changes@)),
{
    let ghost all = registry.entries();
    let ghost f = entry_change_runs(kind, changed_views(changes@));
    let mut r: Vec<PluginRun> = Vec::new();
    let mut i: usize = 0;
    assert(run_views(r@) =~= gathered(all.take(0), f));
    while i < registry.len()
        invariant
            all == registry.entries(),
            f == entry_change_runs(kind, changed_views(changes@)),
            i <= all.len(),
            run_views(r@) == gathered(all.take(i as int), f),
        decreases all.len() - i,
    {
        proof {
            lemma_gathered_step(all, f, i as int);
        }
        add_change_runs(&mut r, registry.value_at(i), kind, changes);
        i += 1;
    }
    assert(all.take(i as int) =~= all);
    r
}

/// The runs that a report of the file system causes. Each is told the path, as
/// text.
pub fn file_event_runs(
    registry: &Registry,
    kind: FileEventKind,
    paths: Vec<Vec<u8>>,
) -> (r: Vec<PluginRun>)
    ensures
        run_views(r@) == change_runs(registry.entries(), kind, all_shown(paths@)),
        forall|i: int| 0 <= i < paths@.len() ==> faithful((#[trigger] paths@[i])@),
{
    let ghost all = all_shown(paths@);
    let mut changes: Vec<ChangedPath> = Vec::new();
    assert(changed_views(changes@) =~= all.take(0));
    for path in it: paths
        invariant
            it.seq() == paths@,
            all == all_shown(paths@),
            changed_views(changes@) == all.take(it.index() as int),
            forall|i: int| 0 <= i < it.index() ==> faithful((#[trigger] paths@[i])@),
    {
        let ghost before = changes@;
        let shown: String = lossy_text(path.as_slice());
        let change = ChangedPath { path, shown };
        changes.push(change);
        assert(changed_views(changes@) =~= changed_views(before).push(change@));
        assert(all.take(it.index() as int + 1) =~= all.take(it.index() as int).push(change@));
    }
    assert(all.take(all.len() as int) =~= all);
    runs_for_changes(registry, kind, &changes)
}

/// The path that the plugin of an entry watches, if it watches one.
pub open spec fn entry_watch() -> spec_fn((Seq<char>, PluginView)) -> Seq<Seq<char>> {
    |e: (Seq<char>, PluginView)|
        match e.1.watch_path {
            Some(path) => seq![path],
            None => Seq::empty(),
        }
}

/// The paths that the plugins watch.
pub open spec fn watched_paths(entries: PluginEntries) -> Seq<Seq<char>> {
    gathered(entries, entry_watch())
}

/// The paths that the plugins watch.
pub fn watch_paths(registry: &Registry) -> (r: Vec<String>)
    ensures
        strings(r@) == watched_paths(registry.entries()),
{
    let ghost all = registry.entries();
    let mut r: Vec<String> = Vec::new();
    let mut i: usize = 0;
    assert(strings(r@) =~= gathered(all.take(0), entry_watch()));
    while i < registry.len()
        invariant
            all == registry.entries(),
            i <= all.len(),
            strings(r@) == gathered(all.take(i as int), entry_watch()),
        decreases all.len() - i,
    {
        proof {
            lemma_gathered_step(all, entry_watch(), i as int);
        }
        let ghost before = r@;
        if let Some(path) = &registry.value_at(i).watch_path {
            r.push(path.clone());
            assert(strings(r@) =~= strings(before).push(path@));
        }
        assert(strings(r@) =~= gathered(all.take(i + 1), entry_watch()));
        i += 1;
    }
    assert(all.take(i as int) =~= all);
    r
}

/// Two texts name the same path.
pub open spec fn same_text_path(a: Seq<char>, b: Seq<char>) -> bool {
    same_path(encode_utf8(a), encode_utf8(b))
}

/// A path is among paths.
pub open spec fn has_path(paths: Seq<Seq<char>>, path: Seq<char>) -> bool {
    exists|i: int| 0 <= i < paths.len() && same_text_path(#[trigger] paths[i], path)
}

/// The paths of `paths` that are not among `others`, each once.
pub open spec fn paths_without(paths: Seq<Seq<char>>, others: Seq<Seq<char>>) -> Seq<Seq<char>>
    decreases paths.len(),
{
    if paths.len() == 0 {
        Seq::empty()
    } else {
        let before = paths_without(paths.drop_last(), others);
        if has_path(others, paths.last()) || has_path(before, paths.last()) {
            before
        } else {
            before.push(paths.last())
        }
    }
}

fn names_path(paths: &Vec<String>, path: &str) -> (r: bool)
    ensures
        r == has_path(strings(paths@), path@),
{
    let mut i: usize = 0;
    while i < paths.len()
        invariant
            i <= paths@.len(),
            forall|k: int| 0 <= k < i ==> !same_text_path(#[trigger] strings(paths@)[k], path@),
        decreases paths@.len() - i,
    {
        assert(strings(paths@)[i as int] == paths@[i as int]@);
        if is_same_path(paths[i].as_str().as_bytes(), path.as_bytes()) {
            return true;
        }
        i += 1;
    }
    false
}

/// The paths of `paths` that are not among `others`, each once.
pub fn without_paths(paths: &Vec<String>, others: &Vec<String>) -> (r: Vec<String>)
    ensures
        strings(r@) == paths_without(strings(paths@), strings(others@)),
{
    let ghost all = strings(paths@);
    let mut r: Vec<String> = Vec::new();
    let mut i: usize = 0;
    assert(all.take(0) =~= Seq::empty());
    assert(strings(r@) =~= Seq::empty());
    while i < paths.len()
        invariant
            all == strings(paths@),
            i <= paths@.len(),
            strings(r@) == paths_without(all.take(i as int), strings(others@)),
        decreases paths@.len() - i,
    {
        proof {
            let next = all.take(i + 1);
            assert(next.drop_last() =~= all.take(i as int));
            assert(next.last() == paths@[i as int]@);
        }
        let ghost before = r@;
        if !names_path(others, paths[i].as_str()) && !names_path(&r, paths[i].as_str()) {
            r.push(paths[i].clone());
            assert(strings(r@) =~= strings(before).push(paths@[i as int]@));
        }
        i += 1;
    }
    assert(all.take(i as int) =~= all);
    r
}

/// What the watcher of the file system is to do.
pub enum WatcherCommand {
    AddPath(String),
    RemovePath(String),
}

/// What the watcher is to do, as a plain value.
pub enum WatcherCommandView {
    AddPath(Seq<char>),
    RemovePath(Seq<char>),
}

impl View for WatcherCommand {
    type V = WatcherCommandView;

    open spec fn view(&self) -> WatcherCommandView {
        match self {
            WatcherCommand::AddPath(p) => WatcherCommandView::AddPath(p@),
            WatcherCommand::RemovePath(p) => WatcherCommandView::RemovePath(p@),
        }
    }
}

/// The commands of a list.
pub open spec fn command_views(v: Seq<WatcherCommand>) -> Seq<WatcherCommandView> {
    v.map_values(|c: WatcherCommand| c@)
}

/// The commands that take the watcher from the paths `old` to the paths `new`:
/// first the paths that are no longer watched, then the new ones.
pub open spec fn watch_commands(old: Seq<Seq<char>>, new: Seq<Seq<char>>) -> Seq<
    WatcherCommandView,
> {
    paths_without(old, new).map_values(|p: Seq<char>| WatcherCommandView::RemovePath(p))
        + paths_without(new, old).map_values(|p: Seq<char>| WatcherCommandView::AddPath(p))
}

/// The commands that take the watcher from the plugins `old` to the plugins
/// `new`.
pub fn watch_changes(old_plugins: &Registry, new_plugins: &Registry) -> (r: Vec<WatcherCommand>)
    ensures
        command_views(r@) == watch_commands(
            watched_paths(old_plugins.entries()),
            watched_paths(new_plugins.entries()),
        ),
{
    let old_paths: Vec<String> = watch_paths(old_plugins);
    let new_paths: Vec<String> = watch_paths(new_plugins);
    let removed: Vec<String> = without_paths(&old_paths, &new_paths);
    let added: Vec<String> = without_paths(&new_paths, &old_paths);
    let ghost first = strings(removed@).map_values(
        |p: Seq<char>| WatcherCommandView::RemovePath(p),
    );
    let ghost second = strings(added@).map_values(|p: Seq<char>| WatcherCommandView::AddPath(p));
    let mut r: Vec<WatcherCommand> = Vec::new();
    assert(command_views(r@) =~= first.take(0));
    for path in it: removed
        invariant
            it.seq() == removed@,
            first == strings(removed@).map_values(
                |p: Seq<char>| WatcherCommandView::RemovePath(p),
            ),
            command_views(r@) == first.take(it.index() as int),
    {
        let ghost before = r@;
        let command = WatcherCommand::RemovePath(path);
        r.push(command);
        assert(command_views(r@) =~= command_views(before).push(command@));
        assert(first.take(it.index() as int + 1) =~= first.take(it.index() as int).push(command@));
    }
    assert(first.take(first.len() as int) =~= first);
    assert(command_views(r@) =~= first + second.take(0));
    for path in it: added
        invariant
            it.seq() == added@,
            second == strings(added@).map_values(|p: Seq<char>| WatcherCommandView::AddPath(p)),
            command_views(r@) == first + second.take(it.index() as int),
    {
        let ghost before = r@;
        let command = WatcherCommand::AddPath(path);
        r.push(command);
        assert(command_views(r@) =~= command_views(before).push(command@));
        assert(second.take(it.index() as int + 1) =~= second.take(it.index() as int).push(
            command@,
        ));
        assert(command_views(r@) =~= first + second.take(it.index() as int + 1));
    }
    assert(second.take(second.len() as int) =~= second);
    r
}

/// An event runs exactly the plugins that are enabled and have it among their
/// events: a plugin that is disabled, or that does not list the event, is not
/// run.
pub proof fn law_event_runs_subscribers(
    entries: PluginEntries,
    event: EventView,
    ctl_user: Option<Seq<char>>,
    name: Seq<char>,
)
    requires
        is_registry(entries),
    ensures
        (exists|i: int|
            0 <= i < event_runs(entries, event, ctl_user).len() && (#[trigger] event_runs(
                entries,
                event,
                ctl_user,
            )[i]).plugin.name == name) <==> as_map(entries).dom().contains(name) && as_map(
            entries,
        )[name].enabled && as_map(entries)[name].event.contains(event.name),
{
    let f = entry_run(event, ctl_user);
    let runs = event_runs(entries, event, ctl_user);
    lemma_key(entries, name);
    if exists|i: int| 0 <= i < runs.len() && (#[trigger] runs[i]).plugin.name == name {
        let i = choose|i: int| 0 <= i < runs.len() && (#[trigger] runs[i]).plugin.name == name;
        let k = lemma_run_of_entry(entries, event, ctl_user, i);
        assert(entries[k].1.name == entries[k].0);
        lemma_entry(entries, k);
    }
    if as_map(entries).dom().contains(name) && answers(as_map(entries)[name], event.name) {
        let k = key_index(entries, name);
        assert(entries[k].1.name == entries[k].0);
        let run = f(entries[k])[0];
        assert(f(entries[k]).contains(run));
        lemma_gathered_contains(entries, f, run);
        let i = choose|i: int| 0 <= i < runs.len() && runs[i] == run;
        assert(runs[i].plugin.name == name);
    }
}

/// A run of an event is that of an entry which answers it.
pub proof fn lemma_run_of_entry(
    entries: PluginEntries,
    event: EventView,
    ctl_user: Option<Seq<char>>,
    i: int,
) -> (k: int)
    requires
        0 <= i < event_runs(entries, event, ctl_user).len(),
    ensures
        0 <= k < entries.len(),
        answers(entries[k].1, event.name),
        event_runs(entries, event, ctl_user)[i] == (PluginRunView {
            plugin: entries[k].1,
            event_name: event.name,
            ctl_user,
            event_data: event.data,
        }),
{
    let f = entry_run(event, ctl_user);
    let runs = event_runs(entries, event, ctl_user);
    assert(runs.contains(runs[i]));
    lemma_gathered_contains(entries, f, runs[i]);
    let k = choose|k: int| 0 <= k < entries.len() && (#[trigger] f(entries[k])).contains(runs[i]);
    assert(runs[i] == f(entries[k])[0]);
    k
}

/// An event runs no plugin twice, and every run carries the event and the user
/// who asked for it.
pub proof fn law_event_runs_once(
    entries: PluginEntries,
    event: EventView,
    ctl_user: Option<Seq<char>>,
)
    requires
        is_registry(entries),
    ensures
        ({
            let runs = event_runs(entries, event, ctl_user);
            &&& forall|i: int, j: int|
                0 <= i < j < runs.len() ==> (#[trigger] runs[i]).plugin.name != (
                #[trigger] runs[j]).plugin.name
            &&& forall|i: int|
                0 <= i < runs.len() ==> (#[trigger] runs[i]).event_name == event.name
                    && runs[i].event_data == event.data && runs[i].ctl_user == ctl_user
        }),
    decreases entries.len(),
{
    let runs = event_runs(entries, event, ctl_user);
    assert forall|i: int| 0 <= i < runs.len() implies (#[trigger] runs[i]).event_name == event.name
        && runs[i].event_data == event.data && runs[i].ctl_user == ctl_user by {
        let k = lemma_run_of_entry(entries, event, ctl_user, i);
    }
    if entries.len() > 0 {
        let rest = entries.drop_last();
        let before = event_runs(rest, event, ctl_user);
        assert(is_registry(rest)) by {
            assert forall|i: int| 0 <= i < rest.len() implies (#[trigger] rest[i]).1.name
                == rest[i].0 by {
                assert(rest[i] == entries[i]);
            }
        }
        law_event_runs_once(rest, event, ctl_user);
        assert forall|i: int, j: int| 0 <= i < j < runs.len() implies (
        #[trigger] runs[i]).plugin.name != (#[trigger] runs[j]).plugin.name by {
            assert(runs[i] == before[i]);
            if j < before.len() {
                assert(runs[j] == before[j]);
            } else {
                let k = lemma_run_of_entry(rest, event, ctl_user, i);
                let last = entries.len() - 1;
                assert(entries[k] == rest[k]);
                assert(entries[k].1.name == entries[k].0);
                assert(entries[last].1.name == entries[last].0);
                assert(entries[k].0 != entries[last].0);
            }
        }
    }
}

/// A changed path runs a plugin only if the plugin is enabled, watches the path
/// or a directory above it, and lists the kind of change; it is then told the
/// path.
pub proof fn law_changes_run_watchers(
    entries: PluginEntries,
    kind: FileEventKind,
    changes: Seq<ChangedPathView>,
    run: PluginRunView,
)
    ensures
        change_runs(entries, kind, changes).contains(run) <==> exists|i: int, k: int|
            0 <= i < entries.len() && 0 <= k < changes.len() && run.plugin == (
            #[trigger] entries[i]).1 && watches(run.plugin, (#[trigger] changes[k]).path)
                && listed_name(run.plugin.event, kind) == Some(run.event_name) && run.ctl_user
                == None::<Seq<char>> && run.event_data == Some(changes[k].shown),
{
    let f = entry_change_runs(kind, changes);
    lemma_gathered_contains(entries, f, run);
    if change_runs(entries, kind, changes).contains(run) {
        let i = choose|i: int| 0 <= i < entries.len() && (#[trigger] f(entries[i])).contains(run);
        let g = change_run(entries[i].1, kind);
        lemma_gathered_contains(changes, g, run);
        let k = choose|k: int| 0 <= k < changes.len() && (#[trigger] g(changes[k])).contains(run);
        assert(run == g(changes[k])[0]);
        assert(run.plugin == entries[i].1 && watches(run.plugin, changes[k].path));
    }
    if exists|i: int, k: int|
        0 <= i < entries.len() && 0 <= k < changes.len() && run.plugin == (#[trigger] entries[i]).1
            && watches(run.plugin, (#[trigger] changes[k]).path) && listed_name(
            run.plugin.event,
            kind,
        ) == Some(run.event_name) && run.ctl_user == None::<Seq<char>> && run.event_data == Some(
            changes[k].shown,
        ) {
        let (i, k) = choose|i: int, k: int|
            0 <= i < entries.len() && 0 <= k < changes.len() && run.plugin == (
            #[trigger] entries[i]).1 && watches(run.plugin, (#[trigger] changes[k]).path)
                && listed_name(run.plugin.event, kind) == Some(run.event_name) && run.ctl_user
                == None::<Seq<char>> && run.event_data == Some(changes[k].shown);
        let g = change_run(entries[i].1, kind);
        assert(g(changes[k])[0] == run);
        assert(g(changes[k]).contains(run));
        lemma_gathered_contains(changes, g, run);
        assert(f(entries[i]).contains(run));
    }
}

proof fn lemma_without(paths: Seq<Seq<char>>, others: Seq<Seq<char>>, path: Seq<char>)
    ensures
        has_path(paths_without(paths, others), path) <==> has_path(paths, path) && !has_path(
            others,
            path,
        ),
    decreases paths.len(),
{
    if paths.len() > 0 {
        let rest = paths.drop_last();
        let last = paths.last();
        let before = paths_without(rest, others);
        let after = paths_without(paths, others);
        lemma_without(rest, others, path);
        lemma_without(rest, others, last);
        lemma_has_path_last(paths, path);
        if has_path(others, last) || has_path(before, last) {
            if same_text_path(last, path) {
                if has_path(others, last) {
                    let i = choose|i: int|
                        0 <= i < others.len() && same_text_path(#[trigger] others[i], last);
                    assert(same_text_path(others[i], path));
                } else {
                    let i = choose|i: int|
                        0 <= i < before.len() && same_text_path(#[trigger] before[i], last);
                    assert(same_text_path(before[i], path));
                }
            }
        } else {
            if has_path(after, path) {
                let i = choose|i: int|
                    0 <= i < after.len() && same_text_path(#[trigger] after[i], path);
                if i < before.len() {
                    assert(same_text_path(before[i], path));
                }
            }
            if has_path(before, path) {
                let i = choose|i: int|
                    0 <= i < before.len() && same_text_path(#[trigger] before[i], path);
                assert(same_text_path(after[i], path));
            }
            if same_text_path(last, path) {
                assert(same_text_path(after[before.len() as int], path));
                if has_path(others, path) {
                    let i = choose|i: int|
                        0 <= i < others.len() && same_text_path(#[trigger] others[i], path);
                    assert(same_text_path(others[i], last));
                }
            }
        }
    }
}

/// The watcher watches a path after it has carried out commands, where `before`
/// says whether it did at first.
pub open spec fn watched_after(
    commands: Seq<WatcherCommandView>,
    path: Seq<char>,
    before: bool,
) -> bool
    decreases commands.len(),
{
    if commands.len() == 0 {
        before
    } else {
        let so_far = watched_after(commands.drop_last(), path, before);
        match commands.last() {
            WatcherCommandView::AddPath(p) => so_far || same_text_path(p, path),
            WatcherCommandView::RemovePath(p) => so_far && !same_text_path(p, path),
        }
    }
}

proof fn lemma_watched_concat(
    first: Seq<WatcherCommandView>,
    second: Seq<WatcherCommandView>,
    path: Seq<char>,
    before: bool,
)
    ensures
        watched_after(first + second, path, before) == watched_after(
            second,
            path,
            watched_after(first, path, before),
        ),
    decreases second.len(),
{
    if second.len() == 0 {
        assert(first + second =~= first);
    } else {
        assert((first + second).drop_last() =~= first + second.drop_last());
        lemma_watched_concat(first, second.drop_last(), path, before);
    }
}

proof fn lemma_has_path_last(paths: Seq<Seq<char>>, path: Seq<char>)
    requires
        paths.len() > 0,
    ensures
        has_path(paths, path) <==> has_path(paths.drop_last(), path) || same_text_path(
            paths.last(),
            path,
        ),
{
    let rest = paths.drop_last();
    if has_path(rest, path) {
        let i = choose|i: int| 0 <= i < rest.len() && same_text_path(#[trigger] rest[i], path);
        assert(same_text_path(paths[i], path));
    }
    if same_text_path(paths.last(), path) {
        assert(same_text_path(paths[paths.len() - 1], path));
    }
    if has_path(paths, path) {
        let i = choose|i: int| 0 <= i < paths.len() && same_text_path(#[trigger] paths[i], path);
        if i < rest.len() {
            assert(same_text_path(rest[i], path));
        }
    }
}

proof fn lemma_watched_removed(paths: Seq<Seq<char>>, path: Seq<char>, before: bool)
    ensures
        watched_after(
            paths.map_values(|p: Seq<char>| WatcherCommandView::RemovePath(p)),
            path,
            before,
        ) == (before && !has_path(paths, path)),
    decreases paths.len(),
{
    let commands = paths.map_values(|p: Seq<char>| WatcherCommandView::RemovePath(p));
    if paths.len() > 0 {
        lemma_watched_removed(paths.drop_last(), path, before);
        lemma_has_path_last(paths, path);
        assert(commands.drop_last() =~= paths.drop_last().map_values(
            |p: Seq<char>| WatcherCommandView::RemovePath(p),
        ));
    }
}

proof fn lemma_watched_added(paths: Seq<Seq<char>>, path: Seq<char>, before: bool)
    ensures
        watched_after(
            paths.map_values(|p: Seq<char>| WatcherCommandView::AddPath(p)),
            path,
            before,
        ) == (before || has_path(paths, path)),
    decreases paths.len(),
{
    let commands = paths.map_values(|p: Seq<char>| WatcherCommandView::AddPath(p));
    if paths.len() > 0 {
        lemma_watched_added(paths.drop_last(), path, before);
        lemma_has_path_last(paths, path);
        assert(commands.drop_last() =~= paths.drop_last().map_values(
            |p: Seq<char>| WatcherCommandView::AddPath(p),
        ));
    }
}

/// A watcher that watches the paths `old` watches, once it has carried out the
/// commands that lead to the paths `new`, those and no others.
pub proof fn law_watcher_follows(old: Seq<Seq<char>>, new: Seq<Seq<char>>, path: Seq<char>)
    ensures
        watched_after(watch_commands(old, new), path, has_path(old, path)) == has_path(new, path),
{
    let gone = paths_without(old, new);
    let come = paths_without(new, old);
    lemma_without(old, new, path);
    lemma_without(new, old, path);
    lemma_watched_removed(gone, path, has_path(old, path));
    lemma_watched_added(come, path, has_path(old, path) && !has_path(gone, path));
    lemma_watched_concat(
        gone.map_values(|p: Seq<char>| WatcherCommandView::RemovePath(p)),
        come.map_values(|p: Seq<char>| WatcherCommandView::AddPath(p)),
        path,
        has_path(old, path),
    );
}

/// A reload that changes no watched path leaves the watcher alone.
pub proof fn law_same_paths_no_commands(paths: Seq<Seq<char>>)
    ensures
        watch_commands(paths, paths) == Seq::<WatcherCommandView>::empty(),
{
    let left = paths_without(paths, paths);
    if left.len() > 0 {
        assert(same_text_path(left[0], left[0]));
        lemma_without(paths, paths, left[0]);
    }
    assert(watch_commands(paths, paths) =~= Seq::<WatcherCommandView>::empty());
}

/// A plugin that watches a path is told of a change of that path itself, and of
/// anything that lies below a path that it is told of.
pub proof fn law_watching_covers_below(base: Seq<u8>, middle: Seq<u8>, path: Seq<u8>)
    ensures
        within(base, base),
        within(middle, base) && within(path, middle) ==> within(path, base),
{
    assert(parts_of(base) =~= parts_of(base).subrange(0, parts_of(base).len() as int));
    if within(middle, base) && within(path, middle) {
        let b = parts_of(base);
        let m = parts_of(middle);
        let p = parts_of(path);
        assert(b =~= p.subrange(0, b.len() as int)) by {
            assert(m == p.subrange(0, m.len() as int));
            assert(b == m.subrange(0, b.len() as int));
        }
    }
}

/// An event runs exactly the plugins that are enabled and list it, in order. Each
/// is told the event and its data, and who asked.
pub proof fn law_event_runs_exactly(
    entries: PluginEntries,
    event: EventView,
    ctl_user: Option<Seq<char>>,
)
    ensures
        event_runs(entries, event, ctl_user) == entries.filter(
            |e: (Seq<char>, PluginView)| e.1.enabled && e.1.event.contains(event.name),
        ).map_values(
            |e: (Seq<char>, PluginView)|
                PluginRunView {
                    plugin: e.1,
                    event_name: event.name,
                    ctl_user,
                    event_data: event.data,
                },
        ),
{
    lemma_gathered_filter(
        entries,
        entry_run(event, ctl_user),
        |e: (Seq<char>, PluginView)| e.1.enabled && e.1.event.contains(event.name),
        |e: (Seq<char>, PluginView)|
            PluginRunView {
                plugin: e.1,
                event_name: event.name,
                ctl_user,
                event_data: event.data,
            },
    );
}

/// The names of a kind of change: the event, and the bare kind. A list that has
/// the event has the change under that name, one that has only the bare kind has
/// it under that, and one that has neither does not have it.
pub proof fn law_change_names(listed: Seq<Seq<char>>, kind: FileEventKind)
    ensures
        ({
            let (event, bare) = match kind {
                FileEventKind::Create => ("OnFileCreate"@, "Create"@),
                FileEventKind::Modify => ("OnFileModify"@, "Modify"@),
                FileEventKind::Remove => ("OnFileDelete"@, "Remove"@),
                FileEventKind::Access => ("OnFileAccess"@, "Access"@),
                FileEventKind::Any => ("OnFileChange"@, "Any"@),
                FileEventKind::Other => ("OnFileChange"@, "Other"@),
            };
            &&& listed.contains(event) ==> listed_name(listed, kind) == Some(event)
            &&& !listed.contains(event) && listed.contains(bare) ==> listed_name(listed, kind)
                == Some(bare)
            &&& !listed.contains(event) && !listed.contains(bare) ==> listed_name(
                listed,
                kind,
            ) is None
        }),
{
}

/// Changed paths run, plugin by plugin and path by path, exactly the plugins that
/// are enabled, have the change among their events, and watch the path or a
/// directory above it; each is told the path.
pub proof fn law_changes_run_exactly(
    entries: PluginEntries,
    kind: FileEventKind,
    changes: Seq<ChangedPathView>,
)
    ensures
        change_runs(entries, kind, changes) == gathered(
            entries,
            |e: (Seq<char>, PluginView)|
                changes.filter(
                    |c: ChangedPathView|
                        e.1.enabled && e.1.watch_path is Some && parts_of(
                            encode_utf8(e.1.watch_path->0),
                        ).is_prefix_of(parts_of(c.path)) && listed_name(e.1.event, kind) is Some,
                ).map_values(
                    |c: ChangedPathView|
                        PluginRunView {
                            plugin: e.1,
                            event_name: listed_name(e.1.event, kind)->0,
                            ctl_user: None,
                            event_data: Some(c.shown),
                        },
                ),
        ),
{
    let f = entry_change_runs(kind, changes);
    let g = |e: (Seq<char>, PluginView)|
        changes.filter(
            |c: ChangedPathView|
                e.1.enabled && e.1.watch_path is Some && parts_of(
                    encode_utf8(e.1.watch_path->0),
                ).is_prefix_of(parts_of(c.path)) && listed_name(e.1.event, kind) is Some,
        ).map_values(
            |c: ChangedPathView|
                PluginRunView {
                    plugin: e.1,
                    event_name: listed_name(e.1.event, kind)->0,
                    ctl_user: None,
                    event_data: Some(c.shown),
                },
        );
    assert forall|e: (Seq<char>, PluginView)| #[trigger] f(e) == g(e) by {
        lemma_gathered_filter(
            changes,
            change_run(e.1, kind),
            |c: ChangedPathView|
                e.1.enabled && e.1.watch_path is Some && parts_of(
                    encode_utf8(e.1.watch_path->0),
                ).is_prefix_of(parts_of(c.path)) && listed_name(e.1.event, kind) is Some,
            |c: ChangedPathView|
                PluginRunView {
                    plugin: e.1,
                    event_name: listed_name(e.1.event, kind)->0,
                    ctl_user: None,
                    event_data: Some(c.shown),
                },
        );
    }
    lemma_gathered_same(entries, f, g);
}

/// Every changed path is shown as its bytes read as text.
pub proof fn law_changed_paths_are_shown(paths: Seq<Vec<u8>>, i: int)
    requires
        0 <= i < paths.len(),
    ensures
        all_shown(paths).len() == paths.len(),
        all_shown(paths)[i].path == paths[i]@,
        all_shown(paths)[i].shown == utf8_lossy(paths[i]@),
{
}

/// The watched paths are those of the plugins that have one, in order, be the
/// plugins enabled or not.
pub proof fn law_watched_paths(entries: PluginEntries)
    ensures
        watched_paths(entries) == entries.filter(
            |e: (Seq<char>, PluginView)| e.1.watch_path is Some,
        ).map_values(|e: (Seq<char>, PluginView)| e.1.watch_path->0),
{
    lemma_gathered_filter(
        entries,
        entry_watch(),
        |e: (Seq<char>, PluginView)| e.1.watch_path is Some,
        |e: (Seq<char>, PluginView)| e.1.watch_path->0,
    );
}

/// Paths are taken out before others are added, and no path is named twice.
pub proof fn law_watch_commands_in_order(old: Seq<Seq<char>>, new: Seq<Seq<char>>, i: int, j: int)
    requires
        0 <= i < j < watch_commands(old, new).len(),
    ensures
        ({
            let commands = watch_commands(old, new);
            &&& commands[i] is AddPath ==> commands[j] is AddPath
            &&& commands[i] is RemovePath && commands[j] is RemovePath ==> parts_of(
                encode_utf8(commands[i]->RemovePath_0),
            ) != parts_of(encode_utf8(commands[j]->RemovePath_0))
            &&& commands[i] is AddPath && commands[j] is AddPath ==> parts_of(
                encode_utf8(commands[i]->AddPath_0),
            ) != parts_of(encode_utf8(commands[j]->AddPath_0))
        }),
{
    let gone = paths_without(old, new);
    let come = paths_without(new, old);
    if j < gone.len() {
        lemma_without_once(old, new, i, j);
    } else if i >= gone.len() {
        lemma_without_once(new, old, i - gone.len(), j - gone.len());
    }
}

proof fn lemma_without_once(paths: Seq<Seq<char>>, others: Seq<Seq<char>>, i: int, j: int)
    requires
        0 <= i < j < paths_without(paths, others).len(),
    ensures
        !same_text_path(paths_without(paths, others)[i], paths_without(paths, others)[j]),
    decreases paths.len(),
{
    let before = paths_without(paths.drop_last(), others);
    let after = paths_without(paths, others);
    if j < before.len() {
        lemma_without_once(paths.drop_last(), others, i, j);
        assert(after[i] == before[i] && after[j] == before[j]);
    } else {
        assert(after[j] == paths.last());
        assert(after[i] == before[i]);
        assert(!has_path(before, paths.last()));
    }
}

/// A path is among others if one of them has the same components, however it is
/// written.
pub proof fn law_has_path(paths: Seq<Seq<char>>, path: Seq<char>)
    ensures
        has_path(paths, path) <==> exists|i: int|
            0 <= i < paths.len() && parts_of(encode_utf8(#[trigger] paths[i])) == parts_of(
                encode_utf8(path),
            ),
{
    if has_path(paths, path) {
        let i = choose|i: int| 0 <= i < paths.len() && same_text_path(#[trigger] paths[i], path);
        assert(parts_of(encode_utf8(paths[i])) == parts_of(encode_utf8(path)));
    }
    if exists|i: int|
        0 <= i < paths.len() && parts_of(encode_utf8(#[trigger] paths[i])) == parts_of(
            encode_utf8(path),
        ) {
        let i = choose|i: int|
            0 <= i < paths.len() && parts_of(encode_utf8(#[trigger] paths[i])) == parts_of(
                encode_utf8(path),
            );
        assert(same_text_path(paths[i], path));
    }
}

} // verus!
