//! Plugins, their manifests, and the registry that holds them.

use crate::bytes::{faithful, lossy_text, strict_text, utf8_lossy};
use crate::name_map::{as_map, keys_distinct, lemma_key, lemma_placed, placed, NameMap};
use crate::path::{file_name, file_name_of, join_path, law_name_in_directory, path_joined};
use crate::text::{
    copy_option, copy_strings, law_lines_cut, lines, lines_of, opt_text, owned, strings, strip_cr,
    texts, words, words_of,
};
use vstd::prelude::*;
use vstd::slice::slice_to_vec;
use vstd::utf8::{
    decode_utf8, encode_utf8, encode_utf8_decode_utf8, encode_utf8_valid_utf8,
    is_ascii_chars_encode_utf8, valid_utf8,
};

verus! {

/// The file in a plugin's directory that describes the plugin.
pub const MANIFEST_NAME: &'static str = "manifest.plug";

/// Where plugins for all users are.
pub const SYSTEM_PLUGINS_DIR: &'static str = "/etc/plugins";

/// Where the plugins of a user are, seen from the home directory.
pub const USER_PLUGINS_DIR: &'static str = ".config/plugins";

/// A plugin. Its path is kept in the bytes of the file system.
pub struct Plugin {
    pub name: String,
    pub path: Vec<u8>,
    pub slot: String,
    pub event: Vec<String>,
    pub run_as: String,
    pub restart_on: String,
    pub enabled: bool,
    pub watch_path: Option<String>,
}

/// A plugin as a plain value.
#[verifier::ext_equal]
pub struct PluginView {
    pub name: Seq<char>,
    pub path: Seq<u8>,
    pub slot: Seq<char>,
    pub event: Seq<Seq<char>>,
    pub run_as: Seq<char>,
    pub restart_on: Seq<char>,
    pub enabled: bool,
    pub watch_path: Option<Seq<char>>,
}

impl View for Plugin {
    type V = PluginView;

    open spec fn view(&self) -> PluginView {
        PluginView {
            name: self.name@,
            path: self.path@,
            slot: self.slot@,
            event: strings(self.event@),
            run_as: self.run_as@,
            restart_on: self.restart_on@,
            enabled: self.enabled,
            watch_path: opt_text(self.watch_path),
        }
    }
}

impl Clone for Plugin {
    fn clone(&self) -> (r: Self)
        ensures
            r@ == self@,
    {
        Plugin {
            name: self.name.clone(),
            path: slice_to_vec(self.path.as_slice()),
            slot: self.slot.clone(),
            event: copy_strings(&self.event),
            run_as: self.run_as.clone(),
            restart_on: self.restart_on.clone(),
            enabled: self.enabled,
            watch_path: copy_option(&self.watch_path),
        }
    }
}

/// The plugins that the daemon knows, by name.
pub type Registry = NameMap<Plugin>;

/// Plugins by name, in the order in which they are walked.
pub type PluginEntries = Seq<(Seq<char>, PluginView)>;

/// Every plugin stands under its own name, and only once.
pub open spec fn is_registry(entries: PluginEntries) -> bool {
    &&& keys_distinct(entries)
    &&& forall|i: int| 0 <= i < entries.len() ==> (#[trigger] entries[i]).1.name == entries[i].0
}

/// The path of the manifest in a plugin's directory.
pub open spec fn manifest_path_of(path: Seq<u8>) -> Seq<u8> {
    path_joined(path, encode_utf8(MANIFEST_NAME@))
}

/// The path of the manifest in a plugin's directory.
pub fn manifest_path(path: &[u8]) -> (r: Vec<u8>)
    ensures
        r@ == manifest_path_of(path@),
{
    join_path(path, MANIFEST_NAME)
}

/// The directory of a user's plugins.
pub open spec fn user_dir_of(home: Seq<char>) -> Seq<u8> {
    path_joined(encode_utf8(home), encode_utf8(USER_PLUGINS_DIR@))
}

/// The directory of a user's plugins.
pub fn user_plugins_dir(home: &str) -> (r: Vec<u8>)
    ensures
        r@ == user_dir_of(home@),
{
    join_path(home.as_bytes(), USER_PLUGINS_DIR)
}

/// The name of the plugin in a directory, if the directory has one.
pub fn plugin_name(path: &[u8]) -> (r: Option<String>)
    ensures
        r is Some <==> file_name_of(path@) is Some,
        r is Some ==> r->0@ == utf8_lossy(file_name_of(path@)->0),
        r is Some ==> faithful(file_name_of(path@)->0),
{
    match file_name(path) {
        Some(name) => Some(lossy_text(name.as_slice())),
        None => None,
    }
}

/// Does an entry of a directory of plugins hold a plugin? It does if it is a
/// directory and there is a manifest in it.
pub fn holds_plugin(is_dir: bool, has_manifest: bool) -> (r: bool)
    ensures
        r == (is_dir && has_manifest),
{
    is_dir && has_manifest
}

/// The shell command that prints what a manifest sets, one setting to a line.
pub open spec fn query_command_of(manifest: Seq<char>) -> Seq<char> {
    "source "@ + manifest
        + " && echo $SLOT && echo $EVENT && echo $RUN_AS && echo $RESTART_ON && echo $WATCH_PATH"@
}

/// The shell command that prints what a manifest sets.
pub fn query_command(manifest: &str) -> (r: String)
    ensures
        r@ == query_command_of(manifest@),
{
    let mut r: String = "source ".to_string();
    r.append(manifest);
    r.append(
        " && echo $SLOT && echo $EVENT && echo $RUN_AS && echo $RESTART_ON && echo $WATCH_PATH",
    );
    r
}

/// The shell command that prints what the manifest in a plugin's directory sets.
pub fn manifest_query(path: &[u8]) -> (r: String)
    ensures
        r@ == query_command_of(utf8_lossy(manifest_path_of(path@))),
        faithful(manifest_path_of(path@)),
{
    let manifest: String = lossy_text(manifest_path(path).as_slice());
    query_command(manifest.as_str())
}

/// The line at `i`, or nothing where there are fewer lines.
pub open spec fn line_at(all: Seq<Seq<char>>, i: int) -> Seq<char> {
    if i < all.len() {
        all[i]
    } else {
        Seq::empty()
    }
}

/// The plugin that the settings of a manifest describe: in this order its slot,
/// its events, whom it runs as, when it restarts and what it watches.
pub open spec fn described(name: Seq<char>, path: Seq<u8>, settings: Seq<char>) -> PluginView {
    let all = lines_of(settings);
    PluginView {
        name,
        path,
        slot: line_at(all, 0),
        event: words_of(line_at(all, 1)),
        run_as: line_at(all, 2),
        restart_on: line_at(all, 3),
        enabled: true,
        watch_path: if line_at(all, 4).len() > 0 {
            Some(line_at(all, 4))
        } else {
            None
        },
    }
}

fn line_text(all: &Vec<&str>, i: usize) -> (r: String)
    ensures
        r@ == line_at(texts(all@), i as int),
{
    assert(texts(all@).len() == all@.len());
    if i < all.len() {
        assert(texts(all@)[i as int] == all@[i as int]@);
        all[i].to_string()
    } else {
        String::new()
    }
}

/// The plugin that the settings of a manifest describe.
pub fn plugin_in(name: &str, path: &[u8], settings: &str) -> (r: Plugin)
    ensures
        r@ == described(name@, path@, settings@),
{
    let all: Vec<&str> = lines(settings);
    let event_text: String = line_text(&all, 1);
    let watch: String = line_text(&all, 4);
    Plugin {
        name: name.to_string(),
        path: slice_to_vec(path),
        slot: line_text(&all, 0),
        event: owned(&words(event_text.as_str())),
        run_as: line_text(&all, 2),
        restart_on: line_text(&all, 3),
        enabled: true,
        watch_path: if watch.as_str().is_empty() {
            None
        } else {
            Some(watch)
        },
    }
}

/// Why a manifest gives no plugin.
pub enum ManifestError {
    /// What the shell printed is not UTF-8.
    NotUtf8,
}

/// Makes a plugin of what the shell printed for its manifest. That is an error
/// if and only if it is not UTF-8.
pub fn parse_manifest(name: &str, path: &[u8], stdout: Vec<u8>) -> (r: Result<
    Plugin,
    ManifestError,
>)
    ensures
        r is Ok <==> valid_utf8(stdout@),
        r is Ok ==> r->Ok_0@ == described(name@, path@, decode_utf8(stdout@)),
        r is Err ==> r->Err_0 == ManifestError::NotUtf8,
{
    match strict_text(stdout) {
        Some(settings) => Ok(plugin_in(name, path, settings.as_str())),
        None => Err(ManifestError::NotUtf8),
    }
}

/// What was found of a plugin: its directory, and what the shell printed for its
/// manifest, if it could be run.
pub struct PluginReading {
    pub path: Vec<u8>,
    pub stdout: Option<Vec<u8>>,
}

/// What was found of a plugin, as a plain value.
#[verifier::ext_equal]
pub struct PluginReadingView {
    pub path: Seq<u8>,
    pub stdout: Option<Seq<u8>>,
}

impl View for PluginReading {
    type V = PluginReadingView;

    open spec fn view(&self) -> PluginReadingView {
        PluginReadingView {
            path: self.path@,
            stdout: match self.stdout {
                Some(bytes) => Some(bytes@),
                None => None,
            },
        }
    }
}

/// The readings of a list.
pub open spec fn reading_views(v: Seq<PluginReading>) -> Seq<PluginReadingView> {
    v.map_values(|r: PluginReading| r@)
}

/// The directory of every reading has a name, as the entries of a directory do.
pub open spec fn all_named(readings: Seq<PluginReadingView>) -> bool {
    forall|i: int|
        0 <= i < readings.len() ==> file_name_of((#[trigger] readings[i]).path) is Some
}

/// The names of the directories were decoded faithfully.
pub open spec fn names_faithful(readings: Seq<PluginReadingView>) -> bool {
    forall|i: int|
        0 <= i < readings.len() ==> faithful(file_name_of((#[trigger] readings[i]).path)->0)
}

/// The name of the plugin of a reading: that of its directory, as text.
pub open spec fn reading_name(r: PluginReadingView) -> Seq<char> {
    utf8_lossy(file_name_of(r.path)->0)
}

/// A reading gives a plugin.
pub open spec fn is_loadable(r: PluginReadingView) -> bool {
    r.stdout is Some && valid_utf8(r.stdout->0)
}

/// The plugin that a reading gives.
pub open spec fn plugin_of(r: PluginReadingView) -> PluginView {
    described(reading_name(r), r.path, decode_utf8(r.stdout->0))
}

/// The entries after the plugins of a directory were added. A reading that
/// gives no plugin is passed over, and a plugin takes the place of one of the
/// same name.
pub open spec fn loaded(before: PluginEntries, readings: Seq<PluginReadingView>) -> PluginEntries
    decreases readings.len(),
{
    if readings.len() == 0 {
        before
    } else {
        let all = loaded(before, readings.drop_last());
        let r = readings.last();
        if is_loadable(r) {
            placed(all, reading_name(r), plugin_of(r))
        } else {
            all
        }
    }
}

/// Adds the plugins of a directory.
pub fn load_plugins_from_dir(plugins: &mut Registry, readings: Vec<PluginReading>)
    requires
        is_registry(old(plugins).entries()),
        all_named(reading_views(readings@)),
    ensures
        is_registry(final(plugins).entries()),
        final(plugins).entries() == loaded(old(plugins).entries(), reading_views(readings@)),
        names_faithful(reading_views(readings@)),
{
    let ghost start = plugins.entries();
    let ghost all = reading_views(readings@);
    assert(all.take(0) =~= Seq::empty());
    for reading in it: readings
        invariant
            it.seq() == readings@,
            all == reading_views(readings@),
            all_named(all),
            is_registry(plugins.entries()),
            plugins.entries() == loaded(start, all.take(it.index() as int)),
            names_faithful(all.take(it.index() as int)),
    {
        proof {
            let next = all.take(it.index() as int + 1);
            assert(next.drop_last() =~= all.take(it.index() as int));
            assert(next.last() == reading@);
            assert(file_name_of(all[it.index() as int].path) is Some);
        }
        if let Some(name) = plugin_name(reading.path.as_slice()) {
            if let Some(stdout) = reading.stdout {
                if let Ok(plugin) = parse_manifest(name.as_str(), reading.path.as_slice(), stdout) {
                    proof {
                        lemma_stays_registry(plugins.entries(), plugin@);
                    }
                    plugins.insert(name, plugin);
                }
            }
        }
        proof {
            let now = all.take(it.index() as int);
            let next = all.take(it.index() as int + 1);
            assert forall|i: int| 0 <= i < next.len() implies faithful(
                file_name_of((#[trigger] next[i]).path)->0,
            ) by {
                if i < now.len() {
                    assert(next[i] == now[i]);
                }
            }
        }
    }
    assert(all.take(all.len() as int) =~= all);
}

/// Putting a plugin under its name keeps the registry one.
pub proof fn lemma_stays_registry(entries: PluginEntries, plugin: PluginView)
    requires
        is_registry(entries),
    ensures
        is_registry(placed(entries, plugin.name, plugin)),
{
    let after = placed(entries, plugin.name, plugin);
    lemma_placed(entries, plugin.name, plugin);
    lemma_key(entries, plugin.name);
    assert forall|i: int| 0 <= i < after.len() implies (#[trigger] after[i]).1.name
        == after[i].0 by {
        if i < entries.len() {
            assert(entries[i].1.name == entries[i].0);
        }
    }
}

/// The plugins of the system, and then those of the user, if there is one to
/// look for.
pub open spec fn all_loaded(
    system: Seq<PluginReadingView>,
    user: Option<Seq<PluginReadingView>>,
) -> PluginEntries {
    match user {
        Some(readings) => loaded(loaded(Seq::empty(), system), readings),
        None => loaded(Seq::empty(), system),
    }
}

/// The readings of an optional list.
pub open spec fn opt_readings(v: Option<Vec<PluginReading>>) -> Option<Seq<PluginReadingView>> {
    match v {
        Some(readings) => Some(reading_views(readings@)),
        None => None,
    }
}

/// The plugins of the system, and of the user if there is one to look for.
pub fn load_plugins(
    system: Vec<PluginReading>,
    user: Option<Vec<PluginReading>>,
) -> (r: Registry)
    requires
        all_named(reading_views(system@)),
        user is Some ==> all_named(reading_views(user->0@)),
    ensures
        is_registry(r.entries()),
        r.entries() == all_loaded(reading_views(system@), opt_readings(user)),
        names_faithful(reading_views(system@)),
        user is Some ==> names_faithful(reading_views(user->0@)),
{
    let mut r: Registry = NameMap::new();
    assert(r.entries() =~= Seq::empty());
    load_plugins_from_dir(&mut r, system);
    if let Some(readings) = user {
        load_plugins_from_dir(&mut r, readings);
    }
    r
}

/// The entries of an optional registry.
pub open spec fn opt_entries(registry: Option<Registry>) -> Option<PluginEntries> {
    match registry {
        Some(plugins) => Some(plugins.entries()),
        None => None,
    }
}

/// The plugins of the system and of the user, where `None` stands for a
/// directory that could not be listed; without a user to look for, `user` is
/// `None`, too. A directory that could not be listed fails the whole load.
pub open spec fn loaded_unless_failed(
    system: Option<Seq<PluginReadingView>>,
    user: Option<Option<Seq<PluginReadingView>>>,
) -> Option<PluginEntries> {
    match (system, user) {
        (Some(of_system), None) => Some(all_loaded(of_system, None)),
        (Some(of_system), Some(Some(of_user))) => Some(all_loaded(of_system, Some(of_user))),
        _ => None,
    }
}

/// The plugins of the system, and of the user if there is one to look for, if
/// the directories of both could be listed.
pub fn load_plugins_listed(
    system: Option<Vec<PluginReading>>,
    user: Option<Option<Vec<PluginReading>>>,
) -> (r: Option<Registry>)
    requires
        system is Some ==> all_named(reading_views(system->0@)),
        user matches Some(Some(readings)) ==> all_named(reading_views(readings@)),
    ensures
        r is Some <==> system is Some && user != Some(None::<Vec<PluginReading>>),
        r is Some ==> is_registry(r->0.entries()),
        opt_entries(r) == loaded_unless_failed(
            opt_readings(system),
            match user {
                Some(readings) => Some(opt_readings(readings)),
                None => None,
            },
        ),
        r is Some ==> names_faithful(reading_views(system->0@)),
        r is Some && user is Some ==> names_faithful(reading_views(user->0->0@)),
{
    match (system, user) {
        (Some(of_system), None) => Some(load_plugins(of_system, None)),
        (Some(of_system), Some(Some(of_user))) => Some(load_plugins(of_system, Some(of_user))),
        _ => None,
    }
}

/// Of several readings of one name, the last that gives a plugin is the one
/// that is kept: a user's plugin takes the place of the system's.
pub proof fn law_last_reading_wins(
    before: PluginEntries,
    readings: Seq<PluginReadingView>,
    i: int,
)
    requires
        is_registry(before),
        0 <= i < readings.len(),
        is_loadable(readings[i]),
        forall|j: int|
            i < j < readings.len() && is_loadable(readings[j]) ==> reading_name(
                #[trigger] readings[j],
            ) != reading_name(readings[i]),
    ensures
        is_registry(loaded(before, readings)),
        as_map(loaded(before, readings)).dom().contains(reading_name(readings[i])),
        as_map(loaded(before, readings))[reading_name(readings[i])] == plugin_of(readings[i]),
    decreases readings.len(),
{
    let rest = readings.drop_last();
    let last = readings.last();
    let all = loaded(before, rest);
    lemma_loaded_registry(before, rest);
    if is_loadable(last) {
        lemma_placed(all, reading_name(last), plugin_of(last));
        lemma_stays_registry(all, plugin_of(last));
    }
    if i < readings.len() - 1 {
        assert(rest[i] == readings[i]);
        assert forall|j: int| i < j < rest.len() && is_loadable(rest[j]) implies reading_name(
            #[trigger] rest[j],
        ) != reading_name(rest[i]) by {
            assert(rest[j] == readings[j]);
        }
        law_last_reading_wins(before, rest, i);
        assert(is_loadable(last) ==> reading_name(readings[readings.len() - 1]) != reading_name(
            readings[i],
        ));
    }
}

/// A plugin of whose name no reading gives a plugin stays as it was.
pub proof fn law_unread_plugins_stay(
    before: PluginEntries,
    readings: Seq<PluginReadingView>,
    name: Seq<char>,
)
    requires
        is_registry(before),
        forall|j: int|
            0 <= j < readings.len() && is_loadable(readings[j]) ==> reading_name(
                #[trigger] readings[j],
            ) != name,
    ensures
        as_map(loaded(before, readings)).dom().contains(name) == as_map(before).dom().contains(name),
        as_map(before).dom().contains(name) ==> as_map(loaded(before, readings))[name] == as_map(
            before,
        )[name],
    decreases readings.len(),
{
    if readings.len() > 0 {
        let rest = readings.drop_last();
        assert forall|j: int| 0 <= j < rest.len() && is_loadable(rest[j]) implies reading_name(
            #[trigger] rest[j],
        ) != name by {
            assert(rest[j] == readings[j]);
        }
        law_unread_plugins_stay(before, rest, name);
        lemma_loaded_registry(before, rest);
        let last = readings.last();
        assert(last == readings[readings.len() - 1]);
        if is_loadable(last) {
            lemma_placed(loaded(before, rest), reading_name(last), plugin_of(last));
        }
    }
}

proof fn lemma_stay_enabled(before: PluginEntries, readings: Seq<PluginReadingView>, i: int)
    requires
        forall|k: int| 0 <= k < before.len() ==> (#[trigger] before[k]).1.enabled,
        0 <= i < loaded(before, readings).len(),
    ensures
        loaded(before, readings)[i].1.enabled,
    decreases readings.len(),
{
    if readings.len() > 0 {
        let all = loaded(before, readings.drop_last());
        lemma_key(all, reading_name(readings.last()));
        if i < all.len() {
            lemma_stay_enabled(before, readings.drop_last(), i);
        }
    }
}

/// Every plugin that was loaded is enabled, be it the system's or the user's.
pub proof fn law_loaded_plugins_are_enabled(
    system: Seq<PluginReadingView>,
    user: Option<Seq<PluginReadingView>>,
    i: int,
)
    requires
        0 <= i < all_loaded(system, user).len(),
    ensures
        all_loaded(system, user)[i].1.enabled,
{
    let none: PluginEntries = Seq::empty();
    let of_system = loaded(none, system);
    assert forall|k: int| 0 <= k < of_system.len() implies (#[trigger] of_system[k]).1.enabled by {
        lemma_stay_enabled(none, system, k);
    }
    if let Some(readings) = user {
        lemma_stay_enabled(of_system, readings, i);
    }
}

proof fn lemma_loaded_registry(before: PluginEntries, readings: Seq<PluginReadingView>)
    requires
        is_registry(before),
    ensures
        is_registry(loaded(before, readings)),
    decreases readings.len(),
{
    if readings.len() > 0 {
        lemma_loaded_registry(before, readings.drop_last());
        let last = readings.last();
        if is_loadable(last) {
            lemma_stays_registry(loaded(before, readings.drop_last()), plugin_of(last));
        }
    }
}

proof fn lemma_first_line(line: Seq<char>, rest: Seq<char>)
    requires
        !line.contains('\n'),
    ensures
        lines_of(line.push('\n') + rest) == seq![strip_cr(line)] + lines_of(rest),
{
    law_lines_cut(line, rest);
}

/// The text that a shell prints for five settings, one to a line.
pub open spec fn printed(values: Seq<Seq<char>>) -> Seq<char>
    decreases values.len(),
{
    if values.len() == 0 {
        Seq::empty()
    } else {
        values[0].push('\n') + printed(values.drop_first())
    }
}

proof fn lemma_printed_lines(values: Seq<Seq<char>>)
    requires
        forall|i: int|
            0 <= i < values.len() ==> !(#[trigger] values[i]).contains('\n') && strip_cr(values[i])
                == values[i],
    ensures
        lines_of(printed(values)) == values,
    decreases values.len(),
{
    if values.len() > 0 {
        let rest = values.drop_first();
        assert forall|i: int| 0 <= i < rest.len() implies !(#[trigger] rest[i]).contains('\n')
            && strip_cr(rest[i]) == rest[i] by {
            assert(rest[i] == values[i + 1]);
        }
        lemma_printed_lines(rest);
        assert(!values[0].contains('\n'));
        lemma_first_line(values[0], printed(rest));
        assert(seq![values[0]] + rest =~= values);
    } else {
        assert(values =~= Seq::empty());
    }
}

/// What a manifest sets is what the plugin has: the five values that the shell
/// prints come back as the slot, the words of the events, the user to run as,
/// the restart setting and the watched path. No value may hold a line feed or
/// end in a carriage return.
pub proof fn law_manifest_reads_back(name: Seq<char>, path: Seq<u8>, values: Seq<Seq<char>>)
    requires
        values.len() == 5,
        forall|i: int|
            0 <= i < values.len() ==> !(#[trigger] values[i]).contains('\n') && strip_cr(values[i])
                == values[i],
    ensures
        described(name, path, printed(values)) == (PluginView {
            name,
            path,
            slot: values[0],
            event: words_of(values[1]),
            run_as: values[2],
            restart_on: values[3],
            enabled: true,
            watch_path: if values[4].len() > 0 {
                Some(values[4])
            } else {
                None
            },
        }),
{
    lemma_printed_lines(values);
}

/// A manifest that sets nothing, or whose shell printed nothing, still gives a
/// plugin: one for every slot, without events.
pub proof fn law_empty_manifest(name: Seq<char>, path: Seq<u8>)
    ensures
        described(name, path, Seq::empty()) == (PluginView {
            name,
            path,
            slot: Seq::empty(),
            event: Seq::empty(),
            run_as: Seq::empty(),
            restart_on: Seq::empty(),
            enabled: true,
            watch_path: None,
        }),
{
    assert(words_of(Seq::empty()) == Seq::<Seq<char>>::empty());
}

/// The values that the shell prints are the settings, in order: the slot, the
/// events, the user to run as, the restart setting and the watched path. What is
/// missing at the end is empty, and what follows the fifth does not count. The
/// name and the directory are those that were given, and the plugin is enabled.
pub proof fn law_settings_are_read(name: Seq<char>, path: Seq<u8>, values: Seq<Seq<char>>)
    requires
        forall|i: int|
            0 <= i < values.len() ==> !(#[trigger] values[i]).contains('\n') && strip_cr(values[i])
                == values[i],
    ensures
        ({
            let p = described(name, path, printed(values));
            let none = Seq::<char>::empty();
            &&& p.name == name && p.path == path && p.enabled
            &&& values.len() > 0 ==> p.slot == values[0]
            &&& values.len() <= 0 ==> p.slot == none
            &&& values.len() > 1 ==> p.event == words_of(values[1])
            &&& values.len() <= 1 ==> p.event == Seq::<Seq<char>>::empty()
            &&& values.len() > 2 ==> p.run_as == values[2]
            &&& values.len() <= 2 ==> p.run_as == none
            &&& values.len() > 3 ==> p.restart_on == values[3]
            &&& values.len() <= 3 ==> p.restart_on == none
            &&& values.len() > 4 && values[4].len() > 0 ==> p.watch_path == Some(values[4])
            &&& values.len() <= 4 || values[4].len() == 0 ==> p.watch_path is None
        }),
{
    lemma_printed_lines(values);
    assert(words_of(Seq::empty()) == Seq::<Seq<char>>::empty());
}

/// A reading gives a plugin if and only if the shell ran and printed UTF-8. Its
/// name is that of its directory, and it is what the printed settings describe.
pub proof fn law_reading_gives_plugin(
    r: PluginReadingView,
    base: Seq<u8>,
    name: Seq<u8>,
    settings: Seq<char>,
)
    requires
        base.len() > 0,
        name.len() > 0,
        !name.contains(0x2f),
        name != seq![0x2eu8],
        name != seq![0x2eu8, 0x2eu8],
        r.path == path_joined(base, name),
    ensures
        is_loadable(r) <==> r.stdout is Some && valid_utf8(r.stdout->0),
        reading_name(r) == utf8_lossy(name),
        plugin_of(r).name == utf8_lossy(name),
        plugin_of(r).path == r.path,
        r.stdout == Some(encode_utf8(settings)) ==> is_loadable(r) && plugin_of(r) == described(
            utf8_lossy(name),
            r.path,
            settings,
        ),
{
    law_name_in_directory(base, name);
    encode_utf8_valid_utf8(settings);
    encode_utf8_decode_utf8(settings);
}

/// A plugin that is there after loading was there before, or was read.
pub proof fn law_loaded_plugins_were_read(
    before: PluginEntries,
    readings: Seq<PluginReadingView>,
    name: Seq<char>,
)
    requires
        is_registry(before),
        as_map(loaded(before, readings)).dom().contains(name),
    ensures
        as_map(before).dom().contains(name) || exists|j: int|
            0 <= j < readings.len() && is_loadable(readings[j]) && reading_name(
                #[trigger] readings[j],
            ) == name,
{
    if forall|j: int|
        0 <= j < readings.len() && is_loadable(readings[j]) ==> reading_name(
            #[trigger] readings[j],
        ) != name {
        law_unread_plugins_stay(before, readings, name);
    }
}

/// The user's plugin takes the place of the system's of the same name, and
/// without a user the system's are all there are.
pub proof fn law_user_over_system(
    system: Seq<PluginReadingView>,
    user: Seq<PluginReadingView>,
    i: int,
)
    requires
        0 <= i < user.len(),
        is_loadable(user[i]),
        forall|j: int|
            i < j < user.len() && is_loadable(user[j]) ==> reading_name(#[trigger] user[j])
                != reading_name(user[i]),
    ensures
        as_map(all_loaded(system, Some(user))).dom().contains(reading_name(user[i])),
        as_map(all_loaded(system, Some(user)))[reading_name(user[i])] == plugin_of(user[i]),
        all_loaded(system, Some(Seq::empty())) == all_loaded(system, None),
        all_loaded(Seq::empty(), None) == PluginEntries::empty(),
{
    lemma_loaded_registry(Seq::empty(), system);
    law_last_reading_wins(loaded(Seq::empty(), system), user, i);
}

/// The manifest is the file `manifest.plug` in the plugin's directory, and a
/// user's plugins are below `.config/plugins` in the home directory, whether or
/// not those end in a slash.
pub proof fn law_plugin_paths(path: Seq<u8>, home: Seq<char>)
    requires
        path.len() > 0,
        path.last() != 0x2f,
    ensures
        manifest_path_of(path) == path.push(0x2f) + encode_utf8("manifest.plug"@),
        manifest_path_of(path.push(0x2f)) == path.push(0x2f) + encode_utf8("manifest.plug"@),
        encode_utf8(home).len() > 0 && encode_utf8(home).last() != 0x2f ==> user_dir_of(home)
            == encode_utf8(home).push(0x2f) + encode_utf8(".config/plugins"@),
        encode_utf8(home).len() > 0 && encode_utf8(home).last() == 0x2f ==> user_dir_of(home)
            == encode_utf8(home) + encode_utf8(".config/plugins"@),
        encode_utf8(home).len() == 0 ==> user_dir_of(home) == encode_utf8(".config/plugins"@),
        SYSTEM_PLUGINS_DIR@ == "/etc/plugins"@,
{
    reveal_strlit("manifest.plug");
    reveal_strlit(".config/plugins");
    is_ascii_chars_encode_utf8("manifest.plug"@);
    is_ascii_chars_encode_utf8(".config/plugins"@);
    assert("manifest.plug"@[0] == 'm');
    assert(".config/plugins"@[0] == '.');
    assert(encode_utf8(home).len() == 0 ==> encode_utf8(home) + encode_utf8(".config/plugins"@)
        =~= encode_utf8(".config/plugins"@));
}

/// The shell command sources the manifest and then prints the five settings, one
/// to a line, in the order in which they are read.
pub proof fn law_query_command(manifest: Seq<char>)
    ensures
        query_command_of(manifest) == "source "@ + manifest + " && echo $SLOT && echo $EVENT && echo $RUN_AS && echo $RESTART_ON && echo $WATCH_PATH"@,
{
}

/// The load fails where a directory could not be listed, and else gives the
/// plugins of the system and of the user who was asked for.
pub proof fn law_listed_directories(
    system: Seq<PluginReadingView>,
    user: Seq<PluginReadingView>,
    any: Option<Option<Seq<PluginReadingView>>>,
)
    ensures
        loaded_unless_failed(None, any) is None,
        loaded_unless_failed(Some(system), Some(None)) is None,
        loaded_unless_failed(Some(system), None) == Some(all_loaded(system, None)),
        loaded_unless_failed(Some(system), Some(Some(user))) == Some(
            all_loaded(system, Some(user)),
        ),
{
}

} // verus!
