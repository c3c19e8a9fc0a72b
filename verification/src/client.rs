//! The command line client: what it asks the daemon, and how it shows the
//! answer.

use crate::bytes::{faithful, lossy_text, utf8_lossy};
use crate::command::{CommandRequest, DaemonCommand, DaemonCommandView};
use crate::plugin::{Plugin, PluginView};
use crate::text::{join, joined, opt_text, same_text, strings};
use vstd::prelude::*;
use vstd::utf8::{
    decode_utf8_encode_utf8, encode_utf8, encode_utf8_decode_utf8, encode_utf8_valid_utf8, valid_utf8,
};

verus! {

/// A command as it is given on the command line.
pub enum CliCommand {
    List,
    Info { plugin_name: String },
    Enable { plugin_name: String },
    Disable { plugin_name: String },
    Trigger { plugin_name: String, event: String, output: Option<String> },
    Reload,
    Status,
}

/// The command to the daemon that a command line stands for.
pub open spec fn command_for(cli: CliCommand) -> DaemonCommandView {
    match cli {
        CliCommand::List => DaemonCommandView::List,
        CliCommand::Info { plugin_name } => DaemonCommandView::Info(plugin_name@),
        CliCommand::Enable { plugin_name } => DaemonCommandView::Enable(plugin_name@),
        CliCommand::Disable { plugin_name } => DaemonCommandView::Disable(plugin_name@),
        CliCommand::Trigger { plugin_name, event, output } => DaemonCommandView::Trigger(
            plugin_name@,
            event@,
            opt_text(output),
        ),
        CliCommand::Reload => DaemonCommandView::Reload,
        CliCommand::Status => DaemonCommandView::Status,
    }
}

/// The request that a command line makes of the daemon.
pub fn request_for(
    cli: CliCommand,
    home: Option<String>,
    current_user: Option<String>,
) -> (r: CommandRequest)
    ensures
        r.daemon_command@ == command_for(cli),
        r.home == home,
        r.current_user == current_user,
{
    let daemon_command: DaemonCommand = match cli {
        CliCommand::List => DaemonCommand::List,
        CliCommand::Info { plugin_name } => DaemonCommand::Info(plugin_name),
        CliCommand::Enable { plugin_name } => DaemonCommand::Enable(plugin_name),
        CliCommand::Disable { plugin_name } => DaemonCommand::Disable(plugin_name),
        CliCommand::Trigger { plugin_name, event, output } => DaemonCommand::Trigger(
            plugin_name,
            event,
            output,
        ),
        CliCommand::Reload => DaemonCommand::Reload,
        CliCommand::Status => DaemonCommand::Status,
    };
    CommandRequest { home, current_user, daemon_command }
}

/// A line of cells.
pub type Row = Vec<String>;

/// The cells of each of a sequence of lines.
pub open spec fn row_views(v: Seq<Vec<String>>) -> Seq<Seq<Seq<char>>> {
    v.map_values(|row: Vec<String>| strings(row@))
}

/// What the client shows.
pub enum Shown {
    /// A line of text.
    Line(String),
    /// A table with a title over each column. In a table that is `labelled`, the
    /// first cell of each line stands out as the titles do.
    Table { title: Row, rows: Vec<Row>, labelled: bool },
    /// Nothing.
    Nothing,
}

/// What the client shows, as a plain value.
#[verifier::ext_equal]
pub enum ShownView {
    Line(Seq<char>),
    Table { title: Seq<Seq<char>>, rows: Seq<Seq<Seq<char>>>, labelled: bool },
    Nothing,
}

impl View for Shown {
    type V = ShownView;

    open spec fn view(&self) -> ShownView {
        match self {
            Shown::Line(text) => ShownView::Line(text@),
            Shown::Table { title, rows, labelled } => ShownView::Table {
                title: strings(title@),
                rows: row_views(rows@),
                labelled: *labelled,
            },
            Shown::Nothing => ShownView::Nothing,
        }
    }
}

/// A truth value in words.
pub open spec fn truth(b: bool) -> Seq<char> {
    if b {
        "true"@
    } else {
        "false"@
    }
}

/// The titles of the list of plugins.
pub open spec fn list_title() -> Seq<Seq<char>> {
    seq!["Name"@, "Slot"@, "Event"@, "Run As"@, "Restart On"@, "Enabled"@]
}

/// The line of a plugin in the list of plugins.
pub open spec fn list_row(p: PluginView) -> Seq<Seq<char>> {
    seq![p.name, p.slot, joined(p.event, ", "@), p.run_as, p.restart_on, truth(p.enabled)]
}

/// The titles of the description of a plugin.
pub open spec fn info_title() -> Seq<Seq<char>> {
    seq!["Field"@, "Value"@]
}

/// The lines of the description of a plugin with this path.
pub open spec fn info_rows(p: PluginView, path: Seq<char>) -> Seq<Seq<Seq<char>>> {
    seq![
        seq!["Name"@, p.name],
        seq!["Path"@, path],
        seq!["Slot"@, p.slot],
        seq!["Event"@, joined(p.event, ", "@)],
        seq!["Run As"@, p.run_as],
        seq!["Restart On"@, p.restart_on],
        seq!["Enabled"@, truth(p.enabled)],
    ]
}

/// The plugins of a list.
pub open spec fn plugin_views(v: Seq<Plugin>) -> Seq<PluginView> {
    v.map_values(|p: Plugin| p@)
}

/// The description of a plugin.
pub open spec fn shown_info(p: PluginView) -> ShownView {
    ShownView::Table {
        title: info_title(),
        rows: info_rows(p, utf8_lossy(p.path)),
        labelled: true,
    }
}

/// The list of plugins.
pub open spec fn shown_list(plugins: Seq<PluginView>) -> ShownView {
    ShownView::Table {
        title: list_title(),
        rows: plugins.map_values(|p: PluginView| list_row(p)),
        labelled: false,
    }
}

/// What the client shows for an answer: `text` is the answer as text, `plugins`
/// the plugins that it lists, if it is a list of plugins, and `plugin` the
/// plugin that it describes, if it describes one.
pub open spec fn shown_for(
    text: Seq<char>,
    plugins: Option<Seq<PluginView>>,
    plugin: Option<PluginView>,
) -> ShownView {
    if text == "OK"@ {
        ShownView::Line("OK"@)
    } else {
        match (plugins, plugin) {
            (Some(list), _) => shown_list(list),
            (None, Some(p)) => shown_info(p),
            (None, None) => ShownView::Nothing,
        }
    }
}

fn truth_text(b: bool) -> (r: String)
    ensures
        r@ == truth(b),
{
    if b {
        "true".to_string()
    } else {
        "false".to_string()
    }
}

fn pair(a: &str, b: &str) -> (r: Row)
    ensures
        strings(r@) == seq![a@, b@],
{
    let mut r: Row = Vec::new();
    r.push(a.to_string());
    r.push(b.to_string());
    assert(strings(r@) =~= seq![a@, b@]);
    r
}

fn plugin_row(p: &Plugin) -> (r: Row)
    ensures
        strings(r@) == list_row(p@),
{
    let mut r: Row = Vec::new();
    r.push(p.name.clone());
    r.push(p.slot.clone());
    r.push(join(&p.event, ", "));
    r.push(p.run_as.clone());
    r.push(p.restart_on.clone());
    r.push(truth_text(p.enabled));
    assert(strings(r@) =~= list_row(p@));
    r
}

/// The list of plugins.
pub fn plugin_list(plugins: &Vec<Plugin>) -> (r: Shown)
    ensures
        r@ == shown_list(plugin_views(plugins@)),
{
    let mut title: Row = Vec::new();
    title.push("Name".to_string());
    title.push("Slot".to_string());
    title.push("Event".to_string());
    title.push("Run As".to_string());
    title.push("Restart On".to_string());
    title.push("Enabled".to_string());
    assert(strings(title@) =~= list_title());
    let ghost all = plugin_views(plugins@).map_values(|p: PluginView| list_row(p));
    let mut rows: Vec<Row> = Vec::new();
    let mut i: usize = 0;
    assert(row_views(rows@) =~= all.take(0));
    while i < plugins.len()
        invariant
            all == plugin_views(plugins@).map_values(|p: PluginView| list_row(p)),
            i <= plugins@.len(),
            row_views(rows@) == all.take(i as int),
        decreases plugins@.len() - i,
    {
        let ghost before = rows@;
        let row: Row = plugin_row(&plugins[i]);
        rows.push(row);
        assert(row_views(rows@) =~= row_views(before).push(strings(row@)));
        assert(all.take(i + 1) =~= all.take(i as int).push(list_row(plugins@[i as int]@)));
        i += 1;
    }
    assert(all.take(i as int) =~= all);
    Shown::Table { title, rows, labelled: false }
}

/// The description of a plugin with this path.
pub fn plugin_info(p: &Plugin, path: &str) -> (r: Shown)
    ensures
        r@ == (ShownView::Table {
            title: info_title(),
            rows: info_rows(p@, path@),
            labelled: true,
        }),
{
    let title: Row = pair("Field", "Value");
    let mut rows: Vec<Row> = Vec::new();
    rows.push(pair("Name", p.name.as_str()));
    rows.push(pair("Path", path));
    rows.push(pair("Slot", p.slot.as_str()));
    rows.push(pair("Event", join(&p.event, ", ").as_str()));
    rows.push(pair("Run As", p.run_as.as_str()));
    rows.push(pair("Restart On", p.restart_on.as_str()));
    rows.push(pair("Enabled", truth_text(p.enabled).as_str()));
    assert(row_views(rows@) =~= info_rows(p@, path@));
    Shown::Table { title, rows, labelled: true }
}

/// What the client shows for an answer of which this is the text.
pub fn show_answer(text: &str, plugins: Option<Vec<Plugin>>, plugin: Option<Plugin>) -> (r: Shown)
    ensures
        r@ == shown_for(
            text@,
            match plugins {
                Some(list) => Some(plugin_views(list@)),
                None => None,
            },
            match plugin {
                Some(p) => Some(p@),
                None => None,
            },
        ),
        plugins is None && plugin is Some && text@ != "OK"@ ==> faithful(plugin->0.path@),
{
    if same_text(text, "OK") {
        return Shown::Line("OK".to_string());
    }
    match (plugins, plugin) {
        (Some(list), _) => plugin_list(&list),
        (None, Some(p)) => {
            let path: String = lossy_text(p.path.as_slice());
            plugin_info(&p, path.as_str())
        },
        (None, None) => Shown::Nothing,
    }
}

/// Only the two bytes of the answer itself read as the answer.
proof fn lemma_ok_bytes(bytes: Seq<u8>)
    requires
        faithful(bytes),
    ensures
        utf8_lossy(bytes) == "OK"@ <==> bytes == encode_utf8("OK"@),
{
    reveal_strlit("OK");
    encode_utf8_valid_utf8("OK"@);
    encode_utf8_decode_utf8("OK"@);
    if valid_utf8(bytes) {
        decode_utf8_encode_utf8(bytes);
    } else {
        assert(!"OK"@.contains('\u{FFFD}'));
    }
}

/// What the client shows for the bytes of an answer.
pub fn format_output(
    response: &[u8],
    plugins: Option<Vec<Plugin>>,
    plugin: Option<Plugin>,
) -> (r: Shown)
    ensures
        r@ == shown_for(
            utf8_lossy(response@),
            match plugins {
                Some(list) => Some(plugin_views(list@)),
                None => None,
            },
            match plugin {
                Some(p) => Some(p@),
                None => None,
            },
        ),
        faithful(response@),
        r@ == ShownView::Line("OK"@) <==> response@ == encode_utf8("OK"@),
        plugins is None && plugin is Some && response@ != encode_utf8("OK"@) ==> faithful(
            plugin->0.path@,
        ),
{
    let text: String = lossy_text(response);
    proof {
        lemma_ok_bytes(response@);
    }
    show_answer(text.as_str(), plugins, plugin)
}

/// The list of plugins has the same titles whatever the plugins are, and a line
/// for each plugin, with a cell under each title.
pub proof fn law_list_is_a_table(plugins: Seq<PluginView>)
    ensures
        shown_list(plugins)->title == list_title(),
        shown_list(plugins)->rows.len() == plugins.len(),
        forall|i: int|
            0 <= i < plugins.len() ==> (#[trigger] shown_list(plugins)->rows[i]).len()
                == list_title().len(),
{
}

/// Each command line asks the daemon for the command of its own name, with its
/// own arguments in their order.
pub proof fn law_command_lines(plugin_name: String, event: String, output: Option<String>)
    ensures
        command_for(CliCommand::List) == DaemonCommandView::List,
        command_for(CliCommand::Info { plugin_name }) == DaemonCommandView::Info(plugin_name@),
        command_for(CliCommand::Enable { plugin_name }) == DaemonCommandView::Enable(plugin_name@),
        command_for(CliCommand::Disable { plugin_name }) == DaemonCommandView::Disable(plugin_name@),
        output is None ==> command_for(CliCommand::Trigger { plugin_name, event, output })
            == DaemonCommandView::Trigger(plugin_name@, event@, None),
        output is Some ==> command_for(CliCommand::Trigger { plugin_name, event, output })
            == DaemonCommandView::Trigger(plugin_name@, event@, Some(output->0@)),
        command_for(CliCommand::Reload) == DaemonCommandView::Reload,
        command_for(CliCommand::Status) == DaemonCommandView::Status,
{
}

/// The line of each plugin in the list has its name, its slot, its events with a
/// comma and a space between them, whom it runs as, when it restarts and whether
/// it is enabled, each under its title.
pub proof fn law_list_cells(plugins: Seq<PluginView>, i: int)
    requires
        0 <= i < plugins.len(),
    ensures
        ({
            let title = shown_list(plugins)->title;
            let row = shown_list(plugins)->rows[i];
            let p = plugins[i];
            &&& title.len() == 6 && row.len() == 6
            &&& title[0] == "Name"@ && row[0] == p.name
            &&& title[1] == "Slot"@ && row[1] == p.slot
            &&& title[2] == "Event"@ && row[2] == joined(p.event, ", "@)
            &&& title[3] == "Run As"@ && row[3] == p.run_as
            &&& title[4] == "Restart On"@ && row[4] == p.restart_on
            &&& title[5] == "Enabled"@
            &&& p.enabled ==> row[5] == "true"@
            &&& !p.enabled ==> row[5] == "false"@
            &&& !shown_list(plugins)->labelled
        }),
{
}

/// The description of a plugin has a line for its name, its path, its slot, its
/// events, whom it runs as, when it restarts and whether it is enabled, each
/// behind its label.
pub proof fn law_info_cells(p: PluginView)
    ensures
        ({
            let title = shown_info(p)->title;
            let rows = shown_info(p)->rows;
            &&& title == seq!["Field"@, "Value"@]
            &&& rows.len() == 7
            &&& rows[0] == seq!["Name"@, p.name]
            &&& rows[1] == seq!["Path"@, utf8_lossy(p.path)]
            &&& rows[2] == seq!["Slot"@, p.slot]
            &&& rows[3] == seq!["Event"@, joined(p.event, ", "@)]
            &&& rows[4] == seq!["Run As"@, p.run_as]
            &&& rows[5] == seq!["Restart On"@, p.restart_on]
            &&& p.enabled ==> rows[6] == seq!["Enabled"@, "true"@]
            &&& !p.enabled ==> rows[6] == seq!["Enabled"@, "false"@]
            &&& shown_info(p)->labelled
        }),
{
}

/// What is shown: the line `OK` for just that text; and for any other the list of
/// plugins where it is one, else the description where it is one, and else
/// nothing.
pub proof fn law_what_is_shown(text: Seq<char>, list: Seq<PluginView>, p: PluginView)
    ensures
        shown_for("OK"@, Some(list), Some(p)) == ShownView::Line("OK"@),
        shown_for("OK"@, None, None) == ShownView::Line("OK"@),
        text != "OK"@ ==> {
            &&& shown_for(text, Some(list), None) == shown_list(list)
            &&& shown_for(text, Some(list), Some(p)) == shown_list(list)
            &&& shown_for(text, None, Some(p)) == shown_info(p)
            &&& shown_for(text, None, None) == ShownView::Nothing
        },
{
}

} // verus!
