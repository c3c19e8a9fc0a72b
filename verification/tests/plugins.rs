use plugind::command::{
    answer, handle_client, needs_load, reply_text, requested_dir, CommandRequest, DaemonCommand,
    Outcome, Reply,
};
use plugind::dispatch::{
    file_event_runs, name_listed, runs_for_changes, trigger_event_for_all, watch_changes,
    watch_paths, without_paths, ChangedPath, FileEventKind, PluginRun, WatcherCommand,
};
use plugind::event::{data_event, plain_event};
use plugind::plugin::{
    holds_plugin, load_plugins, load_plugins_listed, manifest_path, manifest_query, parse_manifest,
    plugin_in, plugin_name, query_command, user_plugins_dir, Plugin, PluginReading, Registry,
};

fn reading(name: &str, settings: &str) -> PluginReading {
    PluginReading {
        path: format!("/etc/plugins/{}", name).into_bytes(),
        stdout: Some(settings.as_bytes().to_vec()),
    }
}

fn registry(list: &[(&str, &str)]) -> Registry {
    load_plugins(list.iter().map(|(n, s)| reading(n, s)).collect(), None)
}

fn names(runs: &Vec<PluginRun>) -> Vec<(String, String, Option<String>)> {
    runs.iter()
        .map(|r| (r.plugin.name.clone(), r.event_name.clone(), r.event_data.clone()))
        .collect()
}

fn run(name: &str, event: &str, data: Option<&str>) -> (String, String, Option<String>) {
    (name.to_string(), event.to_string(), data.map(|d| d.to_string()))
}

fn done(outcome: &Outcome) -> bool {
    matches!(outcome.reply, Some(Reply::Done))
}

#[test]
fn a_manifest_is_read() {
    let settings = "AB\nOnEnabled OnBatteryLevelChange\n@\n\n/sys/class/power_supply/BAT0/capacity\n";
    let p: Plugin = plugin_in("battery", b"/etc/plugins/battery", settings);
    assert_eq!(p.name, "battery");
    assert_eq!(p.path, b"/etc/plugins/battery".to_vec());
    assert_eq!(p.slot, "AB");
    assert_eq!(p.event, vec!["OnEnabled".to_string(), "OnBatteryLevelChange".to_string()]);
    assert_eq!(p.run_as, "@");
    assert_eq!(p.restart_on, "");
    assert!(p.enabled);
    assert_eq!(p.watch_path, Some("/sys/class/power_supply/BAT0/capacity".to_string()));
}

#[test]
fn a_manifest_may_set_nothing() {
    let p = plugin_in("x", b"/x", "");
    assert_eq!((p.slot, p.event.len(), p.run_as, p.watch_path), (String::new(), 0, String::new(), None));
    assert!(p.enabled);
    let p = plugin_in("x", b"/x", "A\nE\nr\ns\n\n");
    assert_eq!(p.restart_on, "s");
    assert_eq!(p.watch_path, None);
}

#[test]
fn a_manifest_must_be_utf8() {
    assert!(parse_manifest("x", b"/x", vec![0x41, 0xff]).is_err());
    let p = parse_manifest("x", b"/x", "\u{e4}\n".as_bytes().to_vec());
    assert_eq!(p.ok().map(|p| p.slot), Some("\u{e4}".to_string()));
}

#[test]
fn commands_and_paths_of_a_manifest() {
    assert_eq!(manifest_path(b"/etc/plugins/x"), b"/etc/plugins/x/manifest.plug".to_vec());
    let command = "source /p/manifest.plug && echo $SLOT && echo $EVENT && echo $RUN_AS && echo $RESTART_ON && echo $WATCH_PATH";
    assert_eq!(query_command("/p/manifest.plug"), command);
    assert_eq!(manifest_query(b"/p"), command);
    assert_eq!(plugin_name(b"/etc/plugins/x"), Some("x".to_string()));
    assert_eq!(plugin_name(b"/etc/plugins/x\xff"), Some("x\u{fffd}".to_string()));
    assert_eq!(plugin_name(b"/"), None);
    assert_eq!(user_plugins_dir("/home/u"), b"/home/u/.config/plugins".to_vec());
    assert_eq!(user_plugins_dir("/home/u/"), b"/home/u/.config/plugins".to_vec());
    assert_eq!(user_plugins_dir(""), b".config/plugins".to_vec());
}

#[test]
fn a_plugin_of_the_user_takes_the_place_of_the_systems() {
    let system = vec![reading("a", "A\n"), reading("b", "A\n")];
    let path = |name: &str| format!("/home/u/.config/plugins/{}", name).into_bytes();
    let own = PluginReading { path: path("a"), stdout: Some(b"B\n".to_vec()) };
    let broken = PluginReading { path: path("c"), stdout: None };
    let binary = PluginReading { path: path("b"), stdout: Some(vec![0xff]) };
    let plugins = load_plugins(system, Some(vec![own, broken, binary]));
    assert_eq!(plugins.len(), 2);
    assert_eq!(plugins.get("a").unwrap().name, "a");
    assert_eq!(plugins.get("a").unwrap().path, path("a"));
    assert!(plugins.get("a").unwrap().enabled && plugins.get("b").unwrap().enabled);
    assert_eq!(plugins.get("a").unwrap().slot, "B");
    assert_eq!(plugins.get("b").unwrap().slot, "A");
    assert!(plugins.get("c").is_none());
}

#[test]
fn an_event_runs_its_subscribers() {
    let mut plugins = registry(&[("a", "\nX Y\n"), ("b", "\nY\n"), ("c", "\nZ\n")]);
    let runs = trigger_event_for_all(&plugins, &data_event("Y", "7".to_string()));
    assert_eq!(names(&runs), vec![run("a", "Y", Some("7")), run("b", "Y", Some("7"))]);
    assert!(runs[0].ctl_user.is_none());
    handle_client(&mut plugins, DaemonCommand::Disable("a".to_string()), None, None);
    let runs = trigger_event_for_all(&plugins, &plain_event("Y"));
    assert_eq!(names(&runs), vec![run("b", "Y", None)]);
    assert!(trigger_event_for_all(&plugins, &plain_event("")).is_empty());
}

#[test]
fn kinds_of_change_have_names() {
    let list = |names: &[&str]| names.iter().map(|n| n.to_string()).collect::<Vec<String>>();
    let kinds = [
        (FileEventKind::Create, "OnFileCreate", "Create"),
        (FileEventKind::Modify, "OnFileModify", "Modify"),
        (FileEventKind::Remove, "OnFileDelete", "Remove"),
        (FileEventKind::Access, "OnFileAccess", "Access"),
        (FileEventKind::Any, "OnFileChange", "Any"),
        (FileEventKind::Other, "OnFileChange", "Other"),
    ];
    for (kind, name, bare) in kinds.iter() {
        assert_eq!(name_listed(&list(&["x", name]), *kind), Some(*name));
        assert_eq!(name_listed(&list(&[bare]), *kind), Some(*bare));
        assert_eq!(name_listed(&list(&[bare, name]), *kind), Some(*name));
        assert_eq!(name_listed(&list(&["OnFile"]), *kind), None);
    }
}

#[test]
fn changed_paths_run_their_watchers() {
    let mut plugins = registry(&[
        ("dir", "\nOnFileModify\n\n\n/var/log\n"),
        ("bare", "\nModify\n\n\n/var/log/x/\n"),
        ("other", "\nOnFileModify\n\n\n/var/logs\n"),
        ("none", "\nOnFileModify\n"),
        ("create", "\nOnFileCreate\n\n\n/var/log\n"),
    ]);
    let paths = vec![b"/var/log/x".to_vec(), b"/var/log/y\xff".to_vec()];
    let runs = file_event_runs(&plugins, FileEventKind::Modify, paths);
    assert_eq!(
        names(&runs),
        vec![
            run("dir", "OnFileModify", Some("/var/log/x")),
            run("dir", "OnFileModify", Some("/var/log/y\u{fffd}")),
            run("bare", "Modify", Some("/var/log/x")),
        ]
    );
    handle_client(&mut plugins, DaemonCommand::Disable("dir".to_string()), None, None);
    let changes = vec![ChangedPath { path: b"/var/log".to_vec(), shown: "log".to_string() }];
    let runs = runs_for_changes(&plugins, FileEventKind::Create, &changes);
    assert_eq!(names(&runs), vec![run("create", "OnFileCreate", Some("log"))]);
    assert!(runs_for_changes(&plugins, FileEventKind::Modify, &changes).is_empty());
    handle_client(&mut plugins, DaemonCommand::Enable("dir".to_string()), None, None);
    assert_eq!(runs_for_changes(&plugins, FileEventKind::Modify, &changes).len(), 1);
}

fn watch_text(commands: &Vec<WatcherCommand>) -> Vec<String> {
    commands
        .iter()
        .map(|c| match c {
            WatcherCommand::AddPath(p) => format!("+{}", p),
            WatcherCommand::RemovePath(p) => format!("-{}", p),
        })
        .collect()
}

#[test]
fn the_watcher_follows_the_plugins() {
    let old = registry(&[("a", "\n\n\n\n/x\n"), ("b", "\n\n\n\n/y\n"), ("c", "\n\n\n\n/y/\n")]);
    let new = registry(&[("a", "\n\n\n\n/x/.\n"), ("b", "\n\n\n\n/z\n"), ("d", "")]);
    assert_eq!(watch_paths(&old), vec!["/x".to_string(), "/y".to_string(), "/y/".to_string()]);
    assert_eq!(watch_text(&watch_changes(&old, &new)), vec!["-/y".to_string(), "+/z".to_string()]);
    assert!(watch_changes(&old, &old).is_empty());
    let mut watched = watch_paths(&old);
    for command in watch_changes(&old, &new) {
        match command {
            WatcherCommand::AddPath(p) => watched.push(p),
            WatcherCommand::RemovePath(p) => {
                watched.retain(|w| std::path::Path::new(w) != std::path::Path::new(&p))
            }
        }
    }
    assert_eq!(watched, vec!["/x".to_string(), "/z".to_string()]);
    assert_eq!(
        without_paths(&watch_paths(&old), &Vec::new()),
        vec!["/x".to_string(), "/y".to_string()]
    );
}

#[test]
fn a_plugin_is_enabled_and_disabled() {
    let mut plugins = registry(&[("a", "\nX OnEnabled OnDisabled\n"), ("b", "\nX\n")]);
    let user = Some("u".to_string());
    let off = handle_client(&mut plugins, DaemonCommand::Disable("a".to_string()), user.clone(), None);
    assert_eq!(names(&off.runs), vec![run("a", "OnDisabled", None)]);
    assert_eq!(off.runs[0].ctl_user, user);
    assert!(!off.runs[0].plugin.enabled);
    assert!(done(&off) && off.watch.is_empty() && !off.must_succeed);
    assert!(!plugins.get("a").unwrap().enabled);
    assert!(plugins.get("b").unwrap().enabled);
    let on = handle_client(&mut plugins, DaemonCommand::Enable("a".to_string()), user, None);
    assert_eq!(names(&on.runs), vec![run("a", "OnEnabled", None)]);
    assert!(on.runs[0].plugin.enabled);
    assert!(plugins.get("a").unwrap().enabled);
    let nobody = handle_client(&mut plugins, DaemonCommand::Enable("z".to_string()), None, None);
    assert!(nobody.runs.is_empty() && done(&nobody));
    assert_eq!(plugins.len(), 2);
    assert!(answer(on, true).is_some());
}

#[test]
fn a_plugin_is_switched_without_a_run_unless_it_lists_the_event() {
    let mut plugins = registry(&[("a", "\nX OnEnabled\n"), ("b", "\nOnDisabled\n")]);
    let off = handle_client(&mut plugins, DaemonCommand::Disable("a".to_string()), None, None);
    assert!(off.runs.is_empty() && done(&off));
    assert!(!plugins.get("a").unwrap().enabled);
    let on = handle_client(&mut plugins, DaemonCommand::Enable("b".to_string()), None, None);
    assert!(on.runs.is_empty() && done(&on));
    assert!(plugins.get("b").unwrap().enabled);
    let off = handle_client(&mut plugins, DaemonCommand::Disable("b".to_string()), None, None);
    assert_eq!(names(&off.runs), vec![run("b", "OnDisabled", None)]);
    let status = handle_client(&mut plugins, DaemonCommand::Status, None, None);
    assert!(done(&status));
    assert!(!plugins.get("a").unwrap().enabled && !plugins.get("b").unwrap().enabled);
    assert!(trigger_event_for_all(&plugins, &plain_event("X")).is_empty());
}

#[test]
fn a_failed_load_leaves_everything_as_it_was() {
    let commands =
        vec![DaemonCommand::List, DaemonCommand::Info("a".to_string()), DaemonCommand::Reload];
    for command in commands {
        let mut plugins = registry(&[("a", "\nOnReload\n\n\n/x\n")]);
        let o = handle_client(&mut plugins, command, Some("u".to_string()), None);
        assert!(o.watch.is_empty() && o.runs.is_empty() && o.must_succeed);
        assert_eq!(plugins.len(), 1);
        assert_eq!(plugins.get("a").unwrap().watch_path, Some("/x".to_string()));
        assert!(answer(o, true).is_none());
    }
}

#[test]
fn a_plugin_is_a_directory_with_a_manifest() {
    assert!(holds_plugin(true, true));
    assert!(!holds_plugin(true, false));
    assert!(!holds_plugin(false, true));
    assert!(!holds_plugin(false, false));
}

#[test]
fn a_directory_that_cannot_be_listed_fails_the_load() {
    let system = || Some(vec![reading("a", "A\n")]);
    let user = || Some(vec![reading("b", "B\n")]);
    assert_eq!(load_plugins_listed(system(), None).map(|p| p.len()), Some(1));
    let both = load_plugins_listed(system(), Some(user())).unwrap();
    assert!(both.len() == 2 && both.contains_key("a") && both.contains_key("b"));
    assert!(load_plugins_listed(None, None).is_none());
    assert!(load_plugins_listed(None, Some(user())).is_none());
    assert!(load_plugins_listed(system(), Some(None)).is_none());
    let mut plugins = registry(&[("c", "")]);
    let fresh = load_plugins_listed(system(), Some(None));
    let o = handle_client(&mut plugins, DaemonCommand::List, None, fresh);
    assert!(plugins.len() == 1 && plugins.contains_key("c"));
    assert!(answer(o, false).is_none());
}

#[test]
fn commands_are_acknowledged() {
    let mut plugins = registry(&[("a", "\nX\n")]);
    let commands = vec![
        DaemonCommand::Status,
        DaemonCommand::Enable("a".to_string()),
        DaemonCommand::Disable("a".to_string()),
        DaemonCommand::Trigger("a".to_string(), "X".to_string(), None),
        DaemonCommand::Reload,
    ];
    for command in commands {
        let o = handle_client(&mut plugins, command, None, Some(registry(&[("a", "")])));
        assert_eq!(answer(o, false).as_ref().and_then(reply_text), Some("OK"));
    }
    assert_eq!(reply_text(&Reply::Plugins), None);
    assert_eq!(reply_text(&Reply::Info(None)), None);
}

#[test]
fn a_plugin_is_triggered() {
    let mut plugins = registry(&[("a", "\nX\n")]);
    let trigger = |name: &str| {
        DaemonCommand::Trigger(name.to_string(), "E".to_string(), Some("d".to_string()))
    };
    let o = handle_client(&mut plugins, trigger("a"), Some("u".to_string()), None);
    assert_eq!(names(&o.runs), vec![run("a", "E", Some("d"))]);
    assert!(o.must_succeed);
    assert!(answer(o, true).is_none());
    let o = handle_client(&mut plugins, trigger("a"), None, None);
    assert!(answer(o, false).is_some());
    handle_client(&mut plugins, DaemonCommand::Disable("a".to_string()), None, None);
    let o = handle_client(&mut plugins, trigger("a"), None, None);
    assert!(o.runs.is_empty() && done(&o));
    let o = handle_client(&mut plugins, trigger("z"), None, None);
    assert!(o.runs.is_empty() && done(&o));
}

#[test]
fn the_manifests_are_read_anew() {
    let mut plugins = registry(&[("a", "\n\n\n\n/x\n")]);
    handle_client(&mut plugins, DaemonCommand::Disable("a".to_string()), None, None);
    let fresh = || registry(&[("a", "\nOnReload\n\n\n/y\n"), ("b", "")]);
    let o = handle_client(&mut plugins, DaemonCommand::Reload, Some("u".to_string()), Some(fresh()));
    assert_eq!(names(&o.runs), vec![run("a", "OnReload", None)]);
    assert_eq!(o.runs[0].ctl_user, Some("u".to_string()));
    assert_eq!(watch_text(&o.watch), vec!["-/x".to_string(), "+/y".to_string()]);
    assert!(done(&o) && !o.must_succeed);
    assert_eq!(plugins.len(), 2);
    let o = handle_client(&mut plugins, DaemonCommand::List, None, Some(registry(&[("c", "")])));
    assert!(matches!(o.reply, Some(Reply::Plugins)) && o.runs.is_empty());
    assert!(plugins.contains_key("c") && !plugins.contains_key("a"));
    let o = handle_client(&mut plugins, DaemonCommand::Info("a".to_string()), None, Some(fresh()));
    match o.reply {
        Some(Reply::Info(Some(p))) => assert_eq!(p.watch_path, Some("/y".to_string())),
        _ => panic!("no plugin"),
    }
    let o = handle_client(&mut plugins, DaemonCommand::Info("z".to_string()), None, Some(fresh()));
    assert!(matches!(o.reply, Some(Reply::Info(None))));
    let o = handle_client(&mut plugins, DaemonCommand::Status, None, None);
    assert!(done(&o) && o.runs.is_empty());
    assert_eq!(plugins.len(), 2);
}

#[test]
fn requests_say_what_is_to_be_loaded() {
    assert!(needs_load(&DaemonCommand::List));
    assert!(needs_load(&DaemonCommand::Info("x".to_string())));
    assert!(needs_load(&DaemonCommand::Reload));
    assert!(!needs_load(&DaemonCommand::Status));
    assert!(!needs_load(&DaemonCommand::Enable("x".to_string())));
    let request = |home: Option<&str>| CommandRequest {
        home: home.map(|h| h.to_string()),
        current_user: None,
        daemon_command: DaemonCommand::List,
    };
    assert_eq!(requested_dir(&request(Some("/root"))), Some(b"/root/.config/plugins".to_vec()));
    assert_eq!(requested_dir(&request(None)), None);
}
