use plugind::command::{handle_client, DaemonCommand};
use plugind::dispatch::{file_event_runs, trigger_event_for_all, FileEventKind, PluginRun};
use plugind::event::data_event;
use plugind::execute::{
    decide, error_message, launch_plan, runs_in_slot, start_child, step_child, target_user, Action,
    ChildAction, ChildInput, ChildPhase, ExecError, Execution, Input, Phase, WaitOutcome,
};
use plugind::plugin::{load_plugins, plugin_in, PluginReading};

fn a_run(settings: &str, data: Option<&str>) -> PluginRun {
    PluginRun {
        plugin: plugin_in("p", b"/etc/plugins/p", settings),
        event_name: "OnTest".to_string(),
        ctl_user: Some("alice".to_string()),
        event_data: data.map(|d| d.to_string()),
    }
}

#[test]
fn a_plugin_runs_in_its_slot() {
    assert!(runs_in_slot("", "A\n"));
    assert!(runs_in_slot("AB", "A\n"));
    assert!(runs_in_slot("A", "A\n"));
    assert!(!runs_in_slot("B", "A\n"));
    assert!(!runs_in_slot("BA", "A\n"));
    assert!(!runs_in_slot("A", ""));
}

#[test]
fn a_plugin_runs_as_its_user() {
    let alice = Some("alice".to_string());
    assert_eq!(target_user("@", &alice), alice);
    assert_eq!(target_user("@", &None), None);
    assert_eq!(target_user("#", &alice), Some("root".to_string()));
    assert_eq!(target_user("bob", &alice), Some("bob".to_string()));
    assert_eq!(target_user("", &alice), None);
}

#[test]
fn a_plan_holds_the_command_and_the_environment() {
    let plan = launch_plan(&a_run("AB\nE\n@\n", Some("42")), "/m");
    assert_eq!(plan.command, "source /m && main");
    assert_eq!(plan.target_user, Some("alice".to_string()));
    assert_eq!(
        plan.environment,
        vec![
            ("EVENT_NAME".to_string(), "OnTest".to_string()),
            ("EVENT_RETURN".to_string(), "42".to_string()),
        ]
    );
    assert_eq!(launch_plan(&a_run("", None), "/m").environment.len(), 1);
}

#[test]
fn a_run_that_succeeds() {
    let (mut e, first) = Execution::start(a_run("A\n", None));
    assert!(matches!(first, Action::AskSlot));
    assert!(matches!(e.step(Input::SlotAsked(true)), Action::ReadSlot));
    match e.step(Input::SlotRead(" A \n".to_string())) {
        Action::Fork(plan) => {
            assert_eq!(plan.command, "source /etc/plugins/p/manifest.plug && main")
        }
        _ => panic!("no fork"),
    }
    assert!(matches!(e.step(Input::Forked), Action::Wait));
    let end = e.step(Input::Ended(WaitOutcome::Exited(0)));
    assert!(matches!(end, Action::Finish(Ok(()))));
    assert!(matches!(e.phase, Phase::Finished));
}

#[test]
fn a_plugin_for_another_slot_is_passed_over() {
    let (mut e, _) = Execution::start(a_run("B\n", None));
    e.step(Input::SlotAsked(true));
    assert!(matches!(e.step(Input::SlotRead("A".to_string())), Action::Finish(Ok(()))));
}

#[test]
fn runs_fail_for_a_reason() {
    let r = a_run("", None);
    let end = |input: Input| match decide(&r, "/m", input) {
        Action::Finish(Err(e)) => error_message(e),
        _ => panic!("no failure"),
    };
    assert_eq!(end(Input::SlotAsked(false)), Some("failed to get current slot"));
    assert_eq!(end(Input::NotForked), Some("failed to fork process"));
    assert_eq!(end(Input::Ended(WaitOutcome::Exited(3))), Some("plugin execution failed"));
    assert_eq!(end(Input::Ended(WaitOutcome::Signaled)), Some("plugin terminated by signal"));
    assert_eq!(
        end(Input::Ended(WaitOutcome::Other)),
        Some("plugin process abnormal termination")
    );
    assert_eq!(end(Input::Broken), None);
    assert_eq!(error_message(ExecError::Outside), None);
}

#[test]
fn the_process_becomes_its_user() {
    let (phase, action) = start_child(&Some("bob".to_string()));
    assert!(matches!(action, ChildAction::LookUp(name) if name == "bob"));
    let (phase, action) = step_child(phase, ChildInput::Found { uid: 7, gid: 8 });
    assert!(matches!(action, ChildAction::SetGid(8)));
    let (failed, action) = step_child(phase, ChildInput::GidSet(false));
    assert!(matches!(action, ChildAction::Exit(1)) && matches!(failed, ChildPhase::Ending));
    let (phase, action) = step_child(phase, ChildInput::GidSet(true));
    assert!(matches!(action, ChildAction::SetUid(7)));
    assert!(matches!(step_child(phase, ChildInput::UidSet(false)).1, ChildAction::Exit(1)));
    let (phase, action) = step_child(phase, ChildInput::UidSet(true));
    assert!(matches!(action, ChildAction::Run));
    let ended = |success: bool, status: Option<i32>| {
        match step_child(phase, ChildInput::Ended { success, status }).1 {
            ChildAction::Exit(code) => code,
            _ => panic!("no exit"),
        }
    };
    assert_eq!(ended(true, Some(0)), 0);
    assert_eq!(ended(false, Some(9)), 9);
    assert_eq!(ended(false, None), 1);
}

#[test]
fn without_a_user_the_command_runs_at_once() {
    assert!(matches!(start_child(&None).1, ChildAction::Run));
    let (phase, _) = start_child(&Some("nobody-here".to_string()));
    assert!(matches!(step_child(phase, ChildInput::Missing).1, ChildAction::Run));
}

fn environment_of(run: PluginRun) -> Vec<(String, String)> {
    let (mut e, _) = Execution::start(run);
    e.step(Input::SlotAsked(true));
    match e.step(Input::SlotRead("A\n".to_string())) {
        Action::Fork(plan) => plan.environment,
        _ => panic!("no fork"),
    }
}

#[test]
fn a_plugin_is_told_what_it_is_run_for() {
    let plugins = load_plugins(
        vec![PluginReading {
            path: b"/etc/plugins/p".to_vec(),
            stdout: Some(b"AB\nOnBatteryLevelChange Modify\n\n\n/w\n".to_vec()),
        }],
        None,
    );
    let pair = |a: &str, b: &str| (a.to_string(), b.to_string());
    let mut runs =
        trigger_event_for_all(&plugins, &data_event("OnBatteryLevelChange", "42".to_string()));
    assert_eq!(
        environment_of(runs.remove(0)),
        vec![pair("EVENT_NAME", "OnBatteryLevelChange"), pair("EVENT_RETURN", "42")]
    );
    let mut runs = file_event_runs(&plugins, FileEventKind::Modify, vec![b"/w/f".to_vec()]);
    assert_eq!(
        environment_of(runs.remove(0)),
        vec![pair("EVENT_NAME", "Modify"), pair("EVENT_RETURN", "/w/f")]
    );
}

#[test]
fn a_run_ends_where_an_action_breaks() {
    let (mut e, _) = Execution::start(a_run("", None));
    assert!(matches!(e.step(Input::Broken), Action::Finish(Err(ExecError::Outside))));
    let (mut e, _) = Execution::start(a_run("", None));
    e.step(Input::SlotAsked(true));
    assert!(matches!(e.step(Input::Broken), Action::Finish(Err(ExecError::Outside))));
    let (mut e, _) = Execution::start(a_run("", None));
    e.step(Input::SlotAsked(true));
    e.step(Input::SlotRead(String::new()));
    e.step(Input::Forked);
    assert!(matches!(e.step(Input::Broken), Action::Finish(Err(ExecError::Outside))));
    let (mut e, _) = Execution::start(a_run("", None));
    e.step(Input::SlotAsked(true));
    e.step(Input::SlotRead(String::new()));
    assert!(matches!(e.step(Input::NotForked), Action::Finish(Err(ExecError::NotForked))));
}

#[test]
fn a_reload_runs_plugins_as_the_user_who_asked() {
    let read = || {
        load_plugins(
            vec![PluginReading {
                path: b"/etc/plugins/p".to_vec(),
                stdout: Some(b"AB\nOnReload\n@\n".to_vec()),
            }],
            None,
        )
    };
    let mut plugins = read();
    let alice = Some("alice".to_string());
    let mut outcome =
        handle_client(&mut plugins, DaemonCommand::Reload, alice.clone(), Some(read()));
    assert_eq!(outcome.runs.len(), 1);
    let (mut e, _) = Execution::start(outcome.runs.remove(0));
    e.step(Input::SlotAsked(true));
    match e.step(Input::SlotRead("A\n".to_string())) {
        Action::Fork(plan) => assert_eq!(plan.target_user, alice),
        _ => panic!("no fork"),
    }
}
