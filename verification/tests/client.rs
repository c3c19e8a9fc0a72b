use plugind::client::{
    format_output, plugin_info, plugin_list, request_for, show_answer, CliCommand, Shown,
};
use plugind::command::DaemonCommand;
use plugind::plugin::plugin_in;

#[test]
fn the_list_has_its_titles() {
    match plugin_list(&Vec::new()) {
        Shown::Table { title, rows, labelled } => {
            assert!(!labelled);
            assert_eq!(title, vec!["Name", "Slot", "Event", "Run As", "Restart On", "Enabled"]);
            assert!(rows.is_empty());
        }
        _ => panic!("no table"),
    }
}

#[test]
fn the_list_has_a_line_for_each_plugin() {
    let a = plugin_in("a", b"/p/a", "AB\nX Y\n#\nr\n");
    let mut b = plugin_in("b", b"/p/b", "");
    b.enabled = false;
    match show_answer("{}", Some(vec![a, b]), None) {
        Shown::Table { rows, .. } => {
            assert_eq!(
                rows,
                vec![
                    vec!["a", "AB", "X, Y", "#", "r", "true"],
                    vec!["b", "", "", "", "", "false"],
                ]
            );
        }
        _ => panic!("no table"),
    }
}

#[test]
fn a_plugin_is_described() {
    let rows_for = |shown: Shown| match shown {
        Shown::Table { title, rows, labelled } => {
            assert!(labelled);
            assert_eq!(title, vec!["Field", "Value"]);
            rows
        }
        _ => panic!("no table"),
    };
    let p = plugin_in("a", b"/p/a", "B\nX\nbob\n\n/w\n");
    let rows = rows_for(plugin_info(&p, "/shown"));
    assert_eq!(rows.len(), 7);
    assert_eq!(rows[1], vec!["Path", "/shown"]);
    assert_eq!(rows[4], vec!["Run As", "bob"]);
    let rows = rows_for(format_output(b"{}", None, Some(p)));
    assert_eq!(rows[0], vec!["Name", "a"]);
    assert_eq!(rows[1], vec!["Path", "/p/a"]);
    assert_eq!(rows[2], vec!["Slot", "B"]);
    assert_eq!(rows[3], vec!["Event", "X"]);
    assert_eq!(rows[5], vec!["Restart On", ""]);
    assert_eq!(rows[6], vec!["Enabled", "true"]);
}

#[test]
fn a_bare_answer_is_a_line() {
    assert!(matches!(format_output(b"OK", None, None), Shown::Line(text) if text == "OK"));
    assert!(matches!(format_output(b"\"OK\"", None, None), Shown::Nothing));
    assert!(matches!(format_output(b"OK\xff", None, None), Shown::Nothing));
    assert!(matches!(show_answer("null", None, None), Shown::Nothing));
}

#[test]
fn a_command_line_becomes_a_request() {
    let name = || "p".to_string();
    let request = request_for(
        CliCommand::Trigger { plugin_name: name(), event: "E".to_string(), output: None },
        Some("/home/u".to_string()),
        Some("u".to_string()),
    );
    assert_eq!(request.home, Some("/home/u".to_string()));
    assert_eq!(request.current_user, Some("u".to_string()));
    assert!(matches!(request.daemon_command, DaemonCommand::Trigger(p, e, None) if p == "p" && e == "E"));
    let command = |cli: CliCommand| request_for(cli, None, None).daemon_command;
    assert!(matches!(command(CliCommand::List), DaemonCommand::List));
    assert!(matches!(command(CliCommand::Reload), DaemonCommand::Reload));
    assert!(matches!(command(CliCommand::Status), DaemonCommand::Status));
    assert!(matches!(command(CliCommand::Info { plugin_name: name() }), DaemonCommand::Info(p) if p == "p"));
    assert!(matches!(command(CliCommand::Enable { plugin_name: name() }), DaemonCommand::Enable(p) if p == "p"));
    assert!(matches!(command(CliCommand::Disable { plugin_name: name() }), DaemonCommand::Disable(p) if p == "p"));
}
