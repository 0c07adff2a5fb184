use oxidize::apply::reload::reload_actions;
use oxidize::kdl_doc::{KdlEntryModel, KdlNodeModel};
use oxidize::apply::reload::{action_command, expand_tilde, parse_reload_actions, ReloadAction};

const BINDINGS: &str = r#"
bind "kitty" {
    reload {
        signal process="kitty" signal="SIGUSR1"
    }
}
bind "mako" {
    reload {
        command {
            argv "makoctl" "reload"
        }
        touch path="~/.config/mako/config"
        unknown-strategy
    }
}
other "ignored" {
    reload {
        signal process="x" signal="HUP"
    }
}
bind "waybar" {
    reload {
        signal process="waybar" signal="-SIGUSR2"
        signal process="missing-signal"
        command {
            argv "~/bin/reload" "--all"
        }
        command {
            argv
        }
    }
}
"#;

fn commands(actions: &[ReloadAction]) -> Vec<(String, Vec<String>)> {
    actions.iter().map(action_command).collect()
}

#[test]
fn bindings_give_actions_in_order() {
    let actions = parse_reload_actions(Some(BINDINGS), Some("/home/u")).unwrap();
    let cmds = commands(&actions);
    let expected: Vec<(String, Vec<String>)> = vec![
        ("pkill".into(), vec!["-SIGUSR1".into(), "kitty".into()]),
        ("makoctl".into(), vec!["reload".into()]),
        ("touch".into(), vec!["/home/u/.config/mako/config".into()]),
        ("pkill".into(), vec!["-SIGUSR2".into(), "waybar".into()]),
        ("/home/u/bin/reload".into(), vec!["--all".into()]),
    ];
    assert_eq!(cmds, expected);
}

#[test]
fn tilde_stays_without_home() {
    let actions = parse_reload_actions(Some(BINDINGS), None).unwrap();
    let cmds = commands(&actions);
    assert_eq!(cmds[2], ("touch".to_owned(), vec!["~/.config/mako/config".to_owned()]));
}

#[test]
fn missing_or_invalid_bindings() {
    assert!(parse_reload_actions(None, Some("/home/u")).is_none());
    assert!(parse_reload_actions(Some("bind {"), Some("/home/u")).is_none());
    assert_eq!(parse_reload_actions(Some(""), None).unwrap().len(), 0);
    assert_eq!(parse_reload_actions(Some("bind \"a\"\n"), None).unwrap().len(), 0);
}

#[test]
fn last_property_wins() {
    let doc = "bind \"a\" {\n reload {\n  signal process=\"one\" process=\"two\" signal=\"HUP\"\n }\n}\n";
    let actions = parse_reload_actions(Some(doc), None).unwrap();
    assert_eq!(commands(&actions), vec![("pkill".to_owned(), vec!["-HUP".to_owned(), "two".to_owned()])]);
}

#[test]
fn expand_tilde_only_in_front() {
    assert_eq!(expand_tilde("~/x", Some("/h")), "/h/x");
    assert_eq!(expand_tilde("~x", Some("/h")), "~x");
    assert_eq!(expand_tilde("a/~/x", Some("/h")), "a/~/x");
    assert_eq!(expand_tilde("~/x", None), "~/x");
}

#[test]
fn command_action_keeps_arguments() {
    let a = ReloadAction::Command { cmd: "c".into(), args: vec!["1".into(), "2".into()] };
    assert_eq!(action_command(&a), ("c".to_owned(), vec!["1".to_owned(), "2".to_owned()]));
    let t = ReloadAction::Touch { path: "/p".into() };
    assert_eq!(action_command(&t), ("touch".to_owned(), vec!["/p".to_owned()]));
}

#[test]
fn actions_from_parsed_nodes() {
    let prop = |k: &str, v: &str| KdlEntryModel { name: Some(k.to_owned()), text: Some(v.to_owned()) };
    let signal = KdlNodeModel {
        name: "signal".to_owned(),
        entries: vec![prop("process", "kitty"), prop("signal", "USR1")],
        children: None,
    };
    let touch = KdlNodeModel { name: "touch".to_owned(), entries: vec![prop("path", "~/f")], children: None };
    let reload = KdlNodeModel { name: "reload".to_owned(), entries: vec![], children: Some(vec![signal, touch]) };
    let bind = KdlNodeModel { name: "bind".to_owned(), entries: vec![], children: Some(vec![reload]) };
    let actions = reload_actions(&vec![bind], Some("/h"));
    assert_eq!(
        commands(&actions),
        vec![
            ("pkill".to_owned(), vec!["-USR1".to_owned(), "kitty".to_owned()]),
            ("touch".to_owned(), vec!["/h/f".to_owned()]),
        ]
    );
}
