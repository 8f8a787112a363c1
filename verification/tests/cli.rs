use fluxcd::cap::cli::{Command, CommandError, CommandOutput, CrdCommand};
use fluxcd::cap::controller::{
    find_controller, ControllerApp, ControllerResourceInfo, DynController,
};

fn registered(kinds: &[(&str, &str)]) -> Vec<DynController<String>> {
    let mut app = ControllerApp::new();
    for (group, kind) in kinds {
        let schema = format!("schema of {kind}");
        app = app.controller(DynController::new(ControllerResourceInfo::new(group, kind), schema));
    }
    app.into_controllers()
}

fn crd(name: &str) -> Command {
    Command::Crd { all: false, name: Some(name.to_string()), command: None }
}

fn schema_of(output: Result<CommandOutput<String>, CommandError>) -> String {
    match output {
        Ok(CommandOutput::Schema(controller)) => controller.into_adapter(),
        Ok(CommandOutput::Listing(lines)) => panic!("listing {lines:?}"),
        Err(error) => panic!("{error:?}"),
    }
}

#[test]
fn crd_list_prints_group_and_kind_in_registration_order() {
    let controllers = registered(&[("group", "Foo"), ("group2", "Bar")]);
    let list = Command::Crd { all: false, name: None, command: Some(CrdCommand::List) };
    match list.run(controllers) {
        Ok(CommandOutput::Listing(lines)) => {
            assert_eq!(lines, vec!["group/Foo".to_string(), "group2/Bar".to_string()]);
        }
        _ => panic!("no listing"),
    }

    let controllers = registered(&[("group", "Foo"), ("group2", "Bar")]);
    assert_eq!(schema_of(crd("Bar").run(controllers)), "schema of Bar");

    let controllers = registered(&[("group", "Foo"), ("group2", "Bar")]);
    match crd("Baz").run(controllers) {
        Err(CommandError::NotFound { name }) => assert_eq!(name, "Baz"),
        _ => panic!("found Baz"),
    }
}

#[test]
fn crd_kind_and_full_name_find_the_same_controller() {
    let kinds = [("group", "Foo"), ("group2", "Bar"), ("group3", "Qux")];
    assert_eq!(find_controller(&registered(&kinds), "Bar"), Some(1));
    assert_eq!(find_controller(&registered(&kinds), "group2/Bar"), Some(1));
    assert_eq!(schema_of(crd("Bar").run(registered(&kinds))), "schema of Bar");
    assert_eq!(schema_of(crd("group2/Bar").run(registered(&kinds))), "schema of Bar");
    assert_eq!(find_controller(&registered(&kinds), "group/Bar"), None);
    assert_eq!(find_controller(&registered(&kinds), "group2"), None);
    assert_eq!(find_controller(&registered(&kinds), "group2/"), None);
    assert_eq!(find_controller(&registered(&kinds), "/Bar"), None);
    assert_eq!(find_controller(&registered(&kinds), "bar"), None);
    assert_eq!(find_controller(&registered(&kinds), ""), None);
}

#[test]
fn crd_first_match_wins() {
    let mut app = ControllerApp::new();
    app = app.controller(DynController::new(ControllerResourceInfo::new("a", "Foo"), 1));
    app = app.controller(DynController::new(ControllerResourceInfo::new("b", "Foo"), 2));
    app = app.controller(DynController::new(ControllerResourceInfo::new("a", "Foo"), 3));
    let controllers = app.into_controllers();
    assert_eq!(find_controller(&controllers, "Foo"), Some(0));
    assert_eq!(find_controller(&controllers, "a/Foo"), Some(0));
    assert_eq!(find_controller(&controllers, "b/Foo"), Some(1));
    let name = Some("b/Foo".to_string());
    match (Command::Crd { all: false, name, command: None }).run(controllers) {
        Ok(CommandOutput::Schema(found)) => {
            assert_eq!(found.info().group(), "b");
            assert_eq!(found.info().kind(), "Foo");
            assert_eq!(found.into_adapter(), 2);
        }
        _ => panic!("not found"),
    }
}

#[test]
fn crd_all_is_not_implemented() {
    let all = Command::Crd { all: true, name: None, command: None };
    assert!(matches!(all.run(registered(&[("group", "Foo")])), Err(CommandError::Unimplemented)));
    let all = Command::Crd { all: true, name: Some("Foo".into()), command: Some(CrdCommand::List) };
    assert!(matches!(all.run(registered(&[("group", "Foo")])), Err(CommandError::Unimplemented)));
    let nothing = Command::Crd { all: false, name: None, command: None };
    assert!(matches!(
        nothing.run(registered(&[("group", "Foo")])),
        Err(CommandError::Unimplemented)
    ));
}

#[test]
fn crd_name_comes_before_the_subcommand() {
    let both = Command::Crd {
        all: false,
        name: Some("Foo".into()),
        command: Some(CrdCommand::List),
    };
    assert_eq!(schema_of(both.run(registered(&[("group", "Foo")]))), "schema of Foo");
}

#[test]
fn crd_list_of_no_controllers_is_empty() {
    let lines = CrdCommand::List.run(&registered(&[]));
    assert!(lines.is_empty());
    assert!(matches!(crd("Foo").run(registered(&[])), Err(CommandError::NotFound { .. })));
}

#[test]
fn identity_is_what_the_controller_was_registered_with() {
    let info = ControllerResourceInfo::new("source.fluxcd.yolodev.io", "GitHubUserSshKeys");
    assert_eq!(info.group(), "source.fluxcd.yolodev.io");
    assert_eq!(info.kind(), "GitHubUserSshKeys");
    assert_eq!(info.path(), "source.fluxcd.yolodev.io/GitHubUserSshKeys");
    assert!(info.answers_to("GitHubUserSshKeys"));
    assert!(info.answers_to("source.fluxcd.yolodev.io/GitHubUserSshKeys"));
    assert!(!info.answers_to("source.fluxcd.yolodev.io"));

    let one = registered(&[("g", "A"), ("h", "B")]);
    let other = registered(&[("h", "B"), ("g", "A")]);
    assert_eq!(one[0].info().path(), other[1].info().path());
    assert_eq!(one[1].info().path(), other[0].info().path());
}
