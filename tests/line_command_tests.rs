use pk_common::command::Error;
use pk_common::line_command::{
    choose_line_command, line_command, ConnectToServerCommand, EditFileCommand, LineAction,
    SyncFileCommand, TestCommand,
};

#[test]
fn edit_names_a_server_or_uses_the_local_one() {
    assert_eq!(
        line_command("e src/main.rs"),
        Ok(LineAction::OpenFile { server_name: String::from("local"), path: String::from("src/main.rs") })
    );
    assert_eq!(
        line_command("e   remote:notes.txt"),
        Ok(LineAction::OpenFile { server_name: String::from("remote"), path: String::from("notes.txt") })
    );
}

#[test]
fn test_and_sync_lines() {
    assert_eq!(line_command("test one two"), Ok(LineAction::ShowTest { arg: Some(String::from("one two")) }));
    assert_eq!(line_command("sync"), Ok(LineAction::SyncCurrentBuffer));
}

#[test]
fn unknown_lines_are_invalid_commands() {
    assert_eq!(line_command("quit"), Err(Error::InvalidCommand(String::from("quit"))));
    assert_eq!(line_command(""), Err(Error::InvalidCommand(String::new())));
}

#[test]
fn the_first_matching_pattern_decides() {
    let test = Some(vec![Some(String::from("test x")), Some(String::from("x"))]);
    let edit = Some(vec![Some(String::from("e x")), None, Some(String::from("x"))]);
    let sync = Some(vec![Some(String::from("sync"))]);
    assert_eq!(
        choose_line_command(test, edit.clone(), sync.clone(), "l"),
        Ok(LineAction::ShowTest { arg: Some(String::from("x")) })
    );
    assert_eq!(
        choose_line_command(None, edit, sync.clone(), "l"),
        Ok(LineAction::OpenFile { server_name: String::from("local"), path: String::from("x") })
    );
    assert_eq!(choose_line_command(None, None, sync, "l"), Ok(LineAction::SyncCurrentBuffer));
    assert_eq!(choose_line_command(None, None, None, "l"), Err(Error::InvalidCommand(String::from("l"))));
    assert_eq!(
        choose_line_command(None, Some(vec![Some(String::from("e"))]), None, "e"),
        Err(Error::InvalidCommand(String::from("missing path for editing a file")))
    );
}

#[test]
fn commands_check_their_arguments() {
    assert_eq!(TestCommand.process(None), LineAction::ShowTest { arg: None });
    assert_eq!(SyncFileCommand.process(), LineAction::SyncCurrentBuffer);
    assert_eq!(
        EditFileCommand.process(Some(String::from("srv")), Some(String::from("a.txt"))),
        Ok(LineAction::OpenFile { server_name: String::from("srv"), path: String::from("a.txt") })
    );
    assert_eq!(
        ConnectToServerCommand.process(None, Some(String::from("tcp://h:1"))),
        Err(Error::InvalidCommand(String::from("expected server name for new connection")))
    );
    assert_eq!(
        ConnectToServerCommand.process(Some(String::from("h")), None),
        Err(Error::InvalidCommand(String::from("expected server URL for new connection")))
    );
    assert_eq!(
        ConnectToServerCommand.process(Some(String::from("h")), Some(String::from("tcp://h:1"))),
        Ok(LineAction::Connect { server_name: String::from("h"), server_url: String::from("tcp://h:1") })
    );
}
