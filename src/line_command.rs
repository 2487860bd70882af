//! The command line: recognising a typed line as one of the editor's line commands, and
//! what each command asks the editor to do.
use vstd::prelude::*;
use crate::command::Error;

verus! {

/// The capture groups of the first match of `pattern` in `text`, group 0 first; `None`
/// where nothing matches or the pattern does not compile.
pub uninterp spec fn regex_captures(pattern: Seq<char>, text: Seq<char>) -> Option<Seq<Option<Seq<char>>>>;

pub open spec fn group_view(g: Option<String>) -> Option<Seq<char>> {
    match g {
        Some(s) => Some(s@),
        None => None,
    }
}

pub open spec fn captures_view(c: Option<Vec<Option<String>>>) -> Option<Seq<Option<Seq<char>>>> {
    match c {
        Some(v) => Some(v@.map_values(|g: Option<String>| group_view(g))),
        None => None,
    }
}

/// Relies on `regex::Regex::new` to compile the pattern and on `Regex::captures` for the
/// groups of its first match in the text (read through `Captures::iter` and
/// `Match::as_str`).
#[verifier::external_body]
fn captures_of(pattern: &str, text: &str) -> (r: Option<Vec<Option<String>>>)
    ensures
        captures_view(r) == regex_captures(pattern@, text@),
{
    let re = regex::Regex::new(pattern).ok()?;
    let caps = re.captures(text)?;
    Some(caps.iter().map(|m| m.map(|m| m.as_str().to_string())).collect())
}

/// `test <anything>`: shows a test message.
pub const TEST_PATTERN: &'static str = "test (.*)";

/// `e [server:]path`: opens a file, on the named server or on the local one.
pub const EDIT_PATTERN: &'static str = r"e\s+(?:(?P<server_name>.*):)?(?P<path>.*)";

/// `sync`: synchronises the current buffer with its server.
pub const SYNC_PATTERN: &'static str = "sync";

/// The server that `e` uses when the line names none.
pub const LOCAL_SERVER: &'static str = "local";

pub const MISSING_PATH: &'static str = "missing path for editing a file";

pub const MISSING_SERVER_NAME: &'static str = "expected server name for new connection";

pub const MISSING_SERVER_URL: &'static str = "expected server URL for new connection";

/// What a line command asks the editor to do.
#[derive(Debug, PartialEq, Eq)]
pub enum LineAction {
    /// Show the test message; `arg` is what followed `test `.
    ShowTest { arg: Option<String> },
    /// Open `path` on the server `server_name`.
    OpenFile { server_name: String, path: String },
    /// Synchronise the current buffer with its server.
    SyncCurrentBuffer,
    /// Connect to the server at `server_url` under the name `server_name`.
    Connect { server_name: String, server_url: String },
}

/// Group `i` of a match, if the group exists and took part in the match.
pub open spec fn group_at(g: Seq<Option<Seq<char>>>, i: int) -> Option<Seq<char>> {
    if 0 <= i < g.len() {
        g[i]
    } else {
        None
    }
}

pub open spec fn is_invalid(r: Result<LineAction, Error>, message: Seq<char>) -> bool {
    r matches Err(Error::InvalidCommand(m)) && m@ == message
}

/// What opening a file asks for, given the server and path that the line named.
pub open spec fn open_file_result(
    r: Result<LineAction, Error>,
    server_name: Option<Seq<char>>,
    path: Option<Seq<char>>,
) -> bool {
    match path {
        None => is_invalid(r, MISSING_PATH@),
        Some(p) => r matches Ok(LineAction::OpenFile { server_name: s, path: q }) && q@ == p
            && s@ == match server_name {
            Some(x) => x,
            None => LOCAL_SERVER@,
        },
    }
}

/// The result of a typed line, given the matches of the three patterns in it: the first
/// pattern that matches decides; with none, the line is an invalid command.
pub open spec fn line_result(
    r: Result<LineAction, Error>,
    test: Option<Seq<Option<Seq<char>>>>,
    edit: Option<Seq<Option<Seq<char>>>>,
    sync: Option<Seq<Option<Seq<char>>>>,
    line: Seq<char>,
) -> bool {
    match (test, edit, sync) {
        (Some(g), _, _) => r matches Ok(LineAction::ShowTest { arg }) && group_view(arg) == group_at(g, 1),
        (None, Some(g), _) => open_file_result(r, group_at(g, 1), group_at(g, 2)),
        (None, None, Some(_)) => r == Ok::<LineAction, Error>(LineAction::SyncCurrentBuffer),
        (None, None, None) => is_invalid(r, line),
    }
}

fn clone_group(g: &Option<String>) -> (r: Option<String>)
    ensures
        group_view(r) == group_view(*g),
{
    match g {
        Some(s) => Some(s.clone()),
        None => None,
    }
}

/// Group `i` of a match, if the group exists and took part in the match.
fn group(v: &Vec<Option<String>>, i: usize) -> (r: Option<String>)
    ensures
        group_view(r) == group_at(v@.map_values(|g: Option<String>| group_view(g)), i as int),
{
    if i < v.len() {
        clone_group(&v[i])
    } else {
        None
    }
}

pub struct TestCommand;

impl TestCommand {
    pub fn process(&self, arg: Option<String>) -> (r: LineAction)
        ensures
            r matches LineAction::ShowTest { arg: a } && group_view(a) == group_view(arg),
    {
        LineAction::ShowTest { arg }
    }
}

pub struct EditFileCommand;

impl EditFileCommand {
    /// Opens `path` on `server_name`, or on the local server where none is named.
    pub fn process(&self, server_name: Option<String>, path: Option<String>) -> (r: Result<LineAction, Error>)
        ensures
            open_file_result(r, group_view(server_name), group_view(path)),
    {
        let path = match path {
            Some(p) => p,
            None => return Err(Error::InvalidCommand(MISSING_PATH.to_owned())),
        };
        let server_name = match server_name {
            Some(s) => s,
            None => LOCAL_SERVER.to_owned(),
        };
        Ok(LineAction::OpenFile { server_name, path })
    }
}

pub struct SyncFileCommand;

impl SyncFileCommand {
    pub fn process(&self) -> (r: LineAction)
        ensures
            r == LineAction::SyncCurrentBuffer,
    {
        LineAction::SyncCurrentBuffer
    }
}

pub struct ConnectToServerCommand;

impl ConnectToServerCommand {
    /// Connects to `server_url` under `server_name`; both are required, the name first.
    pub fn process(&self, server_name: Option<String>, server_url: Option<String>) -> (r: Result<LineAction, Error>)
        ensures
            server_name is None ==> is_invalid(r, MISSING_SERVER_NAME@),
            server_name is Some && server_url is None ==> is_invalid(r, MISSING_SERVER_URL@),
            server_name is Some && server_url is Some ==> (r matches Ok(
                LineAction::Connect { server_name: a, server_url: b },
            ) && a@ == server_name->0@ && b@ == server_url->0@),
    {
        let name = match server_name {
            Some(n) => n,
            None => return Err(Error::InvalidCommand(MISSING_SERVER_NAME.to_owned())),
        };
        let url = match server_url {
            Some(u) => u,
            None => return Err(Error::InvalidCommand(MISSING_SERVER_URL.to_owned())),
        };
        Ok(LineAction::Connect { server_name: name, server_url: url })
    }
}

/// Decides a typed line from the matches of the test, edit and sync patterns in it.
pub fn choose_line_command(
    test: Option<Vec<Option<String>>>,
    edit: Option<Vec<Option<String>>>,
    sync: Option<Vec<Option<String>>>,
    line: &str,
) -> (r: Result<LineAction, Error>)
    ensures
        line_result(r, captures_view(test), captures_view(edit), captures_view(sync), line@),
{
    if let Some(g) = test {
        return Ok(TestCommand.process(group(&g, 1)));
    }
    if let Some(g) = edit {
        return EditFileCommand.process(group(&g, 1), group(&g, 2));
    }
    if let Some(_) = sync {
        return Ok(SyncFileCommand.process());
    }
    Err(Error::InvalidCommand(line.to_owned()))
}

/// Recognises a typed line as a line command.
pub fn line_command(line: &str) -> (r: Result<LineAction, Error>)
    ensures
        line_result(
            r,
            regex_captures(TEST_PATTERN@, line@),
            regex_captures(EDIT_PATTERN@, line@),
            regex_captures(SYNC_PATTERN@, line@),
            line@,
        ),
{
    let test = captures_of(TEST_PATTERN, line);
    let edit = captures_of(EDIT_PATTERN, line);
    let sync = captures_of(SYNC_PATTERN, line);
    choose_line_command(test, edit, sync, line)
}

} // verus!
