//! The interactive commands of the client.

use crate::text::{trim, trim_spec};
use vstd::prelude::*;
use vstd::string::*;

verus! {

/// A command typed at the prompt.
#[derive(PartialEq, Eq, Structural, Debug, Clone, Copy)]
pub enum Command {
    /// `u`: encrypt and upload a file.
    Upload,
    /// `d`: download and decrypt a file.
    Download,
    /// `q`: quit.
    Quit,
    /// `l`: log in anew.
    Login,
    /// `h` or `help`: show the commands.
    Help,
    /// `f`: list the encrypted files.
    ListFiles,
    /// Anything else.
    Unknown,
}

/// The command that the text `t` (already trimmed) names.
pub open spec fn command_named(t: Seq<char>) -> Command {
    if t == "u"@ {
        Command::Upload
    } else if t == "d"@ {
        Command::Download
    } else if t == "q"@ {
        Command::Quit
    } else if t == "l"@ {
        Command::Login
    } else if t == "help"@ || t == "h"@ {
        Command::Help
    } else if t == "f"@ {
        Command::ListFiles
    } else {
        Command::Unknown
    }
}

/// The command letters: `u` uploads, `d` downloads, `q` quits, `l` logs
/// in, `h` or `help` shows the menu, `f` lists the files; every other text
/// is unknown.
pub proof fn lemma_command_table()
    ensures
        command_named("u"@) == Command::Upload,
        command_named("d"@) == Command::Download,
        command_named("q"@) == Command::Quit,
        command_named("l"@) == Command::Login,
        command_named("help"@) == Command::Help,
        command_named("h"@) == Command::Help,
        command_named("f"@) == Command::ListFiles,
        forall|t: Seq<char>|
            t != "u"@ && t != "d"@ && t != "q"@ && t != "l"@ && t != "help"@ && t != "h"@ && t
                != "f"@ ==> #[trigger] command_named(t) == Command::Unknown,
{
    reveal_strlit("u");
    reveal_strlit("d");
    reveal_strlit("q");
    reveal_strlit("l");
    reveal_strlit("help");
    reveal_strlit("h");
    reveal_strlit("f");
    assert("d"@[0] != "u"@[0]);
    assert("q"@[0] != "u"@[0] && "q"@[0] != "d"@[0]);
    assert("l"@[0] != "u"@[0] && "l"@[0] != "d"@[0] && "l"@[0] != "q"@[0]);
    assert("help"@.len() != "u"@.len() && "help"@.len() != "d"@.len() && "help"@.len() != "q"@.len()
        && "help"@.len() != "l"@.len());
    assert("h"@[0] != "u"@[0] && "h"@[0] != "d"@[0] && "h"@[0] != "q"@[0] && "h"@[0] != "l"@[0]);
    assert("f"@[0] != "u"@[0] && "f"@[0] != "d"@[0] && "f"@[0] != "q"@[0] && "f"@[0] != "l"@[0]
        && "f"@[0] != "h"@[0] && "f"@.len() != "help"@.len());
}

/// The command that a typed line names, surrounding whitespace aside.
pub fn parse_command(line: &str) -> (c: Command)
    ensures
        c == command_named(trim_spec(line@)),
        trim_spec(line@) == "u"@ ==> c == Command::Upload,
        trim_spec(line@) == "d"@ ==> c == Command::Download,
        trim_spec(line@) == "q"@ ==> c == Command::Quit,
        trim_spec(line@) == "l"@ ==> c == Command::Login,
        trim_spec(line@) == "help"@ || trim_spec(line@) == "h"@ ==> c == Command::Help,
        trim_spec(line@) == "f"@ ==> c == Command::ListFiles,
        c == Command::Unknown ==> trim_spec(line@) != "u"@ && trim_spec(line@) != "d"@
            && trim_spec(line@) != "q"@ && trim_spec(line@) != "l"@ && trim_spec(line@) != "help"@
            && trim_spec(line@) != "h"@ && trim_spec(line@) != "f"@,
{
    proof {
        lemma_command_table();
    }
    let t = trim(line);
    if t == String::from_str("u") {
        Command::Upload
    } else if t == String::from_str("d") {
        Command::Download
    } else if t == String::from_str("q") {
        Command::Quit
    } else if t == String::from_str("l") {
        Command::Login
    } else if t == String::from_str("help") || t == String::from_str("h") {
        Command::Help
    } else if t == String::from_str("f") {
        Command::ListFiles
    } else {
        Command::Unknown
    }
}

/// The lines of the help menu.
pub fn help_lines() -> (lines: Vec<String>)
    ensures
        lines@.len() == 5,
        lines@[0]@ == "h - help menu"@,
        lines@[1]@ == "l - log in"@,
        lines@[2]@ == "u - upload file"@,
        lines@[3]@ == "f - list files"@,
        lines@[4]@ == "d - download file"@,
{
    let mut lines: Vec<String> = Vec::new();
    lines.push(String::from_str("h - help menu"));
    lines.push(String::from_str("l - log in"));
    lines.push(String::from_str("u - upload file"));
    lines.push(String::from_str("f - list files"));
    lines.push(String::from_str("d - download file"));
    lines
}

} // verus!
