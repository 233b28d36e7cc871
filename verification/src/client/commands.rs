//! The commands typed at the console client.
use vstd::prelude::*;
use vstd::string::StrSliceExecFns;

verus! {

/// A character with the Unicode `White_Space` property, the whitespace of
/// `char::is_whitespace` and `str::trim`.
pub open spec fn is_white_space(c: char) -> bool {
    ||| '\t' <= c && c <= '\r'
    ||| c == ' '
    ||| c == '\u{85}'
    ||| c == '\u{A0}'
    ||| c == '\u{1680}'
    ||| '\u{2000}' <= c && c <= '\u{200A}'
    ||| c == '\u{2028}'
    ||| c == '\u{2029}'
    ||| c == '\u{202F}'
    ||| c == '\u{205F}'
    ||| c == '\u{3000}'
}

/// The text without its leading whitespace.
pub open spec fn trim_start(s: Seq<char>) -> Seq<char>
    decreases s.len(),
{
    if s.len() > 0 && is_white_space(s[0]) {
        trim_start(s.drop_first())
    } else {
        s
    }
}

/// The text without its trailing whitespace.
pub open spec fn trim_end(s: Seq<char>) -> Seq<char>
    decreases s.len(),
{
    if s.len() > 0 && is_white_space(s.last()) {
        trim_end(s.drop_last())
    } else {
        s
    }
}

/// The text without leading and trailing whitespace.
pub open spec fn trimmed(s: Seq<char>) -> Seq<char> {
    trim_end(trim_start(s))
}

/// What `str::to_lowercase` makes of a text: its characters replaced by
/// their Unicode lowercase mappings, a capital sigma by final or non-final
/// small sigma after its place in a word.
pub uninterp spec fn lowercase(s: Seq<char>) -> Seq<char>;

/// `str::trim`: the text without leading and trailing characters of the
/// Unicode `White_Space` property, as std documents it.
#[verifier::external_body]
fn trim_text(s: &str) -> (t: &str)
    ensures
        t@ == trimmed(s@),
{
    s.trim()
}

/// `str::to_lowercase`: the text in lowercase, after the Unicode lowercase
/// mappings of its characters (a capital sigma after its context); the
/// result is named, not spelled out.
#[verifier::external_body]
fn to_lowercase(s: &str) -> (lower: String)
    ensures
        lower@ == lowercase(s@),
{
    s.to_lowercase()
}

pub enum UserCommand {
    Join,
    Leave,
}

/// The command a keyword stands for.
pub open spec fn keyword_command(word: Seq<char>) -> Option<UserCommand> {
    if word == "join"@ {
        Some(UserCommand::Join)
    } else if word == "leave"@ {
        Some(UserCommand::Leave)
    } else {
        None
    }
}

impl UserCommand {
    /// The command a lowercase keyword stands for: `join` or `leave`.
    pub fn from_keyword(word: &String) -> (cmd: Option<UserCommand>)
        ensures
            cmd == keyword_command(word@),
    {
        let join = "join".to_owned();
        let leave = "leave".to_owned();
        proof {
            reveal_strlit("join");
            reveal_strlit("leave");
        }
        if *word == join {
            Some(UserCommand::Join)
        } else if *word == leave {
            Some(UserCommand::Leave)
        } else {
            None
        }
    }

    /// A console line as a command: the line without surrounding whitespace,
    /// in lowercase, is the keyword.
    pub fn parse(input: &str) -> (cmd: Option<UserCommand>)
        ensures
            cmd == keyword_command(lowercase(trimmed(input@))),
    {
        let word = to_lowercase(trim_text(input));
        Self::from_keyword(&word)
    }
}

/// What the console client does with a line typed at it.
pub enum ConsoleAction {
    /// Join the voice channel; once joined, start playback, then recording.
    Join,
    /// Stop recording and playback, then leave the voice channel.
    Leave,
    /// Warn that the line is no command.
    WarnUnknown,
    /// Nothing: the line is blank.
    Ignore,
}

/// The console client's answer to a line: its command, a warning for
/// another non-blank line, nothing for a blank one.
pub open spec fn console_action_of(line: Seq<char>) -> ConsoleAction {
    match keyword_command(lowercase(trimmed(line))) {
        Some(UserCommand::Join) => ConsoleAction::Join,
        Some(UserCommand::Leave) => ConsoleAction::Leave,
        None => if trimmed(line).len() > 0 {
            ConsoleAction::WarnUnknown
        } else {
            ConsoleAction::Ignore
        },
    }
}

/// The console client's answer to a line typed at it.
pub fn console_action(line: &str) -> (a: ConsoleAction)
    ensures
        a == console_action_of(line@),
{
    match UserCommand::parse(line) {
        Some(UserCommand::Join) => ConsoleAction::Join,
        Some(UserCommand::Leave) => ConsoleAction::Leave,
        None => if trim_text(line).unicode_len() > 0 {
            ConsoleAction::WarnUnknown
        } else {
            ConsoleAction::Ignore
        },
    }
}

} // verus!
