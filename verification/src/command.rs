//! Slash-command parsing: turns a line of user input into an [`Action`].

use vstd::prelude::*;
use vstd::string::{StrSliceExecFns, StringExecFns};
use crate::text::{find_char_from, spec_trim, str_eq, trim_str, find_char};

verus! {

/// User actions that can be triggered by commands or UI events.
#[derive(Debug, Clone, PartialEq)]
pub enum Action {
    /// Show help message
    Help,
    /// Clear chat history
    ClearHistory,
    /// Initialize codebase indexing
    InitCodebase { clear: bool },
    /// Show RAG status
    ShowRagStatus,
    /// Search RAG
    Search { query: String },
    /// Ingest JSON data
    Ingest { path: String },
    /// Show session info
    ShowSessionInfo,
    /// Get or set model
    Model { id: Option<String> },
    /// Show budget info
    ShowBudget,
    /// Toggle debug mode
    ToggleDebug,
    /// Export chat
    ExportChat,
    /// Quit application
    Quit,
    /// Generic system message (fallback)
    SystemMessage(String),
}

/// The mathematical image of an [`Action`]: the same variants over
/// character sequences.
pub enum SpecAction {
    Help,
    ClearHistory,
    InitCodebase { clear: bool },
    ShowRagStatus,
    Search { query: Seq<char> },
    Ingest { path: Seq<char> },
    ShowSessionInfo,
    Model { id: Option<Seq<char>> },
    ShowBudget,
    ToggleDebug,
    ExportChat,
    Quit,
    SystemMessage(Seq<char>),
}

impl Action {
    /// The action with each owned string replaced by its character sequence.
    pub open spec fn view_action(self) -> SpecAction {
        match self {
            Action::Help => SpecAction::Help,
            Action::ClearHistory => SpecAction::ClearHistory,
            Action::InitCodebase { clear } => SpecAction::InitCodebase { clear },
            Action::ShowRagStatus => SpecAction::ShowRagStatus,
            Action::Search { query } => SpecAction::Search { query: query@ },
            Action::Ingest { path } => SpecAction::Ingest { path: path@ },
            Action::ShowSessionInfo => SpecAction::ShowSessionInfo,
            Action::Model { id } => SpecAction::Model {
                id: match id {
                    Some(s) => Some(s@),
                    None => None,
                },
            },
            Action::ShowBudget => SpecAction::ShowBudget,
            Action::ToggleDebug => SpecAction::ToggleDebug,
            Action::ExportChat => SpecAction::ExportChat,
            Action::Quit => SpecAction::Quit,
            Action::SystemMessage(m) => SpecAction::SystemMessage(m@),
        }
    }
}

/// What parsing a command line yields: the trimmed input is split at the
/// first space into a command word and trimmed arguments; the command word
/// selects the action, and commands that need arguments reject empty ones.
pub open spec fn spec_parse_command(input: Seq<char>) -> Result<SpecAction, Seq<char>> {
    let t = spec_trim(input);
    if !(t.len() > 0 && t[0] == '/') {
        Err("Not a command"@)
    } else {
        let p = find_char_from(t, 0, ' ');
        let cmd = t.subrange(0, p);
        let args = if p < t.len() {
            spec_trim(t.subrange(p + 1, t.len() as int))
        } else {
            Seq::<char>::empty()
        };
        if cmd == "/help"@ {
            Ok(SpecAction::Help)
        } else if cmd == "/clear"@ {
            Ok(SpecAction::ClearHistory)
        } else if cmd == "/init"@ {
            Ok(SpecAction::InitCodebase { clear: args == "--clear"@ || args == "-c"@ })
        } else if cmd == "/rag"@ {
            Ok(SpecAction::ShowRagStatus)
        } else if cmd == "/search"@ {
            if args.len() == 0 {
                Err("Usage: /search <query>\n  Example: /search authentication middleware"@)
            } else {
                Ok(SpecAction::Search { query: args })
            }
        } else if cmd == "/ingest"@ {
            if args.len() == 0 {
                Err("Usage: /ingest <json_path>\n  Example: /ingest ./specs/codebase.json"@)
            } else {
                Ok(SpecAction::Ingest { path: args })
            }
        } else if cmd == "/session"@ {
            Ok(SpecAction::ShowSessionInfo)
        } else if cmd == "/model"@ {
            if args.len() == 0 {
                Ok(SpecAction::Model { id: None })
            } else {
                Ok(SpecAction::Model { id: Some(args) })
            }
        } else if cmd == "/budget"@ {
            Ok(SpecAction::ShowBudget)
        } else if cmd == "/debug"@ {
            Ok(SpecAction::ToggleDebug)
        } else if cmd == "/copy"@ {
            Ok(SpecAction::ExportChat)
        } else if cmd == "/quit"@ {
            Ok(SpecAction::Quit)
        } else {
            Err("Unknown command: "@ + cmd + ". Type /help for available commands."@)
        }
    }
}

pub struct CommandParser;

impl CommandParser {
    /// Parses one line of input as a slash command.
    pub fn parse(input: &str) -> (r: Result<Action, String>)
        ensures
            match r {
                Ok(a) => spec_parse_command(input@) == Ok::<SpecAction, Seq<char>>(a.view_action()),
                Err(m) => spec_parse_command(input@) == Err::<SpecAction, Seq<char>>(m@),
            },
    {
        let t = trim_str(input);
        let n = t.unicode_len();
        if !(n > 0 && t.get_char(0) == '/') {
            let mut m = String::new();
            m.append("Not a command");
            assert(m@ =~= "Not a command"@);
            return Err(m);
        }
        let p = find_char(t, 0, ' ');
        proof {
            crate::text::lemma_find_char_bounds(t@, 0, ' ');
        }
        let cmd = t.substring_char(0, p);
        let args = if p < n {
            trim_str(t.substring_char(p + 1, n))
        } else {
            let empty = t.substring_char(0, 0);
            assert(empty@ =~= Seq::<char>::empty());
            empty
        };
        let na = args.unicode_len();
        if str_eq(cmd, "/help") {
            Ok(Action::Help)
        } else if str_eq(cmd, "/clear") {
            Ok(Action::ClearHistory)
        } else if str_eq(cmd, "/init") {
            let clear = str_eq(args, "--clear") || str_eq(args, "-c");
            Ok(Action::InitCodebase { clear })
        } else if str_eq(cmd, "/rag") {
            Ok(Action::ShowRagStatus)
        } else if str_eq(cmd, "/search") {
            if na == 0 {
                let mut m = String::new();
                m.append("Usage: /search <query>\n  Example: /search authentication middleware");
                assert(m@ =~= "Usage: /search <query>\n  Example: /search authentication middleware"@);
                Err(m)
            } else {
                Ok(Action::Search { query: String::from_str(args) })
            }
        } else if str_eq(cmd, "/ingest") {
            if na == 0 {
                let mut m = String::new();
                m.append("Usage: /ingest <json_path>\n  Example: /ingest ./specs/codebase.json");
                assert(m@ =~= "Usage: /ingest <json_path>\n  Example: /ingest ./specs/codebase.json"@);
                Err(m)
            } else {
                Ok(Action::Ingest { path: String::from_str(args) })
            }
        } else if str_eq(cmd, "/session") {
            Ok(Action::ShowSessionInfo)
        } else if str_eq(cmd, "/model") {
            if na == 0 {
                Ok(Action::Model { id: None })
            } else {
                Ok(Action::Model { id: Some(String::from_str(args)) })
            }
        } else if str_eq(cmd, "/budget") {
            Ok(Action::ShowBudget)
        } else if str_eq(cmd, "/debug") {
            Ok(Action::ToggleDebug)
        } else if str_eq(cmd, "/copy") {
            Ok(Action::ExportChat)
        } else if str_eq(cmd, "/quit") {
            Ok(Action::Quit)
        } else {
            let mut m = String::new();
            m.append("Unknown command: ");
            m.append(cmd);
            m.append(". Type /help for available commands.");
            assert(m@ =~= "Unknown command: "@ + cmd@ + ". Type /help for available commands."@);
            Err(m)
        }
    }
}

} // verus!
