use openagent_tui::command::{Action, CommandParser};

#[test]
fn test_parse_simple_commands() {
    assert!(matches!(CommandParser::parse("/help"), Ok(Action::Help)));
    assert!(matches!(CommandParser::parse("/clear"), Ok(Action::ClearHistory)));
    assert!(matches!(CommandParser::parse("/rag"), Ok(Action::ShowRagStatus)));
    assert!(matches!(CommandParser::parse("/session"), Ok(Action::ShowSessionInfo)));
    assert!(matches!(CommandParser::parse("/budget"), Ok(Action::ShowBudget)));
    assert!(matches!(CommandParser::parse("/debug"), Ok(Action::ToggleDebug)));
    assert!(matches!(CommandParser::parse("/copy"), Ok(Action::ExportChat)));
    assert!(matches!(CommandParser::parse("/quit"), Ok(Action::Quit)));
}

#[test]
fn test_parse_trims_input() {
    assert!(matches!(CommandParser::parse("  /help  "), Ok(Action::Help)));
}

#[test]
fn test_parse_init_clear_flags() {
    assert!(matches!(
        CommandParser::parse("/init"),
        Ok(Action::InitCodebase { clear: false })
    ));
    assert!(matches!(
        CommandParser::parse("/init --clear"),
        Ok(Action::InitCodebase { clear: true })
    ));
    assert!(matches!(
        CommandParser::parse("/init -c"),
        Ok(Action::InitCodebase { clear: true })
    ));
    assert!(matches!(
        CommandParser::parse("/init now"),
        Ok(Action::InitCodebase { clear: false })
    ));
}

#[test]
fn test_parse_search_needs_query() {
    match CommandParser::parse("/search") {
        Err(m) => assert!(m.starts_with("Usage: /search")),
        _ => panic!("a bare /search must be rejected"),
    }
    match CommandParser::parse("/search auth middleware") {
        Ok(Action::Search { query }) => assert_eq!(query, "auth middleware"),
        _ => panic!("expected a search action"),
    }
}

#[test]
fn test_parse_ingest_needs_path() {
    match CommandParser::parse("/ingest") {
        Err(m) => assert!(m.starts_with("Usage: /ingest")),
        _ => panic!("a bare /ingest must be rejected"),
    }
    match CommandParser::parse("/ingest ./specs/codebase.json") {
        Ok(Action::Ingest { path }) => assert_eq!(path, "./specs/codebase.json"),
        _ => panic!("expected an ingest action"),
    }
}

#[test]
fn test_parse_model_with_and_without_id() {
    assert!(matches!(CommandParser::parse("/model"), Ok(Action::Model { id: None })));
    match CommandParser::parse("/model small") {
        Ok(Action::Model { id: Some(id) }) => assert_eq!(id, "small"),
        _ => panic!("expected a model action"),
    }
}

#[test]
fn test_parse_rejects_non_commands_and_unknown() {
    match CommandParser::parse("hello") {
        Err(m) => assert_eq!(m, "Not a command"),
        _ => panic!("plain text is not a command"),
    }
    match CommandParser::parse("/frobnicate") {
        Err(m) => {
            assert_eq!(m, "Unknown command: /frobnicate. Type /help for available commands.")
        }
        _ => panic!("unknown commands are rejected"),
    }
}
