use openagent_tui::errors::BackendError;
use openagent_tui::requests::{
    chat_params, codebase_init_params, empty_params, model_set_params, rag_ingest_params,
    rag_search_params, session_create_params, session_list_params,
};
use openagent_tui::responses::{
    parse_codebase_init, parse_model_get, parse_model_list, parse_model_set, parse_rag_ingest,
    parse_rag_status, parse_session, parse_session_list,
};

fn val(s: &str) -> serde_json::Value {
    serde_json::from_str(s).unwrap()
}

#[test]
fn test_rag_status_response_deserialize() {
    let json = r#"{
        "initialized": true,
        "count": 42,
        "db_path": "/path/to/db",
        "collection": "my_collection"
    }"#;

    let response = parse_rag_status(&val(json)).unwrap();

    assert!(response.initialized);
    assert_eq!(response.count, 42);
}

#[test]
fn test_rag_status_response_not_initialized() {
    let json = r#"{
        "initialized": false,
        "count": 0
    }"#;

    let response = parse_rag_status(&val(json)).unwrap();

    assert!(!response.initialized);
    assert_eq!(response.count, 0);
}

#[test]
fn test_rag_status_defaults_and_errors() {
    // Absent members default; a wrongly typed member is a ParseError.
    let response = parse_rag_status(&val("{}")).unwrap();
    assert!(!response.initialized);
    assert_eq!(response.count, 0);
    assert_eq!(response.db_path, None);

    match parse_rag_status(&val(r#"{"count":"many"}"#)) {
        Err(BackendError::ParseError(_)) => {}
        _ => panic!("expected ParseError"),
    }
    match parse_rag_status(&val("[1,2]")) {
        Err(BackendError::ParseError(_)) => {}
        _ => panic!("expected ParseError for a non-object"),
    }
}

#[test]
fn test_rag_ingest_parsing() {
    let r = parse_rag_ingest(&val(r#"{"ingested":12,"source":"x.json"}"#)).unwrap();
    assert_eq!(r.ingested, 12);
    assert_eq!(r.source.as_deref(), Some("x.json"));
    assert_eq!(r.error, None);
}

#[test]
fn test_codebase_init_parsing() {
    let r = parse_codebase_init(&val(
        r#"{"chunks":7,"stats":{"files_scanned":3,"units_extracted":9,"chunks_generated":7},"message":"ok"}"#,
    ))
    .unwrap();
    assert_eq!(r.chunks, 7);
    let st = r.stats.unwrap();
    assert_eq!(st.files_scanned, 3);
    assert_eq!(st.units_extracted, 9);
    assert_eq!(st.chunks_generated, 7);
    assert_eq!(r.message.as_deref(), Some("ok"));

    let bare = parse_codebase_init(&val(r#"{"chunks":0}"#)).unwrap();
    assert!(bare.stats.is_none());
    assert!(bare.error.is_none());
}

#[test]
fn test_model_get_set_parsing() {
    let g = parse_model_get(&val(r#"{"model":"small"}"#)).unwrap();
    assert_eq!(g.model.as_deref(), Some("small"));

    let s = parse_model_set(&val(r#"{"model":"big","previous":"small"}"#)).unwrap();
    assert_eq!(s.model.as_deref(), Some("big"));
    assert_eq!(s.previous.as_deref(), Some("small"));

    let e = parse_model_set(&val(r#"{"error":"unknown model"}"#)).unwrap();
    assert_eq!(e.error.as_deref(), Some("unknown model"));
}

#[test]
fn test_model_list_parsing() {
    let r = parse_model_list(&val(
        r#"{"models":[{"id":"a","description":"first"},{"id":"b","description":"second"}]}"#,
    ))
    .unwrap();
    assert_eq!(r.models.len(), 2);
    assert_eq!(r.models[0].id, "a");
    assert_eq!(r.models[1].description, "second");

    // A defaulted, absent list is empty; a malformed entry is an error.
    assert_eq!(parse_model_list(&val("{}")).unwrap().models.len(), 0);
    match parse_model_list(&val(r#"{"models":[{"id":"a"}]}"#)) {
        Err(BackendError::ParseError(_)) => {}
        _ => panic!("an entry without a description must be rejected"),
    }
}

#[test]
fn test_session_parsing() {
    let s = parse_session(&val(
        r#"{"id":"s1","name":"proj","codebase_path":"/src","created_at":"t0","last_accessed":"t1"}"#,
    ))
    .unwrap();
    assert_eq!(s.id, "s1");
    assert_eq!(s.name, "proj");
    assert_eq!(s.codebase_path.as_deref(), Some("/src"));

    let list = parse_session_list(&val(
        r#"{"sessions":[{"id":"s1","name":"a","created_at":"t","last_accessed":"t"}]}"#,
    ))
    .unwrap();
    assert_eq!(list.len(), 1);
    assert_eq!(list[0].codebase_path, None);

    match parse_session_list(&val("{}")) {
        Err(BackendError::ParseError(_)) => {}
        _ => panic!("a missing sessions member must be rejected"),
    }
}

#[test]
fn test_request_param_builders() {
    assert_eq!(empty_params(), val("{}"));
    assert_eq!(
        chat_params("hello", true),
        val(r#"{"message":"hello","stream":true}"#)
    );
    assert_eq!(
        session_create_params(Some("name"), Some("/p")),
        val(r#"{"name":"name","codebase_path":"/p"}"#)
    );
    assert_eq!(session_create_params(None, None), val("{}"));
    assert_eq!(session_list_params(None), val(r#"{"limit":20}"#));
    assert_eq!(session_list_params(Some(3)), val(r#"{"limit":3}"#));
    assert_eq!(
        rag_search_params("query terms", None),
        val(r#"{"query":"query terms","n_results":5}"#)
    );
    assert_eq!(
        rag_ingest_params("./data.json"),
        val(r#"{"json_path":"./data.json"}"#)
    );
    assert_eq!(
        codebase_init_params(Some("/src"), true),
        val(r#"{"path":"/src","clear":true}"#)
    );
    assert_eq!(codebase_init_params(None, false), val("{}"));
    assert_eq!(model_set_params("big"), val(r#"{"model":"big"}"#));
}
