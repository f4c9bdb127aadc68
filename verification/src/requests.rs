//! Builders for the parameter objects of every method the client issues.
//! Each builder pins the exact object that goes on the wire.

use vstd::prelude::*;
use crate::json::{
    Jv, jv_of, empty_obj, new_json_map, insert_field, object_value, string_value, u64_value,
    bool_value,
};

verus! {

/// The characters of an optional borrowed string.
pub open spec fn opt_str_view(o: Option<&str>) -> Option<Seq<char>> {
    match o {
        Some(s) => Some(s@),
        None => None,
    }
}

/// The empty parameter object `{}`.
pub fn empty_params() -> (r: serde_json::Value)
    ensures
        jv_of(r) == Jv::Obj(empty_obj()),
{
    object_value(new_json_map())
}

/// The parameters of `chat.send`: the message and whether to stream.
pub open spec fn chat_params_jv(message: Seq<char>, stream: bool) -> Jv {
    Jv::Obj(empty_obj().insert("message"@, Jv::Str(message)).insert("stream"@, Jv::Bool(stream)))
}

/// Builds the `chat.send` parameters.
pub fn chat_params(message: &str, stream: bool) -> (r: serde_json::Value)
    ensures
        jv_of(r) == chat_params_jv(message@, stream),
{
    let mut m = new_json_map();
    insert_field(&mut m, "message", string_value(message));
    insert_field(&mut m, "stream", bool_value(stream));
    object_value(m)
}

/// The parameters of `session.create`: a name and a codebase path, each
/// present only when given.
pub open spec fn session_create_jv(name: Option<Seq<char>>, path: Option<Seq<char>>) -> Jv {
    let m0 = empty_obj();
    let m1 = match name {
        Some(n) => m0.insert("name"@, Jv::Str(n)),
        None => m0,
    };
    let m2 = match path {
        Some(p) => m1.insert("codebase_path"@, Jv::Str(p)),
        None => m1,
    };
    Jv::Obj(m2)
}

/// Builds the `session.create` parameters.
pub fn session_create_params(name: Option<&str>, codebase_path: Option<&str>) -> (r:
    serde_json::Value)
    ensures
        jv_of(r) == session_create_jv(opt_str_view(name), opt_str_view(codebase_path)),
{
    let mut m = new_json_map();
    if let Some(n) = name {
        insert_field(&mut m, "name", string_value(n));
    }
    if let Some(p) = codebase_path {
        insert_field(&mut m, "codebase_path", string_value(p));
    }
    object_value(m)
}

/// The parameters of `session.list`: the limit, 20 when none was given.
pub open spec fn session_list_jv(limit: Option<u32>) -> Jv {
    Jv::Obj(
        empty_obj().insert(
            "limit"@,
            Jv::UInt(
                match limit {
                    Some(l) => l as int,
                    None => 20,
                },
            ),
        ),
    )
}

/// Builds the `session.list` parameters.
pub fn session_list_params(limit: Option<u32>) -> (r: serde_json::Value)
    ensures
        jv_of(r) == session_list_jv(limit),
{
    let n: u64 = match limit {
        Some(l) => l as u64,
        None => 20,
    };
    let mut m = new_json_map();
    insert_field(&mut m, "limit", u64_value(n));
    object_value(m)
}

/// The parameters of `rag.search`: the query and how many results, 5 when
/// none was given.
pub open spec fn rag_search_jv(query: Seq<char>, n_results: Option<usize>) -> Jv {
    Jv::Obj(
        empty_obj().insert("query"@, Jv::Str(query)).insert(
            "n_results"@,
            Jv::UInt(
                match n_results {
                    Some(n) => n as int,
                    None => 5,
                },
            ),
        ),
    )
}

/// Builds the `rag.search` parameters.
pub fn rag_search_params(query: &str, n_results: Option<usize>) -> (r: serde_json::Value)
    ensures
        jv_of(r) == rag_search_jv(query@, n_results),
{
    let n: u64 = match n_results {
        Some(k) => k as u64,
        None => 5,
    };
    let mut m = new_json_map();
    insert_field(&mut m, "query", string_value(query));
    insert_field(&mut m, "n_results", u64_value(n));
    object_value(m)
}

/// The parameters of `rag.ingest`: the path of the JSON file to ingest.
pub open spec fn rag_ingest_jv(json_path: Seq<char>) -> Jv {
    Jv::Obj(empty_obj().insert("json_path"@, Jv::Str(json_path)))
}

/// Builds the `rag.ingest` parameters.
pub fn rag_ingest_params(json_path: &str) -> (r: serde_json::Value)
    ensures
        jv_of(r) == rag_ingest_jv(json_path@),
{
    let mut m = new_json_map();
    insert_field(&mut m, "json_path", string_value(json_path));
    object_value(m)
}

/// The parameters of `codebase.init`: the path when given, and `clear`
/// only when clearing was asked for.
pub open spec fn codebase_init_jv(path: Option<Seq<char>>, clear: bool) -> Jv {
    let m0 = empty_obj();
    let m1 = match path {
        Some(p) => m0.insert("path"@, Jv::Str(p)),
        None => m0,
    };
    let m2 = if clear {
        m1.insert("clear"@, Jv::Bool(true))
    } else {
        m1
    };
    Jv::Obj(m2)
}

/// Builds the `codebase.init` parameters.
pub fn codebase_init_params(path: Option<&str>, clear: bool) -> (r: serde_json::Value)
    ensures
        jv_of(r) == codebase_init_jv(opt_str_view(path), clear),
{
    let mut m = new_json_map();
    if let Some(p) = path {
        insert_field(&mut m, "path", string_value(p));
    }
    if clear {
        insert_field(&mut m, "clear", bool_value(true));
    }
    object_value(m)
}

/// The parameters of `model.set`: the model id.
pub open spec fn model_set_jv(model: Seq<char>) -> Jv {
    Jv::Obj(empty_obj().insert("model"@, Jv::Str(model)))
}

/// Builds the `model.set` parameters.
pub fn model_set_params(model: &str) -> (r: serde_json::Value)
    ensures
        jv_of(r) == model_set_jv(model@),
{
    let mut m = new_json_map();
    insert_field(&mut m, "model", string_value(model));
    object_value(m)
}

} // verus!
