//! The typed replies the child sends for each method, and verified decoding
//! of each from the raw result value of a call.
//!
//! Decoding follows the lenient shape the protocol promises: a member a
//! reply may omit defaults (`0`, `false`, `None`, empty), a member that is
//! present must have the right kind, and anything else is a `ParseError`.

use vstd::prelude::*;
use vstd::string::StringExecFns;
use crate::codec::{num_int, str_chars};
use crate::errors::BackendError;
use crate::json::{Jv, jv_of, get_field, as_u64, as_str, as_bool, as_array, is_null};

verus! {

/// One stored conversation session.
#[derive(Debug, Clone, PartialEq)]
pub struct Session {
    pub id: String,
    pub name: String,
    pub codebase_path: Option<String>,
    pub created_at: String,
    pub last_accessed: String,
}

/// Where one indexed chunk came from.
#[derive(Debug, Clone, PartialEq)]
pub struct RagChunkMetadata {
    pub path: String,
    pub chunk_type: String,
    pub language: String,
    pub signature: String,
    pub concepts: Vec<String>,
}

/// The reply of `rag.ingest`.
#[derive(Debug, Clone, PartialEq)]
pub struct RagIngestResponse {
    pub ingested: usize,
    pub source: Option<String>,
    pub error: Option<String>,
}

/// The reply of `rag.status`.
#[derive(Debug, Clone, PartialEq)]
pub struct RagStatusResponse {
    pub initialized: bool,
    pub count: usize,
    pub db_path: Option<String>,
    pub collection: Option<String>,
}

/// The counters `codebase.init` reports.
#[derive(Debug, Clone, PartialEq)]
pub struct CodebaseInitStats {
    pub files_scanned: usize,
    pub units_extracted: usize,
    pub chunks_generated: usize,
}

/// The reply of `codebase.init`.
#[derive(Debug, Clone, PartialEq)]
pub struct CodebaseInitResponse {
    pub chunks: usize,
    pub stats: Option<CodebaseInitStats>,
    pub message: Option<String>,
    pub error: Option<String>,
}

/// One available model.
#[derive(Debug, Clone, PartialEq)]
pub struct ModelInfo {
    pub id: String,
    pub description: String,
}

/// The reply of `model.get`.
#[derive(Debug, Clone, PartialEq)]
pub struct ModelGetResponse {
    pub model: Option<String>,
    pub error: Option<String>,
}

/// The reply of `model.set`.
#[derive(Debug, Clone, PartialEq)]
pub struct ModelSetResponse {
    pub model: Option<String>,
    pub previous: Option<String>,
    pub error: Option<String>,
}

/// The reply of `model.list`.
#[derive(Debug, Clone, PartialEq)]
pub struct ModelListResponse {
    pub models: Vec<ModelInfo>,
}

/// The characters of an optional owned string.
pub open spec fn opt_view(o: Option<String>) -> Option<Seq<char>> {
    match o {
        Some(s) => Some(s@),
        None => None,
    }
}

/// An optional string member is acceptable: absent, `null`, or a string.
pub open spec fn opt_str_ok(m: Map<Seq<char>, Jv>, k: Seq<char>) -> bool {
    m.contains_key(k) ==> (m[k] is Str || m[k] == Jv::Null)
}

/// The value of an optional string member.
pub open spec fn opt_str_val(m: Map<Seq<char>, Jv>, k: Seq<char>) -> Option<Seq<char>> {
    if m.contains_key(k) && m[k] is Str {
        Some(str_chars(m[k]))
    } else {
        None
    }
}

/// A required string member is acceptable: present and a string.
pub open spec fn req_str_ok(m: Map<Seq<char>, Jv>, k: Seq<char>) -> bool {
    m.contains_key(k) && m[k] is Str
}

/// A defaulted count member is acceptable: absent, or a non-negative
/// integer that fits `usize`.
pub open spec fn count_ok(m: Map<Seq<char>, Jv>, k: Seq<char>) -> bool {
    m.contains_key(k) ==> (m[k] matches Jv::UInt(n) && n <= usize::MAX)
}

/// The value of a defaulted count member (0 when absent).
pub open spec fn count_val(m: Map<Seq<char>, Jv>, k: Seq<char>) -> int {
    if m.contains_key(k) {
        num_int(m[k])
    } else {
        0
    }
}

/// A defaulted boolean member is acceptable: absent or a boolean.
pub open spec fn flag_ok(m: Map<Seq<char>, Jv>, k: Seq<char>) -> bool {
    m.contains_key(k) ==> m[k] is Bool
}

/// The value of a defaulted boolean member (`false` when absent).
pub open spec fn flag_val(m: Map<Seq<char>, Jv>, k: Seq<char>) -> bool {
    m.contains_key(k) && m[k] == Jv::Bool(true)
}

fn get_opt_str(v: &serde_json::Value, key: &str) -> (r: Result<Option<String>, ()>)
    requires
        jv_of(*v) is Obj,
    ensures
        match r {
            Ok(o) => opt_str_ok(jv_of(*v)->Obj_0, key@) && opt_view(o) == opt_str_val(
                jv_of(*v)->Obj_0,
                key@,
            ),
            Err(()) => !opt_str_ok(jv_of(*v)->Obj_0, key@),
        },
{
    match get_field(v, key) {
        Some(f) => {
            if is_null(f) {
                Ok(None)
            } else {
                match as_str(f) {
                    Some(s) => Ok(Some(String::from_str(s))),
                    None => Err(()),
                }
            }
        },
        None => Ok(None),
    }
}

fn get_req_str(v: &serde_json::Value, key: &str) -> (r: Result<String, ()>)
    requires
        jv_of(*v) is Obj,
    ensures
        match r {
            Ok(s) => req_str_ok(jv_of(*v)->Obj_0, key@) && s@ == str_chars(
                jv_of(*v)->Obj_0[key@],
            ),
            Err(()) => !req_str_ok(jv_of(*v)->Obj_0, key@),
        },
{
    match get_field(v, key) {
        Some(f) => match as_str(f) {
            Some(s) => Ok(String::from_str(s)),
            None => Err(()),
        },
        None => Err(()),
    }
}

fn get_count(v: &serde_json::Value, key: &str) -> (r: Result<usize, ()>)
    requires
        jv_of(*v) is Obj,
    ensures
        match r {
            Ok(n) => count_ok(jv_of(*v)->Obj_0, key@) && n as int == count_val(
                jv_of(*v)->Obj_0,
                key@,
            ),
            Err(()) => !count_ok(jv_of(*v)->Obj_0, key@),
        },
{
    match get_field(v, key) {
        Some(f) => match as_u64(f) {
            Some(n) => {
                if n <= usize::MAX as u64 {
                    Ok(n as usize)
                } else {
                    Err(())
                }
            },
            None => Err(()),
        },
        None => Ok(0),
    }
}

fn get_flag(v: &serde_json::Value, key: &str) -> (r: Result<bool, ()>)
    requires
        jv_of(*v) is Obj,
    ensures
        match r {
            Ok(b) => flag_ok(jv_of(*v)->Obj_0, key@) && b == flag_val(jv_of(*v)->Obj_0, key@),
            Err(()) => !flag_ok(jv_of(*v)->Obj_0, key@),
        },
{
    match get_field(v, key) {
        Some(f) => match as_bool(f) {
            Some(b) => Ok(b),
            None => Err(()),
        },
        None => Ok(false),
    }
}

fn shape_error() -> (r: BackendError)
    ensures
        r matches BackendError::ParseError(_),
{
    let mut m = String::new();
    m.append("unexpected response shape");
    BackendError::ParseError(m)
}

/// A well-shaped `rag.status` reply.
pub open spec fn rag_status_ok(j: Jv) -> bool {
    &&& j matches Jv::Obj(m)
    &&& flag_ok(m, "initialized"@)
    &&& count_ok(m, "count"@)
    &&& opt_str_ok(m, "db_path"@)
    &&& opt_str_ok(m, "collection"@)
}

/// Decodes the result of `rag.status`.
pub fn parse_rag_status(v: &serde_json::Value) -> (r: Result<RagStatusResponse, BackendError>)
    ensures
        match r {
            Ok(resp) => rag_status_ok(jv_of(*v)) && ({
                let m = jv_of(*v)->Obj_0;
                &&& resp.initialized == flag_val(m, "initialized"@)
                &&& resp.count as int == count_val(m, "count"@)
                &&& opt_view(resp.db_path) == opt_str_val(m, "db_path"@)
                &&& opt_view(resp.collection) == opt_str_val(m, "collection"@)
            }),
            Err(e) => !rag_status_ok(jv_of(*v)) && e matches BackendError::ParseError(_),
        },
{
    if !value_is_obj(v) {
        return Err(shape_error());
    }
    let initialized = match get_flag(v, "initialized") {
        Ok(b) => b,
        Err(()) => {
            return Err(shape_error());
        },
    };
    let count = match get_count(v, "count") {
        Ok(n) => n,
        Err(()) => {
            return Err(shape_error());
        },
    };
    let db_path = match get_opt_str(v, "db_path") {
        Ok(o) => o,
        Err(()) => {
            return Err(shape_error());
        },
    };
    let collection = match get_opt_str(v, "collection") {
        Ok(o) => o,
        Err(()) => {
            return Err(shape_error());
        },
    };
    Ok(RagStatusResponse { initialized, count, db_path, collection })
}

/// Relies on `serde_json::Value::is_object`.
#[verifier::external_body]
fn value_is_obj(v: &serde_json::Value) -> (r: bool)
    ensures
        r == (jv_of(*v) is Obj),
{
    v.is_object()
}

/// A well-shaped `rag.ingest` reply.
pub open spec fn rag_ingest_ok(j: Jv) -> bool {
    &&& j matches Jv::Obj(m)
    &&& count_ok(m, "ingested"@)
    &&& opt_str_ok(m, "source"@)
    &&& opt_str_ok(m, "error"@)
}

/// Decodes the result of `rag.ingest`.
pub fn parse_rag_ingest(v: &serde_json::Value) -> (r: Result<RagIngestResponse, BackendError>)
    ensures
        match r {
            Ok(resp) => rag_ingest_ok(jv_of(*v)) && ({
                let m = jv_of(*v)->Obj_0;
                &&& resp.ingested as int == count_val(m, "ingested"@)
                &&& opt_view(resp.source) == opt_str_val(m, "source"@)
                &&& opt_view(resp.error) == opt_str_val(m, "error"@)
            }),
            Err(e) => !rag_ingest_ok(jv_of(*v)) && e matches BackendError::ParseError(_),
        },
{
    if !value_is_obj(v) {
        return Err(shape_error());
    }
    let ingested = match get_count(v, "ingested") {
        Ok(n) => n,
        Err(()) => {
            return Err(shape_error());
        },
    };
    let source = match get_opt_str(v, "source") {
        Ok(o) => o,
        Err(()) => {
            return Err(shape_error());
        },
    };
    let error = match get_opt_str(v, "error") {
        Ok(o) => o,
        Err(()) => {
            return Err(shape_error());
        },
    };
    Ok(RagIngestResponse { ingested, source, error })
}

/// A well-shaped `codebase.init` statistics member.
pub open spec fn init_stats_ok(j: Jv) -> bool {
    &&& j matches Jv::Obj(m)
    &&& count_ok(m, "files_scanned"@)
    &&& count_ok(m, "units_extracted"@)
    &&& count_ok(m, "chunks_generated"@)
}

/// A well-shaped `codebase.init` reply.
pub open spec fn codebase_init_ok(j: Jv) -> bool {
    &&& j matches Jv::Obj(m)
    &&& count_ok(m, "chunks"@)
    &&& (m.contains_key("stats"@) ==> (m["stats"@] == Jv::Null || init_stats_ok(m["stats"@])))
    &&& opt_str_ok(m, "message"@)
    &&& opt_str_ok(m, "error"@)
}

/// Whether the reply carries a statistics member.
pub open spec fn has_stats(j: Jv) -> bool {
    j matches Jv::Obj(m) && m.contains_key("stats"@) && m["stats"@] != Jv::Null
}

/// Decodes the result of `codebase.init`.
pub fn parse_codebase_init(v: &serde_json::Value) -> (r: Result<
    CodebaseInitResponse,
    BackendError,
>)
    ensures
        match r {
            Ok(resp) => codebase_init_ok(jv_of(*v)) && ({
                let m = jv_of(*v)->Obj_0;
                &&& resp.chunks as int == count_val(m, "chunks"@)
                &&& opt_view(resp.message) == opt_str_val(m, "message"@)
                &&& opt_view(resp.error) == opt_str_val(m, "error"@)
                &&& resp.stats is Some <==> has_stats(jv_of(*v))
                &&& (resp.stats matches Some(st) ==> ({
                    let sm = m["stats"@]->Obj_0;
                    &&& st.files_scanned as int == count_val(sm, "files_scanned"@)
                    &&& st.units_extracted as int == count_val(sm, "units_extracted"@)
                    &&& st.chunks_generated as int == count_val(sm, "chunks_generated"@)
                }))
            }),
            Err(e) => !codebase_init_ok(jv_of(*v)) && e matches BackendError::ParseError(_),
        },
{
    if !value_is_obj(v) {
        return Err(shape_error());
    }
    let chunks = match get_count(v, "chunks") {
        Ok(n) => n,
        Err(()) => {
            return Err(shape_error());
        },
    };
    let message = match get_opt_str(v, "message") {
        Ok(o) => o,
        Err(()) => {
            return Err(shape_error());
        },
    };
    let error = match get_opt_str(v, "error") {
        Ok(o) => o,
        Err(()) => {
            return Err(shape_error());
        },
    };
    let stats: Option<CodebaseInitStats> = match get_field(v, "stats") {
        Some(sv) => {
            if is_null(sv) {
                None
            } else {
                if !value_is_obj(sv) {
                    return Err(shape_error());
                }
                let files_scanned = match get_count(sv, "files_scanned") {
                    Ok(n) => n,
                    Err(()) => {
                        return Err(shape_error());
                    },
                };
                let units_extracted = match get_count(sv, "units_extracted") {
                    Ok(n) => n,
                    Err(()) => {
                        return Err(shape_error());
                    },
                };
                let chunks_generated = match get_count(sv, "chunks_generated") {
                    Ok(n) => n,
                    Err(()) => {
                        return Err(shape_error());
                    },
                };
                Some(CodebaseInitStats { files_scanned, units_extracted, chunks_generated })
            }
        },
        None => None,
    };
    Ok(CodebaseInitResponse { chunks, stats, message, error })
}

/// A well-shaped `model.get` reply.
pub open spec fn model_get_ok(j: Jv) -> bool {
    &&& j matches Jv::Obj(m)
    &&& opt_str_ok(m, "model"@)
    &&& opt_str_ok(m, "error"@)
}

/// Decodes the result of `model.get`.
pub fn parse_model_get(v: &serde_json::Value) -> (r: Result<ModelGetResponse, BackendError>)
    ensures
        match r {
            Ok(resp) => model_get_ok(jv_of(*v)) && ({
                let m = jv_of(*v)->Obj_0;
                &&& opt_view(resp.model) == opt_str_val(m, "model"@)
                &&& opt_view(resp.error) == opt_str_val(m, "error"@)
            }),
            Err(e) => !model_get_ok(jv_of(*v)) && e matches BackendError::ParseError(_),
        },
{
    if !value_is_obj(v) {
        return Err(shape_error());
    }
    let model = match get_opt_str(v, "model") {
        Ok(o) => o,
        Err(()) => {
            return Err(shape_error());
        },
    };
    let error = match get_opt_str(v, "error") {
        Ok(o) => o,
        Err(()) => {
            return Err(shape_error());
        },
    };
    Ok(ModelGetResponse { model, error })
}

/// A well-shaped `model.set` reply.
pub open spec fn model_set_ok(j: Jv) -> bool {
    &&& j matches Jv::Obj(m)
    &&& opt_str_ok(m, "model"@)
    &&& opt_str_ok(m, "previous"@)
    &&& opt_str_ok(m, "error"@)
}

/// Decodes the result of `model.set`.
pub fn parse_model_set(v: &serde_json::Value) -> (r: Result<ModelSetResponse, BackendError>)
    ensures
        match r {
            Ok(resp) => model_set_ok(jv_of(*v)) && ({
                let m = jv_of(*v)->Obj_0;
                &&& opt_view(resp.model) == opt_str_val(m, "model"@)
                &&& opt_view(resp.previous) == opt_str_val(m, "previous"@)
                &&& opt_view(resp.error) == opt_str_val(m, "error"@)
            }),
            Err(e) => !model_set_ok(jv_of(*v)) && e matches BackendError::ParseError(_),
        },
{
    if !value_is_obj(v) {
        return Err(shape_error());
    }
    let model = match get_opt_str(v, "model") {
        Ok(o) => o,
        Err(()) => {
            return Err(shape_error());
        },
    };
    let previous = match get_opt_str(v, "previous") {
        Ok(o) => o,
        Err(()) => {
            return Err(shape_error());
        },
    };
    let error = match get_opt_str(v, "error") {
        Ok(o) => o,
        Err(()) => {
            return Err(shape_error());
        },
    };
    Ok(ModelSetResponse { model, previous, error })
}

/// A well-shaped model entry: required `id` and `description` strings.
pub open spec fn model_info_ok(j: Jv) -> bool {
    &&& j matches Jv::Obj(m)
    &&& req_str_ok(m, "id"@)
    &&& req_str_ok(m, "description"@)
}

/// The fields of one model entry.
pub open spec fn model_info_matches(j: Jv, mi: ModelInfo) -> bool {
    &&& j matches Jv::Obj(m) && mi.id@ == str_chars(m["id"@]) && mi.description@ == str_chars(
        m["description"@],
    )
}

fn parse_model_info(v: &serde_json::Value) -> (r: Result<ModelInfo, ()>)
    ensures
        match r {
            Ok(mi) => model_info_ok(jv_of(*v)) && model_info_matches(jv_of(*v), mi),
            Err(()) => !model_info_ok(jv_of(*v)),
        },
{
    if !value_is_obj(v) {
        return Err(());
    }
    let id = match get_req_str(v, "id") {
        Ok(s) => s,
        Err(()) => {
            return Err(());
        },
    };
    let description = match get_req_str(v, "description") {
        Ok(s) => s,
        Err(()) => {
            return Err(());
        },
    };
    Ok(ModelInfo { id, description })
}

/// A well-shaped `model.list` reply: a defaulted `models` array whose every
/// entry is well shaped.
pub open spec fn model_list_ok(j: Jv) -> bool {
    &&& j matches Jv::Obj(m)
    &&& (m.contains_key("models"@) ==> (m["models"@] matches Jv::Arr(entries) && forall|i: int|
        0 <= i < entries.len() ==> model_info_ok(#[trigger] entries[i])))
}

/// The entries of the `models` array (empty when absent).
pub open spec fn model_list_entries(j: Jv) -> Seq<Jv> {
    match j {
        Jv::Obj(m) => if m.contains_key("models"@) && m["models"@] is Arr {
            m["models"@]->Arr_0
        } else {
            Seq::empty()
        },
        _ => Seq::empty(),
    }
}

/// Decodes the result of `model.list`.
pub fn parse_model_list(v: &serde_json::Value) -> (r: Result<ModelListResponse, BackendError>)
    ensures
        match r {
            Ok(resp) => model_list_ok(jv_of(*v)) && ({
                let entries = model_list_entries(jv_of(*v));
                &&& resp.models@.len() == entries.len()
                &&& forall|i: int|
                    0 <= i < entries.len() ==> model_info_matches(
                        entries[i],
                        #[trigger] resp.models@[i],
                    )
            }),
            Err(e) => !model_list_ok(jv_of(*v)) && e matches BackendError::ParseError(_),
        },
{
    if !value_is_obj(v) {
        return Err(shape_error());
    }
    let arr = match get_field(v, "models") {
        Some(av) => match as_array(av) {
            Some(a) => a,
            None => {
                return Err(shape_error());
            },
        },
        None => {
            return Ok(ModelListResponse { models: Vec::new() });
        },
    };
    let ghost entries = model_list_entries(jv_of(*v));
    proof {
        assert(jv_of(*v)->Obj_0["models"@] == Jv::Arr(entries));
    }
    let mut models: Vec<ModelInfo> = Vec::new();
    let n = arr.len();
    let mut i: usize = 0;
    while i < n
        invariant
            0 <= i <= n == arr@.len(),
            jv_of(*v) is Obj,
            jv_of(*v)->Obj_0.contains_key("models"@),
            jv_of(*v)->Obj_0["models"@] == Jv::Arr(entries),
            entries == model_list_entries(jv_of(*v)),
            entries.len() == arr@.len(),
            forall|k: int| 0 <= k < entries.len() ==> jv_of(arr@[k]) == entries[k],
            models@.len() == i,
            forall|k: int|
                0 <= k < i ==> model_info_ok(#[trigger] entries[k]) && model_info_matches(
                    entries[k],
                    models@[k],
                ),
        decreases n - i,
    {
        let item = &arr[i];
        proof {
            assert(jv_of(arr@[i as int]) == entries[i as int]);
            assert(jv_of(*item) == entries[i as int]);
        }
        match parse_model_info(item) {
            Ok(mi) => {
                let ghost before = models@;
                models.push(mi);
                proof {
                    assert forall|k: int|
                        0 <= k < i + 1 implies model_info_ok(#[trigger] entries[k]) && model_info_matches(
                        entries[k],
                        models@[k],
                    ) by {
                        if k < i {
                            assert(models@[k] == before[k]);
                        } else {
                            assert(models@[k] == mi);
                        }
                    }
                }
            },
            Err(()) => {
                proof {
                    assert(!model_info_ok(entries[i as int]));
                }
                return Err(shape_error());
            },
        }
        i = i + 1;
    }
    Ok(ModelListResponse { models })
}

/// A well-shaped session: required strings, with an optional codebase path.
pub open spec fn session_ok(j: Jv) -> bool {
    &&& j matches Jv::Obj(m)
    &&& req_str_ok(m, "id"@)
    &&& req_str_ok(m, "name"@)
    &&& opt_str_ok(m, "codebase_path"@)
    &&& req_str_ok(m, "created_at"@)
    &&& req_str_ok(m, "last_accessed"@)
}

/// The fields of one session.
pub open spec fn session_matches(j: Jv, s: Session) -> bool {
    &&& j matches Jv::Obj(m) && s.id@ == str_chars(m["id"@]) && s.name@ == str_chars(m["name"@])
        && opt_view(s.codebase_path) == opt_str_val(m, "codebase_path"@) && s.created_at@
        == str_chars(m["created_at"@]) && s.last_accessed@ == str_chars(m["last_accessed"@])
}

/// Decodes one session object.
pub fn parse_session(v: &serde_json::Value) -> (r: Result<Session, BackendError>)
    ensures
        match r {
            Ok(s) => session_ok(jv_of(*v)) && session_matches(jv_of(*v), s),
            Err(e) => !session_ok(jv_of(*v)) && e matches BackendError::ParseError(_),
        },
{
    if !value_is_obj(v) {
        return Err(shape_error());
    }
    let id = match get_req_str(v, "id") {
        Ok(s) => s,
        Err(()) => {
            return Err(shape_error());
        },
    };
    let name = match get_req_str(v, "name") {
        Ok(s) => s,
        Err(()) => {
            return Err(shape_error());
        },
    };
    let codebase_path = match get_opt_str(v, "codebase_path") {
        Ok(o) => o,
        Err(()) => {
            return Err(shape_error());
        },
    };
    let created_at = match get_req_str(v, "created_at") {
        Ok(s) => s,
        Err(()) => {
            return Err(shape_error());
        },
    };
    let last_accessed = match get_req_str(v, "last_accessed") {
        Ok(s) => s,
        Err(()) => {
            return Err(shape_error());
        },
    };
    Ok(Session { id, name, codebase_path, created_at, last_accessed })
}

/// A well-shaped `session.list` reply: a required `sessions` array whose
/// every entry is a well-shaped session.
pub open spec fn session_list_ok(j: Jv) -> bool {
    &&& j matches Jv::Obj(m)
    &&& m.contains_key("sessions"@)
    &&& (m["sessions"@] matches Jv::Arr(entries) && forall|i: int|
        0 <= i < entries.len() ==> session_ok(#[trigger] entries[i]))
}

/// The entries of the `sessions` array.
pub open spec fn session_list_entries(j: Jv) -> Seq<Jv> {
    match j {
        Jv::Obj(m) => if m.contains_key("sessions"@) && m["sessions"@] is Arr {
            m["sessions"@]->Arr_0
        } else {
            Seq::empty()
        },
        _ => Seq::empty(),
    }
}

/// Decodes the result of `session.list`.
pub fn parse_session_list(v: &serde_json::Value) -> (r: Result<Vec<Session>, BackendError>)
    ensures
        match r {
            Ok(sessions) => session_list_ok(jv_of(*v)) && ({
                let entries = session_list_entries(jv_of(*v));
                &&& sessions@.len() == entries.len()
                &&& forall|i: int|
                    0 <= i < entries.len() ==> session_matches(
                        entries[i],
                        #[trigger] sessions@[i],
                    )
            }),
            Err(e) => !session_list_ok(jv_of(*v)) && e matches BackendError::ParseError(_),
        },
{
    if !value_is_obj(v) {
        return Err(shape_error());
    }
    let arr = match get_field(v, "sessions") {
        Some(av) => match as_array(av) {
            Some(a) => a,
            None => {
                return Err(shape_error());
            },
        },
        None => {
            return Err(shape_error());
        },
    };
    let ghost entries = session_list_entries(jv_of(*v));
    proof {
        assert(jv_of(*v)->Obj_0["sessions"@] == Jv::Arr(entries));
    }
    let mut sessions: Vec<Session> = Vec::new();
    let n = arr.len();
    let mut i: usize = 0;
    while i < n
        invariant
            0 <= i <= n == arr@.len(),
            jv_of(*v) is Obj,
            jv_of(*v)->Obj_0.contains_key("sessions"@),
            jv_of(*v)->Obj_0["sessions"@] == Jv::Arr(entries),
            entries == session_list_entries(jv_of(*v)),
            entries.len() == arr@.len(),
            forall|k: int| 0 <= k < entries.len() ==> jv_of(arr@[k]) == entries[k],
            sessions@.len() == i,
            forall|k: int|
                0 <= k < i ==> session_ok(#[trigger] entries[k]) && session_matches(
                    entries[k],
                    sessions@[k],
                ),
        decreases n - i,
    {
        proof {
            assert(jv_of(arr@[i as int]) == entries[i as int]);
        }
        match parse_session(&arr[i]) {
            Ok(s) => {
                let ghost before = sessions@;
                sessions.push(s);
                proof {
                    assert forall|k: int|
                        0 <= k < i + 1 implies session_ok(#[trigger] entries[k]) && session_matches(
                        entries[k],
                        sessions@[k],
                    ) by {
                        if k < i {
                            assert(sessions@[k] == before[k]);
                        } else {
                            assert(sessions@[k] == s);
                        }
                    }
                }
            },
            Err(_) => {
                proof {
                    assert(!session_ok(entries[i as int]));
                }
                return Err(shape_error());
            },
        }
        i = i + 1;
    }
    Ok(sessions)
}

} // verus!
