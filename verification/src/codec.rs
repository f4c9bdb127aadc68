//! The wire codec: one JSON-RPC 2.0 message per line.
//!
//! [`encode_request`] produces the request line for a method, parameters and
//! id. [`decode_line`] classifies an incoming line as a response, a
//! notification, or unrecognized text; malformed lines are never an error,
//! they simply classify as [`Incoming::Unrecognized`].

use vstd::prelude::*;
use vstd::string::StringExecFns;
use crate::json::{
    Jv, jv_of, parse_of, parse_json, to_json_line, get_field, as_u64, as_i64, as_str, is_null,
    clone_value, new_json_map, insert_field, object_value, string_value, u64_value,
};

verus! {

/// How a response settles its call: the child either returned a result or
/// reported an application-level error.
pub enum CallOutcome {
    Success(serde_json::Value),
    Failure { code: i32, message: String },
}

/// The model of a [`CallOutcome`].
pub enum SpecOutcome {
    Success(Jv),
    Failure { code: int, message: Seq<char> },
}

impl CallOutcome {
    /// The outcome over models.
    pub open spec fn view_outcome(self) -> SpecOutcome {
        match self {
            CallOutcome::Success(v) => SpecOutcome::Success(jv_of(v)),
            CallOutcome::Failure { code, message } => SpecOutcome::Failure {
                code: code as int,
                message: message@,
            },
        }
    }
}

/// One line read from the child, classified.
pub enum Incoming {
    /// An object with a string `jsonrpc` field, an unsigned integer `id`, and
    /// a well-formed `error` object if any: settles the pending call `id`.
    Response { id: u64, outcome: CallOutcome },
    /// An object with string `jsonrpc` and `method` fields that is not a
    /// response; `params` is kept when present and not `null`.
    Notification { method: String, params: Option<serde_json::Value> },
    /// Anything else, including text that is not JSON: ignored.
    Unrecognized,
}

/// The model of an [`Incoming`].
pub enum SpecIncoming {
    Response { id: int, outcome: SpecOutcome },
    Notification { method: Seq<char>, params: Option<Jv> },
    Unrecognized,
}

impl Incoming {
    /// The classification over models.
    pub open spec fn view_incoming(self) -> SpecIncoming {
        match self {
            Incoming::Response { id, outcome } => SpecIncoming::Response {
                id: id as int,
                outcome: outcome.view_outcome(),
            },
            Incoming::Notification { method, params } => SpecIncoming::Notification {
                method: method@,
                params: match params {
                    Some(p) => Some(jv_of(p)),
                    None => None,
                },
            },
            Incoming::Unrecognized => SpecIncoming::Unrecognized,
        }
    }
}

/// A number stored as an integer that fits `i32`.
pub open spec fn fits_i32(j: Jv) -> bool {
    match j {
        Jv::UInt(n) => n <= i32::MAX,
        Jv::NInt(n) => n >= i32::MIN,
        _ => false,
    }
}

/// The value of an integer-backed number (0 for anything else).
pub open spec fn num_int(j: Jv) -> int {
    match j {
        Jv::UInt(n) => n,
        Jv::NInt(n) => n,
        _ => 0,
    }
}

/// The characters of a string value (empty for anything else).
pub open spec fn str_chars(j: Jv) -> Seq<char> {
    match j {
        Jv::Str(s) => s,
        _ => Seq::empty(),
    }
}

/// A well-formed error member: an object with an integer `code` that fits
/// `i32` and a string `message`. (`null` counts as no error at all.)
pub open spec fn error_member_wf(j: Jv) -> bool {
    ||| j == Jv::Null
    ||| (j matches Jv::Obj(m) && m.contains_key("code"@) && fits_i32(m["code"@])
        && m.contains_key("message"@) && m["message"@] is Str)
}

/// A response: an object with a string `jsonrpc`, an `id` stored as an
/// unsigned integer, and a well-formed `error` member if one is present.
pub open spec fn is_response_jv(j: Jv) -> bool {
    &&& j matches Jv::Obj(m)
    &&& m.contains_key("jsonrpc"@) && m["jsonrpc"@] is Str
    &&& m.contains_key("id"@) && m["id"@] is UInt
    &&& (m.contains_key("error"@) ==> error_member_wf(m["error"@]))
}

/// A notification: an object with string `jsonrpc` and `method` fields.
pub open spec fn is_notification_jv(j: Jv) -> bool {
    &&& j matches Jv::Obj(m)
    &&& m.contains_key("jsonrpc"@) && m["jsonrpc"@] is Str
    &&& m.contains_key("method"@) && m["method"@] is Str
}

/// How a response object settles its call: a present, non-`null` `error`
/// member wins; otherwise the `result` member, or `null` when absent.
pub open spec fn spec_outcome_of(m: Map<Seq<char>, Jv>) -> SpecOutcome {
    if m.contains_key("error"@) && m["error"@] != Jv::Null {
        match m["error"@] {
            Jv::Obj(em) => SpecOutcome::Failure {
                code: num_int(em["code"@]),
                message: str_chars(em["message"@]),
            },
            _ => SpecOutcome::Failure { code: 0, message: Seq::empty() },
        }
    } else {
        SpecOutcome::Success(
            if m.contains_key("result"@) {
                m["result"@]
            } else {
                Jv::Null
            },
        )
    }
}

/// How one parsed line is classified: a response if it has the response
/// shape, else a notification if it has that shape, else unrecognized;
/// text that did not parse is unrecognized.
pub open spec fn spec_classify(p: Option<Jv>) -> SpecIncoming {
    match p {
        None => SpecIncoming::Unrecognized,
        Some(j) => if is_response_jv(j) {
            match j {
                Jv::Obj(m) => SpecIncoming::Response {
                    id: num_int(m["id"@]),
                    outcome: spec_outcome_of(m),
                },
                _ => SpecIncoming::Unrecognized,
            }
        } else if is_notification_jv(j) {
            match j {
                Jv::Obj(m) => SpecIncoming::Notification {
                    method: str_chars(m["method"@]),
                    params: if m.contains_key("params"@) && m["params"@] != Jv::Null {
                        Some(m["params"@])
                    } else {
                        None
                    },
                },
                _ => SpecIncoming::Unrecognized,
            }
        } else {
            SpecIncoming::Unrecognized
        },
    }
}

/// Classifies one already-parsed value.
pub fn classify_value(v: &serde_json::Value) -> (r: Incoming)
    ensures
        r.view_incoming() == spec_classify(Some(jv_of(*v))),
{
    // The response shape: string `jsonrpc`, unsigned integer `id`.
    let has_version = match get_field(v, "jsonrpc") {
        Some(ver) => as_str(ver).is_some(),
        None => false,
    };
    if has_version {
        let id_num = match get_field(v, "id") {
            Some(idv) => as_u64(idv),
            None => None,
        };
        if let Some(id) = id_num {
            // A present, non-null `error` member must be well formed,
            // otherwise the line is not a response.
            match get_field(v, "error") {
                Some(err) => {
                    if is_null(err) {
                        return Incoming::Response { id, outcome: success_outcome(v) };
                    }
                    let code_ok: Option<i32> = match get_field(err, "code") {
                        Some(cv) => match as_i64(cv) {
                            Some(n) => if i32::MIN as i64 <= n && n <= i32::MAX as i64 {
                                Some(n as i32)
                            } else {
                                None
                            },
                            None => None,
                        },
                        None => None,
                    };
                    if let Some(code) = code_ok {
                        let msg: Option<String> = match get_field(err, "message") {
                            Some(mv) => match as_str(mv) {
                                Some(s) => Some(String::from_str(s)),
                                None => None,
                            },
                            None => None,
                        };
                        if let Some(message) = msg {
                            return Incoming::Response {
                                id,
                                outcome: CallOutcome::Failure { code, message },
                            };
                        }
                    }
                    // fall through: not a response
                },
                None => {
                    return Incoming::Response { id, outcome: success_outcome(v) };
                },
            }
        }
        // Not a response; perhaps a notification.
        if let Some(mv) = get_field(v, "method") {
            if let Some(method) = as_str(mv) {
                let params: Option<serde_json::Value> = match get_field(v, "params") {
                    Some(p) => if is_null(p) {
                        None
                    } else {
                        Some(clone_value(p))
                    },
                    None => None,
                };
                return Incoming::Notification { method: String::from_str(method), params };
            }
        }
    }
    Incoming::Unrecognized
}

fn success_outcome(v: &serde_json::Value) -> (r: CallOutcome)
    requires
        jv_of(*v) is Obj,
    ensures
        (r matches CallOutcome::Success(res) && jv_of(res) == ({
            let m = jv_of(*v)->Obj_0;
            if m.contains_key("result"@) {
                m["result"@]
            } else {
                Jv::Null
            }
        })),
{
    match get_field(v, "result") {
        Some(res) => CallOutcome::Success(clone_value(res)),
        None => CallOutcome::Success(crate::json::null_value()),
    }
}

/// Classifies one line read from the child. Text that is not well-formed
/// JSON, or JSON of neither the response nor the notification shape, is
/// `Unrecognized` — never an error, so stray child output cannot disturb
/// the reader.
pub fn decode_line(line: &str) -> (r: Incoming)
    ensures
        r.view_incoming() == spec_classify(parse_of(line@)),
{
    match parse_json(line) {
        Some(v) => classify_value(&v),
        None => Incoming::Unrecognized,
    }
}

/// The object a request serializes to: `jsonrpc` 2.0, the method, the
/// parameters, and the id.
pub open spec fn request_jv(method: Seq<char>, params: Jv, id: int) -> Jv {
    Jv::Obj(
        Map::<Seq<char>, Jv>::empty().insert("jsonrpc"@, Jv::Str("2.0"@)).insert(
            "method"@,
            Jv::Str(method),
        ).insert("params"@, params).insert("id"@, Jv::UInt(id)),
    )
}

/// Wrapping parameters in the request envelope costs exactly one level of
/// nesting: the envelope's other members are scalars.
pub proof fn lemma_request_jv_depth(method: Seq<char>, params: Jv, id: int, n: int)
    requires
        crate::json::jv_within_depth(params, n),
        n >= 0,
    ensures
        crate::json::jv_within_depth(request_jv(method, params, id), n + 1),
{
    reveal_strlit("jsonrpc");
    reveal_strlit("method");
    reveal_strlit("params");
    reveal_strlit("id");
    let m = request_jv(method, params, id)->Obj_0;
    assert forall|k: Seq<char>| m.contains_key(k) implies crate::json::jv_within_depth(
        #[trigger] m[k],
        n,
    ) by {
        if k == "params"@ {
        } else {
            assert(m[k] is Str || m[k] is UInt);
        }
    }
}

/// Encodes one request as a single line. The line never contains a newline,
/// so the framing cannot break; parsing the line back yields exactly the
/// request object whenever the parameters nest within 126 levels (the
/// envelope adds one and the reader stops at 127), and never yields any
/// other object. Encoding is total: serialization of a `Value` has no
/// failure path.
pub fn encode_request(method: &str, params: &serde_json::Value, id: u64) -> (r: String)
    ensures
        forall|i: int| 0 <= i < r@.len() ==> r@[i] != '\n',
        crate::json::jv_within_depth(jv_of(*params), 126) ==> parse_of(r@) == Some(
            request_jv(method@, jv_of(*params), id as int),
        ),
        parse_of(r@) matches Some(j) ==> j == request_jv(method@, jv_of(*params), id as int),
{
    let mut m = new_json_map();
    insert_field(&mut m, "jsonrpc", string_value("2.0"));
    insert_field(&mut m, "method", string_value(method));
    insert_field(&mut m, "params", clone_value(params));
    insert_field(&mut m, "id", u64_value(id));
    let v = object_value(m);
    proof {
        if crate::json::jv_within_depth(jv_of(*params), 126) {
            lemma_request_jv_depth(method@, jv_of(*params), id as int, 126);
        }
    }
    to_json_line(&v)
}

} // verus!
