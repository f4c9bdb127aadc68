//! The protocol laws: what the codec and the connection core guarantee
//! together, stated once and proved from their contracts.

use vstd::prelude::*;
use crate::codec::{request_jv, spec_classify, SpecIncoming, SpecOutcome};
use crate::json::{Jv, empty_obj};
use crate::rpc::{events_of_params, params_finish_stream, SpecStreamEvent};

verus! {

/// Encoding a request and parsing the same line back yields an object with
/// exactly the method, parameters and id that were encoded (and the protocol
/// version). `encode_request` guarantees its line parses to `request_jv`
/// whenever the parameters stay within the reader's nesting bound; this law
/// opens that object.
pub proof fn lemma_request_round_trip(
    method: Seq<char>,
    params: Jv,
    id: int,
    line: Seq<char>,
)
    requires
        crate::json::parse_of(line) == Some(request_jv(method, params, id)),
    ensures
        crate::json::parse_of(line) matches Some(j) && (j matches Jv::Obj(m) && m.contains_key(
            "method"@,
        ) && m["method"@] == Jv::Str(method) && m.contains_key("params"@) && m["params"@] == params
            && m.contains_key("id"@) && m["id"@] == Jv::UInt(id) && m.contains_key("jsonrpc"@)
            && m["jsonrpc"@] == Jv::Str("2.0"@)),
{
    reveal_strlit("jsonrpc");
    reveal_strlit("method");
    reveal_strlit("params");
    reveal_strlit("id");
    assert("jsonrpc"@.len() == 7);
    assert("method"@.len() == 6);
    assert("params"@.len() == 6);
    assert("id"@.len() == 2);
    assert("method"@[0] == 'm' && "params"@[0] == 'p');
}

/// The response object carrying `result`.
pub open spec fn response_jv(id: int, result: Jv) -> Jv {
    Jv::Obj(
        empty_obj().insert("jsonrpc"@, Jv::Str("2.0"@)).insert("id"@, Jv::UInt(id)).insert(
            "result"@,
            result,
        ),
    )
}

/// Classifying a response that carries `result = X` yields a response for
/// the same id whose outcome is success with exactly `X`: together with
/// `handle_incoming` and `outcome_to_result`, the dispatcher hands the
/// waiting caller `Ok(X)`.
pub proof fn lemma_response_round_trip(id: u64, result: Jv)
    ensures
        spec_classify(Some(response_jv(id as int, result))) == (SpecIncoming::Response {
            id: id as int,
            outcome: SpecOutcome::Success(result),
        }),
{
    reveal_strlit("jsonrpc");
    reveal_strlit("id");
    reveal_strlit("result");
    reveal_strlit("error");
    assert("jsonrpc"@.len() == 7);
    assert("id"@.len() == 2);
    assert("result"@.len() == 6);
    assert("error"@.len() == 5);
}

/// The number a signed integer is stored as.
pub open spec fn int_jv(n: int) -> Jv {
    if n >= 0 {
        Jv::UInt(n)
    } else {
        Jv::NInt(n)
    }
}

/// The response object reporting an error.
pub open spec fn error_response_jv(id: int, code: int, message: Seq<char>) -> Jv {
    Jv::Obj(
        empty_obj().insert("jsonrpc"@, Jv::Str("2.0"@)).insert("id"@, Jv::UInt(id)).insert(
            "error"@,
            Jv::Obj(
                empty_obj().insert("code"@, int_jv(code)).insert("message"@, Jv::Str(message)),
            ),
        ),
    )
}

/// Classifying a response that reports an error yields a response for the
/// same id whose outcome carries exactly the reported code and message:
/// the waiting caller sees `RpcError` with that code and message.
pub proof fn lemma_error_response_classified(id: u64, code: int, message: Seq<char>)
    requires
        i32::MIN <= code <= i32::MAX,
    ensures
        spec_classify(Some(error_response_jv(id as int, code, message))) == (SpecIncoming::Response {
            id: id as int,
            outcome: SpecOutcome::Failure { code, message },
        }),
{
    reveal_strlit("jsonrpc");
    reveal_strlit("id");
    reveal_strlit("result");
    reveal_strlit("error");
    reveal_strlit("code");
    reveal_strlit("message");
    assert("jsonrpc"@.len() == 7);
    assert("id"@.len() == 2);
    assert("result"@.len() == 6);
    assert("error"@.len() == 5);
    assert("code"@.len() == 4);
    assert("message"@.len() == 7);
    assert("jsonrpc"@[0] == 'j' && "message"@[0] == 'm');
}

/// For concurrent calls with distinct ids, each caller receives exactly the
/// response whose id matches its own request, whatever the interleaving:
/// settling one id neither removes another id nor changes the handle it
/// resolves to, and two ids can be settled in either order.
pub proof fn lemma_response_matches_caller<T>(pend: Map<u64, T>, id_a: u64, id_b: u64)
    requires
        pend.contains_key(id_a),
        pend.contains_key(id_b),
        id_a != id_b,
    ensures
        pend.remove(id_b).contains_key(id_a),
        pend.remove(id_b)[id_a] == pend[id_a],
        pend.remove(id_b).remove(id_a) == pend.remove(id_a).remove(id_b),
{
    assert(pend.remove(id_b).remove(id_a) =~= pend.remove(id_a).remove(id_b));
}

/// A response with an unknown or stale id settles nothing: `take_pending`
/// answers `None` and leaves the table as it was; and settling any id never
/// disturbs the handle registered under a different id.
pub proof fn lemma_stale_id_harmless<T>(pend: Map<u64, T>, id: u64, other: u64)
    requires
        other != id,
        pend.contains_key(other),
    ensures
        pend.remove(id).contains_key(other),
        pend.remove(id)[other] == pend[other],
{
}

/// A call that registers an id and is then abandoned (settled or timed out
/// and cleaned up) leaves the pending table exactly as it was: many
/// timed-out calls cannot make it grow.
pub proof fn lemma_abandoned_call_leaves_no_trace<T>(pend: Map<u64, T>, id: u64, handle: T)
    requires
        !pend.contains_key(id),
    ensures
        pend.insert(id, handle).remove(id) == pend,
{
    assert(pend.insert(id, handle).remove(id) =~= pend);
}

/// The parameter object of an incremental notification.
pub open spec fn chunk_params(text: Seq<char>) -> Jv {
    Jv::Obj(empty_obj().insert("chunk"@, Jv::Str(text)))
}

/// The parameter object of the terminal notification, with its payload.
pub open spec fn done_params(tokens: Jv) -> Jv {
    Jv::Obj(empty_obj().insert("done"@, Jv::Bool(true)).insert("tokens"@, tokens))
}

/// A chunk notification is routed as exactly one `Chunk` carrying its text
/// and leaves the stream open; the terminal notification is routed as
/// exactly one `Done` carrying its payload and finishes the stream — after
/// which `handle_incoming` forwards nothing further. So the consumer
/// observes the chunks in wire order, then one `Done`, then nothing.
pub proof fn lemma_stream_events_ordered(text: Seq<char>, tokens: Jv)
    ensures
        events_of_params(chunk_params(text)) =~= seq![SpecStreamEvent::Chunk(text)],
        !params_finish_stream(chunk_params(text)),
        events_of_params(done_params(tokens)) =~= seq![
            SpecStreamEvent::Done { tokens: Some(tokens) },
        ],
        params_finish_stream(done_params(tokens)),
{
    reveal_strlit("chunk");
    reveal_strlit("done");
    reveal_strlit("tokens");
    assert("chunk"@.len() == 5);
    assert("done"@.len() == 4);
    assert("tokens"@.len() == 6);
}

} // verus!
