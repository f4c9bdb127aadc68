//! The connection core: id allocation, the pending-call table, the single
//! stream slot, and the decision the background reader takes for each
//! incoming message.
//!
//! The core is deliberately free of any I/O: it is a state machine over two
//! opaque handle types. `T` is the completion handle of one call (the sending
//! half of a one-shot channel, say) and `S` is the destination of stream
//! events. The surrounding process plumbing spawns the child, writes encoded
//! request lines, runs the reader loop, and blocks callers on their
//! completion handles; every decision it takes comes from here.

use vstd::prelude::*;
use vstd::string::StringExecFns;
use crate::codec::{CallOutcome, Incoming};
use crate::errors::BackendError;
use crate::json::{Jv, jv_of, get_field, as_str, as_bool, clone_value};
use crate::text::str_eq;

verus! {

/// The life cycle of the connection.
#[derive(Clone, Copy, PartialEq, Eq, Structural, Debug)]
pub enum ConnState {
    NotStarted,
    Running,
    Stopped,
}

/// One event of an active stream: an incremental text fragment, or the
/// terminal marker with the optional final payload the child attached to it.
#[derive(Debug, Clone)]
pub enum StreamEvent {
    Chunk(String),
    Done { tokens: Option<serde_json::Value> },
}

/// The model of a [`StreamEvent`].
pub enum SpecStreamEvent {
    Chunk(Seq<char>),
    Done { tokens: Option<Jv> },
}

impl StreamEvent {
    /// The event over models.
    pub open spec fn view_event(self) -> SpecStreamEvent {
        match self {
            StreamEvent::Chunk(s) => SpecStreamEvent::Chunk(s@),
            StreamEvent::Done { tokens } => SpecStreamEvent::Done {
                tokens: match tokens {
                    Some(t) => Some(jv_of(t)),
                    None => None,
                },
            },
        }
    }
}

/// The events a sequence holds, over models.
pub open spec fn view_events(s: Seq<StreamEvent>) -> Seq<SpecStreamEvent> {
    s.map_values(|e: StreamEvent| e.view_event())
}

/// The method name that designates streaming traffic.
pub open spec fn stream_method() -> Seq<char> {
    "chat.stream"@
}

/// The events one streaming notification carries: a `chunk` string yields a
/// `Chunk`, and `done: true` yields a final `Done` carrying the `tokens`
/// member when one is present. A notification may carry both; the chunk
/// comes first.
pub open spec fn events_of_params(p: Jv) -> Seq<SpecStreamEvent> {
    match p {
        Jv::Obj(m) => {
            let chunk_part = if m.contains_key("chunk"@) && m["chunk"@] is Str {
                seq![SpecStreamEvent::Chunk(crate::codec::str_chars(m["chunk"@]))]
            } else {
                Seq::empty()
            };
            let done_part = if m.contains_key("done"@) && m["done"@] == Jv::Bool(true) {
                seq![
                    SpecStreamEvent::Done {
                        tokens: if m.contains_key("tokens"@) {
                            Some(m["tokens"@])
                        } else {
                            None
                        },
                    },
                ]
            } else {
                Seq::empty()
            };
            chunk_part + done_part
        },
        _ => Seq::empty(),
    }
}

/// Whether a parameter object carries the terminal `done: true` marker.
pub open spec fn params_finish_stream(p: Jv) -> bool {
    p matches Jv::Obj(m) && m.contains_key("done"@) && m["done"@] == Jv::Bool(true)
}

/// Extracts the stream events one notification's parameters carry.
pub fn stream_events(params: &serde_json::Value) -> (r: Vec<StreamEvent>)
    ensures
        view_events(r@) == events_of_params(jv_of(*params)),
{
    let mut out: Vec<StreamEvent> = Vec::new();
    if let Some(cv) = get_field(params, "chunk") {
        if let Some(chunk) = as_str(cv) {
            out.push(StreamEvent::Chunk(String::from_str(chunk)));
        }
    }
    let done = match get_field(params, "done") {
        Some(dv) => match as_bool(dv) {
            Some(b) => b,
            None => false,
        },
        None => false,
    };
    if done {
        let tokens = match get_field(params, "tokens") {
            Some(tv) => Some(clone_value(tv)),
            None => None,
        };
        out.push(StreamEvent::Done { tokens });
    }
    proof {
        assert(view_events(out@) =~= events_of_params(jv_of(*params)));
    }
    out
}

/// The entries of the pending-call table, as a map from id to handle.
pub open spec fn entries_map<T>(s: Seq<(u64, T)>) -> Map<u64, T>
    decreases s.len(),
{
    if s.len() == 0 {
        Map::empty()
    } else {
        entries_map(s.drop_last()).insert(s.last().0, s.last().1)
    }
}

/// No id occurs twice.
pub open spec fn distinct_ids<T>(s: Seq<(u64, T)>) -> bool {
    forall|i: int, j: int| 0 <= i < j < s.len() ==> s[i].0 != s[j].0
}

proof fn lemma_em_contains<T>(s: Seq<(u64, T)>, k: u64)
    ensures
        entries_map(s).contains_key(k) <==> exists|i: int| 0 <= i < s.len() && s[i].0 == k,
    decreases s.len(),
{
    if s.len() > 0 {
        lemma_em_contains(s.drop_last(), k);
        if s.last().0 == k {
            assert(s[s.len() - 1].0 == k);
        } else {
            if exists|i: int| 0 <= i < s.len() && s[i].0 == k {
                let i = choose|i: int| 0 <= i < s.len() && s[i].0 == k;
                assert(s.drop_last()[i] == s[i]);
            }
        }
    }
}

proof fn lemma_em_lookup<T>(s: Seq<(u64, T)>, i: int)
    requires
        distinct_ids(s),
        0 <= i < s.len(),
    ensures
        entries_map(s).contains_key(s[i].0),
        entries_map(s)[s[i].0] == s[i].1,
    decreases s.len(),
{
    if i == s.len() - 1 {
    } else {
        assert(distinct_ids(s.drop_last()));
        assert(s.drop_last()[i] == s[i]);
        lemma_em_lookup(s.drop_last(), i);
        assert(s[i].0 != s.last().0);
    }
}

proof fn lemma_em_remove<T>(s: Seq<(u64, T)>, i: int)
    requires
        distinct_ids(s),
        0 <= i < s.len(),
    ensures
        entries_map(s.remove(i)) == entries_map(s).remove(s[i].0),
    decreases s.len(),
{
    if i == s.len() - 1 {
        assert(s.remove(i) =~= s.drop_last());
        lemma_em_contains(s.drop_last(), s[i].0);
        if entries_map(s.drop_last()).contains_key(s[i].0) {
            let j = choose|j: int| 0 <= j < s.drop_last().len() && s.drop_last()[j].0 == s[i].0;
            assert(s[j] == s.drop_last()[j]);
            assert(false);
        }
        assert(entries_map(s).remove(s[i].0) =~= entries_map(s.drop_last()));
    } else {
        let s2 = s.remove(i);
        assert(s2.drop_last() =~= s.drop_last().remove(i));
        assert(s2.last() == s.last());
        assert(distinct_ids(s.drop_last()));
        assert(forall|j: int| 0 <= j < s.len() - 1 ==> s.drop_last()[j] == s[j]);
        lemma_em_remove(s.drop_last(), i);
        assert(s[i].0 != s.last().0);
        assert(s.drop_last()[i] == s[i]);
        assert(entries_map(s2) =~= entries_map(s).remove(s[i].0));
    }
}

/// The connection core. `T` is the completion handle registered for one
/// call; `S` is the destination installed for the active stream.
pub struct RpcCore<T, S> {
    state: ConnState,
    next_id: u64,
    pending: Vec<(u64, T)>,
    stream: Option<S>,
    stream_done: bool,
}

/// What the reader does with one incoming message: settle a pending call by
/// sending `verdict` on its handle, forward events to the installed stream
/// destination, or nothing.
pub enum ReaderOutcome<T> {
    Deliver { handle: T, verdict: Result<serde_json::Value, BackendError> },
    StreamOut { events: Vec<StreamEvent> },
    Ignore,
}

/// How a call's verdict reflects the response outcome: a result settles the
/// call with `Ok` of the same value; a reported error settles it with
/// `RpcError` carrying the same code and message.
pub open spec fn verdict_matches(o: CallOutcome, v: Result<serde_json::Value, BackendError>) -> bool {
    match o {
        CallOutcome::Success(val) => v matches Ok(rv) && jv_of(rv) == jv_of(val),
        CallOutcome::Failure { code, message } => v matches Err(e) && (e
            matches BackendError::RpcError { code: c, message: m } && c == code && m@ == message@),
    }
}

/// Maps a response outcome to the verdict handed to the waiting caller.
pub fn outcome_to_result(o: CallOutcome) -> (r: Result<serde_json::Value, BackendError>)
    ensures
        verdict_matches(o, r),
{
    match o {
        CallOutcome::Success(val) => Ok(val),
        CallOutcome::Failure { code, message } => Err(BackendError::RpcError { code, message }),
    }
}

/// What a blocked caller returns once its wait ends: the verdict the reader
/// delivered, or `ProcessDied` when the wait timed out with nothing
/// delivered (a hung and a dead child look the same from here).
pub fn await_verdict(received: Option<Result<serde_json::Value, BackendError>>) -> (r: Result<
    serde_json::Value,
    BackendError,
>)
    ensures
        match received {
            Some(v) => r == v,
            None => r matches Err(e) && e matches BackendError::ProcessDied,
        },
{
    match received {
        Some(v) => v,
        None => Err(BackendError::ProcessDied),
    }
}

impl<T, S> RpcCore<T, S> {
    /// The connection state.
    pub closed spec fn conn(self) -> ConnState {
        self.state
    }

    /// Ids handed out so far; the next call gets `ids_used() + 1`.
    pub closed spec fn ids_used(self) -> int {
        self.next_id as int
    }

    /// The pending-call table: every registered, unresolved id with its handle.
    pub closed spec fn pend(self) -> Map<u64, T> {
        entries_map(self.pending@)
    }

    /// The installed stream destination, if any.
    pub closed spec fn stream_slot(self) -> Option<S> {
        self.stream
    }

    /// Whether the active stream has already delivered its terminal event.
    pub closed spec fn stream_finished(self) -> bool {
        self.stream_done
    }

    /// Well-formedness: ids are pairwise distinct, positive, and no larger
    /// than the counter.
    pub closed spec fn wf(self) -> bool {
        &&& distinct_ids(self.pending@)
        &&& forall|i: int|
            0 <= i < self.pending@.len() ==> 1 <= #[trigger] self.pending@[i].0
                <= self.next_id
    }

    /// Both cores hold the same state.
    pub open spec fn same_state(self, other: Self) -> bool {
        &&& self.conn() == other.conn()
        &&& self.ids_used() == other.ids_used()
        &&& self.pend() == other.pend()
        &&& self.stream_slot() == other.stream_slot()
        &&& self.stream_finished() == other.stream_finished()
    }

    /// A fresh core: nothing started, no id used, no pending call, no stream.
    pub fn new() -> (r: Self)
        ensures
            r.wf(),
            r.conn() == ConnState::NotStarted,
            r.ids_used() == 0,
            r.pend() == Map::<u64, T>::empty(),
            r.stream_slot() is None,
            !r.stream_finished(),
    {
        RpcCore {
            state: ConnState::NotStarted,
            next_id: 0,
            pending: Vec::new(),
            stream: None,
            stream_done: false,
        }
    }

    /// Records that the child process was spawned and both pipes acquired.
    pub fn mark_started(&mut self)
        requires
            old(self).wf(),
        ensures
            final(self).wf(),
            final(self).conn() == ConnState::Running,
            final(self).ids_used() == old(self).ids_used(),
            final(self).pend() == old(self).pend(),
            final(self).stream_slot() == old(self).stream_slot(),
            final(self).stream_finished() == old(self).stream_finished(),
    {
        self.state = ConnState::Running;
    }

    /// Records shutdown. Idempotent: stopping twice leaves the same state.
    pub fn mark_stopped(&mut self)
        requires
            old(self).wf(),
        ensures
            final(self).wf(),
            final(self).conn() == ConnState::Stopped,
            final(self).ids_used() == old(self).ids_used(),
            final(self).pend() == old(self).pend(),
            final(self).stream_slot() == old(self).stream_slot(),
            final(self).stream_finished() == old(self).stream_finished(),
    {
        self.state = ConnState::Stopped;
    }

    /// True exactly while the connection is running: after a successful
    /// `mark_started` and before `mark_stopped`.
    pub fn is_running(&self) -> (r: bool)
        ensures
            r == (self.conn() == ConnState::Running),
    {
        match self.state {
            ConnState::Running => true,
            _ => false,
        }
    }

    /// How many ids have been handed out so far.
    pub fn calls_made(&self) -> (r: u64)
        ensures
            r as int == self.ids_used(),
    {
        self.next_id
    }

    /// Begins one call: fails with `NotStarted` unless the connection is
    /// running; otherwise allocates the next id — fresh, never used by any
    /// earlier call of this core — and registers the completion handle
    /// under it.
    pub fn begin_call(&mut self, handle: T) -> (r: Result<u64, BackendError>)
        requires
            old(self).wf(),
            old(self).ids_used() < u64::MAX as int,
        ensures
            final(self).wf(),
            match r {
                Ok(id) => {
                    &&& old(self).conn() == ConnState::Running
                    &&& id as int == old(self).ids_used() + 1
                    &&& !old(self).pend().contains_key(id)
                    &&& final(self).ids_used() == id as int
                    &&& final(self).pend() == old(self).pend().insert(id, handle)
                    &&& final(self).conn() == old(self).conn()
                    &&& final(self).stream_slot() == old(self).stream_slot()
                    &&& final(self).stream_finished() == old(self).stream_finished()
                },
                Err(e) => {
                    &&& e matches BackendError::NotStarted
                    &&& old(self).conn() != ConnState::Running
                    &&& final(self).same_state(*old(self))
                },
            },
    {
        if !self.is_running() {
            return Err(BackendError::NotStarted);
        }
        let id = self.next_id + 1;
        self.next_id = id;
        proof {
            lemma_em_contains(self.pending@, id);
        }
        let ghost before = self.pending@;
        self.pending.push((id, handle));
        proof {
            assert(self.pending@.drop_last() =~= before);
            assert(forall|i: int|
                0 <= i < before.len() ==> self.pending@[i] == before[i]);
        }
        Ok(id)
    }

    /// Removes and returns the handle registered under `id`. An unknown or
    /// already-settled id is a silent no-op returning `None`: the reader must
    /// never fail on a stale id, and no other pending call is touched.
    pub fn take_pending(&mut self, id: u64) -> (r: Option<T>)
        requires
            old(self).wf(),
        ensures
            final(self).wf(),
            final(self).conn() == old(self).conn(),
            final(self).ids_used() == old(self).ids_used(),
            final(self).stream_slot() == old(self).stream_slot(),
            final(self).stream_finished() == old(self).stream_finished(),
            match r {
                Some(h) => {
                    &&& old(self).pend().contains_key(id)
                    &&& h == old(self).pend()[id]
                    &&& final(self).pend() == old(self).pend().remove(id)
                },
                None => {
                    &&& !old(self).pend().contains_key(id)
                    &&& final(self).pend() == old(self).pend()
                },
            },
    {
        let n = self.pending.len();
        let mut i: usize = 0;
        while i < n
            invariant
                *self == *old(self),
                old(self).wf(),
                0 <= i <= n == self.pending@.len(),
                forall|j: int| 0 <= j < i ==> self.pending@[j].0 != id,
            decreases n - i,
        {
            if self.pending[i].0 == id {
                proof {
                    lemma_em_lookup(self.pending@, i as int);
                    lemma_em_remove(self.pending@, i as int);
                }
                let entry = self.pending.remove(i);
                return Some(entry.1);
            }
            i = i + 1;
        }
        proof {
            lemma_em_contains(self.pending@, id);
        }
        None
    }

    /// Installs the destination for a new stream, returning the previous one
    /// (which is thereby cancelled: this core replaces a superseded stream
    /// rather than rejecting the new one). The new stream starts unfinished.
    pub fn install_stream(&mut self, sender: S) -> (prev: Option<S>)
        requires
            old(self).wf(),
        ensures
            final(self).wf(),
            prev == old(self).stream_slot(),
            final(self).stream_slot() == Some(sender),
            !final(self).stream_finished(),
            final(self).conn() == old(self).conn(),
            final(self).ids_used() == old(self).ids_used(),
            final(self).pend() == old(self).pend(),
    {
        let prev = self.stream.take();
        self.stream = Some(sender);
        self.stream_done = false;
        prev
    }

    /// Clears the stream slot; the consumer calls this once it has observed
    /// the terminal event. Returns what was installed.
    pub fn clear_stream(&mut self) -> (prev: Option<S>)
        requires
            old(self).wf(),
        ensures
            final(self).wf(),
            prev == old(self).stream_slot(),
            final(self).stream_slot() is None,
            !final(self).stream_finished(),
            final(self).conn() == old(self).conn(),
            final(self).ids_used() == old(self).ids_used(),
            final(self).pend() == old(self).pend(),
    {
        self.stream_done = false;
        self.stream.take()
    }

    /// The installed stream destination, for the reader to forward events to.
    pub fn stream_handle(&self) -> (r: Option<&S>)
        ensures
            match r {
                Some(s) => self.stream_slot() == Some(*s),
                None => self.stream_slot() is None,
            },
    {
        self.stream.as_ref()
    }

    /// The reader's decision for one incoming message.
    ///
    /// A response settles the matching pending call — and only that one —
    /// with the verdict its outcome dictates; a response whose id is unknown
    /// or stale changes nothing. A streaming notification is forwarded to
    /// the installed destination, in the order its events occur, until the
    /// terminal event has been forwarded; afterwards, and whenever no
    /// destination is installed, its events are dropped. Any other
    /// notification, and unrecognized input, is ignored.
    pub fn handle_incoming(&mut self, inc: Incoming) -> (r: ReaderOutcome<T>)
        requires
            old(self).wf(),
        ensures
            final(self).wf(),
            final(self).conn() == old(self).conn(),
            final(self).ids_used() == old(self).ids_used(),
            final(self).stream_slot() == old(self).stream_slot(),
            match inc {
                Incoming::Response { id, outcome } => {
                    &&& final(self).stream_finished() == old(self).stream_finished()
                    &&& if old(self).pend().contains_key(id) {
                        &&& r matches ReaderOutcome::Deliver { handle, verdict } && handle
                            == old(self).pend()[id] && verdict_matches(outcome, verdict)
                        &&& final(self).pend() == old(self).pend().remove(id)
                    } else {
                        &&& r is Ignore
                        &&& final(self).pend() == old(self).pend()
                    }
                },
                Incoming::Notification { method, params } => {
                    &&& final(self).pend() == old(self).pend()
                    &&& if method@ == stream_method() && params is Some && old(
                        self,
                    ).stream_slot() is Some && !old(self).stream_finished() {
                        &&& r matches ReaderOutcome::StreamOut { events } && view_events(events@)
                            == events_of_params(jv_of(params->0))
                        &&& final(self).stream_finished() == params_finish_stream(
                            jv_of(params->0),
                        )
                    } else {
                        &&& r is Ignore
                        &&& final(self).stream_finished() == old(self).stream_finished()
                    }
                },
                Incoming::Unrecognized => {
                    &&& r is Ignore
                    &&& final(self).pend() == old(self).pend()
                    &&& final(self).stream_finished() == old(self).stream_finished()
                },
            },
    {
        match inc {
            Incoming::Response { id, outcome } => {
                match self.take_pending(id) {
                    Some(handle) => ReaderOutcome::Deliver {
                        handle,
                        verdict: outcome_to_result(outcome),
                    },
                    None => ReaderOutcome::Ignore,
                }
            },
            Incoming::Notification { method, params } => {
                if !str_eq(method.as_str(), "chat.stream") {
                    return ReaderOutcome::Ignore;
                }
                let params = match params {
                    Some(p) => p,
                    None => {
                        return ReaderOutcome::Ignore;
                    },
                };
                let slot_open = match self.stream_handle() {
                    Some(_) => true,
                    None => false,
                };
                if !slot_open || self.stream_done {
                    return ReaderOutcome::Ignore;
                }
                let events = stream_events(&params);
                let finishes = match get_field(&params, "done") {
                    Some(dv) => match as_bool(dv) {
                        Some(b) => b,
                        None => false,
                    },
                    None => false,
                };
                self.stream_done = finishes;
                ReaderOutcome::StreamOut { events }
            },
            Incoming::Unrecognized => ReaderOutcome::Ignore,
        }
    }

    /// Begins a streaming call: installs the destination, then issues the
    /// request like a normal call, whose own eventual response is registered
    /// but not awaited. Fails with `NotStarted`, touching nothing, unless
    /// the connection is running.
    pub fn begin_stream_call(&mut self, handle: T, sender: S) -> (r: Result<u64, BackendError>)
        requires
            old(self).wf(),
            old(self).ids_used() < u64::MAX as int,
        ensures
            final(self).wf(),
            match r {
                Ok(id) => {
                    &&& old(self).conn() == ConnState::Running
                    &&& id as int == old(self).ids_used() + 1
                    &&& !old(self).pend().contains_key(id)
                    &&& final(self).ids_used() == id as int
                    &&& final(self).pend() == old(self).pend().insert(id, handle)
                    &&& final(self).conn() == old(self).conn()
                    &&& final(self).stream_slot() == Some(sender)
                    &&& !final(self).stream_finished()
                },
                Err(e) => {
                    &&& e matches BackendError::NotStarted
                    &&& old(self).conn() != ConnState::Running
                    &&& final(self).same_state(*old(self))
                },
            },
    {
        if !self.is_running() {
            return Err(BackendError::NotStarted);
        }
        let _prev = self.install_stream(sender);
        match self.begin_call(handle) {
            Ok(id) => Ok(id),
            Err(e) => {
                proof {
                    assert(false);
                }
                Err(e)
            },
        }
    }
}

} // verus!
