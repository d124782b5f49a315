//! The pipeline orchestrator.
//!
//! One run turns a request into an ordered stream of progress frames by
//! sequencing five stages: model resolution, schema discovery (through the
//! cache), query generation, query execution, and answer synthesis.  The
//! orchestrator is a state machine: every decision lives in [`Pipeline::step`],
//! which consumes one event — the outcome of the previous external call —
//! and returns the frames to emit plus the next external action.  The shell
//! driving the machine performs the action (a discovery, a model call, a
//! query execution), feeds the outcome back in as the next event, and stops
//! the moment a frame can no longer be delivered; it reports that as a
//! [`Event::Disconnected`] event, upon which the machine stops without
//! further actions and without a terminal frame.  The first failure of any
//! stage becomes exactly one terminal `Error` frame.

use vstd::prelude::*;
use vstd::string::*;

use crate::cache::{cache_insert, cache_wf, lookup, CacheV, SchemaCache};
use crate::chat::{
    answer_conversation, generate_answer_chat_request, generate_create_cypher_query_chat_request,
    query_conversation, ChatMessageV, ChatRequest, ConversationV, ModelConversation,
};
use crate::config::AppConfig;
use crate::progress::{
    complete_trace, chunk_concat, frame_views, payload_of, rank, terminal_count, wf_trace,
    Progress, ProgressV,
};
use crate::progress::lemma_complete_trace_one_terminal;
use crate::strutil::{clean_query, clean_query_spec};

verus! {

/// An incoming request: the graph to query, the conversation so far, and an
/// optional model identifier and credential.
pub struct TextToCypherRequest {
    pub graph_name: String,
    pub chat_request: ChatRequest,
    pub model: Option<String>,
    pub key: Option<String>,
}

/// The view of an optional string.
pub open spec fn opt_view(o: Option<String>) -> Option<Seq<char>> {
    match o {
        Some(s) => Some(s@),
        None => None,
    }
}

/// The one-line description of a request, with the credential redacted.
pub open spec fn describe_text(
    graph_name: Seq<char>,
    model: Option<Seq<char>>,
    key_present: bool,
) -> Seq<char> {
    "TextToCypherRequest { graph_name: "@ + graph_name + ", model: "@ + (match model {
        Some(m) => m,
        None => "none"@,
    }) + ", key: "@ + (if key_present {
        "***"@
    } else {
        "none"@
    }) + " }"@
}

impl TextToCypherRequest {
    /// A loggable description of the request that never reveals the
    /// credential: its presence shows as three asterisks.
    pub fn describe(&self) -> (r: String)
        ensures
            r@ == describe_text(self.graph_name@, opt_view(self.model), self.key is Some),
    {
        let mut s = String::from_str("TextToCypherRequest { graph_name: ");
        s.append(self.graph_name.as_str());
        s.append(", model: ");
        match &self.model {
            Some(m) => s.append(m.as_str()),
            None => s.append("none"),
        }
        s.append(", key: ");
        if self.key.is_some() {
            s.append("***");
        } else {
            s.append("none");
        }
        s.append(" }");
        s
    }
}

/// The stages of one run.
#[derive(Clone, Copy, PartialEq, Eq, Structural, Debug)]
pub enum State {
    Start,
    DiscoveringSchema,
    GeneratingQuery,
    ExecutingQuery,
    GeneratingAnswer,
    Done,
}

/// The outcome of the previous external call, fed back into the machine.
pub enum Event {
    /// The run begins; no external call has happened yet.
    Begin,
    /// Schema discovery returned the serialized schema, or failed.
    Discovered(Result<String, String>),
    /// The single-shot model call returned its text, or failed to start.
    ChatDone(Result<String, String>),
    /// Read-only query execution returned the rows as text, or failed.
    QueryDone(Result<String, String>),
    /// The streaming model call produced one chunk of answer text.
    Chunk(String),
    /// The answer stream ended.
    StreamEnd,
    /// The streaming model call failed to start.
    StreamStartFailed(String),
    /// A frame could not be delivered: the consumer is gone.
    Disconnected,
}

/// The mathematical value of an event.
pub enum EventV {
    Begin,
    Discovered(Result<Seq<char>, Seq<char>>),
    ChatDone(Result<Seq<char>, Seq<char>>),
    QueryDone(Result<Seq<char>, Seq<char>>),
    Chunk(Seq<char>),
    StreamEnd,
    StreamStartFailed(Seq<char>),
    Disconnected,
}

impl View for Event {
    type V = EventV;

    open spec fn view(&self) -> EventV {
        match self {
            Event::Begin => EventV::Begin,
            Event::Discovered(Ok(s)) => EventV::Discovered(Ok(s@)),
            Event::Discovered(Err(e)) => EventV::Discovered(Err(e@)),
            Event::ChatDone(Ok(s)) => EventV::ChatDone(Ok(s@)),
            Event::ChatDone(Err(e)) => EventV::ChatDone(Err(e@)),
            Event::QueryDone(Ok(s)) => EventV::QueryDone(Ok(s@)),
            Event::QueryDone(Err(e)) => EventV::QueryDone(Err(e@)),
            Event::Chunk(s) => EventV::Chunk(s@),
            Event::StreamEnd => EventV::StreamEnd,
            Event::StreamStartFailed(e) => EventV::StreamStartFailed(e@),
            Event::Disconnected => EventV::Disconnected,
        }
    }
}

/// What the shell must do next.
pub enum Action {
    /// Discover the schema of the named graph.
    Discover { graph_name: String },
    /// Call the model once with the conversation and hand back its text.
    ChatOnce { conversation: ModelConversation },
    /// Execute the query read-only against the named graph.
    RunQuery { query: String, graph_name: String },
    /// Call the model in streaming mode with the conversation.
    ChatStream { conversation: ModelConversation },
    /// Keep consuming the open answer stream.
    Continue,
    /// The run is over: perform no further external call.
    Stop,
}

/// The mathematical value of an action.
#[verifier::ext_equal]
pub enum ActionV {
    Discover { graph_name: Seq<char> },
    ChatOnce { conversation: ConversationV },
    RunQuery { query: Seq<char>, graph_name: Seq<char> },
    ChatStream { conversation: ConversationV },
    Continue,
    Stop,
}

impl View for Action {
    type V = ActionV;

    open spec fn view(&self) -> ActionV {
        match self {
            Action::Discover { graph_name } => ActionV::Discover { graph_name: graph_name@ },
            Action::ChatOnce { conversation } => ActionV::ChatOnce { conversation: conversation@ },
            Action::RunQuery { query, graph_name } => ActionV::RunQuery {
                query: query@,
                graph_name: graph_name@,
            },
            Action::ChatStream { conversation } => ActionV::ChatStream {
                conversation: conversation@,
            },
            Action::Continue => ActionV::Continue,
            Action::Stop => ActionV::Stop,
        }
    }
}

/// One pipeline run.
pub struct Pipeline {
    pub state: State,
    pub graph_name: String,
    pub chat_request: ChatRequest,
    pub model: Option<String>,
    pub key: Option<String>,
    pub query: Option<String>,
    pub answer: String,
    /// The frames emitted so far, for reasoning about the whole trace.
    pub emitted: Ghost<Seq<ProgressV>>,
    /// Whether the run was cut short by a disconnect.
    pub aborted: Ghost<bool>,
}

/// The mathematical value of a run.
#[verifier::ext_equal]
pub struct PipelineV {
    pub state: State,
    pub graph_name: Seq<char>,
    pub messages: Seq<ChatMessageV>,
    pub model: Option<Seq<char>>,
    pub key: Option<Seq<char>>,
    pub query: Option<Seq<char>>,
    pub answer: Seq<char>,
    pub emitted: Seq<ProgressV>,
    pub aborted: bool,
}

impl View for Pipeline {
    type V = PipelineV;

    open spec fn view(&self) -> PipelineV {
        PipelineV {
            state: self.state,
            graph_name: self.graph_name@,
            messages: self.chat_request@,
            model: opt_view(self.model),
            key: opt_view(self.key),
            query: opt_view(self.query),
            answer: self.answer@,
            emitted: self.emitted@,
            aborted: self.aborted@,
        }
    }
}

/// The leading status frame's text.
pub open spec fn status_text(graph_name: Seq<char>, model: Seq<char>) -> Seq<char> {
    "Processing query for graph: "@ + graph_name + " using model: "@ + model
}

/// The terminal error when neither the request nor the configuration names
/// a model.
pub open spec fn missing_model_text() -> Seq<char> {
    "Model must be provided either in request or as DEFAULT_MODEL in .env file"@
}

/// The terminal error when schema discovery fails.
pub open spec fn discovery_failed_text() -> Seq<char> {
    "Failed to discover schema"@
}

/// The terminal error when a model call fails to start.
pub open spec fn chat_failed_text(e: Seq<char>) -> Seq<char> {
    "Chat request failed: "@ + e
}

/// The terminal error when the cleaned model output is empty.
pub open spec fn no_query_text() -> Seq<char> {
    "No valid query was generated"@
}

/// The terminal error when query execution fails.
pub open spec fn exec_failed_text(e: Seq<char>) -> Seq<char> {
    "Query execution failed: "@ + e
}

/// Which events a state is prepared to consume.  A finished run still
/// accepts the disconnect notice: the shell learns of a disconnect from a
/// failed send, which may happen on the terminal frame itself.
pub open spec fn accepts(state: State, e: EventV) -> bool {
    match state {
        State::Start => e is Begin,
        State::DiscoveringSchema => e is Discovered || e is Disconnected,
        State::GeneratingQuery => e is ChatDone || e is Disconnected,
        State::ExecutingQuery => e is QueryDone || e is Disconnected,
        State::GeneratingAnswer => e is Chunk || e is StreamEnd || e is StreamStartFailed
            || e is Disconnected,
        State::Done => e is Disconnected,
    }
}

/// Everything one step produces: the successor run and cache, the frames
/// emitted, and the next action.
#[verifier::ext_equal]
pub struct StepV {
    pub pipe: PipelineV,
    pub cache: CacheV,
    pub frames: Seq<ProgressV>,
    pub action: ActionV,
}

/// A step that changes nothing and stops; only unreachable event-state
/// pairs map to it.
pub open spec fn stutter(p: PipelineV, c: CacheV) -> StepV {
    StepV { pipe: p, cache: c, frames: seq![], action: ActionV::Stop }
}

/// The full functional model of one orchestrator step.
pub open spec fn spec_step(p: PipelineV, c: CacheV, e: EventV) -> StepV {
    if e is Disconnected {
        StepV {
            pipe: PipelineV { state: State::Done, aborted: true, ..p },
            cache: c,
            frames: seq![],
            action: ActionV::Stop,
        }
    } else {
        match p.state {
            State::Start => spec_step_begin(p, c),
            State::DiscoveringSchema => match e {
                EventV::Discovered(res) => spec_step_discovered(p, c, res),
                _ => stutter(p, c),
            },
            State::GeneratingQuery => match e {
                EventV::ChatDone(res) => spec_step_chat_done(p, c, res),
                _ => stutter(p, c),
            },
            State::ExecutingQuery => match e {
                EventV::QueryDone(res) => spec_step_query_done(p, c, res),
                _ => stutter(p, c),
            },
            State::GeneratingAnswer => match e {
                EventV::Chunk(t) => spec_step_chunk(p, c, t),
                EventV::StreamEnd => spec_step_stream_end(p, c),
                EventV::StreamStartFailed(err) => spec_step_terminal_error(
                    p,
                    c,
                    chat_failed_text(err),
                ),
                _ => stutter(p, c),
            },
            State::Done => stutter(p, c),
        }
    }
}

/// A stage failure: one terminal error frame, then stop.
pub open spec fn spec_step_terminal_error(p: PipelineV, c: CacheV, text: Seq<char>) -> StepV {
    StepV {
        pipe: PipelineV {
            state: State::Done,
            emitted: p.emitted + seq![ProgressV::Error(text)],
            ..p
        },
        cache: c,
        frames: seq![ProgressV::Error(text)],
        action: ActionV::Stop,
    }
}

/// The opening step: resolve the model, emit the status frame, and either
/// serve the schema from the cache or ask for discovery.
pub open spec fn spec_step_begin(p: PipelineV, c: CacheV) -> StepV {
    match p.model {
        None => spec_step_terminal_error(p, c, missing_model_text()),
        Some(model) => {
            let status = ProgressV::Status(status_text(p.graph_name, model));
            match lookup(c.entries, p.graph_name) {
                Some(schema) => StepV {
                    pipe: PipelineV {
                        state: State::GeneratingQuery,
                        emitted: p.emitted + seq![status, ProgressV::Schema(schema)],
                        ..p
                    },
                    cache: cache_insert(c, p.graph_name, schema),
                    frames: seq![status, ProgressV::Schema(schema)],
                    action: ActionV::ChatOnce {
                        conversation: query_conversation(p.messages, schema),
                    },
                },
                None => StepV {
                    pipe: PipelineV {
                        state: State::DiscoveringSchema,
                        emitted: p.emitted + seq![status],
                        ..p
                    },
                    cache: c,
                    frames: seq![status],
                    action: ActionV::Discover { graph_name: p.graph_name },
                },
            }
        },
    }
}

/// After discovery: cache and announce the schema, or fail the run; a
/// failure leaves the cache unmodified.
pub open spec fn spec_step_discovered(
    p: PipelineV,
    c: CacheV,
    res: Result<Seq<char>, Seq<char>>,
) -> StepV {
    match res {
        Ok(schema) => StepV {
            pipe: PipelineV {
                state: State::GeneratingQuery,
                emitted: p.emitted + seq![ProgressV::Schema(schema)],
                ..p
            },
            cache: cache_insert(c, p.graph_name, schema),
            frames: seq![ProgressV::Schema(schema)],
            action: ActionV::ChatOnce { conversation: query_conversation(p.messages, schema) },
        },
        Err(_) => spec_step_terminal_error(p, c, discovery_failed_text()),
    }
}

/// After the query-generating model call: clean the text; an empty result
/// or a transport failure ends the run.
pub open spec fn spec_step_chat_done(
    p: PipelineV,
    c: CacheV,
    res: Result<Seq<char>, Seq<char>>,
) -> StepV {
    match res {
        Ok(text) => {
            let q = clean_query_spec(text);
            if q.len() == 0 {
                spec_step_terminal_error(p, c, no_query_text())
            } else {
                StepV {
                    pipe: PipelineV {
                        state: State::ExecutingQuery,
                        query: Some(q),
                        emitted: p.emitted + seq![ProgressV::CypherQuery(q)],
                        ..p
                    },
                    cache: c,
                    frames: seq![ProgressV::CypherQuery(q)],
                    action: ActionV::RunQuery { query: q, graph_name: p.graph_name },
                }
            }
        },
        Err(e) => spec_step_terminal_error(p, c, chat_failed_text(e)),
    }
}

/// After query execution: announce the rows and ask for the streamed
/// answer, or fail the run.
pub open spec fn spec_step_query_done(
    p: PipelineV,
    c: CacheV,
    res: Result<Seq<char>, Seq<char>>,
) -> StepV {
    match res {
        Ok(rows) => match p.query {
            Some(q) => StepV {
                pipe: PipelineV {
                    state: State::GeneratingAnswer,
                    emitted: p.emitted + seq![ProgressV::CypherResult(rows)],
                    ..p
                },
                cache: c,
                frames: seq![ProgressV::CypherResult(rows)],
                action: ActionV::ChatStream {
                    conversation: answer_conversation(p.messages, q, rows),
                },
            },
            None => stutter(p, c),
        },
        Err(e) => spec_step_terminal_error(p, c, exec_failed_text(e)),
    }
}

/// One chunk of streamed answer: emit it and accumulate it.
pub open spec fn spec_step_chunk(p: PipelineV, c: CacheV, t: Seq<char>) -> StepV {
    StepV {
        pipe: PipelineV {
            answer: p.answer + t,
            emitted: p.emitted + seq![ProgressV::ModelOutputChunk(t)],
            ..p
        },
        cache: c,
        frames: seq![ProgressV::ModelOutputChunk(t)],
        action: ActionV::Continue,
    }
}

/// The stream ended: the accumulated text becomes the terminal result.
pub open spec fn spec_step_stream_end(p: PipelineV, c: CacheV) -> StepV {
    StepV {
        pipe: PipelineV {
            state: State::Done,
            emitted: p.emitted + seq![ProgressV::Result(p.answer)],
            ..p
        },
        cache: c,
        frames: seq![ProgressV::Result(p.answer)],
        action: ActionV::Stop,
    }
}

/// The shape of a run that ended in a `Result` frame: the full ladder, then
/// chunks, then the result carrying exactly the concatenated chunk text.
pub open spec fn result_shape(t: Seq<ProgressV>) -> bool {
    &&& t.len() >= 5
    &&& t[0] is Status
    &&& t[1] is Schema
    &&& t[2] is CypherQuery
    &&& t[3] is CypherResult
    &&& forall|i: int| 4 <= i < t.len() - 1 ==> t[i] is ModelOutputChunk
    &&& t.last() is Result
    &&& payload_of(t.last()) == chunk_concat(t.subrange(4, t.len() - 1))
}

/// The invariant tying each stage to the trace emitted so far.
pub open spec fn inv(p: PipelineV) -> bool {
    match p.state {
        State::Start => !p.aborted && p.emitted.len() == 0 && p.answer.len() == 0,
        State::DiscoveringSchema => !p.aborted && p.model is Some && p.answer.len() == 0
            && p.emitted.len() == 1 && p.emitted[0] is Status,
        State::GeneratingQuery => !p.aborted && p.model is Some && p.answer.len() == 0
            && p.emitted.len() == 2 && p.emitted[0] is Status && p.emitted[1] is Schema,
        State::ExecutingQuery => !p.aborted && p.model is Some && p.query is Some && p.answer.len()
            == 0 && p.emitted.len() == 3 && p.emitted[0] is Status && p.emitted[1] is Schema
            && p.emitted[2] is CypherQuery,
        State::GeneratingAnswer => !p.aborted && p.model is Some && p.query is Some
            && p.emitted.len() >= 4 && p.emitted[0] is Status && p.emitted[1] is Schema
            && p.emitted[2] is CypherQuery && p.emitted[3] is CypherResult && (forall|i: int|
            4 <= i < p.emitted.len() ==> p.emitted[i] is ModelOutputChunk) && chunk_concat(
            p.emitted.skip(4),
        ) == p.answer,
        State::Done => if p.aborted {
            wf_trace(p.emitted)
        } else {
            complete_trace(p.emitted) && (p.emitted.last() is Result ==> result_shape(p.emitted))
        },
    }
}

/// Every trace the invariant allows is well formed.
pub proof fn lemma_inv_wf_trace(p: PipelineV)
    requires
        inv(p),
    ensures
        wf_trace(p.emitted),
{
    let t = p.emitted;
    match p.state {
        State::Start => {},
        State::DiscoveringSchema => {},
        State::GeneratingQuery => {},
        State::ExecutingQuery => {},
        State::GeneratingAnswer => {
            assert forall|i: int, j: int| 0 <= i < j < t.len() implies rank(t[i]) <= rank(t[j]) by {
                if i >= 4 {
                    assert(t[i] is ModelOutputChunk);
                }
                if j >= 4 {
                    assert(t[j] is ModelOutputChunk);
                }
            }
            assert forall|i: int, j: int|
                0 <= i < j < t.len() && rank(t[i]) == rank(t[j]) implies t[i] is ModelOutputChunk by {
                if j >= 4 {
                    assert(t[j] is ModelOutputChunk);
                }
            }
        },
        State::Done => {},
    }
}

/// One step preserves the invariant, and appends exactly its frames to the
/// trace.  Together with [`lemma_inv_wf_trace`] this is the ordering
/// guarantee: every run's frame sequence is a subsequence of the protocol
/// ladder with at most one terminal frame.
pub proof fn lemma_step_preserves_inv(p: PipelineV, c: CacheV, e: EventV)
    requires
        inv(p),
        accepts(p.state, e),
    ensures
        inv(spec_step(p, c, e).pipe),
        spec_step(p, c, e).pipe.emitted == p.emitted + spec_step(p, c, e).frames,
{
    let sv = spec_step(p, c, e);
    let t = sv.pipe.emitted;
    if e is Disconnected {
        lemma_inv_wf_trace(p);
        assert(p.emitted + seq![] =~= p.emitted);
        assert(t =~= p.emitted);
    } else {
        match p.state {
            State::Start => {
                match p.model {
                    None => {
                        assert(t.len() == 1);
                        assert(t.last() is Error);
                    },
                    Some(model) => {
                        match lookup(c.entries, p.graph_name) {
                            Some(schema) => {
                                assert(t.len() == 2);
                            },
                            None => {
                                assert(t.len() == 1);
                            },
                        }
                    },
                }
            },
            State::DiscoveringSchema => {
                match e {
                    EventV::Discovered(res) => {
                        match res {
                            Ok(schema) => {
                                assert(t.len() == 2);
                            },
                            Err(_) => {
                                assert(t.len() == 2);
                                assert(t[0] is Status);
                                assert(t.last() is Error);
                            },
                        }
                    },
                    _ => {},
                }
            },
            State::GeneratingQuery => {
                match e {
                    EventV::ChatDone(res) => {
                        match res {
                            Ok(text) => {
                                assert(t.len() == 3);
                                assert(t[0] is Status && t[1] is Schema);
                            },
                            Err(_) => {
                                assert(t.len() == 3);
                                assert(t.last() is Error);
                            },
                        }
                    },
                    _ => {},
                }
            },
            State::ExecutingQuery => {
                match e {
                    EventV::QueryDone(res) => {
                        match res {
                            Ok(rows) => {
                                assert(t.len() == 4);
                                assert(t.skip(4) =~= Seq::<ProgressV>::empty());
                                assert(chunk_concat(t.skip(4)) == Seq::<char>::empty());
                                assert(p.answer =~= Seq::<char>::empty());
                            },
                            Err(_) => {
                                assert(t.len() == 4);
                                assert(t.last() is Error);
                            },
                        }
                    },
                    _ => {},
                }
            },
            State::GeneratingAnswer => {
                match e {
                    EventV::Chunk(chunk) => {
                        assert(t.len() == p.emitted.len() + 1);
                        assert(forall|i: int| 0 <= i < p.emitted.len() ==> t[i] == p.emitted[i]);
                        assert(t[t.len() - 1] is ModelOutputChunk);
                        let u = t.skip(4);
                        assert(u.drop_last() =~= p.emitted.skip(4));
                        assert(u.last() == ProgressV::ModelOutputChunk(chunk));
                        assert(chunk_concat(u) == chunk_concat(p.emitted.skip(4)) + chunk);
                    },
                    EventV::StreamEnd => {
                        assert(t.len() == p.emitted.len() + 1);
                        assert(forall|i: int| 0 <= i < p.emitted.len() ==> t[i] == p.emitted[i]);
                        assert(t.last() is Result);
                        assert forall|i: int, j: int|
                            0 <= i < j < t.len() implies rank(t[i]) <= rank(t[j]) by {
                            if i >= 4 && i < t.len() - 1 {
                                assert(t[i] is ModelOutputChunk);
                            }
                            if j >= 4 && j < t.len() - 1 {
                                assert(t[j] is ModelOutputChunk);
                            }
                        }
                        assert forall|i: int, j: int|
                            0 <= i < j < t.len() && rank(t[i]) == rank(t[j])
                            implies t[i] is ModelOutputChunk by {
                            if j < t.len() - 1 {
                                if j >= 4 {
                                    assert(t[j] is ModelOutputChunk);
                                }
                            } else {
                                assert(rank(t[j]) == 5);
                                if i >= 4 {
                                    assert(t[i] is ModelOutputChunk);
                                    assert(rank(t[i]) == 4);
                                }
                            }
                        }
                        assert(complete_trace(t));
                        assert(t.subrange(4, t.len() - 1) =~= p.emitted.skip(4));
                        assert(result_shape(t));
                    },
                    EventV::StreamStartFailed(err) => {
                        assert(t.len() == p.emitted.len() + 1);
                        assert(forall|i: int| 0 <= i < p.emitted.len() ==> t[i] == p.emitted[i]);
                        assert(t.last() is Error);
                        assert forall|i: int, j: int|
                            0 <= i < j < t.len() implies rank(t[i]) <= rank(t[j]) by {
                            if i >= 4 && i < t.len() - 1 {
                                assert(t[i] is ModelOutputChunk);
                            }
                            if j >= 4 && j < t.len() - 1 {
                                assert(t[j] is ModelOutputChunk);
                            }
                        }
                        assert forall|i: int, j: int|
                            0 <= i < j < t.len() && rank(t[i]) == rank(t[j])
                            implies t[i] is ModelOutputChunk by {
                            if j < t.len() - 1 {
                                if j >= 4 {
                                    assert(t[j] is ModelOutputChunk);
                                }
                            } else {
                                if i >= 4 {
                                    assert(t[i] is ModelOutputChunk);
                                    assert(rank(t[i]) == 4);
                                }
                            }
                        }
                        assert(complete_trace(t));
                    },
                    _ => {},
                }
            },
            State::Done => {},
        }
    }
}

/// The whole-trace protocol law: under the invariant the emitted frames are
/// a subsequence of Status, Schema, CypherQuery, CypherResult, chunks,
/// terminal; a finished, non-disconnected run holds exactly one terminal
/// frame, and when that frame is a Result it carries exactly the
/// concatenation of the streamed chunks.
pub proof fn lemma_frame_protocol(p: PipelineV)
    requires
        inv(p),
    ensures
        wf_trace(p.emitted),
        p.state is Done && !p.aborted ==> complete_trace(p.emitted) && terminal_count(p.emitted)
            == 1,
        p.state is Done && !p.aborted && p.emitted.last() is Result ==> result_shape(p.emitted),
{
    lemma_inv_wf_trace(p);
    if p.state is Done && !p.aborted {
        lemma_complete_trace_one_terminal(p.emitted);
    }
}

/// When neither the request nor the configuration names a model, the run
/// emits a single Error frame, changes no cache entry, and performs no
/// external action at all.
pub proof fn lemma_missing_model(p: PipelineV, c: CacheV)
    requires
        p.state is Start,
        p.model is None,
    ensures
        spec_step(p, c, EventV::Begin).frames == seq![ProgressV::Error(missing_model_text())],
        spec_step(p, c, EventV::Begin).action == ActionV::Stop,
        spec_step(p, c, EventV::Begin).cache == c,
        spec_step(p, c, EventV::Begin).pipe.state is Done,
{
}

/// A disconnect stops the run at once, in every stage: no frame is emitted,
/// no external action follows, and the cache is untouched.
pub proof fn lemma_disconnect_stops(p: PipelineV, c: CacheV)
    ensures
        spec_step(p, c, EventV::Disconnected).frames == Seq::<ProgressV>::empty(),
        spec_step(p, c, EventV::Disconnected).action == ActionV::Stop,
        spec_step(p, c, EventV::Disconnected).cache == c,
        spec_step(p, c, EventV::Disconnected).pipe.state is Done,
{
    assert(spec_step(p, c, EventV::Disconnected).frames =~= Seq::<ProgressV>::empty());
}

/// The discovery round trip: after a successful discovery step the emitted
/// Schema frame and the cache agree — looking the graph up returns exactly
/// the schema that was announced.
pub proof fn lemma_discovery_roundtrip(p: PipelineV, c: CacheV, schema: Seq<char>)
    requires
        p.state is DiscoveringSchema,
        cache_wf(c),
    ensures
        spec_step(p, c, EventV::Discovered(Ok(schema))).frames == seq![ProgressV::Schema(schema)],
        lookup(spec_step(p, c, EventV::Discovered(Ok(schema))).cache.entries, p.graph_name)
            == Some(schema),
{
    crate::cache::lemma_lookup_insert(c, p.graph_name, schema);
}

/// A cache hit serves the schema without any discovery action: the Schema
/// frame is emitted straight from the cache and the next action is already
/// the model call.
pub proof fn lemma_cache_hit_skips_discovery(p: PipelineV, c: CacheV, schema: Seq<char>)
    requires
        p.state is Start,
        p.model is Some,
        lookup(c.entries, p.graph_name) == Some(schema),
    ensures
        spec_step(p, c, EventV::Begin).frames.len() == 2,
        spec_step(p, c, EventV::Begin).frames[1] == ProgressV::Schema(schema),
        spec_step(p, c, EventV::Begin).action is ChatOnce,
{
}


/// Exec mirror of [`status_text`].
fn status_string(graph_name: &str, model: &str) -> (r: String)
    ensures
        r@ == status_text(graph_name@, model@),
{
    let mut s = String::from_str("Processing query for graph: ");
    s.append(graph_name);
    s.append(" using model: ");
    s.append(model);
    s
}

/// Exec mirror of [`chat_failed_text`].
fn chat_failed_string(e: &str) -> (r: String)
    ensures
        r@ == chat_failed_text(e@),
{
    let mut s = String::from_str("Chat request failed: ");
    s.append(e);
    s
}

/// Exec mirror of [`exec_failed_text`].
fn exec_failed_string(e: &str) -> (r: String)
    ensures
        r@ == exec_failed_text(e@),
{
    let mut s = String::from_str("Query execution failed: ");
    s.append(e);
    s
}

impl Pipeline {
    /// The run's invariant, tying its stage to the trace emitted so far.
    pub open spec fn wf(self) -> bool {
        inv(self@)
    }

    /// Starts a run for a request: a missing model or credential falls back
    /// to the configured default.
    pub fn new(request: TextToCypherRequest, config: &AppConfig) -> (p: Pipeline)
        ensures
            p.wf(),
            p@.state is Start,
            p@.graph_name == request.graph_name@,
            p@.messages == request.chat_request@,
            p@.model == (if request.model is Some {
                opt_view(request.model)
            } else {
                opt_view(config.default_model)
            }),
            p@.key == (if request.key is Some {
                opt_view(request.key)
            } else {
                opt_view(config.default_key)
            }),
            p@.query is None,
            p@.emitted == Seq::<ProgressV>::empty(),
            !p@.aborted,
    {
        let model = match request.model {
            Some(m) => Some(m),
            None => match &config.default_model {
                Some(m) => Some(m.clone()),
                None => None,
            },
        };
        let key = match request.key {
            Some(k) => Some(k),
            None => match &config.default_key {
                Some(k) => Some(k.clone()),
                None => None,
            },
        };
        Pipeline {
            state: State::Start,
            graph_name: request.graph_name,
            chat_request: request.chat_request,
            model,
            key,
            query: None,
            answer: String::new(),
            emitted: Ghost(Seq::empty()),
            aborted: Ghost(false),
        }
    }

    /// One orchestrator step: consumes the outcome of the previous external
    /// call and returns the frames to emit, in order, plus the next action.
    /// The behaviour is exactly [`spec_step`] on the mathematical values.
    pub fn step(&mut self, cache: &mut SchemaCache, event: Event) -> (r: (Vec<Progress>, Action))
        requires
            old(self).wf(),
            cache_wf(old(cache)@),
            accepts(old(self)@.state, event@),
        ensures
            final(self).wf(),
            cache_wf(final(cache)@),
            final(self)@ == spec_step(old(self)@, old(cache)@, event@).pipe,
            final(cache)@ == spec_step(old(self)@, old(cache)@, event@).cache,
            frame_views(r.0@) == spec_step(old(self)@, old(cache)@, event@).frames,
            r.1@ == spec_step(old(self)@, old(cache)@, event@).action,
    {
        let ghost pre = self@;
        let ghost cpre = cache@;
        let ghost sv = spec_step(pre, cpre, event@);
        proof {
            lemma_step_preserves_inv(pre, cpre, event@);
        }
        match event {
            Event::Disconnected => {
                let frames: Vec<Progress> = Vec::new();
                self.state = State::Done;
                self.aborted = Ghost(true);
                proof {
                    assert(frame_views(frames@) =~= sv.frames);
                    assert(self@ =~= sv.pipe);
                }
                (frames, Action::Stop)
            },
            Event::Begin => {
                if self.model.is_none() {
                    let mut frames: Vec<Progress> = Vec::new();
                    frames.push(
                        Progress::Error(
                            String::from_str(
                                "Model must be provided either in request or as DEFAULT_MODEL in .env file",
                            ),
                        ),
                    );
                    self.state = State::Done;
                    self.emitted = Ghost(pre.emitted + frame_views(frames@));
                    proof {
                        assert(frame_views(frames@) =~= sv.frames);
                        assert(self@ =~= sv.pipe);
                    }
                    (frames, Action::Stop)
                } else {
                    let status = status_string(
                        self.graph_name.as_str(),
                        self.model.as_ref().unwrap().as_str(),
                    );
                    match cache.get(&self.graph_name) {
                        Some(schema) => {
                            cache.insert(self.graph_name.clone(), schema.clone());
                            let conversation = generate_create_cypher_query_chat_request(
                                &self.chat_request,
                                schema.as_str(),
                            );
                            let mut frames: Vec<Progress> = Vec::new();
                            frames.push(Progress::Status(status));
                            frames.push(Progress::Schema(schema));
                            self.state = State::GeneratingQuery;
                            self.emitted = Ghost(pre.emitted + frame_views(frames@));
                            proof {
                                assert(frame_views(frames@) =~= sv.frames);
                                assert(self@ =~= sv.pipe);
                                assert(cache@ =~= sv.cache);
                            }
                            (frames, Action::ChatOnce { conversation })
                        },
                        None => {
                            let mut frames: Vec<Progress> = Vec::new();
                            frames.push(Progress::Status(status));
                            self.state = State::DiscoveringSchema;
                            self.emitted = Ghost(pre.emitted + frame_views(frames@));
                            proof {
                                assert(frame_views(frames@) =~= sv.frames);
                                assert(self@ =~= sv.pipe);
                            }
                            (frames, Action::Discover { graph_name: self.graph_name.clone() })
                        },
                    }
                }
            },
            Event::Discovered(res) => match res {
                Ok(schema) => {
                    cache.insert(self.graph_name.clone(), schema.clone());
                    let conversation = generate_create_cypher_query_chat_request(
                        &self.chat_request,
                        schema.as_str(),
                    );
                    let mut frames: Vec<Progress> = Vec::new();
                    frames.push(Progress::Schema(schema));
                    self.state = State::GeneratingQuery;
                    self.emitted = Ghost(pre.emitted + frame_views(frames@));
                    proof {
                        assert(frame_views(frames@) =~= sv.frames);
                        assert(self@ =~= sv.pipe);
                        assert(cache@ =~= sv.cache);
                    }
                    (frames, Action::ChatOnce { conversation })
                },
                Err(_) => {
                    let mut frames: Vec<Progress> = Vec::new();
                    frames.push(Progress::Error(String::from_str("Failed to discover schema")));
                    self.state = State::Done;
                    self.emitted = Ghost(pre.emitted + frame_views(frames@));
                    proof {
                        assert(frame_views(frames@) =~= sv.frames);
                        assert(self@ =~= sv.pipe);
                    }
                    (frames, Action::Stop)
                },
            },
            Event::ChatDone(res) => match res {
                Ok(text) => {
                    let q = clean_query(text.as_str());
                    if q.as_str().is_empty() {
                        let mut frames: Vec<Progress> = Vec::new();
                        frames.push(
                            Progress::Error(String::from_str("No valid query was generated")),
                        );
                        self.state = State::Done;
                        self.emitted = Ghost(pre.emitted + frame_views(frames@));
                        proof {
                            assert(frame_views(frames@) =~= sv.frames);
                            assert(self@ =~= sv.pipe);
                        }
                        (frames, Action::Stop)
                    } else {
                        let mut frames: Vec<Progress> = Vec::new();
                        frames.push(Progress::CypherQuery(q.clone()));
                        self.query = Some(q.clone());
                        self.state = State::ExecutingQuery;
                        self.emitted = Ghost(pre.emitted + frame_views(frames@));
                        proof {
                            assert(frame_views(frames@) =~= sv.frames);
                            assert(self@ =~= sv.pipe);
                        }
                        (frames, Action::RunQuery { query: q, graph_name: self.graph_name.clone() })
                    }
                },
                Err(e) => {
                    let mut frames: Vec<Progress> = Vec::new();
                    frames.push(Progress::Error(chat_failed_string(e.as_str())));
                    self.state = State::Done;
                    self.emitted = Ghost(pre.emitted + frame_views(frames@));
                    proof {
                        assert(frame_views(frames@) =~= sv.frames);
                        assert(self@ =~= sv.pipe);
                    }
                    (frames, Action::Stop)
                },
            },
            Event::QueryDone(res) => match res {
                Ok(rows) => {
                    let conversation = generate_answer_chat_request(
                        &self.chat_request,
                        self.query.as_ref().unwrap().as_str(),
                        rows.as_str(),
                    );
                    let mut frames: Vec<Progress> = Vec::new();
                    frames.push(Progress::CypherResult(rows));
                    self.state = State::GeneratingAnswer;
                    self.emitted = Ghost(pre.emitted + frame_views(frames@));
                    proof {
                        assert(frame_views(frames@) =~= sv.frames);
                        assert(self@ =~= sv.pipe);
                    }
                    (frames, Action::ChatStream { conversation })
                },
                Err(e) => {
                    let mut frames: Vec<Progress> = Vec::new();
                    frames.push(Progress::Error(exec_failed_string(e.as_str())));
                    self.state = State::Done;
                    self.emitted = Ghost(pre.emitted + frame_views(frames@));
                    proof {
                        assert(frame_views(frames@) =~= sv.frames);
                        assert(self@ =~= sv.pipe);
                    }
                    (frames, Action::Stop)
                },
            },
            Event::Chunk(t) => {
                self.answer.append(t.as_str());
                let mut frames: Vec<Progress> = Vec::new();
                frames.push(Progress::ModelOutputChunk(t));
                self.emitted = Ghost(pre.emitted + frame_views(frames@));
                proof {
                    assert(frame_views(frames@) =~= sv.frames);
                    assert(self@ =~= sv.pipe);
                }
                (frames, Action::Continue)
            },
            Event::StreamEnd => {
                let mut frames: Vec<Progress> = Vec::new();
                frames.push(Progress::Result(self.answer.clone()));
                self.state = State::Done;
                self.emitted = Ghost(pre.emitted + frame_views(frames@));
                proof {
                    assert(frame_views(frames@) =~= sv.frames);
                    assert(self@ =~= sv.pipe);
                }
                (frames, Action::Stop)
            },
            Event::StreamStartFailed(e) => {
                let mut frames: Vec<Progress> = Vec::new();
                frames.push(Progress::Error(chat_failed_string(e.as_str())));
                self.state = State::Done;
                self.emitted = Ghost(pre.emitted + frame_views(frames@));
                proof {
                    assert(frame_views(frames@) =~= sv.frames);
                    assert(self@ =~= sv.pipe);
                }
                (frames, Action::Stop)
            },
        }
    }
}

} // verus!

