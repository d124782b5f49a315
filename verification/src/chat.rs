//! Conversations and prompt construction.
//!
//! A request carries an ordered conversation of user, assistant and system
//! messages.  Before a model call the conversation is turned into a
//! model-ready form: for the query stage, the last user message is rewritten
//! into a query-generation prompt and a system prompt carrying the graph's
//! schema is attached; for the answer stage, the last user message is
//! rewritten into an answer prompt carrying the executed query and its
//! result.  Rendering is pure and never fails; the fixed template strings
//! below are the fallback wording the service guarantees.

use vstd::prelude::*;
use vstd::string::*;

verus! {

/// Who spoke a conversation message.
#[derive(Clone, Copy, PartialEq, Eq, Structural, Debug)]
pub enum ChatRole {
    User,
    Assistant,
    System,
}

/// One conversation message.
pub struct ChatMessage {
    pub role: ChatRole,
    pub content: String,
}

/// The mathematical value of a message.
#[verifier::ext_equal]
pub struct ChatMessageV {
    pub role: ChatRole,
    pub content: Seq<char>,
}

impl View for ChatMessage {
    type V = ChatMessageV;

    open spec fn view(&self) -> ChatMessageV {
        ChatMessageV { role: self.role, content: self.content@ }
    }
}

/// The views of a sequence of messages.
pub open spec fn msgs_view(ms: Seq<ChatMessage>) -> Seq<ChatMessageV> {
    Seq::new(ms.len(), |i: int| ms[i]@)
}

/// The conversation part of an incoming request.
pub struct ChatRequest {
    pub messages: Vec<ChatMessage>,
}

impl View for ChatRequest {
    type V = Seq<ChatMessageV>;

    open spec fn view(&self) -> Seq<ChatMessageV> {
        msgs_view(self.messages@)
    }
}

/// A model-ready conversation: an optional system prompt and the messages.
pub struct ModelConversation {
    pub system: Option<String>,
    pub messages: Vec<ChatMessage>,
}

/// The mathematical value of a model-ready conversation.
#[verifier::ext_equal]
pub struct ConversationV {
    pub system: Option<Seq<char>>,
    pub messages: Seq<ChatMessageV>,
}

impl View for ModelConversation {
    type V = ConversationV;

    open spec fn view(&self) -> ConversationV {
        ConversationV {
            system: match self.system {
                Some(ref s) => Some(s@),
                None => None,
            },
            messages: msgs_view(self.messages@),
        }
    }
}

/// The prompt asking the model for a Cypher query answering a question.
pub open spec fn user_prompt_text(question: Seq<char>) -> Seq<char> {
    "Generate an OpenCypher statement for: "@ + question
}

/// The system prompt carrying the graph's schema.
pub open spec fn system_prompt_text(ontology: Seq<char>) -> Seq<char> {
    "Generate OpenCypher statements using this ontology: "@ + ontology
}

/// The prompt asking the model for a final answer from the executed query
/// and its result.
pub open spec fn answer_prompt_text(
    question: Seq<char>,
    cypher_query: Seq<char>,
    cypher_result: Seq<char>,
) -> Seq<char> {
    "Generate an answer for: "@ + question + " using the Cypher query: "@ + cypher_query
        + " and its result: "@ + cypher_result
}

/// The conversation for the query stage: the last message, when it is a
/// user message, is rewritten into the query prompt; everything else is
/// kept as it stands.
pub open spec fn query_messages(msgs: Seq<ChatMessageV>) -> Seq<ChatMessageV> {
    Seq::new(
        msgs.len(),
        |i: int|
            if i == msgs.len() - 1 && msgs[i].role is User {
                ChatMessageV { role: msgs[i].role, content: user_prompt_text(msgs[i].content) }
            } else {
                msgs[i]
            },
    )
}

/// The whole model request for the query stage.
pub open spec fn query_conversation(msgs: Seq<ChatMessageV>, ontology: Seq<char>) -> ConversationV {
    ConversationV { system: Some(system_prompt_text(ontology)), messages: query_messages(msgs) }
}

/// The conversation for the answer stage: the last message, when it is a
/// user message, is rewritten into the answer prompt.
pub open spec fn answer_messages(
    msgs: Seq<ChatMessageV>,
    cypher_query: Seq<char>,
    cypher_result: Seq<char>,
) -> Seq<ChatMessageV> {
    Seq::new(
        msgs.len(),
        |i: int|
            if i == msgs.len() - 1 && msgs[i].role is User {
                ChatMessageV {
                    role: msgs[i].role,
                    content: answer_prompt_text(msgs[i].content, cypher_query, cypher_result),
                }
            } else {
                msgs[i]
            },
    )
}

/// The whole model request for the answer stage; it carries no system
/// prompt.
pub open spec fn answer_conversation(
    msgs: Seq<ChatMessageV>,
    cypher_query: Seq<char>,
    cypher_result: Seq<char>,
) -> ConversationV {
    ConversationV { system: None, messages: answer_messages(msgs, cypher_query, cypher_result) }
}

/// Renders the query prompt for the question in the last user message.
pub fn process_last_user_message(question: &str) -> (r: String)
    ensures
        r@ == user_prompt_text(question@),
{
    let mut s = String::from_str("Generate an OpenCypher statement for: ");
    s.append(question);
    s
}

/// Renders the system prompt around the discovered schema.
pub fn render_system_prompt(ontology: &str) -> (r: String)
    ensures
        r@ == system_prompt_text(ontology@),
{
    let mut s = String::from_str("Generate OpenCypher statements using this ontology: ");
    s.append(ontology);
    s
}

/// Renders the answer prompt from the question, the executed query and its
/// result.
pub fn process_last_request_prompt(content: &str, cypher_query: &str, cypher_result: &str) -> (r:
    String)
    ensures
        r@ == answer_prompt_text(content@, cypher_query@, cypher_result@),
{
    let mut s = String::from_str("Generate an answer for: ");
    s.append(content);
    s.append(" using the Cypher query: ");
    s.append(cypher_query);
    s.append(" and its result: ");
    s.append(cypher_result);
    s
}

/// Builds the query-stage model request: conversation plus schema-bearing
/// system prompt.
pub fn generate_create_cypher_query_chat_request(chat_request: &ChatRequest, ontology: &str) -> (r:
    ModelConversation)
    ensures
        r@ == query_conversation(chat_request@, ontology@),
{
    let n = chat_request.messages.len();
    let mut out: Vec<ChatMessage> = Vec::new();
    let mut i: usize = 0;
    while i < n
        invariant
            i <= n,
            n == chat_request.messages@.len(),
            out@.len() == i,
            msgs_view(out@) =~= query_messages(chat_request@).take(i as int),
        decreases n - i,
    {
        let m = &chat_request.messages[i];
        let content = if i == n - 1 && m.role == ChatRole::User {
            process_last_user_message(m.content.as_str())
        } else {
            m.content.clone()
        };
        out.push(ChatMessage { role: m.role, content });
        proof {
            assert(msgs_view(out@) =~= query_messages(chat_request@).take(i + 1 as int));
        }
        i = i + 1;
    }
    let system = render_system_prompt(ontology);
    let r = ModelConversation { system: Some(system), messages: out };
    proof {
        assert(query_messages(chat_request@).take(n as int) =~= query_messages(chat_request@));
        assert(r@ =~= query_conversation(chat_request@, ontology@));
    }
    r
}

/// Builds the answer-stage model request: conversation with the last user
/// message rewritten around the query and its result.
pub fn generate_answer_chat_request(
    chat_request: &ChatRequest,
    cypher_query: &str,
    cypher_result: &str,
) -> (r: ModelConversation)
    ensures
        r@ == answer_conversation(chat_request@, cypher_query@, cypher_result@),
{
    let n = chat_request.messages.len();
    let mut out: Vec<ChatMessage> = Vec::new();
    let mut i: usize = 0;
    while i < n
        invariant
            i <= n,
            n == chat_request.messages@.len(),
            out@.len() == i,
            msgs_view(out@) =~= answer_messages(
                chat_request@,
                cypher_query@,
                cypher_result@,
            ).take(i as int),
        decreases n - i,
    {
        let m = &chat_request.messages[i];
        let content = if i == n - 1 && m.role == ChatRole::User {
            process_last_request_prompt(m.content.as_str(), cypher_query, cypher_result)
        } else {
            m.content.clone()
        };
        out.push(ChatMessage { role: m.role, content });
        proof {
            assert(msgs_view(out@) =~= answer_messages(
                chat_request@,
                cypher_query@,
                cypher_result@,
            ).take(i + 1 as int));
        }
        i = i + 1;
    }
    let r = ModelConversation { system: None, messages: out };
    proof {
        assert(answer_messages(chat_request@, cypher_query@, cypher_result@).take(n as int)
            =~= answer_messages(chat_request@, cypher_query@, cypher_result@));
        assert(r@ =~= answer_conversation(chat_request@, cypher_query@, cypher_result@));
    }
    r
}

} // verus!
