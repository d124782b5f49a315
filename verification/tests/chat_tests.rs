use text_to_cypher::chat::{
    generate_answer_chat_request, generate_create_cypher_query_chat_request,
    process_last_request_prompt, process_last_user_message, render_system_prompt, ChatMessage,
    ChatRequest, ChatRole,
};

fn msg(role: ChatRole, content: &str) -> ChatMessage {
    ChatMessage { role, content: content.to_string() }
}

#[test]
fn user_prompt_wraps_the_question() {
    let p = process_last_user_message("how many actors?");
    assert_eq!(p, "Generate an OpenCypher statement for: how many actors?");
}

#[test]
fn system_prompt_wraps_the_ontology() {
    let p = render_system_prompt("{\"nodes\":[\"Actor\"]}");
    assert_eq!(
        p,
        "Generate OpenCypher statements using this ontology: {\"nodes\":[\"Actor\"]}"
    );
}

#[test]
fn answer_prompt_carries_question_query_and_result() {
    let p = process_last_request_prompt("how many actors?", "MATCH (a:Actor) RETURN count(a)", "42");
    assert_eq!(
        p,
        "Generate an answer for: how many actors? using the Cypher query: \
         MATCH (a:Actor) RETURN count(a) and its result: 42"
    );
}

#[test]
fn query_request_rewrites_only_the_last_user_message() {
    let req = ChatRequest {
        messages: vec![
            msg(ChatRole::System, "be terse"),
            msg(ChatRole::User, "hello"),
            msg(ChatRole::Assistant, "hi"),
            msg(ChatRole::User, "how many actors?"),
        ],
    };
    let conv = generate_create_cypher_query_chat_request(&req, "ONT");
    assert_eq!(
        conv.system.as_deref(),
        Some("Generate OpenCypher statements using this ontology: ONT")
    );
    assert_eq!(conv.messages.len(), 4);
    assert_eq!(conv.messages[0].content, "be terse");
    assert_eq!(conv.messages[1].content, "hello");
    assert_eq!(conv.messages[2].content, "hi");
    assert_eq!(
        conv.messages[3].content,
        "Generate an OpenCypher statement for: how many actors?"
    );
    assert!(matches!(conv.messages[3].role, ChatRole::User));
}

#[test]
fn query_request_keeps_a_trailing_assistant_message() {
    let req = ChatRequest {
        messages: vec![msg(ChatRole::User, "q"), msg(ChatRole::Assistant, "a")],
    };
    let conv = generate_create_cypher_query_chat_request(&req, "ONT");
    assert_eq!(conv.messages[0].content, "q");
    assert_eq!(conv.messages[1].content, "a");
}

#[test]
fn answer_request_has_no_system_prompt() {
    let req = ChatRequest { messages: vec![msg(ChatRole::User, "how many actors?")] };
    let conv = generate_answer_chat_request(&req, "MATCH (a:Actor) RETURN count(a)", "42");
    assert!(conv.system.is_none());
    assert_eq!(conv.messages.len(), 1);
    assert_eq!(
        conv.messages[0].content,
        "Generate an answer for: how many actors? using the Cypher query: \
         MATCH (a:Actor) RETURN count(a) and its result: 42"
    );
}
