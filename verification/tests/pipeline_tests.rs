use text_to_cypher::cache::SchemaCache;
use text_to_cypher::chat::{ChatMessage, ChatRequest, ChatRole};
use text_to_cypher::config::AppConfig;
use text_to_cypher::pipeline::{Action, Event, Pipeline, TextToCypherRequest};
use text_to_cypher::progress::Progress;

fn request(graph: &str, question: &str, model: Option<&str>) -> TextToCypherRequest {
    TextToCypherRequest {
        graph_name: graph.to_string(),
        chat_request: ChatRequest {
            messages: vec![ChatMessage {
                role: ChatRole::User,
                content: question.to_string(),
            }],
        },
        model: model.map(|m| m.to_string()),
        key: None,
    }
}

fn config(default_model: Option<&str>, default_key: Option<&str>) -> AppConfig {
    AppConfig::new(
        "falkor://127.0.0.1:6379".to_string(),
        default_model.map(|m| m.to_string()),
        default_key.map(|k| k.to_string()),
    )
}

fn jsons(frames: &[Progress]) -> Vec<String> {
    frames.iter().map(|f| f.to_json()).collect()
}

#[test]
fn full_run_emits_the_ordered_frame_sequence() {
    let mut cache = SchemaCache::new(100);
    let mut p = Pipeline::new(request("movies", "how many actors?", Some("gpt-x")), &config(None, None));

    let (frames, action) = p.step(&mut cache, Event::Begin);
    assert_eq!(
        jsons(&frames),
        vec!["{\"Status\":\"Processing query for graph: movies using model: gpt-x\"}"]
    );
    assert!(matches!(action, Action::Discover { ref graph_name } if graph_name == "movies"));

    let schema = "{\"nodes\":[\"Actor\"]}";
    let (frames, action) = p.step(&mut cache, Event::Discovered(Ok(schema.to_string())));
    assert_eq!(
        jsons(&frames),
        vec!["{\"Schema\":\"{\\\"nodes\\\":[\\\"Actor\\\"]}\"}"]
    );
    // The discovered schema is now cached under the graph identifier,
    // exactly as it was announced in the Schema frame.
    assert_eq!(cache.get(&"movies".to_string()), Some(schema.to_string()));
    let conversation = match action {
        Action::ChatOnce { conversation } => conversation,
        _ => panic!("expected a single-shot model call"),
    };
    assert_eq!(
        conversation.system.as_deref(),
        Some("Generate OpenCypher statements using this ontology: {\"nodes\":[\"Actor\"]}")
    );
    assert_eq!(
        conversation.messages[0].content,
        "Generate an OpenCypher statement for: how many actors?"
    );

    let (frames, action) = p.step(
        &mut cache,
        Event::ChatDone(Ok("```\nMATCH (a:Actor) RETURN count(a)\n```".to_string())),
    );
    assert_eq!(
        jsons(&frames),
        vec!["{\"CypherQuery\":\"MATCH (a:Actor) RETURN count(a)\"}"]
    );
    match action {
        Action::RunQuery { query, graph_name } => {
            assert_eq!(query, "MATCH (a:Actor) RETURN count(a)");
            assert_eq!(graph_name, "movies");
        },
        _ => panic!("expected a query execution"),
    }

    let (frames, action) = p.step(&mut cache, Event::QueryDone(Ok("42".to_string())));
    assert_eq!(jsons(&frames), vec!["{\"CypherResult\":\"42\"}"]);
    let conversation = match action {
        Action::ChatStream { conversation } => conversation,
        _ => panic!("expected a streaming model call"),
    };
    assert!(conversation.system.is_none());
    assert_eq!(
        conversation.messages[0].content,
        "Generate an answer for: how many actors? using the Cypher query: \
         MATCH (a:Actor) RETURN count(a) and its result: 42"
    );

    let (frames, action) = p.step(&mut cache, Event::Chunk("There are 42 actors.".to_string()));
    assert_eq!(
        jsons(&frames),
        vec!["{\"ModelOutputChunk\":\"There are 42 actors.\"}"]
    );
    assert!(matches!(action, Action::Continue));

    let (frames, action) = p.step(&mut cache, Event::StreamEnd);
    assert_eq!(jsons(&frames), vec!["{\"Result\":\"There are 42 actors.\"}"]);
    assert!(matches!(action, Action::Stop));
}

#[test]
fn second_call_is_served_from_the_cache() {
    let mut cache = SchemaCache::new(100);
    let cfg = config(None, None);
    let schema = "{\"nodes\":[\"Actor\"]}";

    let mut first = Pipeline::new(request("movies", "how many actors?", Some("gpt-x")), &cfg);
    let (_, action) = first.step(&mut cache, Event::Begin);
    assert!(matches!(action, Action::Discover { .. }));
    first.step(&mut cache, Event::Discovered(Ok(schema.to_string())));

    // The identical second call: the discovery adapter is never asked;
    // the Schema frame is still emitted, straight from the cache.
    let mut second = Pipeline::new(request("movies", "how many actors?", Some("gpt-x")), &cfg);
    let (frames, action) = second.step(&mut cache, Event::Begin);
    assert_eq!(frames.len(), 2);
    assert_eq!(
        frames[1].to_json(),
        "{\"Schema\":\"{\\\"nodes\\\":[\\\"Actor\\\"]}\"}"
    );
    assert!(matches!(action, Action::ChatOnce { .. }));
}

#[test]
fn missing_model_yields_a_single_error_and_no_action() {
    let mut cache = SchemaCache::new(100);
    let mut p = Pipeline::new(request("movies", "how many actors?", None), &config(None, None));
    let (frames, action) = p.step(&mut cache, Event::Begin);
    assert_eq!(
        jsons(&frames),
        vec![
            "{\"Error\":\"Model must be provided either in request or as DEFAULT_MODEL in .env file\"}"
        ]
    );
    assert!(matches!(action, Action::Stop));
}

#[test]
fn missing_model_falls_back_to_the_configured_default() {
    let mut cache = SchemaCache::new(100);
    let mut p = Pipeline::new(
        request("movies", "how many actors?", None),
        &config(Some("default-model"), None),
    );
    let (frames, action) = p.step(&mut cache, Event::Begin);
    assert_eq!(
        frames[0].to_json(),
        "{\"Status\":\"Processing query for graph: movies using model: default-model\"}"
    );
    assert!(matches!(action, Action::Discover { .. }));
}

#[test]
fn request_model_wins_over_the_default() {
    let mut cache = SchemaCache::new(100);
    let mut p = Pipeline::new(
        request("movies", "q", Some("gpt-x")),
        &config(Some("default-model"), None),
    );
    let (frames, _) = p.step(&mut cache, Event::Begin);
    assert_eq!(
        frames[0].to_json(),
        "{\"Status\":\"Processing query for graph: movies using model: gpt-x\"}"
    );
}

#[test]
fn discovery_failure_ends_the_run_and_leaves_the_cache_empty() {
    let mut cache = SchemaCache::new(100);
    let mut p = Pipeline::new(request("movies", "q", Some("gpt-x")), &config(None, None));
    p.step(&mut cache, Event::Begin);
    let (frames, action) = p.step(&mut cache, Event::Discovered(Err("no db".to_string())));
    assert_eq!(jsons(&frames), vec!["{\"Error\":\"Failed to discover schema\"}"]);
    assert!(matches!(action, Action::Stop));
    assert_eq!(cache.get(&"movies".to_string()), None);
}

#[test]
fn chat_transport_failure_ends_the_run() {
    let mut cache = SchemaCache::new(100);
    let mut p = Pipeline::new(request("movies", "q", Some("gpt-x")), &config(None, None));
    p.step(&mut cache, Event::Begin);
    p.step(&mut cache, Event::Discovered(Ok("S".to_string())));
    let (frames, action) = p.step(&mut cache, Event::ChatDone(Err("timeout".to_string())));
    assert_eq!(jsons(&frames), vec!["{\"Error\":\"Chat request failed: timeout\"}"]);
    assert!(matches!(action, Action::Stop));
}

#[test]
fn blank_model_output_yields_the_no_query_error() {
    let mut cache = SchemaCache::new(100);
    let mut p = Pipeline::new(request("movies", "q", Some("gpt-x")), &config(None, None));
    p.step(&mut cache, Event::Begin);
    p.step(&mut cache, Event::Discovered(Ok("S".to_string())));
    let (frames, action) = p.step(&mut cache, Event::ChatDone(Ok("```\n```".to_string())));
    assert_eq!(jsons(&frames), vec!["{\"Error\":\"No valid query was generated\"}"]);
    assert!(matches!(action, Action::Stop));
}

#[test]
fn whitespace_only_model_output_yields_the_no_query_error() {
    let mut cache = SchemaCache::new(100);
    let mut p = Pipeline::new(request("movies", "q", Some("gpt-x")), &config(None, None));
    p.step(&mut cache, Event::Begin);
    p.step(&mut cache, Event::Discovered(Ok("S".to_string())));
    let (frames, action) = p.step(&mut cache, Event::ChatDone(Ok("\u{c}\u{a0}\u{2003}".to_string())));
    assert_eq!(jsons(&frames), vec!["{\"Error\":\"No valid query was generated\"}"]);
    assert!(matches!(action, Action::Stop));
}

#[test]
fn query_failure_stops_after_the_query_frame() {
    let mut cache = SchemaCache::new(100);
    let mut p = Pipeline::new(request("movies", "q", Some("gpt-x")), &config(None, None));
    p.step(&mut cache, Event::Begin);
    p.step(&mut cache, Event::Discovered(Ok("S".to_string())));
    let (frames, _) = p.step(&mut cache, Event::ChatDone(Ok("MATCH (n) RETURN n".to_string())));
    assert_eq!(jsons(&frames), vec!["{\"CypherQuery\":\"MATCH (n) RETURN n\"}"]);
    let (frames, action) = p.step(&mut cache, Event::QueryDone(Err("syntax error".to_string())));
    assert_eq!(
        jsons(&frames),
        vec!["{\"Error\":\"Query execution failed: syntax error\"}"]
    );
    assert!(matches!(action, Action::Stop));
}

#[test]
fn disconnect_after_the_schema_frame_stops_everything() {
    let mut cache = SchemaCache::new(100);
    let mut p = Pipeline::new(request("movies", "q", Some("gpt-x")), &config(None, None));
    p.step(&mut cache, Event::Begin);
    p.step(&mut cache, Event::Discovered(Ok("S".to_string())));
    let (frames, action) = p.step(&mut cache, Event::Disconnected);
    assert!(frames.is_empty());
    assert!(matches!(action, Action::Stop));
}

#[test]
fn stream_start_failure_ends_the_run() {
    let mut cache = SchemaCache::new(100);
    let mut p = Pipeline::new(request("movies", "q", Some("gpt-x")), &config(None, None));
    p.step(&mut cache, Event::Begin);
    p.step(&mut cache, Event::Discovered(Ok("S".to_string())));
    p.step(&mut cache, Event::ChatDone(Ok("MATCH (n) RETURN n".to_string())));
    p.step(&mut cache, Event::QueryDone(Ok("42".to_string())));
    let (frames, action) = p.step(&mut cache, Event::StreamStartFailed("bad key".to_string()));
    assert_eq!(jsons(&frames), vec!["{\"Error\":\"Chat request failed: bad key\"}"]);
    assert!(matches!(action, Action::Stop));
}

#[test]
fn the_result_is_the_concatenation_of_the_chunks() {
    let mut cache = SchemaCache::new(100);
    let mut p = Pipeline::new(request("movies", "q", Some("gpt-x")), &config(None, None));
    p.step(&mut cache, Event::Begin);
    p.step(&mut cache, Event::Discovered(Ok("S".to_string())));
    p.step(&mut cache, Event::ChatDone(Ok("MATCH (n) RETURN n".to_string())));
    p.step(&mut cache, Event::QueryDone(Ok("42".to_string())));
    p.step(&mut cache, Event::Chunk("There are ".to_string()));
    p.step(&mut cache, Event::Chunk("42 actors.".to_string()));
    let (frames, _) = p.step(&mut cache, Event::StreamEnd);
    assert_eq!(jsons(&frames), vec!["{\"Result\":\"There are 42 actors.\"}"]);
}

#[test]
fn an_empty_stream_yields_an_empty_result() {
    let mut cache = SchemaCache::new(100);
    let mut p = Pipeline::new(request("movies", "q", Some("gpt-x")), &config(None, None));
    p.step(&mut cache, Event::Begin);
    p.step(&mut cache, Event::Discovered(Ok("S".to_string())));
    p.step(&mut cache, Event::ChatDone(Ok("MATCH (n) RETURN n".to_string())));
    p.step(&mut cache, Event::QueryDone(Ok("42".to_string())));
    let (frames, _) = p.step(&mut cache, Event::StreamEnd);
    assert_eq!(jsons(&frames), vec!["{\"Result\":\"\"}"]);
}

#[test]
fn describe_redacts_the_credential() {
    let mut req = request("movies", "q", Some("gpt-x"));
    req.key = Some("SECRET-REDACTED".to_string());
    assert_eq!(
        req.describe(),
        "TextToCypherRequest { graph_name: movies, model: gpt-x, key: *** }"
    );
    req.key = None;
    req.model = None;
    assert_eq!(
        req.describe(),
        "TextToCypherRequest { graph_name: movies, model: none, key: none }"
    );
}
