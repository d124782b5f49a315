use text_to_cypher::progress::Progress;

#[test]
fn each_variant_encodes_under_its_own_tag() {
    assert_eq!(Progress::Status("s".to_string()).to_json(), "{\"Status\":\"s\"}");
    assert_eq!(Progress::Schema("s".to_string()).to_json(), "{\"Schema\":\"s\"}");
    assert_eq!(
        Progress::CypherQuery("s".to_string()).to_json(),
        "{\"CypherQuery\":\"s\"}"
    );
    assert_eq!(
        Progress::CypherResult("s".to_string()).to_json(),
        "{\"CypherResult\":\"s\"}"
    );
    assert_eq!(
        Progress::ModelOutputChunk("s".to_string()).to_json(),
        "{\"ModelOutputChunk\":\"s\"}"
    );
    assert_eq!(Progress::Result("s".to_string()).to_json(), "{\"Result\":\"s\"}");
    assert_eq!(Progress::Error("s".to_string()).to_json(), "{\"Error\":\"s\"}");
}

#[test]
fn empty_payload_encodes_as_empty_json_string() {
    assert_eq!(Progress::Result(String::new()).to_json(), "{\"Result\":\"\"}");
}

#[test]
fn quotes_and_backslashes_are_escaped() {
    let p = Progress::Status("say \"hi\" \\ done".to_string());
    assert_eq!(p.to_json(), "{\"Status\":\"say \\\"hi\\\" \\\\ done\"}");
}

#[test]
fn named_control_characters_use_short_escapes() {
    let p = Progress::Status("a\nb\rc\td\u{8}e\u{c}f".to_string());
    assert_eq!(p.to_json(), "{\"Status\":\"a\\nb\\rc\\td\\be\\ff\"}");
}

#[test]
fn other_control_characters_use_unicode_escapes() {
    let p = Progress::Status("x\u{1}y\u{1f}z".to_string());
    assert_eq!(p.to_json(), "{\"Status\":\"x\\u0001y\\u001fz\"}");
}

#[test]
fn non_ascii_text_passes_through_unescaped() {
    let p = Progress::Status("héllo".to_string());
    assert_eq!(p.to_json(), "{\"Status\":\"héllo\"}");
}
