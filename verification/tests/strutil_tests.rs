use text_to_cypher::strutil::{clean_query, replace_newlines, strip_fences, trim_string};

#[test]
fn newlines_become_spaces() {
    assert_eq!(replace_newlines("a\nb\nc"), "a b c");
}

#[test]
fn code_fences_are_removed() {
    assert_eq!(strip_fences("```cypher MATCH (n) RETURN n```"), "cypher MATCH (n) RETURN n");
}

#[test]
fn lone_backticks_survive() {
    assert_eq!(strip_fences("a``b`c"), "a``b`c");
}

#[test]
fn four_backticks_leave_one() {
    assert_eq!(strip_fences("````"), "`");
}

#[test]
fn trim_removes_surrounding_whitespace() {
    assert_eq!(trim_string(" \t hello world \r\n"), "hello world");
}

#[test]
fn trim_of_all_whitespace_is_empty() {
    assert_eq!(trim_string(" \t\r\n "), "");
}

#[test]
fn trim_removes_unicode_whitespace() {
    assert_eq!(trim_string("\u{a0}\u{2003}hello\u{c}\u{3000}"), "hello");
    assert_eq!(trim_string("\u{b}\u{85}\u{202f}\u{2028}"), "");
}

#[test]
fn clean_query_of_unicode_whitespace_only_output_is_empty() {
    assert_eq!(clean_query("\u{c}\u{a0}"), "");
}

#[test]
fn clean_query_normalizes_fenced_model_output() {
    let raw = "```\nMATCH (a:Actor)\nRETURN count(a)\n```";
    assert_eq!(clean_query(raw), "MATCH (a:Actor) RETURN count(a)");
}

#[test]
fn clean_query_of_fence_only_output_is_empty() {
    assert_eq!(clean_query("```\n```"), "");
}
