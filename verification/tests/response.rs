use goose_agent::response::{oversize, oversize_texts, process_tool_response, LARGE_TEXT_THRESHOLD};
use goose_agent::tool::{Content, ToolError};

fn text(s: &str) -> Content {
    Content::Text(s.to_string())
}

fn image() -> Content {
    Content::Image { data: "AAAAAAAAAAAA".to_string(), mime_type: "image/png".to_string() }
}

#[test]
fn a_text_is_oversize_above_the_limit() {
    assert!(!oversize(&text("abc"), 3));
    assert!(oversize(&text("abcd"), 3));
    assert!(oversize(&text("a"), 0));
    assert!(!oversize(&text(""), 0));
    // the length is counted in characters, not in bytes
    assert!(!oversize(&text("\u{e9}\u{e9}\u{e9}"), 3));
    assert!(oversize(&text("\u{e9}\u{e9}\u{e9}\u{e9}"), 3));
    assert!(!oversize(&image(), 3));
    assert!(!oversize(&Content::Resource { uri: "u".to_string(), text: "long text".to_string() }, 3));
    assert_eq!(LARGE_TEXT_THRESHOLD, 200_000);
    assert!(!oversize(&text(&"x".repeat(200_000)), LARGE_TEXT_THRESHOLD));
    assert!(oversize(&text(&"x".repeat(200_001)), LARGE_TEXT_THRESHOLD));
}

#[test]
fn the_oversize_texts_are_found_in_order() {
    let result = Ok(vec![text("long one"), text("ok"), image(), text("long two"), text("abc")]);
    assert_eq!(oversize_texts(&result, 3), vec![0, 3]);
    assert_eq!(oversize_texts(&result, 100), Vec::<usize>::new());
    assert_eq!(oversize_texts(&result, 0), vec![0, 1, 3, 4]);
    assert_eq!(oversize_texts(&Ok(vec![]), 3), Vec::<usize>::new());
    assert_eq!(oversize_texts(&Err(ToolError::ExecutionError("a long error".to_string())), 3), Vec::<usize>::new());
}

#[test]
fn oversize_texts_give_way_to_their_notes() {
    let result = Ok(vec![text("long one"), text("ok"), image(), text("long two"), text("abc")]);
    assert_eq!(
        process_tool_response(result, 3, vec![Some("n1".to_string()), Some("n2".to_string())]),
        Ok(vec![text("n1"), text("ok"), image(), text("n2"), text("abc")])
    );
}

#[test]
fn a_text_that_could_not_be_stored_stays() {
    let result = || Ok(vec![text("long one"), text("ok"), text("long two"), text("long three")]);
    assert_eq!(
        process_tool_response(result(), 3, vec![None, Some("n2".to_string())]),
        Ok(vec![text("long one"), text("ok"), text("n2"), text("long three")])
    );
    assert_eq!(process_tool_response(result(), 3, vec![]), result());
    assert_eq!(
        process_tool_response(result(), 3, vec![Some("a".to_string()), None, Some("c".to_string()), Some("d".to_string())]),
        Ok(vec![text("a"), text("ok"), text("long two"), text("c")])
    );
}

#[test]
fn a_failed_result_passes_unchanged() {
    let failed = || Err(ToolError::ExecutionError("a long error".to_string()));
    assert_eq!(process_tool_response(failed(), 3, vec![Some("n".to_string())]), failed());
    assert_eq!(process_tool_response(Ok(vec![]), 3, vec![Some("n".to_string())]), Ok(vec![]));
}
