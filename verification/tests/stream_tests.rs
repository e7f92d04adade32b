use completion_pipeline::stream::{accumulate_body, accumulate_chunks, split_lines, CompletionChunk};
use completion_pipeline::CompletionError;

fn chunk(text: &str, is_final: bool) -> CompletionChunk {
    CompletionChunk { text_fragment: text.to_string(), is_final }
}

#[test]
fn chunk_sequence_with_final_marker() {
    let chunks = vec![chunk(" \"", false), chunk("Hi", false), chunk("", true)];
    assert_eq!(accumulate_chunks(&chunks), " \"Hi");
}

#[test]
fn chunk_sequence_stops_at_first_final() {
    let chunks = vec![
        chunk("a", false),
        chunk("b", true),
        chunk("never read", false),
        chunk("nor this", true),
    ];
    assert_eq!(accumulate_chunks(&chunks), "ab");
}

#[test]
fn chunk_sequence_without_final_keeps_everything() {
    let chunks = vec![chunk("a", false), chunk("b", false), chunk("c", false)];
    assert_eq!(accumulate_chunks(&chunks), "abc");
}

#[test]
fn empty_chunk_sequence_gives_empty_result() {
    assert_eq!(accumulate_chunks(&Vec::new()), "");
}

#[test]
fn final_fragment_is_included() {
    let chunks = vec![chunk("a", false), chunk("end", true)];
    assert_eq!(accumulate_chunks(&chunks), "aend");
}

#[test]
fn body_with_final_marker() {
    let body = b"{\"response\":\" \\\"\",\"done\":false}\n{\"response\":\"Hi\",\"done\":false}\n{\"response\":\"\",\"done\":true}\n";
    assert_eq!(accumulate_body(body).unwrap(), " \"Hi");
}

#[test]
fn body_without_final_marker_still_succeeds() {
    let body = b"{\"response\":\"a\",\"done\":false}\n{\"response\":\"b\",\"done\":false}";
    assert_eq!(accumulate_body(body).unwrap(), "ab");
}

#[test]
fn empty_body_gives_empty_result() {
    assert_eq!(accumulate_body(b"").unwrap(), "");
}

#[test]
fn blank_lines_are_skipped() {
    let body = b"\n   \n{\"response\":\"a\",\"done\":false}\n\t\n{\"response\":\"b\",\"done\":true}\n\n";
    assert_eq!(accumulate_body(body).unwrap(), "ab");
}

#[test]
fn crlf_line_endings_are_tolerated() {
    let body = b"{\"response\":\"a\",\"done\":false}\r\n{\"response\":\"b\",\"done\":true}\r\n";
    assert_eq!(accumulate_body(body).unwrap(), "ab");
}

#[test]
fn malformed_first_line_aborts() {
    let body = b"not json\n{\"response\":\"a\",\"done\":false}\n";
    assert!(matches!(accumulate_body(body), Err(CompletionError::ParseError)));
}

#[test]
fn malformed_middle_line_aborts() {
    let body = b"{\"response\":\"a\",\"done\":false}\nnot json\n{\"response\":\"b\",\"done\":true}\n";
    assert!(matches!(accumulate_body(body), Err(CompletionError::ParseError)));
}

#[test]
fn malformed_last_line_before_final_aborts() {
    let body = b"{\"response\":\"a\",\"done\":false}\n{\"done\":false}\n";
    assert!(matches!(accumulate_body(body), Err(CompletionError::ParseError)));
}

#[test]
fn missing_done_field_aborts() {
    let body = b"{\"response\":\"a\"}\n";
    assert!(matches!(accumulate_body(body), Err(CompletionError::ParseError)));
}

#[test]
fn wrongly_typed_response_field_aborts() {
    let body = b"{\"response\":5,\"done\":false}\n";
    assert!(matches!(accumulate_body(body), Err(CompletionError::ParseError)));
}

#[test]
fn lines_after_final_are_never_read() {
    let body = b"{\"response\":\"a\",\"done\":true}\nthis is not json and it does not matter\n";
    assert_eq!(accumulate_body(body).unwrap(), "a");
}

#[test]
fn extra_fields_on_a_chunk_are_ignored() {
    let body = b"{\"model\":\"mistral\",\"created_at\":\"now\",\"response\":\"x\",\"done\":false,\"context\":[1,2]}\n{\"response\":\"\",\"done\":true,\"done_reason\":\"stop\"}\n";
    assert_eq!(accumulate_body(body).unwrap(), "x");
}

#[test]
fn mock_model_response_accumulates() {
    let lines = vec![
        "{\"model\":\"mistral\",\"response\":\" \\\"\",\"done\":false}",
        "{\"model\":\"mistral\",\"response\":\"This\",\"done\":false}",
        "{\"model\":\"mistral\",\"response\":\" is\",\"done\":false}",
        "{\"model\":\"mistral\",\"response\":\" a\",\"done\":false}",
        "{\"model\":\"mistral\",\"response\":\" mock\",\"done\":false}",
        "{\"model\":\"mistral\",\"response\":\" LL\",\"done\":false}",
        "{\"model\":\"mistral\",\"response\":\"M\",\"done\":false}",
        "{\"model\":\"mistral\",\"response\":\" response\",\"done\":false}",
        "{\"model\":\"mistral\",\"response\":\".\\\"\",\"done\":false}",
        "{\"model\":\"mistral\",\"response\":\"\",\"done\":true,\"done_reason\":\"stop\"}",
    ];
    let body = lines.join("\n");
    assert_eq!(
        accumulate_body(body.as_bytes()).unwrap(),
        " \"This is a mock LLM response.\""
    );
}

#[test]
fn split_lines_drops_the_line_feeds() {
    let lines = split_lines(b"ab\nc\n\nd");
    let got: Vec<&[u8]> = lines.iter().map(|l| l.as_slice()).collect();
    assert_eq!(got, vec![b"ab" as &[u8], b"c", b"", b"d"]);
}

#[test]
fn split_lines_without_trailing_feed_keeps_last_line() {
    let lines = split_lines(b"ab");
    assert_eq!(lines.len(), 1);
    assert_eq!(lines[0].as_slice(), b"ab");
}
