use completion_pipeline::event::{CompletionRequest, ToolInvocation};
use completion_pipeline::handler::{
    finish_completion, prepare_event, process_response, EventDisposition,
};
use completion_pipeline::CompletionError;

fn event_payload(correlation: &str, model: &str, prompt: &str, tool: &str) -> Vec<u8> {
    format!(
        "{{\"cluster_execution\":\"{}\",\"model\":\"{}\",\"model_name\":\"mistral\",\"prompt_contents\":\"{}\",\"tool\":{}}}",
        correlation, model, prompt, tool
    )
    .into_bytes()
}

#[test]
fn matching_event_without_tool_proceeds_with_unmodified_prompt() {
    let payload = event_payload("0xexec", "0xmodel", "Write a poem", "null");
    let target = "0xmodel".to_string();
    match prepare_event(&payload, &target) {
        EventDisposition::Proceed { request } => {
            assert_eq!(request.model_name, "mistral");
            assert_eq!(request.prompt_text, "Write a poem");
            assert_eq!(request.correlation_id, "0xexec");
        }
        _ => panic!("expected the pipeline to proceed"),
    }
}

#[test]
fn mismatched_model_is_silently_ignored() {
    let payload = event_payload("0xexec", "0xsomeone_elses_model", "p", "null");
    let target = "0xmodel".to_string();
    assert!(matches!(
        prepare_event(&payload, &target),
        EventDisposition::OwnershipMismatch
    ));
}

#[test]
fn malformed_payload_is_dropped() {
    let target = "0xmodel".to_string();
    assert!(matches!(
        prepare_event(b"{}", &target),
        EventDisposition::Malformed
    ));
}

#[test]
fn unknown_tool_still_proceeds_with_base_prompt() {
    let payload = event_payload(
        "0xexec",
        "0xmodel",
        "Write a poem",
        "{\"fields\":{\"name\":\"mystery_tool\",\"args\":[]}}",
    );
    let target = "0xmodel".to_string();
    match prepare_event(&payload, &target) {
        EventDisposition::Proceed { request } => {
            assert_eq!(request.prompt_text, "Write a poem");
        }
        _ => panic!("an unknown tool must not abort the pipeline"),
    }
}

#[test]
fn known_tool_augments_the_prompt() {
    let payload = event_payload(
        "0xexec",
        "0xmodel",
        "Write a poem",
        "{\"fields\":{\"name\":\"some_tool\",\"args\":[\"arg1\"]}}",
    );
    let target = "0xmodel".to_string();
    match prepare_event(&payload, &target) {
        EventDisposition::Proceed { request } => {
            assert_eq!(
                request.prompt_text,
                "Write a poem\n\nInvoked some tool with args:\n[\n    \"arg1\",\n]"
            );
        }
        _ => panic!("expected the pipeline to proceed"),
    }
}

#[test]
fn non_success_status_is_a_service_error() {
    let r = process_response(500, b"{\"response\":\"x\",\"done\":true}\n");
    assert!(matches!(
        r,
        Err(CompletionError::ServiceError { status: 500 })
    ));
}

#[test]
fn status_band_edges_decide_success() {
    let body: &[u8] = b"{\"response\":\"ok\",\"done\":true}\n";
    assert_eq!(process_response(200, body).unwrap(), "ok");
    assert_eq!(process_response(299, body).unwrap(), "ok");
    assert!(matches!(
        process_response(199, body),
        Err(CompletionError::ServiceError { status: 199 })
    ));
    assert!(matches!(
        process_response(300, body),
        Err(CompletionError::ServiceError { status: 300 })
    ));
}

#[test]
fn success_status_accumulates_the_body() {
    let r = process_response(200, b"{\"response\":\"a\",\"done\":false}\n{\"response\":\"b\",\"done\":true}\n");
    assert_eq!(r.unwrap(), "ab");
}

#[test]
fn success_status_with_malformed_body_is_a_parse_error() {
    let r = process_response(200, b"garbage\n");
    assert!(matches!(r, Err(CompletionError::ParseError)));
}

fn request(correlation: &str) -> CompletionRequest {
    CompletionRequest {
        correlation_id: correlation.to_string(),
        model_id: "0xmodel".to_string(),
        model_name: "mistral".to_string(),
        prompt_text: "p".to_string(),
        tool: None::<ToolInvocation>,
    }
}

#[test]
fn finish_completion_pairs_result_with_correlation_id() {
    let sub = finish_completion(&request("0xexec"), 200, b"{\"response\":\"hi\",\"done\":true}\n")
        .unwrap();
    assert_eq!(sub.correlation_id, "0xexec");
    assert_eq!(sub.result_text, "hi");
}

#[test]
fn two_events_run_independently_in_either_order() {
    let payload_a = event_payload("0xexec_a", "0xmodel", "first", "null");
    let payload_b = event_payload("0xexec_b", "0xmodel", "second", "null");
    let target = "0xmodel".to_string();

    let req_a = match prepare_event(&payload_a, &target) {
        EventDisposition::Proceed { request } => request,
        _ => panic!("expected the pipeline to proceed"),
    };
    let req_b = match prepare_event(&payload_b, &target) {
        EventDisposition::Proceed { request } => request,
        _ => panic!("expected the pipeline to proceed"),
    };

    // Finish them in the reverse of their arrival order: each submission
    // still carries its own correlation identifier and its own result.
    let sub_b = finish_completion(&req_b, 200, b"{\"response\":\"B\",\"done\":true}\n").unwrap();
    let sub_a = finish_completion(&req_a, 200, b"{\"response\":\"A\",\"done\":true}\n").unwrap();
    assert_eq!(sub_b.correlation_id, "0xexec_b");
    assert_eq!(sub_b.result_text, "B");
    assert_eq!(sub_a.correlation_id, "0xexec_a");
    assert_eq!(sub_a.result_text, "A");
}
