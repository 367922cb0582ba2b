use hotreload::async_resolve::AsyncResolve;
use hotreload::layer::{
    is_child_report, message_text, monitor_step, ForkResult, Layer, LineEffect, MonitorAction,
    ProcessResult, StreamEvent, StreamKind,
};
use hotreload::messages::{
    ChildComplete, ChildError, ForkResponse, ImportComplete, Message, UnknownError,
};

fn fork_response(id: &str, name: &str, pid: i32) -> Message {
    let mut response = ForkResponse::new(pid);
    response.request_id = Some(id.to_string());
    response.request_name = Some(name.to_string());
    Message::ForkResponse(response)
}

fn layer_with(id: &str, name: &str, pid: i32) -> Layer {
    let mut layer = Layer::new();
    layer.fork_resolvers.insert(id.to_string(), AsyncResolve::new());
    layer.completion_resolvers.insert(id.to_string(), AsyncResolve::new());
    let effect = layer.process_output_line("{json}", &Some(fork_response(id, name, pid)));
    assert!(matches!(effect, LineEffect::Handled));
    layer
}

#[test]
fn test_stderr_handling() {
    // A process writes to stderr and to stdout, and returns a value.
    let mut layer = layer_with("u1", "test_stderr_script", 500);

    let mut output = String::new();
    for line in [
        "[PID:500:stderr] UNIQUE_STDERR_OUTPUT_FOR_TESTING_12345",
        "[PID:500:stdout] UNIQUE_STDOUT_OUTPUT_FOR_TESTING_67890",
    ] {
        match layer.process_output_line(line, &None) {
            LineEffect::Print(text) => {
                output.push_str(&text);
                output.push('\n');
            }
            _ => panic!("Expected a line to print"),
        }
    }
    let complete = ChildComplete::new(Some("Function executed successfully".to_string()));
    layer.process_output_line(
        "[PID:500:stdout] {json}",
        &Some(Message::ChildComplete(complete)),
    );
    let result = match layer.completion_resolvers.get("u1").unwrap().wait().unwrap() {
        ProcessResult::Complete(value) => value,
        ProcessResult::Error(why) => panic!("{}", why),
    };

    assert_eq!(
        result,
        Some("Function executed successfully".to_string()),
        "Incorrect return value from isolated process"
    );
    assert!(
        output.contains("UNIQUE_STDOUT_OUTPUT_FOR_TESTING_67890"),
        "Expected to find stdout message in the captured output"
    );
    assert!(
        output.contains("UNIQUE_STDERR_OUTPUT_FOR_TESTING_12345"),
        "Failed to find stderr message in the captured output - stderr is not being properly captured"
    );
}

#[test]
fn a_fork_is_registered_and_told() {
    let layer = layer_with("u1", "worker", 77);
    assert_eq!(layer.forked_processes.get("u1"), Some(&77));
    assert_eq!(layer.forked_names.get("u1"), Some(&"worker".to_string()));
    match layer.fork_resolvers.get("u1").unwrap().get() {
        Some(ForkResult::Complete(Some(pid))) => assert_eq!(pid, "77"),
        _ => panic!("Expected the process ID"),
    }
    assert!(!layer.completion_resolvers.get("u1").unwrap().is_resolved());
}

#[test]
fn a_negative_process_id_is_written_with_its_sign() {
    let layer = layer_with("u1", "worker", -5);
    match layer.fork_resolvers.get("u1").unwrap().get() {
        Some(ForkResult::Complete(Some(pid))) => assert_eq!(pid, "-5"),
        _ => panic!("Expected the process ID"),
    }
}

#[test]
fn output_of_a_known_process_is_shown_under_its_name() {
    let mut layer = layer_with("u1", "worker", 77);
    match layer.process_output_line("[PID:77:stdout] hello", &None) {
        LineEffect::Print(text) => {
            assert_eq!(text, "[\u{1b}[1m\u{1b}[36mworker\u{1b}[39m\u{1b}[0m]: hello")
        }
        _ => panic!("Expected a line to print"),
    }
    layer.forked_names.remove("u1");
    match layer.process_output_line("[PID:77:stdout] hello", &None) {
        LineEffect::Print(text) => {
            assert_eq!(text, "[\u{1b}[1m\u{1b}[36munknown\u{1b}[39m\u{1b}[0m]: hello")
        }
        _ => panic!("Expected a line to print"),
    }
}

#[test]
fn output_of_an_unknown_process_is_shown_by_its_pid() {
    let mut layer = layer_with("u1", "worker", 77);
    let complete = Some(Message::ChildComplete(ChildComplete::new(None)));
    match layer.process_output_line("[PID:78:stderr] {json}", &complete) {
        LineEffect::Print(text) => assert_eq!(
            text,
            "Unmatched log: [\u{1b}[1m\u{1b}[36m78:stderr\u{1b}[39m\u{1b}[0m] {json}"
        ),
        _ => panic!("Expected a line to print"),
    }
    assert!(!layer.completion_resolvers.get("u1").unwrap().is_resolved());
}

#[test]
fn a_large_process_id_wraps_round() {
    let mut layer = layer_with("u1", "worker", -1);
    assert!(matches!(
        layer.process_output_line("[PID:4294967295:stdout] x", &None),
        LineEffect::Print(text) if text.contains("worker")
    ));
}

#[test]
fn an_error_is_told_with_its_traceback() {
    let mut layer = layer_with("u1", "worker", 77);
    let mut error = ChildError::new("boom".to_string());
    error.traceback = Some("Traceback: line 1".to_string());
    layer.process_output_line("[PID:77:stdout] {json}", &Some(Message::ChildError(error)));
    match layer.completion_resolvers.get("u1").unwrap().get() {
        Some(ProcessResult::Error(why)) => assert_eq!(why, "boom\n\nTraceback: line 1"),
        _ => panic!("Expected an error"),
    }
    let error = ChildError::new("again".to_string());
    layer.process_output_line("[PID:77:stdout] {json}", &Some(Message::ChildError(error)));
    match layer.completion_resolvers.get("u1").unwrap().get() {
        Some(ProcessResult::Error(why)) => assert_eq!(why, "again"),
        _ => panic!("Expected an error"),
    }
}

#[test]
fn a_report_touches_its_process_alone() {
    let mut layer = layer_with("u1", "worker", 77);
    layer.completion_resolvers.insert("u2".to_string(), AsyncResolve::new());
    layer.process_output_line("{json}", &Some(fork_response("u2", "other", 88)));
    let complete = Some(Message::ChildComplete(ChildComplete::new(None)));
    layer.process_output_line("[PID:88:stdout] {json}", &complete);
    assert!(layer.completion_resolvers.get("u2").unwrap().is_resolved());
    assert!(!layer.completion_resolvers.get("u1").unwrap().is_resolved());
}

#[test]
fn lines_that_are_neither_messages_nor_logs() {
    let mut layer = Layer::new();
    match layer.process_output_line("plain text", &None) {
        LineEffect::Unknown(text) => assert_eq!(text, "Error handling log format: plain text"),
        _ => panic!("Expected an unknown line"),
    }
    assert_eq!(
        layer.handle_message("plain text", None, &None),
        Err("Failed to parse message, received raw content: plain text".to_string())
    );
}

#[test]
fn other_messages_are_handled_and_change_nothing() {
    let mut layer = layer_with("u1", "worker", 77);
    let unknown = Message::UnknownError(UnknownError::new("odd".to_string(), None));
    assert_eq!(layer.handle_message("{json}", None, &Some(unknown)), Ok(()));
    let imported = Message::ImportComplete(ImportComplete::new());
    assert_eq!(layer.handle_message("{json}", None, &Some(imported)), Ok(()));
    assert_eq!(layer.forked_processes.len(), 1);
}

#[test]
fn an_answer_that_names_no_request_is_no_message() {
    let mut layer = Layer::new();
    let answer = Some(Message::ForkResponse(ForkResponse::new(5)));
    assert!(layer.handle_message("{json}", None, &answer).is_err());
    assert_eq!(layer.forked_processes.len(), 0);
}

#[test]
fn reports_of_children() {
    assert!(is_child_report(&Some(Message::ChildComplete(ChildComplete::new(None)))));
    assert!(is_child_report(&Some(Message::ChildError(ChildError::new(
        "x".to_string()
    )))));
    assert!(!is_child_report(&Some(Message::ForkResponse(ForkResponse::new(1)))));
    assert!(!is_child_report(&None));
}

#[test]
fn the_part_of_a_line_that_may_be_a_message() {
    assert_eq!(message_text("[PID:1:stdout] {\"a\":1}"), "{\"a\":1}");
    assert_eq!(message_text("{\"a\":1}"), "{\"a\":1}");
}

#[test]
fn the_end_of_stdout_ends_both_watches() {
    assert!(matches!(
        monitor_step(StreamKind::Stdout, StreamEvent::Line("x".to_string())),
        MonitorAction::Process(line) if line == "x"
    ));
    for event in [
        StreamEvent::Terminate,
        StreamEvent::ReadError("x".to_string()),
        StreamEvent::End,
    ] {
        assert!(matches!(
            monitor_step(StreamKind::Stdout, event),
            MonitorAction::Stop { tell_other: true }
        ));
    }
    assert!(matches!(
        monitor_step(StreamKind::Stderr, StreamEvent::End),
        MonitorAction::Stop { tell_other: false }
    ));
}

#[test]
fn one_who_waits_gets_what_was_reported() {
    let mut layer = layer_with("u1", "worker", 77);
    assert!(matches!(
        layer.fork_resolvers.get("u1").unwrap().wait(),
        Ok(ForkResult::Complete(Some(pid))) if pid == "77"
    ));
    let complete = ChildComplete::new(Some("v".to_string()));
    layer.process_output_line("[PID:77:stdout] {json}", &Some(Message::ChildComplete(complete)));
    assert!(matches!(
        layer.completion_resolvers.get("u1").unwrap().wait(),
        Ok(ProcessResult::Complete(Some(value))) if value == "v"
    ));
}
