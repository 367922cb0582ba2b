use hotreload::multiplex_logs::{
    parse_multiplexed_line, parse_pid, MultiplexedLogLineError, PidError,
};

#[test]
fn test_parse_multiplexed_line() {
    // Test 1: Valid line format
    let test_line = "[PID:12345:stdout] Hello, world!";
    let result = parse_multiplexed_line(test_line).unwrap();
    assert_eq!(result.pid, 12345);
    assert_eq!(result.stream_name, "stdout");
    assert_eq!(result.content, "Hello, world!");

    // Test 2: Valid line with stderr stream
    let test_line = "[PID:9876:stderr] Error message";
    let result = parse_multiplexed_line(test_line).unwrap();
    assert_eq!(result.pid, 9876);
    assert_eq!(result.stream_name, "stderr");
    assert_eq!(result.content, "Error message");

    // Test 3: Empty content should be valid
    let test_line = "[PID:12345:stdout] ";
    let result = parse_multiplexed_line(test_line).unwrap();
    assert_eq!(result.content, "");

    // Test 4: Missing prefix should return error
    let test_line = "Hello, world!";
    let result = parse_multiplexed_line(test_line);
    assert!(result.is_err());
    match result {
        Err(MultiplexedLogLineError::InvalidFormat(msg)) => {
            assert!(msg.contains("does not start with [PID:"));
        }
        _ => panic!("Expected InvalidFormat error"),
    }

    // Test 5: Invalid PID format should return error
    let test_line = "[PID:abc:stdout] Hello, world!";
    let result = parse_multiplexed_line(test_line);
    assert!(result.is_err());
    match result {
        Err(MultiplexedLogLineError::PidParseError(_)) => {
            // This is expected
        }
        _ => panic!("Expected PidParseError"),
    }

    // Test 6: Missing closing bracket should return error
    let test_line = "[PID:12345:stdout Hello, world!";
    let result = parse_multiplexed_line(test_line);
    assert!(result.is_err());
    match result {
        Err(MultiplexedLogLineError::InvalidFormat(msg)) => {
            assert!(msg.contains("Missing closing bracket"));
        }
        _ => panic!("Expected InvalidFormat error"),
    }

    // Test 7: Missing stream name should return error
    let test_line = "[PID:12345:] Hello, world!";
    let result = parse_multiplexed_line(test_line);
    assert!(result.is_err());
    match result {
        Err(MultiplexedLogLineError::MissingComponent(msg)) => {
            assert!(msg.contains("Stream name is empty"));
        }
        _ => panic!("Expected MissingComponent error"),
    }

    // Test 8: Malformed prefix should return error
    let test_line = "[PID:12345] Hello, world!";
    let result = parse_multiplexed_line(test_line);
    assert!(result.is_err());
    match result {
        Err(MultiplexedLogLineError::InvalidFormat(msg)) => {
            assert!(msg.contains("Expected format"));
        }
        _ => panic!("Expected InvalidFormat error"),
    }
}

#[test]
fn content_may_hold_brackets_and_colons() {
    let line = parse_multiplexed_line("[PID:1:stdout] [a] b:c [PID:2:stderr] d").unwrap();
    assert_eq!(line.pid, 1);
    assert_eq!(line.stream_name, "stdout");
    assert_eq!(line.content, "[a] b:c [PID:2:stderr] d");
}

#[test]
fn three_parts_in_the_prefix_are_refused() {
    assert!(matches!(
        parse_multiplexed_line("[PID:1:std:out] x"),
        Err(MultiplexedLogLineError::InvalidFormat(_))
    ));
}

#[test]
fn process_ids_at_the_edge() {
    assert_eq!(parse_pid("0"), Ok(0));
    assert_eq!(parse_pid("007"), Ok(7));
    assert_eq!(parse_pid("+12"), Ok(12));
    assert_eq!(parse_pid("4294967295"), Ok(4294967295));
    assert_eq!(parse_pid("4294967296"), Err(PidError::PosOverflow));
    assert_eq!(parse_pid(""), Err(PidError::Empty));
    assert_eq!(parse_pid("+"), Err(PidError::InvalidDigit));
    assert_eq!(parse_pid("-1"), Err(PidError::InvalidDigit));
    assert_eq!(parse_pid("1 "), Err(PidError::InvalidDigit));
}

#[test]
fn process_ids_parse_as_std_parses_numbers() {
    let texts = [
        "", "+", "-", "0", "+0", "-0", "1", "42", "4294967295", "4294967296", "99999999999999",
        "12a", "a12", "4294967295a", "4294967296a", "99999999999999a", "++1", " 1", "1 ", "\u{663}",
    ];
    for text in texts {
        let expected = text.parse::<u32>();
        match parse_pid(text) {
            Ok(pid) => assert_eq!(expected, Ok(pid), "{}", text),
            Err(error) => {
                assert_eq!(expected.unwrap_err().to_string(), error.message(), "{}", text);
            }
        }
    }
}

#[test]
fn texts_of_the_errors() {
    let error = parse_multiplexed_line("[PID:abc:stdout] x").unwrap_err();
    assert_eq!(error.message(), "Failed to parse PID: invalid digit found in string");
    assert_eq!(error.source(), Some(&PidError::InvalidDigit));
    let error = parse_multiplexed_line("[PID:1:] x").unwrap_err();
    assert_eq!(error.message(), "Missing component: Stream name is empty");
    assert_eq!(error.source(), None);
    let error = parse_multiplexed_line("x").unwrap_err();
    assert!(error.message().starts_with("Invalid log format: "));
}
