use hotreload::ast::{Project, ProjectTop, SourceFile};
use hotreload::environment::{ImportRunner, Layer, ProcessResult, Update};
use hotreload::loader::{
    boot_banner, boot_step, exec_code, fork_step, next_signal, LoaderEvent, Signal,
};
use hotreload::messages::{
    ChildComplete, ChildError, ForkResponse, ImportComplete, ImportError, Message,
    UnknownCommandError,
};
use hotreload::multiplex_logs::parse_multiplexed_line;

fn project(sources: &[(&str, &str)]) -> Project {
    Project {
        top: ProjectTop {
            files: vec![],
            directory: Some("dir".to_string()),
        },
        sources: sources
            .iter()
            .map(|(path, text)| SourceFile {
                path: path.to_string(),
                content: Ok(text.as_bytes().to_vec()),
            })
            .collect(),
    }
}

fn unreadable() -> Project {
    let mut broken = project(&[("main.py", "import os")]);
    broken.sources[0].content = Err("denied".to_string());
    broken
}

fn imports_loaded() -> Vec<LoaderEvent> {
    vec![
        LoaderEvent::Output,
        LoaderEvent::Message(Message::ImportComplete(ImportComplete::new())),
    ]
}

fn forked(pid: i32) -> Vec<LoaderEvent> {
    vec![LoaderEvent::Message(Message::ForkResponse(ForkResponse::new(pid)))]
}

fn boot(runner: &mut ImportRunner, project: &Project) {
    runner.load_modules(project).expect("Failed to load modules");
    runner
        .boot_main(&imports_loaded())
        .expect("Failed to boot main environment");
}

fn booted_runner() -> ImportRunner {
    let mut runner = ImportRunner::new("test_package", "/tmp/dir");
    boot(&mut runner, &project(&[]));
    runner
}

#[test]
fn test_import_runner_initialization() {
    let dir_path = "/tmp/dir";

    // A simple Python project
    let files = project(&[("/tmp/dir/main.py", "print('Hello, world!')")]);

    let mut runner = ImportRunner::new("test_package", dir_path);
    assert_eq!(runner.ast_manager.get_project_path(), dir_path);

    // Boot the environment before checking it
    boot(&mut runner, &files);

    // Check that the environment exists and has an empty forked_processes map
    assert!(runner.layer.is_some());
    assert!(runner.layer.as_ref().unwrap().forked_processes.len() == 0);
}

#[test]
fn test_update_environment_with_new_imports() {
    // A simple Python project with initial imports
    let mut files = project(&[("/tmp/dir/main.py", "import os\nimport sys")]);

    let mut runner = ImportRunner::new("test_package", "/tmp/dir");

    // Boot the environment before accessing it
    boot(&mut runner, &files);

    // Force first_scan to true to allow update_environment to work
    runner.first_scan = true;

    // First, prime the system by calling process_all_py_files to establish a baseline
    let _ = runner.ast_manager.process_all_py_files(&files).unwrap();

    // Now verify that running update with no changes restarts nothing
    let no_change_result = runner.update_environment(&files);
    assert!(
        no_change_result.is_ok(),
        "Failed to update environment: {:?}",
        no_change_result.err()
    );
    assert!(
        matches!(no_change_result.unwrap(), Update::Unchanged),
        "Environment should not have been updated when imports didn't change"
    );

    // Create a new file with different imports to trigger a restart
    files.sources.push(SourceFile {
        path: "/tmp/dir/new_file.py".to_string(),
        content: Ok(b"import os\nimport sys\nimport json".to_vec()),
    });

    // Test updating environment with changed imports
    let update_result = runner.update_environment(&files);
    assert!(
        update_result.is_ok(),
        "Failed to update environment: {:?}",
        update_result.err()
    );
    assert!(
        matches!(update_result.unwrap(), Update::Restart(_)),
        "Environment should have been updated due to import changes"
    );

    // The new loader process imports all modules
    let code = runner.load_modules(&files).unwrap();
    let mut lines: Vec<&str> = code.lines().collect();
    lines.sort();
    assert_eq!(
        lines,
        vec!["__import__('json')", "__import__('os')", "__import__('sys')"]
    );
    runner.boot_main(&imports_loaded()).unwrap();
    assert!(matches!(
        runner.update_environment(&files),
        Ok(Update::Unchanged)
    ));
}

#[test]
fn test_exec_communicate_isolated_basic() {
    let mut runner = ImportRunner::new("test_package", "/tmp/dir");

    // Boot the environment before accessing it
    boot(&mut runner, &project(&[]));

    // Set up a mock test process
    let test_uuid = "7b0e6a4e-7c1c-4f57-9d30-0b7a3c9f3a11".to_string();
    let test_pid = 12345;
    runner
        .layer
        .as_mut()
        .unwrap()
        .forked_processes
        .insert(test_uuid.clone(), test_pid);

    // The process reports a time stamp
    let timestamp = "1700000000.25".to_string();
    let message = Message::ChildComplete(ChildComplete::new(Some(timestamp.clone())));

    // Now call communicate_isolated to process our mocked output
    let communicate_result = runner.communicate_isolated(&test_uuid, &vec![message]);
    assert!(
        communicate_result.is_ok(),
        "communicate_isolated failed: {:?}",
        communicate_result.err()
    );

    let result_option = communicate_result.unwrap();
    assert!(
        result_option.is_some(),
        "No result received from isolated process"
    );

    // The result should be our timestamp string
    let result_str = result_option.unwrap();
    assert_eq!(result_str, timestamp);

    // Try to parse the result as a float to verify it's a valid timestamp
    let parsed_result = result_str.parse::<f64>();
    assert!(
        parsed_result.is_ok(),
        "Failed to parse result as a float: {}",
        result_str
    );
}

#[test]
fn test_stop_isolated() {
    let mut runner = ImportRunner::new("test_package", "/tmp/dir");

    // Boot the environment before accessing it
    boot(&mut runner, &project(&[]));

    // Add mock process to the forked_processes map
    let test_uuid = "7b0e6a4e-7c1c-4f57-9d30-0b7a3c9f3a11".to_string();
    let test_pid = 23456;
    runner
        .layer
        .as_mut()
        .unwrap()
        .forked_processes
        .insert(test_uuid.clone(), test_pid);

    // Verify the process is in the forked_processes map
    assert!(
        runner
            .layer
            .as_ref()
            .unwrap()
            .forked_processes
            .contains_key(&test_uuid),
        "Process UUID should be in the forked_processes map"
    );
    assert_eq!(runner.pid_to_stop(&test_uuid), Ok(Some(23456)));

    // Now stop the process
    let stop_result = runner.stop_isolated(&test_uuid);
    assert!(
        stop_result.is_ok(),
        "Failed to stop process: {:?}",
        stop_result.err()
    );
    assert!(
        stop_result.unwrap(),
        "stop_isolated should return true for successful termination"
    );

    // Verify the process is no longer in the forked_processes map
    assert!(
        !runner
            .layer
            .as_ref()
            .unwrap()
            .forked_processes
            .contains_key(&test_uuid),
        "Process UUID should be removed from the forked_processes map after termination"
    );

    // Try to communicate with the terminated process
    // It should fail since the process is no longer available
    let communicate_result = runner.communicate_isolated(&test_uuid, &vec![]);
    assert!(
        communicate_result.is_err(),
        "communicate_isolated should fail for a non-existent process"
    );
    assert_eq!(
        communicate_result.unwrap_err(),
        format!("Process {} does not exist", test_uuid)
    );
    assert_eq!(runner.stop_isolated(&test_uuid), Ok(false));
    assert_eq!(runner.pid_to_stop(&test_uuid), Ok(None));
}

#[test]
fn test_stop_main() {
    let mut runner = ImportRunner::new("test_package", "/tmp/dir");

    // Boot the environment before stopping it
    boot(&mut runner, &project(&[]));

    // This should stop the main Python process
    let result = runner.stop_main();
    assert!(result.is_ok());
    assert!(
        result.unwrap(),
        "stop_main should return true after successful execution"
    );
}

#[test]
fn test_python_value_error_handling() {
    let mut runner = ImportRunner::new("test_package", "/tmp/dir");
    boot(&mut runner, &project(&[]));

    // Execute in isolation - this should not fail at this point
    let process_uuid = runner.exec_isolated(&forked(100)).unwrap();

    // The process raises an error
    let mut error = ChildError::new("This is a custom error message for testing".to_string());
    error.traceback = Some(
        "Traceback (most recent call last):\n  in main\n  in function_that_raises_error"
            .to_string(),
    );
    let result = runner.communicate_isolated(&process_uuid, &vec![Message::ChildError(error)]);

    // Verify that we got an error
    assert!(result.is_err(), "Expected an error but got: {:?}", result);
    let error_message = result.err().unwrap();
    assert!(
        error_message.contains("This is a custom error message"),
        "Error should contain the custom error message but got: {}",
        error_message
    );
    assert!(
        error_message.contains("Traceback")
            || error_message.contains("function_that_raises_error"),
        "Error should contain traceback information but got: {}",
        error_message
    );

    // Clean up
    assert_eq!(runner.stop_isolated(&process_uuid), Ok(true));
}

#[test]
fn a_new_runner_has_a_random_identifier() {
    let first = ImportRunner::new("p", "/p");
    let second = ImportRunner::new("p", "/p");
    assert_ne!(first.id, second.id);
    for id in [first.id, second.id] {
        assert_eq!(id.len(), 36);
        let parts: Vec<&str> = id.split('-').collect();
        let lengths: Vec<usize> = parts.iter().map(|part| part.len()).collect();
        assert_eq!(lengths, vec![8, 4, 4, 4, 12]);
        assert!(parts[2].starts_with('4'));
        assert!(parts[3].starts_with(|c| matches!(c, '8' | '9' | 'a' | 'b')));
        assert!(id
            .chars()
            .all(|c| c == '-' || c.is_ascii_digit() || matches!(c, 'a'..='f')));
    }
}

#[test]
fn without_a_layer_nothing_can_be_done() {
    let mut runner = ImportRunner::new("p", "/p");
    let missing = "Layer not initialized. Call boot_main first.".to_string();
    assert_eq!(runner.stop_main(), Ok(false));
    assert_eq!(runner.fork_request("data", "script").unwrap_err(), missing);
    assert_eq!(runner.exec_isolated(&forked(1)), Err(missing.clone()));
    assert_eq!(runner.pid_to_stop("u"), Err(missing.clone()));
    assert_eq!(runner.stop_isolated("u"), Err(missing));
    assert_eq!(
        runner.communicate_isolated("u", &vec![]),
        Err("No layer available for communication".to_string())
    );
    assert!(runner.layer.is_none());
}

#[test]
fn a_loader_that_fails_boots_nothing() {
    let mut runner = ImportRunner::new("p", "/p");
    let error = ImportError::new("no module".to_string(), Some("at line 1".to_string()));
    assert_eq!(
        runner.boot_main(&vec![
            LoaderEvent::Message(Message::ImportError(error)),
            LoaderEvent::Message(Message::ImportComplete(ImportComplete::new())),
        ]),
        Err("Import error: no module: at line 1".to_string())
    );
    let error = ImportError::new("no module".to_string(), None);
    assert_eq!(
        runner.boot_main(&vec![LoaderEvent::Message(Message::ImportError(error))]),
        Err("Import error: no module: ".to_string())
    );
    assert_eq!(
        runner.boot_main(&vec![LoaderEvent::ReadError("broken pipe".to_string())]),
        Err("Failed to read line: broken pipe".to_string())
    );
    assert_eq!(
        runner.boot_main(&vec![LoaderEvent::Output]),
        Err("Python loader did not report successful imports".to_string())
    );
    assert!(runner.layer.is_none());
}

#[test]
fn files_that_cannot_be_processed_are_reported() {
    let mut runner = ImportRunner::new("p", "/p");
    assert_eq!(
        runner.load_modules(&unreadable()),
        Err("Failed to process Python files: denied".to_string())
    );
    assert!(matches!(
        runner.update_environment(&unreadable()),
        Ok(Update::Unchanged)
    ));
    runner.first_scan = true;
    assert_eq!(
        runner.update_environment(&unreadable()).unwrap_err(),
        "Failed to compute import delta: denied"
    );
}

#[test]
fn a_restart_stops_all_processes() {
    let mut runner = ImportRunner::new("p", "/p");
    boot(&mut runner, &project(&[("a.py", "import one")]));
    runner.first_scan = true;
    runner.exec_isolated(&forked(11)).unwrap();
    let second = runner.exec_isolated(&forked(22)).unwrap();
    match runner.update_environment(&project(&[("a.py", "import two")])) {
        Ok(Update::Restart(pids)) => assert_eq!(pids, vec![11, 22]),
        _ => panic!("Expected a restart"),
    }
    assert_eq!(runner.layer.as_ref().unwrap().forked_processes.len(), 0);
    assert!(runner.communicate_isolated(&second, &vec![]).is_err());
}

#[test]
fn what_answers_a_fork() {
    let mut runner = booted_runner();
    let other = Message::UnknownCommand(UnknownCommandError::new("x".to_string()));
    let mut events = vec![LoaderEvent::Output, LoaderEvent::Message(other)];
    events.extend(forked(9));
    let uuid = runner.exec_isolated(&events).unwrap();
    assert_eq!(runner.pid_to_stop(&uuid), Ok(Some(9)));
    assert_eq!(runner.communicate_isolated(&uuid, &vec![]), Ok(None));

    let refused = ChildError::new("cannot fork".to_string());
    assert_eq!(
        runner.exec_isolated(&vec![LoaderEvent::Message(Message::ChildError(refused))]),
        Err("Fork error: cannot fork".to_string())
    );
    assert_eq!(
        runner.exec_isolated(&vec![LoaderEvent::ReadError("broken pipe".to_string())]),
        Err("Failed to read line: broken pipe".to_string())
    );
    // Where the output ends without an answer, nothing is registered.
    let uuid = runner.exec_isolated(&vec![]).unwrap();
    assert_eq!(runner.pid_to_stop(&uuid), Ok(None));
    assert_eq!(
        runner.register_fork(String::new(), &forked(3)),
        Err("Failed to get process UUID from fork operation".to_string())
    );
    assert_eq!(runner.register_fork("u".to_string(), &forked(3)), Ok("u".to_string()));
    assert_eq!(runner.layer.as_ref().unwrap().forked_processes.len(), 2);
}

#[test]
fn the_request_for_a_fork() {
    let runner = booted_runner();
    let request = runner.fork_request("gASV", "run()").unwrap();
    assert_eq!(request.code, "\npickled_str = \"gASV\"\nrun()\n            ");
    assert_eq!(exec_code("a", "b"), "\npickled_str = \"a\"\nb\n            ");
}

#[test]
fn a_report_reaches_all_processes_that_wait() {
    let mut layer = Layer::new();
    layer.forked_processes.insert("a".to_string(), 1);
    layer.result_map.insert("a".to_string(), None);
    layer.result_map.insert("b".to_string(), None);
    let complete = Message::ChildComplete(ChildComplete::new(Some("v".to_string())));
    assert_eq!(layer.process_line("{json}", &Some(complete)), None);
    for uuid in ["a", "b"] {
        assert!(matches!(
            layer.result_map.get(uuid),
            Some(Some(ProcessResult::Complete(Some(value)))) if value == "v"
        ));
    }
    layer.deliver(&Message::ImportComplete(ImportComplete::new()));
    assert!(matches!(
        layer.result_map.get("a"),
        Some(Some(ProcessResult::Complete(_)))
    ));
    layer.deliver(&Message::ChildError(ChildError::new("e".to_string())));
    assert!(matches!(
        layer.result_map.get("b"),
        Some(Some(ProcessResult::Error(why))) if why == "e"
    ));
}

#[test]
fn a_log_is_no_result() {
    let mut runner = booted_runner();
    runner.register_fork("u".to_string(), &forked(3)).unwrap();
    let log = parse_multiplexed_line("[PID:3:stdout] x").unwrap();
    runner
        .layer
        .as_mut()
        .unwrap()
        .result_map
        .insert("u".to_string(), Some(ProcessResult::Log(log)));
    assert_eq!(runner.communicate_isolated("u", &vec![]), Ok(None));
}

#[test]
fn answers_stay() {
    let mut runner = booted_runner();
    runner.register_fork("u".to_string(), &forked(3)).unwrap();
    let first = Message::ChildComplete(ChildComplete::new(Some("1".to_string())));
    let last = Message::ChildComplete(ChildComplete::new(Some("2".to_string())));
    let answer = runner.communicate_isolated("u", &vec![first, last]);
    assert_eq!(answer, Ok(Some("2".to_string())));
    assert_eq!(runner.communicate_isolated("u", &vec![]), answer);
}

#[test]
fn lines_that_are_shown() {
    let mut layer = Layer::new();
    layer.forked_processes.insert("u".to_string(), 7);
    assert_eq!(
        layer.process_line("[PID:7:stdout] hello", &None),
        Some("[u:stdout] hello".to_string())
    );
    assert_eq!(
        layer.process_line("[PID:8:stderr] hello", &None),
        Some("Unmatched log: [8:stderr] hello".to_string())
    );
    assert_eq!(
        layer.process_line("hello", &None),
        Some("Raw output: hello".to_string())
    );
}

#[test]
fn what_single_events_decide() {
    let complete = LoaderEvent::Message(Message::ImportComplete(ImportComplete::new()));
    assert_eq!(boot_step(&complete), Some(Ok(())));
    assert_eq!(boot_step(&LoaderEvent::Output), None);
    assert_eq!(fork_step(&complete), None);
    assert_eq!(fork_step(&forked(4)[0]), Some(Ok(4)));
}

#[test]
fn a_process_is_asked_to_end_and_then_killed() {
    assert_eq!(next_signal(None, false), Some(Signal::Terminate));
    assert_eq!(next_signal(Some(Signal::Terminate), true), None);
    assert_eq!(next_signal(Some(Signal::Terminate), false), Some(Signal::Kill));
    assert_eq!(next_signal(Some(Signal::Kill), false), None);
}

#[test]
fn the_banner_shows_seconds_above_a_thousand() {
    let start = "\n\u{1b}[1m\u{1b}[32m\u{2713}\u{1b}[39m\u{1b}[0m \
                 \u{1b}[1m\u{1b}[37mImport environment booted in\u{1b}[39m\u{1b}[0m ";
    let end = " \u{1b}[1m\u{1b}[37mwith ID: abc\u{1b}[39m\u{1b}[0m\n";
    assert_eq!(
        boot_banner(1000, "(1.00s)", "abc"),
        format!(
            "{}\u{1b}[1m\u{1b}[33m1000\u{1b}[39m\u{1b}[0m \u{1b}[1m\u{1b}[37mms\u{1b}[39m\u{1b}[0m{}",
            start, end
        )
    );
    assert_eq!(
        boot_banner(1250, "(1.25s)", "abc"),
        format!(
            "{}\u{1b}[1m\u{1b}[33m1250\u{1b}[39m\u{1b}[0m \u{1b}[1m\u{1b}[37mms\u{1b}[39m\u{1b}[0m \
             \u{1b}[3m\u{1b}[36m(1.25s)\u{1b}[39m\u{1b}[0m{}",
            start, end
        )
    );
}

#[test]
fn a_booted_runner_sees_changed_imports() {
    let mut runner = ImportRunner::new("p", "/p");
    let first = project(&[("a.py", "import one")]);
    assert!(matches!(runner.update_environment(&first), Ok(Update::Unchanged)));
    boot(&mut runner, &first);
    assert!(matches!(runner.update_environment(&first), Ok(Update::Unchanged)));
    let second = project(&[("a.py", "import two")]);
    assert!(matches!(runner.update_environment(&second), Ok(Update::Restart(_))));
    boot(&mut runner, &second);
    assert_eq!(runner.layer.as_ref().unwrap().forked_processes.len(), 0);
    assert!(matches!(runner.update_environment(&second), Ok(Update::Unchanged)));
}

#[test]
fn a_deleted_file_restarts_once() {
    let mut runner = ImportRunner::new("p", "/p");
    boot(&mut runner, &project(&[("a.py", "import one"), ("b.py", "import two")]));
    let fewer = project(&[("a.py", "import one")]);
    assert!(matches!(runner.update_environment(&fewer), Ok(Update::Restart(_))));
    boot(&mut runner, &fewer);
    assert!(matches!(runner.update_environment(&fewer), Ok(Update::Unchanged)));
}

#[test]
fn a_boot_that_failed_does_not_count_as_a_scan() {
    let mut runner = ImportRunner::new("p", "/p");
    runner.load_modules(&project(&[("a.py", "import one")])).unwrap();
    runner.boot_main(&vec![]).unwrap_err();
    assert!(!runner.first_scan);
}
