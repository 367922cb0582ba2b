use std::path::PathBuf;

use hotreload::file_hash::{hash_of, hex_text};
use hotreload::messages::io::{read_message, write_message};
use hotreload::messages::{
    ChildComplete, ChildError, ExitRequest, ForkRequest, ForkResponse, ImportComplete,
    ImportError, Message, MessageBase, MessageType, UnknownCommandError, UnknownError,
};
use hotreload::module_set::ModuleSet;
use hotreload::processes::{find_owner, to_table_pid};
use hotreload::python::{
    add_python_path, extra_python_paths, find_python, remove_python_path, PythonSearch,
};
use hotreload::redirect::{PipeRead, RedirectLogs};
use hotreload::string_map::StringMap;
use hotreload::text::{decimal_text, find, joined, signed_decimal_text, starts_with};

#[test]
fn test_redirect_logs() {
    // Redirect an output.
    let redirection = RedirectLogs::new();

    // Something comes out of the pipe.
    let reads = vec![
        PipeRead::Data(b"Hello from redirect_logs!\n".to_vec()),
        PipeRead::Data(vec![]),
    ];

    // Finalize the redirection to ensure all output is captured.
    let output = redirection.finish(&reads);
    let output_str = String::from_utf8(output).expect("Invalid UTF-8");

    // Now check the captured output.
    assert!(output_str.contains("Hello from redirect_logs!"));
}

#[test]
fn capture_ends_with_the_stream_or_a_failure() {
    let mut logs = RedirectLogs::new();
    assert!(logs.record(&PipeRead::Data(vec![1, 2])));
    assert!(logs.record(&PipeRead::Data(vec![3])));
    assert_eq!(logs.get_captured(), vec![1, 2, 3]);
    assert!(!logs.record(&PipeRead::Data(vec![])));
    assert!(!logs.record(&PipeRead::Failed));
    assert_eq!(logs.get_captured(), vec![1, 2, 3]);
    assert_eq!(
        logs.finish(&vec![
            PipeRead::Data(vec![4]),
            PipeRead::Failed,
            PipeRead::Data(vec![5])
        ]),
        vec![1, 2, 3, 4]
    );
}

#[test]
fn python_paths_are_kept_once() {
    let mut paths: Vec<PathBuf> = vec![];
    add_python_path(&mut paths, PathBuf::from("/a"));
    add_python_path(&mut paths, PathBuf::from("/b"));
    add_python_path(&mut paths, PathBuf::from("/a"));
    // The same path, written differently.
    add_python_path(&mut paths, PathBuf::from("/b/"));
    assert_eq!(
        extra_python_paths(&paths),
        vec![PathBuf::from("/a"), PathBuf::from("/b")]
    );
    remove_python_path(&mut paths, &PathBuf::from("/c"));
    assert_eq!(paths.len(), 2);
    remove_python_path(&mut paths, &PathBuf::from("/a/."));
    assert_eq!(extra_python_paths(&paths), vec![PathBuf::from("/b")]);
    add_python_path(&mut paths, PathBuf::from("/a"));
    assert_eq!(
        extra_python_paths(&paths),
        vec![PathBuf::from("/b"), PathBuf::from("/a")]
    );
}

#[test]
fn a_path_is_listed_if_it_was_added_last() {
    let mut paths: Vec<PathBuf> = vec![];
    add_python_path(&mut paths, PathBuf::from("/x"));
    let before = extra_python_paths(&paths);
    // A remove undoes an add, and a second add changes nothing.
    add_python_path(&mut paths, PathBuf::from("/a"));
    let once = extra_python_paths(&paths);
    add_python_path(&mut paths, PathBuf::from("/a"));
    assert_eq!(extra_python_paths(&paths), once);
    remove_python_path(&mut paths, &PathBuf::from("/a"));
    assert_eq!(extra_python_paths(&paths), before);
    // What is handed out is a copy.
    let mut copy = extra_python_paths(&paths);
    copy.clear();
    assert_eq!(extra_python_paths(&paths), before);
}

#[test]
fn the_search_for_python() {
    assert!(matches!(find_python(true, &vec![]), PythonSearch::Configured));
    let probe = |search: PythonSearch| match search {
        PythonSearch::Probe(name) => format!("probe {}", name),
        PythonSearch::Found(name) => format!("found {}", name),
        PythonSearch::Configured => "configured".to_string(),
    };
    assert_eq!(probe(find_python(false, &vec![])), "probe python");
    assert_eq!(probe(find_python(false, &vec![true])), "found python");
    assert_eq!(probe(find_python(false, &vec![false])), "probe python3");
    assert_eq!(probe(find_python(false, &vec![false, true])), "found python3");
    assert_eq!(probe(find_python(false, &vec![false, false])), "found python");
}

#[test]
fn messages_know_their_names() {
    let text = || "x".to_string();
    assert_eq!(ForkRequest::new(text()).name(), MessageType::ForkRequest);
    assert_eq!(ExitRequest::new().name(), MessageType::ExitRequest);
    assert_eq!(ForkResponse::new(1).name(), MessageType::ForkResponse);
    assert_eq!(ChildComplete::new(None).name(), MessageType::ChildComplete);
    assert_eq!(ChildError::new(text()).name(), MessageType::ChildError);
    assert_eq!(
        UnknownCommandError::new(text()).name(),
        MessageType::UnknownCommand
    );
    assert_eq!(UnknownError::new(text(), None).name(), MessageType::UnknownError);
    assert_eq!(ImportError::new(text(), None).name(), MessageType::ImportError);
    assert_eq!(ImportComplete::new().name(), MessageType::ImportComplete);
    assert_eq!(
        Message::ForkRequest(ForkRequest::new(text())).name(),
        MessageType::ForkRequest
    );
    assert_eq!(
        Message::ExitRequest(ExitRequest::new()).name(),
        MessageType::ExitRequest
    );
    assert_eq!(
        Message::UnknownCommand(UnknownCommandError::new(text())).name(),
        MessageType::UnknownCommand
    );
    assert_eq!(ForkResponse::new(7).child_pid, 7);
    assert_eq!(ChildError::new(text()).error, "x");
    assert_eq!(
        UnknownError::new(text(), Some(text())).traceback,
        Some("x".to_string())
    );
}

#[test]
fn messages_stand_one_to_a_line() {
    assert_eq!(write_message("{}"), "{}\n");
    assert_eq!(read_message("{}\n"), Some("{}\n".to_string()));
    assert_eq!(read_message(""), None);
}

#[test]
fn bytes_in_hexadecimal() {
    assert_eq!(hex_text(&vec![]), "");
    assert_eq!(hex_text(&vec![0x00, 0x0f, 0xa5, 0xff]), "000fa5ff");
    assert_eq!(
        hash_of(b"hello"),
        "2cf24dba5fb0a30e26e83b2ac5b9e29e1b161e5c1fa7425e73043362938b9824"
    );
}

#[test]
fn numbers_in_decimal() {
    assert_eq!(decimal_text(0), "0");
    assert_eq!(decimal_text(1090), "1090");
    assert_eq!(decimal_text(u128::MAX), u128::MAX.to_string());
    assert_eq!(signed_decimal_text(0), "0");
    assert_eq!(signed_decimal_text(-17), "-17");
    assert_eq!(signed_decimal_text(i32::MIN), i32::MIN.to_string());
    assert_eq!(signed_decimal_text(i32::MAX), i32::MAX.to_string());
}

#[test]
fn texts_are_compared_by_characters() {
    assert!(starts_with("n\u{e4}me", "n\u{e4}"));
    assert!(starts_with("x", ""));
    assert!(!starts_with("", "x"));
    assert_eq!(joined("a\u{e4}", "b"), "a\u{e4}b");
    let chars: Vec<char> = "a\u{e4}] b] ".chars().collect();
    assert_eq!(find(&chars, "] "), Some(2));
    assert_eq!(find(&chars, "zz"), None);
}

#[test]
fn a_map_keeps_its_order() {
    let mut map: StringMap<i32> = StringMap::new();
    map.insert("b".to_string(), 1);
    map.insert("a".to_string(), 2);
    map.insert("b".to_string(), 3);
    assert_eq!(map.key_list(), vec!["b".to_string(), "a".to_string()]);
    assert_eq!(map.get("b"), Some(&3));
    *map.get_mut("a").unwrap() = 9;
    assert_eq!(map.value_at(1), &9);
    assert!(map.get_mut("z").is_none());
    assert_eq!(map.remove("b"), Some(3));
    assert_eq!(map.remove("b"), None);
    assert_eq!(map.len(), 1);
    map.clear();
    assert_eq!(map.len(), 0);
    assert!(!map.contains_key("a"));
}

#[test]
fn a_set_keeps_each_name_once() {
    let mut set = ModuleSet::new();
    assert!(set.is_empty());
    set.insert("os".to_string());
    set.insert("sys".to_string());
    set.insert("os".to_string());
    assert_eq!(set.len(), 2);
    let mut other = ModuleSet::new();
    other.insert("os".to_string());
    assert_eq!(set.difference(&other).into_list(), vec!["sys".to_string()]);
    assert!(other.difference(&set).is_empty());
}

#[test]
fn process_ids_find_their_owners() {
    let mut processes: StringMap<i32> = StringMap::new();
    processes.insert("a".to_string(), 5);
    processes.insert("b".to_string(), -2);
    assert_eq!(find_owner(&processes, 5), Some("a".to_string()));
    assert_eq!(find_owner(&processes, to_table_pid(4294967294)), Some("b".to_string()));
    assert_eq!(find_owner(&processes, 6), None);
    assert_eq!(to_table_pid(2147483647), 2147483647);
    assert_eq!(to_table_pid(2147483648), -2147483648);
}
