use hotreload::ast::{Project, ProjectTop, SourceFile};
use hotreload::environment::Update;
use hotreload::loader::LoaderEvent;
use hotreload::messages::{ChildComplete, ForkResponse, ImportComplete, Message};
use hotreload::runners::{scan_package, ImportRunners};

fn project(directory: Option<&str>, sources: &[(&str, &str)]) -> Project {
    Project {
        top: ProjectTop {
            files: vec![],
            directory: directory.map(|name| name.to_string()),
        },
        sources: sources
            .iter()
            .map(|(path, text)| SourceFile {
                path: path.to_string(),
                content: Ok(text.as_bytes().to_vec()),
            })
            .collect(),
    }
}

fn imports_loaded() -> Vec<LoaderEvent> {
    vec![LoaderEvent::Message(Message::ImportComplete(ImportComplete::new()))]
}

fn forked(pid: i32) -> Vec<LoaderEvent> {
    vec![LoaderEvent::Message(Message::ForkResponse(ForkResponse::new(pid)))]
}

fn started(runners: &mut ImportRunners, project: &Project) -> String {
    let scanned = scan_package("/p", project).unwrap();
    runners
        .start_import_runner(scanned.ast_manager, &imports_loaded())
        .unwrap()
}

#[test]
fn a_scan_gives_the_code_that_imports_the_modules() {
    let files = project(Some("pkg"), &[("pkg/a.py", "import numpy\nimport pkg.b")]);
    let scanned = scan_package("/p", &files).unwrap();
    assert_eq!(scanned.code, "__import__('numpy')\n");
    assert_eq!(scanned.ast_manager.get_package_name(), Some("pkg".to_string()));
}

#[test]
fn a_package_without_a_name_is_refused() {
    let files = project(None, &[("a.py", "import numpy")]);
    assert_eq!(
        scan_package("/", &files).err(),
        Some("Could not determine package name".to_string())
    );
    let mut broken = project(None, &[("a.py", "")]);
    broken.sources[0].content = Err("denied".to_string());
    assert_eq!(
        scan_package("/", &broken).err(),
        Some("Failed to process Python files: denied".to_string())
    );
}

#[test]
fn a_runner_lives_until_it_is_stopped() {
    let mut runners = ImportRunners::new();
    let files = project(Some("pkg"), &[("a.py", "import one")]);
    let id = started(&mut runners, &files);
    let other = started(&mut runners, &files);
    assert_ne!(id, other);

    assert!(matches!(
        runners.update_environment(&id, &files),
        Ok(Update::Unchanged)
    ));
    let request = runners.fork_request(&id, "data", "script").unwrap();
    assert!(request.code.contains("data"));
    let uuid = runners.exec_isolated(&id, &forked(5)).unwrap();
    assert_eq!(runners.communicate_isolated(&id, &uuid, &vec![]), Ok(None));
    let complete = Message::ChildComplete(ChildComplete::new(Some("v".to_string())));
    assert_eq!(
        runners.communicate_isolated(&id, &uuid, &vec![complete]),
        Ok(Some("v".to_string()))
    );
    assert_eq!(
        runners.communicate_isolated(&other, &uuid, &vec![]),
        Err(format!(
            "Failed to communicate with isolated process: Process {} does not exist",
            uuid
        ))
    );
    assert_eq!(runners.pid_to_stop(&id, &uuid), Ok(Some(5)));
    assert_eq!(runners.stop_isolated(&id, &uuid), Ok(true));
    assert_eq!(runners.stop_isolated(&id, &uuid), Ok(false));

    assert_eq!(runners.stop_import_runner(&id), Ok(()));
    let missing = format!("No import runner found with ID: {}", id);
    assert_eq!(runners.stop_import_runner(&id), Err(missing.clone()));
    assert_eq!(runners.exec_isolated(&id, &forked(5)), Err(missing.clone()));
    assert_eq!(runners.fork_request(&id, "", "").unwrap_err(), missing);
    assert_eq!(runners.pid_to_stop(&id, &uuid), Err(missing.clone()));
    assert_eq!(runners.stop_isolated(&id, &uuid), Err(missing.clone()));
    assert_eq!(
        runners.communicate_isolated(&id, &uuid, &vec![]),
        Err(missing.clone())
    );
    assert_eq!(runners.update_environment(&id, &files).unwrap_err(), missing);
    assert_eq!(runners.reload_modules(&id, &files), Err(missing.clone()));
    assert_eq!(runners.reboot(&id, &imports_loaded()), Err(missing));
    assert_eq!(
        runners.compute_import_delta(&id, &files),
        Err(format!("No import runner found for ID: {}", id))
    );
    assert_eq!(runners.stop_import_runner(&other), Ok(()));
}

#[test]
fn changed_imports_restart_an_environment() {
    let mut runners = ImportRunners::new();
    let id = started(&mut runners, &project(Some("pkg"), &[("a.py", "import one")]));
    runners.exec_isolated(&id, &forked(5)).unwrap();
    let changed = project(Some("pkg"), &[("a.py", "import two")]);
    match runners.update_environment(&id, &changed) {
        Ok(Update::Restart(pids)) => assert_eq!(pids, vec![5]),
        _ => panic!("Expected a restart"),
    }
    assert_eq!(
        runners.reload_modules(&id, &changed),
        Ok("__import__('two')\n".to_string())
    );
    assert_eq!(
        runners.reboot(&id, &vec![]),
        Err(
            "Failed to update environment: Python loader did not report successful imports"
                .to_string()
        )
    );
    assert_eq!(runners.reboot(&id, &imports_loaded()), Ok(true));
    assert_eq!(
        runners.compute_import_delta(&id, &changed),
        Ok((vec![], vec![]))
    );
    let again = project(Some("pkg"), &[("a.py", "import three")]);
    assert_eq!(
        runners.compute_import_delta(&id, &again),
        Ok((vec!["three".to_string()], vec!["two".to_string()]))
    );
}

#[test]
fn faults_of_a_runner_are_explained() {
    let mut runners = ImportRunners::new();
    let id = started(&mut runners, &project(Some("pkg"), &[]));
    let mut broken = project(Some("pkg"), &[("a.py", "")]);
    broken.sources[0].content = Err("denied".to_string());
    assert_eq!(
        runners.update_environment(&id, &broken).unwrap_err(),
        "Failed to update environment: Failed to compute import delta: denied"
    );
    assert_eq!(
        runners.compute_import_delta(&id, &broken),
        Err("Failed to compute import delta: denied".to_string())
    );
    assert_eq!(
        runners.reload_modules(&id, &broken),
        Err("Failed to update environment: Failed to process Python files: denied".to_string())
    );
}

#[test]
fn a_runner_that_did_not_load_is_not_registered() {
    let mut runners = ImportRunners::new();
    let scanned = scan_package("/p", &project(Some("pkg"), &[])).unwrap();
    assert!(runners.start_import_runner(scanned.ast_manager, &vec![]).is_err());
    assert_eq!(runners.runners.len(), 0);
    let scanned = scan_package("/p", &project(Some("pkg"), &[])).unwrap();
    assert_eq!(
        runners.register_runner("r".to_string(), scanned.ast_manager, &imports_loaded()),
        Ok("r".to_string())
    );
    assert!(runners.runners.contains_key("r"));
    assert!(runners.runners.get("r").unwrap().first_scan);
}
