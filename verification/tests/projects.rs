use hotreload::ast::{
    is_python_file, AstError, Project, ProjectAstManager, ProjectTop, SourceFile,
};
use hotreload::module_set::ModuleSet;
use hotreload::package_name::{
    detect_package_name, may_name_package, package_name_in, ProjectFile,
};

fn source(path: &str, text: &str) -> SourceFile {
    SourceFile {
        path: path.to_string(),
        content: Ok(text.as_bytes().to_vec()),
    }
}

fn project(directory: &str, sources: Vec<SourceFile>) -> Project {
    Project {
        top: ProjectTop {
            files: vec![],
            directory: Some(directory.to_string()),
        },
        sources,
    }
}

fn sorted(set: ModuleSet) -> Vec<String> {
    let mut names = set.into_list();
    names.sort();
    names
}

fn file(name: &str, content: &str) -> ProjectFile {
    ProjectFile {
        file_name: name.to_string(),
        content: Some(content.to_string()),
    }
}

#[test]
fn every_kind_of_statement_is_searched() {
    let text = "import a\n\
                import b.c as d, e\n\
                from f import g as h, i\n\
                from . import j\n\
                from .k import l\n\
                from ..m import n\n\
                if x:\n    import o\nelif y:\n    import p\nelse:\n    import q\n\
                while z:\n    import r\nelse:\n    import s\n\
                def fun():\n    import t\n\
                async def afun():\n    import u\n\
                class C:\n    import v\n    def m(self):\n        import w\n\
                try:\n    import nope\nexcept E:\n    import nope2\n\
                for i in j:\n    import nope3\n\
                with open(f):\n    import nope4\n";
    let mut manager = ProjectAstManager::new("/p");
    let found = manager
        .process_py_file("x.py", &text.as_bytes().to_vec())
        .unwrap();
    let modules: Vec<&str> = found.iter().map(|info| info.module.as_str()).collect();
    assert_eq!(
        modules,
        vec![
            "a", "b.c", "e", "f", "k", "m", "o", "p", "q", "r", "s", "t", "u", "v", "w"
        ]
    );
    assert_eq!(found[1].names, vec!["d".to_string()]);
    assert_eq!(found[2].names, vec!["e".to_string()]);
    assert_eq!(found[3].names, vec!["h".to_string(), "i".to_string()]);
    let relative: Vec<bool> = found.iter().map(|info| info.is_relative).collect();
    assert_eq!(&relative[0..6], &[false, false, false, false, true, true]);
    assert!(relative[6..].iter().all(|r| !r));
}

#[test]
fn the_hash_of_a_file_is_its_sha256() {
    let manager = ProjectAstManager::new("/p");
    assert_eq!(
        manager.calculate_file_hash(b"abc"),
        "ba7816bf8f01cfea414140de5dae2223b00361a396177a9cb410ff61f20015ad"
    );
    assert_eq!(
        manager.calculate_file_hash(b""),
        "e3b0c44298fc1c149afbf4c8996fb92427ae41e4649b934ca495991b7852b855"
    );
}

#[test]
fn third_party_modules_are_neither_relative_nor_of_the_package() {
    let mut manager = ProjectAstManager::new("/p");
    let found = manager
        .process_all_py_files(&project(
            "pkg",
            vec![
                source("pkg/a.py", "import numpy\nimport pkg.b\nfrom .c import d\n"),
                source("pkg/b.py", "import pkgother\nimport os.path\nfrom numpy import array\n"),
            ],
        ))
        .unwrap();
    assert_eq!(manager.get_package_name(), Some("pkg".to_string()));
    assert!(found.contains("numpy"));
    assert!(!found.contains("pkg.b"));
    // Another package, though its name begins with that of the project.
    assert!(found.contains("pkgother"));
    assert_eq!(found.len(), 3);
    assert_eq!(
        sorted(found),
        vec!["numpy".to_string(), "os.path".to_string(), "pkgother".to_string()]
    );
}

#[test]
fn without_a_package_name_only_relative_imports_are_left_out() {
    let mut manager = ProjectAstManager::new("/");
    let mut nameless = project("x", vec![source("a.py", "import x.y\nfrom . import z\n")]);
    nameless.top.directory = None;
    let found = manager.process_all_py_files(&nameless).unwrap();
    assert_eq!(manager.get_package_name(), None);
    assert_eq!(sorted(found), vec!["x.y".to_string()]);
}

#[test]
fn the_delta_shows_what_was_added_and_removed() {
    let mut manager = ProjectAstManager::new("/p");
    let first = project("pkg", vec![source("a.py", "import one\nimport two\n")]);
    let (added, removed) = manager.compute_import_delta(&first).unwrap();
    assert_eq!(sorted(added), vec!["one".to_string(), "two".to_string()]);
    assert!(removed.is_empty());

    let (added, removed) = manager.compute_import_delta(&first).unwrap();
    assert!(added.is_empty());
    assert!(removed.is_empty());

    let second = project("pkg", vec![source("a.py", "import two\nimport three\n")]);
    let (added, removed) = manager.compute_import_delta(&second).unwrap();
    assert_eq!(sorted(added), vec!["three".to_string()]);
    assert_eq!(sorted(removed), vec!["one".to_string()]);
}

#[test]
fn own_modules_are_told_from_other_packages() {
    let mut manager = ProjectAstManager::new("/p");
    let text = "import os\nimport foobar\nimport foo.x\nimport foo\nfrom foo import q\n\
                from .m import z\nfrom . import y\n";
    let found = manager
        .process_all_py_files(&project("foo", vec![source("foo/a.py", text)]))
        .unwrap();
    assert_eq!(sorted(found), vec!["foobar".to_string(), "os".to_string()]);
}

#[test]
fn a_file_that_is_gone_is_forgotten() {
    let mut manager = ProjectAstManager::new("/p");
    let both = project(
        "pkg",
        vec![source("a.py", "import one\n"), source("b.py", "import two\n")],
    );
    manager.process_all_py_files(&both).unwrap();
    let one = project("pkg", vec![source("a.py", "import one\n")]);
    let (added, removed) = manager.compute_import_delta(&one).unwrap();
    assert!(added.is_empty());
    assert_eq!(sorted(removed), vec!["two".to_string()]);
    // Nothing changed since the last check.
    let (added, removed) = manager.compute_import_delta(&one).unwrap();
    assert!(added.is_empty());
    assert!(removed.is_empty());
    assert_eq!(sorted(manager.known_imports()), vec!["one".to_string()]);
    // The file is back.
    let (added, removed) = manager.compute_import_delta(&both).unwrap();
    assert_eq!(sorted(added), vec!["two".to_string()]);
    assert!(removed.is_empty());
}

#[test]
fn a_scan_with_a_fault_forgets_nothing() {
    let mut manager = ProjectAstManager::new("/p");
    let both = project(
        "pkg",
        vec![source("a.py", "import one\n"), source("b.py", "import two\n")],
    );
    manager.process_all_py_files(&both).unwrap();
    let broken = project("pkg", vec![source("a.py", "import (\n")]);
    manager.process_all_py_files(&broken).unwrap_err();
    assert_eq!(
        sorted(manager.known_imports()),
        vec!["one".to_string(), "two".to_string()]
    );
}

#[test]
fn a_file_that_cannot_be_read_stops_the_scan() {
    let mut manager = ProjectAstManager::new("/p");
    let broken = project(
        "pkg",
        vec![
            source("a.py", "import one\n"),
            SourceFile {
                path: "b.py".to_string(),
                content: Err("No such file or directory (os error 2)".to_string()),
            },
            source("c.py", "import three\n"),
        ],
    );
    let error = manager.process_all_py_files(&broken).unwrap_err();
    assert!(matches!(error, AstError::Read(_)));
    assert_eq!(error.message(), "No such file or directory (os error 2)");
    assert_eq!(sorted(manager.known_imports()), vec!["one".to_string()]);
}

#[test]
fn a_file_that_is_not_utf8_is_refused() {
    let mut manager = ProjectAstManager::new("/p");
    let error = manager.process_py_file("a.py", &vec![0xff, 0xfe]).unwrap_err();
    assert!(matches!(error, AstError::NotUtf8));
    assert_eq!(error.message(), "stream did not contain valid UTF-8");
    let found = manager
        .process_py_file("b.py", &"import n\u{e4}me\n".as_bytes().to_vec())
        .unwrap();
    assert_eq!(found[0].module, "n\u{e4}me");
}

#[test]
fn a_file_that_does_not_parse_is_refused() {
    let mut manager = ProjectAstManager::new("/p");
    let error = manager
        .process_py_file("dir/a.py", &b"def (:\n".to_vec())
        .unwrap_err();
    assert!(matches!(error, AstError::Parse(_, _)));
    assert!(error.message().starts_with("Failed to parse dir/a.py: "));
    // What was known of the file stays known.
    manager.process_py_file("b.py", &b"import one\n".to_vec()).unwrap();
    manager.process_py_file("b.py", &b"import (\n".to_vec()).unwrap_err();
    assert_eq!(sorted(manager.known_imports()), vec!["one".to_string()]);
}

#[test]
fn text_of_an_unexpected_syntax_tree() {
    let error = AstError::UnexpectedAst("a.py".to_string());
    assert_eq!(error.message(), "Unexpected AST format for module in file a.py");
}

#[test]
fn where_python_files_are_searched() {
    let top = ProjectTop {
        files: vec![file("setup.py", "setup(name='inner')")],
        directory: Some("outer".to_string()),
    };
    let mut manager = ProjectAstManager::new("/p/outer");
    assert_eq!(manager.get_project_path(), "/p/outer");
    assert_eq!(manager.search_directory(&top), "inner");
    assert_eq!(manager.detect_package_name(&top), Some("inner".to_string()));
    assert_eq!(manager.get_package_name(), Some("inner".to_string()));
    let whole = ProjectAstManager::for_package("inner", "/p/outer");
    assert_eq!(whole.search_directory(&top), "");
    assert_eq!(whole.get_package_name(), Some("inner".to_string()));
    let nowhere = ProjectTop {
        files: vec![],
        directory: None,
    };
    assert_eq!(ProjectAstManager::new("/").search_directory(&nowhere), "");
}

#[test]
fn python_files_by_their_names() {
    assert!(is_python_file("a.py"));
    assert!(is_python_file("a.b.py"));
    assert!(!is_python_file(".py"));
    assert!(!is_python_file("py"));
    assert!(!is_python_file("a.pyc"));
    assert!(!is_python_file("a.PY"));
    assert!(!is_python_file(""));
}

#[test]
fn names_in_setup_files() {
    let name = |text: &str| package_name_in(&file("setup.py", text));
    assert_eq!(name("setup(name=\"alpha\", x=1)"), Some("alpha".to_string()));
    assert_eq!(name("setup(name='beta')"), Some("beta".to_string()));
    assert_eq!(name("setup(\n  name='gamma'\n)"), Some("gamma".to_string()));
    // The quotation marks need not be the same.
    assert_eq!(name("name='delta\""), Some("delta".to_string()));
    assert_eq!(name("name = 'spaced'"), None);
    assert_eq!(name("name=''"), None);
    assert_eq!(name("name='' name='second'"), Some("second".to_string()));
    assert_eq!(name("name='two\nlines'"), Some("two\nlines".to_string()));
    assert_eq!(name("nothing here"), None);
}

#[test]
fn names_in_pyproject_files() {
    let name = |text: &str| package_name_in(&file("pyproject.toml", text));
    assert_eq!(name("[project] name = \"alpha\""), Some("alpha".to_string()));
    assert_eq!(name("[tool.poetry]name='beta'"), Some("beta".to_string()));
    assert_eq!(
        name("[project] x = 1, name \u{a0}=\t \"gamma\""),
        Some("gamma".to_string())
    );
    // The name begins a line of the section.
    assert_eq!(name("[project]\nname = \"alpha\"\n"), Some("alpha".to_string()));
    assert_eq!(
        name("[build-system]\nrequires = []\n\n[project]\r\nversion = '1'\r\n\r\n  name = 'beta'\r\n"),
        Some("beta".to_string())
    );
    assert_eq!(
        name("[project]\nauthors = [{name = \"me\"}]\nkeywords = [\n  \"a\",\n]\nname = \"pkg\"\n"),
        Some("pkg".to_string())
    );
    assert_eq!(
        name("[tool.poetry]\ndescription = 'x'\nname = 'poem'\n[tool.poetry.dependencies]\n"),
        Some("poem".to_string())
    );
    // The next section is not searched.
    assert_eq!(name("[project]\nversion = '1'\n[other]\nname = 'x'\n"), None);
    assert_eq!(name("[project]\n\n\n[other]\nname = 'x'\n"), None);
    assert_eq!(name("[project]\n[[list]]\nname = 'x'\n"), None);
    // White space round the sign may hold line feeds.
    assert_eq!(name("[project] name =\n \"delta\""), Some("delta".to_string()));
    assert_eq!(name("[toolxpoetry] name = 'a'"), None);
    assert_eq!(
        name("[project]\n[tool.poetry] name = 'late'"),
        Some("late".to_string())
    );
    assert_eq!(name("[project] name = '' name = 'x'"), Some("x".to_string()));
    assert_eq!(name("name = 'alone'"), None);
}

#[test]
fn the_first_file_that_gives_a_name_decides() {
    let files = vec![
        file("README.md", "name='readme'"),
        ProjectFile {
            file_name: "setup.py".to_string(),
            content: None,
        },
        file("pyproject.toml", "[build-system]\n"),
        file("setup.py", "setup(name='third')"),
        file("setup.py", "setup(name='fourth')"),
    ];
    let directory = Some("dir".to_string());
    assert_eq!(detect_package_name(&files, &directory), Some("third".to_string()));
    assert_eq!(detect_package_name(&vec![], &directory), Some("dir".to_string()));
    assert_eq!(detect_package_name(&vec![], &None), None);
    assert!(may_name_package("setup.py"));
    assert!(may_name_package("pyproject.toml"));
    assert!(!may_name_package("__init__.py"));
}

#[test]
fn the_order_of_the_files_does_not_matter() {
    let scan = |sources: Vec<SourceFile>| {
        let mut manager = ProjectAstManager::new("/p");
        let found = manager.process_all_py_files(&project("pkg", sources)).unwrap();
        (sorted(found), sorted(manager.known_imports()))
    };
    let forward = scan(vec![
        source("a.py", "import one\nimport two\n"),
        source("b.py", "import two\nimport three\n"),
    ]);
    let backward = scan(vec![
        source("b.py", "import two\nimport three\n"),
        source("a.py", "import one\nimport two\n"),
    ]);
    assert_eq!(forward, backward);
    assert_eq!(
        forward.0,
        vec!["one".to_string(), "three".to_string(), "two".to_string()]
    );
}

fn quoted_from(text: &[char], open: usize) -> Option<String> {
    let quote = |c: &char| matches!(c, '"' | '\'');
    if !text.get(open).map_or(false, quote) {
        return None;
    }
    let length = text[open + 1..].iter().position(quote)?;
    if length == 0 {
        return None;
    }
    Some(text[open + 1..open + 1 + length].iter().collect())
}

fn spaces_end(text: &[char], from: usize) -> usize {
    let mut at = from;
    while at < text.len() && text[at].is_whitespace() {
        at += 1;
    }
    at
}

fn stands(text: &[char], at: usize, word: &str) -> bool {
    let word: Vec<char> = word.chars().collect();
    text[at..].starts_with(&word)
}

fn field_from(text: &[char], at: usize) -> Option<String> {
    if !stands(text, at, "name") {
        return None;
    }
    let equals = spaces_end(text, at + 4);
    if text.get(equals) != Some(&'=') {
        return None;
    }
    quoted_from(text, spaces_end(text, equals + 1))
}

fn searched_pyproject_name(text: &[char]) -> Option<String> {
    for start in 0..text.len() {
        let head = if stands(text, start, "[project]") {
            start + 9
        } else if stands(text, start, "[tool.poetry]") {
            start + 13
        } else {
            continue;
        };
        for at in head..text.len() {
            if at > head && text[at - 1] == '\n' && text[at] == '[' {
                break;
            }
            let header_line = !text[head..at].contains(&'\n');
            let begins_line = (head..at)
                .any(|k| text[k] == '\n' && text[k + 1..at].iter().all(|c| c.is_whitespace()));
            if header_line || begins_line {
                if let Some(name) = field_from(text, at) {
                    return Some(name);
                }
            }
        }
    }
    None
}

fn searched_setup_name(text: &[char]) -> Option<String> {
    (0..text.len())
        .filter(|at| stands(text, *at, "name="))
        .find_map(|at| quoted_from(text, at + 5))
}

#[test]
fn names_are_those_that_a_plain_search_finds() {
    let pieces = [
        "[project]", "[tool.poetry]", "[x]", "[", "\n", "\n", "\n", " ", "\t", "\r", "\u{a0}",
        "\u{2028}", "name", "name", "name=", "name = ", "=", "'", "\"", "'a'", "\"b\"", "c", "n",
    ];
    let mut state: u64 = 12345;
    let mut found = 0;
    for round in 0..1500 {
        let mut text = (if round % 2 == 0 { "[project]" } else { "" }).to_string();
        for _ in 0..12 {
            state = state.wrapping_mul(6364136223846793005).wrapping_add(1442695040888963407);
            text.push_str(pieces[(state >> 33) as usize % pieces.len()]);
        }
        let chars: Vec<char> = text.chars().collect();
        let name = package_name_in(&file("pyproject.toml", &text));
        assert_eq!(name, searched_pyproject_name(&chars), "{:?}", text);
        if name.is_some() {
            found += 1;
        }
        let name = package_name_in(&file("setup.py", &text));
        assert_eq!(name, searched_setup_name(&chars), "{:?}", text);
    }
    assert!(found > 20);
}
