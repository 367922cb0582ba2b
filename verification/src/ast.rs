//! The modules that a project imports, and how they change.
use vstd::prelude::*;
use vstd::utf8::{decode_utf8, valid_utf8};

use crate::file_hash::{file_hash, hash_of};
pub use crate::imports::{collect_imports, ImportInfo};
use crate::imports::{copied, imports, imports_in, Import};
use crate::module_set::ModuleSet;
use crate::package_name::{detect_package_name, detected_name, ProjectFile};
use crate::python_source::{parse_module, python_module};
use crate::string_map::StringMap;
use crate::text::{joined, same_text, starts_with, view_of};

verus! {

/// Why the files of a project could not be processed.
#[derive(Debug)]
pub enum AstError {
    /// A file could not be read; the text says why.
    Read(String),
    /// A file is not UTF-8.
    NotUtf8,
    /// The file at the path does not parse; the second text says why.
    Parse(String, String),
    /// The file at the path parses to something that is not a module.
    UnexpectedAst(String),
}

/// What an `AstError` stands for.
pub enum Fault {
    Read(Seq<char>),
    NotUtf8,
    Parse(Seq<char>, Seq<char>),
    UnexpectedAst(Seq<char>),
}

impl View for AstError {
    type V = Fault;

    open spec fn view(&self) -> Fault {
        match self {
            AstError::Read(why) => Fault::Read(why@),
            AstError::NotUtf8 => Fault::NotUtf8,
            AstError::Parse(path, why) => Fault::Parse(path@, why@),
            AstError::UnexpectedAst(path) => Fault::UnexpectedAst(path@),
        }
    }
}

/// The text of a fault.
pub open spec fn fault_text(fault: Fault) -> Seq<char> {
    match fault {
        Fault::Read(why) => why,
        Fault::NotUtf8 => "stream did not contain valid UTF-8"@,
        Fault::Parse(path, why) => "Failed to parse "@ + path + ": "@ + why,
        Fault::UnexpectedAst(path) => "Unexpected AST format for module in file "@ + path,
    }
}

impl AstError {
    /// The text of the error.
    pub fn message(&self) -> (text: String)
        ensures
            text@ == fault_text(self@),
    {
        match self {
            AstError::Read(why) => why.clone(),
            AstError::NotUtf8 => "stream did not contain valid UTF-8".to_owned(),
            AstError::Parse(path, why) => {
                let start = joined("Failed to parse ", path.as_str());
                joined(joined(start.as_str(), ": ").as_str(), why.as_str())
            },
            AstError::UnexpectedAst(path) => joined(
                "Unexpected AST format for module in file ",
                path.as_str(),
            ),
        }
    }
}

/// The top of a project on disk: the files that may name its package, in the
/// order in which they were found, and the name of its directory.
#[derive(Debug)]
pub struct ProjectTop {
    pub files: Vec<ProjectFile>,
    pub directory: Option<String>,
}

/// A Python file on disk: its path, and its bytes or why they could not be read.
#[derive(Debug)]
pub struct SourceFile {
    pub path: String,
    pub content: Result<Vec<u8>, String>,
}

/// A project as it was found on disk.
#[derive(Debug)]
pub struct Project {
    pub top: ProjectTop,
    pub sources: Vec<SourceFile>,
}

impl Project {
    /// No file is too long to be parsed.
    pub open spec fn parsable(&self) -> bool {
        forall|i: int|
            0 <= i < self.sources@.len() ==> (#[trigger] self.sources@[i].content matches Ok(bytes)
                ==> bytes@.len() <= u32::MAX)
    }
}

/// Whether a file of this name is Python source: it ends in `.py` and has
/// something before that.
pub fn is_python_file(file_name: &str) -> (python: bool)
    ensures
        python == (file_name@.len() > 3 && ".py"@.is_suffix_of(file_name@)),
{
    let chars = crate::text::chars_of(file_name);
    proof {
        reveal_strlit(".py");
    }
    let n: usize = chars.len();
    if n <= 3 {
        return false;
    }
    let python = chars[n - 3] == '.' && chars[n - 2] == 'p' && chars[n - 1] == 'y';
    proof {
        let tail = file_name@.subrange(n - 3, n as int);
        assert(tail.len() == 3);
        assert(tail[0] == chars@[n - 3] && tail[1] == chars@[n - 2] && tail[2] == chars@[n - 1]);
        assert(".py"@.is_suffix_of(file_name@) <==> ".py"@ =~= tail);
    }
    python
}

struct FileRecord {
    hash: String,
    infos: Vec<ImportInfo>,
}

/// What is known of a file: the hash of its content and its imports.
pub struct FileFacts {
    pub hash: Seq<char>,
    pub imports: Seq<Import>,
}

impl View for FileRecord {
    type V = FileFacts;

    closed spec fn view(&self) -> FileFacts {
        FileFacts { hash: self.hash@, imports: imports(self.infos@) }
    }
}

/// What is known of each file, by its path.
pub type Known = Map<Seq<char>, FileFacts>;

/// Whether `module` is the package `name` or a module in it.
pub open spec fn is_own(module: Seq<char>, name: Seq<char>) -> bool {
    module == name || (name + "."@).is_prefix_of(module)
}

/// Whether an import is neither relative nor one of the package itself.
pub open spec fn is_third_party(import: Import, package: Option<Seq<char>>) -> bool {
    &&& !import.is_relative
    &&& !(package matches Some(name) && is_own(import.module, name))
}

/// The modules of the third-party imports in `all`.
pub open spec fn third_party(all: Seq<Import>, package: Option<Seq<char>>) -> Set<Seq<char>> {
    Set::new(
        |module: Seq<char>|
            exists|i: int|
                0 <= i < all.len() && is_third_party(#[trigger] all[i], package) && all[i].module
                    == module,
    )
}

/// The modules of the third-party imports of all known files.
pub open spec fn known_modules(known: Known, package: Option<Seq<char>>) -> Set<Seq<char>> {
    Set::new(
        |module: Seq<char>|
            exists|path: Seq<char>| #[trigger]
                known.contains_key(path) && third_party(known[path].imports, package).contains(
                    module,
                ),
    )
}

/// The imports of a file with this content.
pub open spec fn parsed_imports(path: Seq<char>, content: Seq<u8>) -> Result<Seq<Import>, Fault> {
    if !valid_utf8(content) {
        Err(Fault::NotUtf8)
    } else {
        match python_module(decode_utf8(content), path) {
            Ok(Some(body)) => Ok(imports_in(body)),
            Ok(None) => Err(Fault::UnexpectedAst(path)),
            Err(why) => Err(Fault::Parse(path, why)),
        }
    }
}

/// The imports of a file: the known ones where its hash is the known one, else
/// those that it is parsed to.
pub open spec fn imports_at(known: Known, path: Seq<char>, content: Seq<u8>) -> Result<
    Seq<Import>,
    Fault,
> {
    if known.contains_key(path) && known[path].hash == file_hash(content) {
        Ok(known[path].imports)
    } else {
        parsed_imports(path, content)
    }
}

/// What is known after a file was processed.
pub open spec fn known_after(known: Known, path: Seq<char>, content: Seq<u8>) -> Known {
    if known.contains_key(path) && known[path].hash == file_hash(content) {
        known
    } else {
        match parsed_imports(path, content) {
            Ok(found) => known.insert(path, FileFacts { hash: file_hash(content), imports: found }),
            Err(_) => known,
        }
    }
}

/// What is known after files were processed one after the other, up to the first
/// fault, and the third-party modules that they import or that fault.
pub open spec fn gathered(known: Known, package: Option<Seq<char>>, files: Seq<SourceFile>) -> (
    Known,
    Result<Set<Seq<char>>, Fault>,
)
    decreases files.len(),
{
    if files.len() == 0 {
        (known, Ok(Set::empty()))
    } else {
        let (before, modules) = gathered(known, package, files.drop_last());
        let file = files.last();
        match modules {
            Err(fault) => (before, Err(fault)),
            Ok(modules) => match file.content {
                Err(why) => (before, Err(Fault::Read(why@))),
                Ok(bytes) => (
                    known_after(before, file.path@, bytes@),
                    match imports_at(before, file.path@, bytes@) {
                        Ok(found) => Ok(modules.union(third_party(found, package))),
                        Err(fault) => Err(fault),
                    },
                ),
            },
        }
    }
}

/// Whether one of `files` is at `path`.
pub open spec fn has_path(files: Seq<SourceFile>, path: Seq<char>) -> bool {
    exists|i: int| 0 <= i < files.len() && (#[trigger] files[i]).path@ == path
}

/// The paths of `files`.
pub open spec fn paths_of(files: Seq<SourceFile>) -> Set<Seq<char>> {
    Set::new(|path: Seq<char>| has_path(files, path))
}

/// What is known after a scan that came upon `files`, and the third-party modules that
/// they import or the first fault. Where no fault was met, files that are not there any
/// more are forgotten.
pub open spec fn scanned(known: Known, package: Option<Seq<char>>, files: Seq<SourceFile>) -> (
    Known,
    Result<Set<Seq<char>>, Fault>,
) {
    let (after, modules) = gathered(known, package, files);
    (
        if modules is Ok {
            after.restrict(paths_of(files))
        } else {
            after
        },
        modules,
    )
}

/// A structure to manage AST parsing and import tracking for a project
pub struct ProjectAstManager {
    records: StringMap<FileRecord>,
    package_name: Option<String>,
    project_path: String,
    whole_project: bool,
}

/// `std::str::from_utf8`: the text that the bytes encode, where they are UTF-8.
#[verifier::external_body]
fn decoded(bytes: &[u8]) -> (text: Option<&str>)
    ensures
        text is Some <==> valid_utf8(bytes@),
        text matches Some(text) ==> text@ == decode_utf8(bytes@),
{
    std::str::from_utf8(bytes).ok()
}

impl ProjectAstManager {
    /// Each file is known once.
    pub closed spec fn wf(&self) -> bool {
        self.records.wf()
    }

    /// What is known of each file.
    pub closed spec fn known(&self) -> Known {
        self.records@.map_values(|record: FileRecord| record@)
    }

    /// The name of the package, where it is known.
    pub closed spec fn package(&self) -> Option<Seq<char>> {
        view_of(self.package_name)
    }

    /// The path of the project.
    pub closed spec fn path(&self) -> Seq<char> {
        self.project_path@
    }

    /// Whether all of the project is searched, and not its package alone.
    pub closed spec fn searches_all(&self) -> bool {
        self.whole_project
    }

    /// The name that the package has once the project was looked at.
    pub open spec fn package_in(&self, top: ProjectTop) -> Option<Seq<char>> {
        if self.package() is None {
            detected_name(top.files@, view_of(top.directory))
        } else {
            self.package()
        }
    }

    /// Create a new ProjectAstManager for the given project path
    pub fn new(project_path: &str) -> (manager: Self)
        ensures
            manager.wf(),
            manager.known() == Map::<Seq<char>, FileFacts>::empty(),
            manager.package() is None,
            manager.path() == project_path@,
            !manager.searches_all(),
    {
        let manager = ProjectAstManager {
            records: StringMap::new(),
            package_name: None,
            project_path: project_path.to_owned(),
            whole_project: false,
        };
        assert(manager.known() =~= Map::<Seq<char>, FileFacts>::empty());
        manager
    }

    /// A manager for a project whose package has a given name. All of the project
    /// is searched.
    pub fn for_package(package_name: &str, project_path: &str) -> (manager: Self)
        ensures
            manager.wf(),
            manager.known() == Map::<Seq<char>, FileFacts>::empty(),
            manager.package() == Some(package_name@),
            manager.path() == project_path@,
            manager.searches_all(),
    {
        let manager = ProjectAstManager {
            records: StringMap::new(),
            package_name: Some(package_name.to_owned()),
            project_path: project_path.to_owned(),
            whole_project: true,
        };
        assert(manager.known() =~= Map::<Seq<char>, FileFacts>::empty());
        manager
    }

    /// Calculate SHA256 hash of file content
    pub fn calculate_file_hash(&self, content: &[u8]) -> (hash: String)
        ensures
            hash@ == file_hash(content@),
    {
        hash_of(content)
    }

    /// Get the project path
    pub fn get_project_path(&self) -> (path: &str)
        ensures
            path@ == self.path(),
    {
        self.project_path.as_str()
    }

    /// Get the package name
    pub fn get_package_name(&self) -> (name: Option<String>)
        ensures
            view_of(name) == self.package(),
    {
        self.package_name.clone()
    }

    /// Detect the package name for the project
    pub fn detect_package_name(&mut self, top: &ProjectTop) -> (name: Option<String>)
        ensures
            view_of(name) == detected_name(top.files@, view_of(top.directory)),
            final(self).package() == view_of(name),
            old(self).wf() ==> final(self).wf(),
            final(self).known() == old(self).known(),
            final(self).path() == old(self).path(),
            final(self).searches_all() == old(self).searches_all(),
    {
        self.package_name = detect_package_name(&top.files, &top.directory);
        self.package_name.clone()
    }

    /// The directory below the project path that is searched for Python files: that
    /// of the package, or the project itself where all of it is searched or the
    /// package has no name.
    pub fn search_directory(&self, top: &ProjectTop) -> (directory: String)
        ensures
            directory@ == if self.searches_all() || self.package_in(*top) is None {
                seq![]
            } else {
                self.package_in(*top)->0
            },
    {
        if self.whole_project {
            return String::new();
        }
        let name = match &self.package_name {
            Some(name) => Some(name.clone()),
            None => detect_package_name(&top.files, &top.directory),
        };
        match name {
            Some(name) => name,
            None => String::new(),
        }
    }

    /// Process a single Python file and extract its imports
    pub fn process_py_file(&mut self, file_path: &str, content: &Vec<u8>) -> (found: Result<
        Vec<ImportInfo>,
        AstError,
    >)
        requires
            old(self).wf(),
            content@.len() <= u32::MAX,
        ensures
            final(self).wf(),
            match found {
                Ok(infos) => imports_at(old(self).known(), file_path@, content@) == Ok::<
                    Seq<Import>,
                    Fault,
                >(imports(infos@)),
                Err(error) => imports_at(old(self).known(), file_path@, content@) == Err::<
                    Seq<Import>,
                    Fault,
                >(error@),
            },
            final(self).known() == known_after(old(self).known(), file_path@, content@),
            final(self).package() == old(self).package(),
            final(self).path() == old(self).path(),
            final(self).searches_all() == old(self).searches_all(),
    {
        let new_hash = self.calculate_file_hash(content.as_slice());
        let known = self.records.get(file_path);
        if let Some(record) = known {
            if record.hash == new_hash {
                return Ok(copied(&record.infos));
            }
        }
        let source = match decoded(content.as_slice()) {
            Some(source) => source,
            None => {
                return Err(AstError::NotUtf8);
            },
        };
        proof {
            vstd::utf8::decode_utf8_encode_utf8(content@);
        }
        let parsed = parse_module(source, file_path);
        let body = match parsed {
            Ok(Some(body)) => body,
            Ok(None) => {
                return Err(AstError::UnexpectedAst(file_path.to_owned()));
            },
            Err(why) => {
                return Err(AstError::Parse(file_path.to_owned(), why));
            },
        };
        let infos = collect_imports(body.as_slice());
        let copy = copied(&infos);
        self.records.insert(file_path.to_owned(), FileRecord { hash: new_hash, infos: copy });
        assert(self.known() =~= known_after(old(self).known(), file_path@, content@));
        Ok(infos)
    }

    fn is_own_module(module: &str, package: &str) -> (own: bool)
        ensures
            own == is_own(module@, package@),
    {
        same_text(module, package) || starts_with(module, joined(package, ".").as_str())
    }

    fn add_third_party(
        infos: &Vec<ImportInfo>,
        package: &Option<String>,
        modules: &mut ModuleSet,
    )
        requires
            old(modules).wf(),
        ensures
            final(modules).wf(),
            final(modules)@ == old(modules)@.union(third_party(imports(infos@), view_of(*package))),
    {
        let ghost all = imports(infos@);
        let ghost name = view_of(*package);
        let mut at: usize = 0;
        proof {
            assert(third_party(all.take(0), name) =~= Set::empty());
            assert(modules@ =~= old(modules)@.union(third_party(all.take(0), name)));
        }
        while at < infos.len()
            invariant
                at <= infos@.len(),
                all == imports(infos@),
                name == view_of(*package),
                modules.wf(),
                modules@ == old(modules)@.union(third_party(all.take(at as int), name)),
            decreases infos@.len() - at,
        {
            let info = &infos[at];
            let own = match package {
                Some(package) => Self::is_own_module(info.module.as_str(), package.as_str()),
                None => false,
            };
            let ghost before = modules@;
            if !info.is_relative && !own {
                modules.insert(info.module.clone());
            }
            proof {
                lemma_third_party_push(all.take(at as int), info@, name);
                assert(all.take(at + 1) =~= all.take(at as int).push(info@));
                assert(modules@ =~= old(modules)@.union(third_party(all.take(at + 1), name)));
            }
            at = at + 1;
        }
        assert(all.take(at as int) =~= all);
    }

    /// Forgets what is known of files that are not among `files`.
    fn forget_all_but(&mut self, files: &Vec<SourceFile>)
        requires
            old(self).wf(),
        ensures
            final(self).wf(),
            final(self).known() == old(self).known().restrict(paths_of(files@)),
            final(self).package() == old(self).package(),
            final(self).path() == old(self).path(),
            final(self).searches_all() == old(self).searches_all(),
    {
        let ghost all = self.records@;
        let ghost others = *self;
        let mut kept: StringMap<FileRecord> = StringMap::new();
        let mut at: usize = 0;
        proof {
            assert(kept@ =~= all.restrict(paths_of(files@.take(0))));
            assert(self.records@ =~= all.remove_keys(paths_of(files@.take(0))));
        }
        while at < files.len()
            invariant
                at <= files@.len(),
                self.wf(),
                kept.wf(),
                kept@ == all.restrict(paths_of(files@.take(at as int))),
                self.records@ == all.remove_keys(paths_of(files@.take(at as int))),
                self.package_name == others.package_name,
                self.project_path == others.project_path,
                self.whole_project == others.whole_project,
            decreases files@.len() - at,
        {
            let path = &files[at].path;
            proof {
                lemma_paths_of_next(files@, at as int);
            }
            let ghost before = kept@;
            if let Some(record) = self.records.remove(path.as_str()) {
                kept.insert(path.clone(), record);
            }
            proof {
                let next = paths_of(files@.take(at + 1));
                assert(kept@ =~= all.restrict(next));
                assert(self.records@ =~= all.remove_keys(next));
            }
            at = at + 1;
        }
        assert(files@.take(at as int) =~= files@);
        self.records = kept;
        assert(self.known() =~= old(self).known().restrict(paths_of(files@)));
    }

    /// Process all Python files in the project and extract their imports
    pub fn process_all_py_files(&mut self, project: &Project) -> (found: Result<
        ModuleSet,
        AstError,
    >)
        requires
            old(self).wf(),
            project.parsable(),
        ensures
            final(self).wf(),
            final(self).package() == old(self).package_in(project.top),
            final(self).path() == old(self).path(),
            final(self).searches_all() == old(self).searches_all(),
            ({
                let (known, modules) = scanned(
                    old(self).known(),
                    final(self).package(),
                    project.sources@,
                );
                &&& final(self).known() == known
                &&& match found {
                    Ok(found) => found.wf() && modules == Ok::<Set<Seq<char>>, Fault>(found@),
                    Err(error) => modules == Err::<Set<Seq<char>>, Fault>(error@),
                }
            }),
    {
        let mut modules = ModuleSet::new();
        if self.package_name.is_none() {
            self.detect_package_name(&project.top);
        }
        let ghost known = self.known();
        let ghost files = project.sources@;
        let ghost (path, all) = (self.path(), self.searches_all());
        let package = self.package_name.clone();
        let ghost name = view_of(package);
        let mut at: usize = 0;
        while at < project.sources.len()
            invariant
                at <= project.sources@.len(),
                files == project.sources@,
                project.parsable(),
                known == old(self).known(),
                name == view_of(package),
                name == old(self).package_in(project.top),
                self.wf(),
                self.package() == name,
                self.path() == path,
                self.searches_all() == all,
                modules.wf(),
                gathered(known, name, files.take(at as int)) == (
                    self.known(),
                    Ok::<Set<Seq<char>>, Fault>(modules@),
                ),
                path == old(self).path(),
                all == old(self).searches_all(),
            decreases project.sources@.len() - at,
        {
            let file = &project.sources[at];
            proof {
                assert(files.take(at + 1).drop_last() =~= files.take(at as int));
                assert(files.take(at + 1).last() == *file);
            }
            let content = match &file.content {
                Ok(content) => content,
                Err(why) => {
                    proof {
                        lemma_scan_stops(known, name, files, at + 1);
                    }
                    return Err(AstError::Read(why.clone()));
                },
            };
            let infos = match self.process_py_file(file.path.as_str(), content) {
                Ok(infos) => infos,
                Err(error) => {
                    proof {
                        lemma_scan_stops(known, name, files, at + 1);
                    }
                    return Err(error);
                },
            };
            Self::add_third_party(&infos, &package, &mut modules);
            at = at + 1;
        }
        assert(files.take(at as int) =~= files);
        self.forget_all_but(&project.sources);
        Ok(modules)
    }

    /// The third-party modules that the known files import.
    pub fn known_imports(&self) -> (modules: ModuleSet)
        requires
            self.wf(),
        ensures
            modules.wf(),
            modules@ == known_modules(self.known(), self.package()),
    {
        let mut modules = ModuleSet::new();
        let ghost keys = self.records.keys();
        let ghost name = self.package();
        proof {
            self.records.lemma_keys();
        }
        let mut at: usize = 0;
        while at < self.records.len()
            invariant
                at <= keys.len(),
                keys == self.records.keys(),
                name == self.package(),
                self.wf(),
                modules.wf(),
                forall|key: Seq<char>| self.records@.contains_key(key) <==> keys.contains(key),
                forall|module: Seq<char>|
                    #![trigger modules@.contains(module)]
                    modules@.contains(module) <==> exists|i: int|
                        0 <= i < at && third_party(
                            self.known()[#[trigger] keys[i]].imports,
                            name,
                        ).contains(module),
            decreases keys.len() - at,
        {
            let record = self.records.value_at(at);
            let ghost before = modules@;
            proof {
                assert(keys.contains(keys[at as int]));
                assert(self.known()[keys[at as int]] == record@);
            }
            Self::add_third_party(&record.infos, &self.package_name, &mut modules);
            proof {
                let added = third_party(self.known()[keys[at as int]].imports, name);
                assert(modules@ == before.union(added));
                assert forall|module: Seq<char>| #[trigger] modules@.contains(module) <==> exists|
                    i: int,
                | 0 <= i < at + 1 && third_party(
                    self.known()[#[trigger] keys[i]].imports,
                    name,
                ).contains(module) by {
                    if before.contains(module) {
                        let i = choose|i: int|
                            0 <= i < at && third_party(
                                self.known()[#[trigger] keys[i]].imports,
                                name,
                            ).contains(module);
                        assert(0 <= i < at + 1);
                    }
                    if exists|i: int|
                        0 <= i < at + 1 && third_party(
                            self.known()[#[trigger] keys[i]].imports,
                            name,
                        ).contains(module) {
                        let i = choose|i: int|
                            0 <= i < at + 1 && third_party(
                                self.known()[#[trigger] keys[i]].imports,
                                name,
                            ).contains(module);
                        if i < at {
                            assert(before.contains(module));
                        } else {
                            assert(added.contains(module));
                        }
                    }
                }
            }
            at = at + 1;
        }
        proof {
            let all = known_modules(self.known(), name);
            assert forall|module: Seq<char>| modules@.contains(module) <==> all.contains(
                module,
            ) by {
                if modules@.contains(module) {
                    let i = choose|i: int|
                        0 <= i < at && third_party(
                            self.known()[#[trigger] keys[i]].imports,
                            name,
                        ).contains(module);
                    assert(keys.contains(keys[i]));
                    assert(self.known().contains_key(keys[i]));
                }
                if all.contains(module) {
                    let path = choose|path: Seq<char>| #[trigger]
                        self.known().contains_key(path) && third_party(
                            self.known()[path].imports,
                            name,
                        ).contains(module);
                    let i = keys.index_of(path);
                    assert(keys.contains(path));
                    assert(keys[i] == path);
                }
            }
            assert(modules@ =~= all);
        }
        modules
    }

    /// Compute the delta of imports between the current state and the previous state
    pub fn compute_import_delta(&mut self, project: &Project) -> (delta: Result<
        (ModuleSet, ModuleSet),
        AstError,
    >)
        requires
            old(self).wf(),
            project.parsable(),
        ensures
            final(self).wf(),
            final(self).package() == old(self).package_in(project.top),
            final(self).path() == old(self).path(),
            final(self).searches_all() == old(self).searches_all(),
            ({
                let previous = known_modules(old(self).known(), old(self).package());
                let (known, modules) = scanned(
                    old(self).known(),
                    final(self).package(),
                    project.sources@,
                );
                &&& final(self).known() == known
                &&& match delta {
                    Ok((added, removed)) => {
                        &&& added.wf()
                        &&& removed.wf()
                        &&& modules is Ok
                        &&& added@ == modules->Ok_0.difference(previous)
                        &&& removed@ == previous.difference(modules->Ok_0)
                    },
                    Err(error) => modules == Err::<Set<Seq<char>>, Fault>(error@),
                }
            }),
    {
        let previous = self.known_imports();
        match self.process_all_py_files(project) {
            Ok(current) => {
                let added = current.difference(&previous);
                let removed = previous.difference(&current);
                Ok((added, removed))
            },
            Err(error) => Err(error),
        }
    }
}

proof fn lemma_third_party_push(all: Seq<Import>, import: Import, package: Option<Seq<char>>)
    ensures
        third_party(all.push(import), package) == if is_third_party(import, package) {
            third_party(all, package).insert(import.module)
        } else {
            third_party(all, package)
        },
{
    let longer = all.push(import);
    let expected = if is_third_party(import, package) {
        third_party(all, package).insert(import.module)
    } else {
        third_party(all, package)
    };
    assert forall|module: Seq<char>| third_party(longer, package).contains(module)
        == expected.contains(module) by {
        if third_party(longer, package).contains(module) {
            let i = choose|i: int|
                0 <= i < longer.len() && is_third_party(#[trigger] longer[i], package)
                    && longer[i].module == module;
            if i < all.len() {
                assert(all[i] == longer[i]);
            }
        }
        if third_party(all, package).contains(module) {
            let i = choose|i: int|
                0 <= i < all.len() && is_third_party(#[trigger] all[i], package) && all[i].module
                    == module;
            assert(longer[i] == all[i]);
        }
        assert(longer[all.len() as int] == import);
    }
    assert(third_party(longer, package) =~= expected);
}

proof fn lemma_paths_of_next(files: Seq<SourceFile>, at: int)
    requires
        0 <= at < files.len(),
    ensures
        paths_of(files.take(at + 1)) == paths_of(files.take(at)).insert(files[at].path@),
{
    let shorter = files.take(at);
    let longer = files.take(at + 1);
    assert forall|path: Seq<char>| paths_of(longer).contains(path) == paths_of(shorter).insert(
        files[at].path@,
    ).contains(path) by {
        if has_path(longer, path) {
            let i = choose|i: int| 0 <= i < longer.len() && (#[trigger] longer[i]).path@ == path;
            if i < at {
                assert(shorter[i] == longer[i]);
            }
        }
        if has_path(shorter, path) {
            let i = choose|i: int| 0 <= i < shorter.len() && (#[trigger] shorter[i]).path@ == path;
            assert(longer[i] == shorter[i]);
        }
        assert(longer[at] == files[at]);
    }
    assert(paths_of(longer) =~= paths_of(shorter).insert(files[at].path@));
}

/// Once a fault was met, no further file changes what is known.
pub proof fn lemma_scan_stops(
    known: Known,
    package: Option<Seq<char>>,
    files: Seq<SourceFile>,
    upto: int,
)
    requires
        0 <= upto <= files.len(),
        gathered(known, package, files.take(upto)).1 is Err,
    ensures
        gathered(known, package, files) == gathered(known, package, files.take(upto)),
    decreases files.len() - upto,
{
    if upto < files.len() {
        assert(files.take(upto + 1).drop_last() =~= files.take(upto));
        lemma_scan_stops(known, package, files, upto + 1);
    } else {
        assert(files.take(upto) =~= files);
    }
}

} // verus!
