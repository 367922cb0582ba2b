//! What holds of every scan of a project, and of two scans in a row.
use vstd::prelude::*;

use crate::ast::{
    gathered, has_path, imports_at, is_own, known_after, known_modules, paths_of, scanned,
    third_party, Fault, FileFacts, Known, Project, ProjectAstManager, SourceFile,
};
use crate::file_hash::file_hash;
use crate::imports::Import;

verus! {

/// No two of `files` have the same path.
pub open spec fn distinct_paths(files: Seq<SourceFile>) -> bool {
    forall|i: int, j: int|
        0 <= i < j < files.len() ==> (#[trigger] files[i]).path@ != (#[trigger] files[j]).path@
}

/// Whether `file` could be read and has the content with which it is known.
pub open spec fn is_known(known: Known, file: SourceFile) -> bool {
    &&& file.content is Ok
    &&& known.contains_key(file.path@)
    &&& known[file.path@].hash == file_hash(file.content->Ok_0@)
}

/// Whether all of `files` have the content with which they are known.
pub open spec fn all_known(known: Known, files: Seq<SourceFile>) -> bool {
    forall|i: int| 0 <= i < files.len() ==> is_known(known, #[trigger] files[i])
}

/// The third-party modules that `files` import as far as is known.
pub open spec fn modules_of(
    known: Known,
    package: Option<Seq<char>>,
    files: Seq<SourceFile>,
) -> Set<Seq<char>> {
    Set::new(
        |module: Seq<char>|
            exists|i: int|
                0 <= i < files.len() && third_party(
                    known[(#[trigger] files[i]).path@].imports,
                    package,
                ).contains(module),
    )
}

proof fn lemma_modules_of_last(
    known: Known,
    package: Option<Seq<char>>,
    files: Seq<SourceFile>,
)
    requires
        files.len() > 0,
    ensures
        modules_of(known, package, files) == modules_of(known, package, files.drop_last()).union(
            third_party(known[files.last().path@].imports, package),
        ),
{
    let shorter = files.drop_last();
    let last = third_party(known[files.last().path@].imports, package);
    let both = modules_of(known, package, shorter).union(last);
    assert forall|module: Seq<char>| modules_of(known, package, files).contains(module)
        == both.contains(module) by {
        if modules_of(known, package, files).contains(module) {
            let i = choose|i: int|
                0 <= i < files.len() && third_party(
                    known[(#[trigger] files[i]).path@].imports,
                    package,
                ).contains(module);
            if i < shorter.len() {
                assert(shorter[i] == files[i]);
            }
        }
        if modules_of(known, package, shorter).contains(module) {
            let i = choose|i: int|
                0 <= i < shorter.len() && third_party(
                    known[(#[trigger] shorter[i]).path@].imports,
                    package,
                ).contains(module);
            assert(files[i] == shorter[i]);
        }
        assert(files[files.len() - 1] == files.last());
    }
    assert(modules_of(known, package, files) =~= both);
}

proof fn lemma_known_files_gathered(
    known: Known,
    package: Option<Seq<char>>,
    files: Seq<SourceFile>,
)
    requires
        all_known(known, files),
    ensures
        gathered(known, package, files) == (
            known,
            Ok::<Set<Seq<char>>, Fault>(modules_of(known, package, files)),
        ),
    decreases files.len(),
{
    if files.len() == 0 {
        assert(modules_of(known, package, files) =~= Set::empty());
    } else {
        let shorter = files.drop_last();
        assert(all_known(known, shorter)) by {
            assert forall|i: int| 0 <= i < shorter.len() implies is_known(
                known,
                #[trigger] shorter[i],
            ) by {
                assert(shorter[i] == files[i]);
            }
        }
        lemma_known_files_gathered(known, package, shorter);
        lemma_modules_of_last(known, package, files);
        assert(is_known(known, files[files.len() - 1]));
    }
}

/// A scan of files that have the content with which they are known finds what is
/// known, and leaves it as it is for those files.
pub proof fn law_known_files_are_not_parsed_again(
    known: Known,
    package: Option<Seq<char>>,
    files: Seq<SourceFile>,
)
    requires
        all_known(known, files),
    ensures
        scanned(known, package, files) == (
            known.restrict(paths_of(files)),
            Ok::<Set<Seq<char>>, Fault>(modules_of(known, package, files)),
        ),
{
    lemma_known_files_gathered(known, package, files);
}

/// After files were processed one after the other without a fault, they are known with their
/// content, nothing else became known or changed, and the modules found are theirs.
pub proof fn lemma_gathered_files_known(
    known: Known,
    package: Option<Seq<char>>,
    files: Seq<SourceFile>,
)
    requires
        distinct_paths(files),
        gathered(known, package, files).1 is Ok,
    ensures
        all_known(gathered(known, package, files).0, files),
        gathered(known, package, files).1->Ok_0 == modules_of(
            gathered(known, package, files).0,
            package,
            files,
        ),
        forall|path: Seq<char>| #[trigger]
            gathered(known, package, files).0.contains_key(path) <==> known.contains_key(path)
                || has_path(files, path),
        forall|path: Seq<char>|
            known.contains_key(path) && !has_path(files, path) ==> #[trigger] gathered(
                known,
                package,
                files,
            ).0[path] == known[path],
    decreases files.len(),
{
    let (after, modules) = gathered(known, package, files);
    if files.len() == 0 {
        assert(modules_of(after, package, files) =~= Set::empty());
    } else {
        let shorter = files.drop_last();
        let file = files.last();
        let (before, found) = gathered(known, package, shorter);
        assert forall|i: int, j: int| 0 <= i < j < shorter.len() implies (
        #[trigger] shorter[i]).path@ != (#[trigger] shorter[j]).path@ by {
            assert(shorter[i] == files[i] && shorter[j] == files[j]);
        }
        lemma_gathered_files_known(known, package, shorter);
        let bytes = file.content->Ok_0@;
        let imports = imports_at(before, file.path@, bytes)->Ok_0;
        assert(after == known_after(before, file.path@, bytes));
        assert(after[file.path@].imports == imports);
        assert forall|i: int| 0 <= i < shorter.len() implies (#[trigger] shorter[i]).path@
            != file.path@ by {
            assert(shorter[i] == files[i] && file == files[files.len() - 1]);
        }
        assert forall|i: int| 0 <= i < files.len() implies is_known(after, #[trigger] files[i]) by {
            if i < shorter.len() {
                assert(shorter[i] == files[i]);
                assert(is_known(before, shorter[i]));
            }
        }
        assert(modules_of(after, package, shorter) =~= modules_of(before, package, shorter)) by {
            assert forall|module: Seq<char>| modules_of(after, package, shorter).contains(module)
                == modules_of(before, package, shorter).contains(module) by {
                assert(forall|i: int|
                    0 <= i < shorter.len() ==> after[(#[trigger] shorter[i]).path@]
                        == before[shorter[i].path@]);
            }
        }
        lemma_modules_of_last(after, package, files);
        assert forall|path: Seq<char>| has_path(files, path) <==> has_path(shorter, path)
            || path == file.path@ by {
            if has_path(files, path) {
                let i = choose|i: int|
                    0 <= i < files.len() && (#[trigger] files[i]).path@ == path;
                if i < shorter.len() {
                    assert(shorter[i] == files[i]);
                }
            }
            if has_path(shorter, path) {
                let i = choose|i: int|
                    0 <= i < shorter.len() && (#[trigger] shorter[i]).path@ == path;
                assert(files[i] == shorter[i]);
            }
            assert(files[files.len() - 1] == file);
        }
    }
}

/// After a scan without a fault, the files are known with their content; nothing else
/// is known; and the modules found are those of the files.
pub proof fn law_scan_makes_files_known(
    known: Known,
    package: Option<Seq<char>>,
    files: Seq<SourceFile>,
)
    requires
        distinct_paths(files),
        scanned(known, package, files).1 is Ok,
    ensures
        all_known(scanned(known, package, files).0, files),
        scanned(known, package, files).1->Ok_0 == modules_of(
            scanned(known, package, files).0,
            package,
            files,
        ),
        scanned(known, package, files).0.dom() == paths_of(files),
{
    lemma_gathered_files_known(known, package, files);
    let all = gathered(known, package, files).0;
    let after = scanned(known, package, files).0;
    assert forall|i: int| 0 <= i < files.len() implies after.contains_key(
        (#[trigger] files[i]).path@,
    ) && after[files[i].path@] == all[files[i].path@] by {
        assert(is_known(all, files[i]));
        assert(has_path(files, files[i].path@));
    }
    assert forall|i: int| 0 <= i < files.len() implies is_known(after, #[trigger] files[i]) by {
        assert(is_known(all, files[i]));
    }
    assert(modules_of(after, package, files) =~= modules_of(all, package, files));
    assert(after.dom() =~= paths_of(files));
}

/// A scan that met no fault finds the same once more when nothing changed on disk,
/// and then changes nothing of what is known.
pub proof fn law_scan_is_idempotent(
    known: Known,
    package: Option<Seq<char>>,
    files: Seq<SourceFile>,
)
    requires
        distinct_paths(files),
        scanned(known, package, files).1 is Ok,
    ensures
        scanned(scanned(known, package, files).0, package, files) == scanned(
            known,
            package,
            files,
        ),
{
    law_scan_makes_files_known(known, package, files);
    let after = scanned(known, package, files).0;
    law_known_files_are_not_parsed_again(after, package, files);
    assert(after.restrict(paths_of(files)) =~= after);
}

/// A scan that met no fault leaves exactly the modules that it found as the known ones,
/// whatever was known before.
pub proof fn law_known_modules_after_scan(
    known: Known,
    package: Option<Seq<char>>,
    files: Seq<SourceFile>,
)
    requires
        distinct_paths(files),
        scanned(known, package, files).1 is Ok,
    ensures
        known_modules(scanned(known, package, files).0, package) == scanned(
            known,
            package,
            files,
        ).1->Ok_0,
{
    law_scan_makes_files_known(known, package, files);
    let after = scanned(known, package, files).0;
    assert forall|module: Seq<char>| known_modules(after, package).contains(module)
        == modules_of(after, package, files).contains(module) by {
        if known_modules(after, package).contains(module) {
            let path = choose|path: Seq<char>| #[trigger]
                after.contains_key(path) && third_party(after[path].imports, package).contains(
                    module,
                );
            assert(paths_of(files).contains(path));
            let i = choose|i: int| 0 <= i < files.len() && (#[trigger] files[i]).path@ == path;
        }
        if modules_of(after, package, files).contains(module) {
            let i = choose|i: int|
                0 <= i < files.len() && third_party(
                    after[(#[trigger] files[i]).path@].imports,
                    package,
                ).contains(module);
            assert(is_known(after, files[i]));
            assert(after.contains_key(files[i].path@));
        }
    }
    assert(known_modules(after, package) =~= modules_of(after, package, files));
}

/// Where nothing changed on disk since a scan that met no fault, the delta of the
/// imports is empty: nothing was added and nothing removed.
pub proof fn law_no_change_no_delta(
    known: Known,
    package: Option<Seq<char>>,
    files: Seq<SourceFile>,
)
    requires
        distinct_paths(files),
        scanned(known, package, files).1 is Ok,
    ensures
        ({
            let after = scanned(known, package, files).0;
            let previous = known_modules(after, package);
            let current = scanned(after, package, files).1;
            &&& current is Ok
            &&& current->Ok_0.difference(previous) == Set::<Seq<char>>::empty()
            &&& previous.difference(current->Ok_0) == Set::<Seq<char>>::empty()
        }),
{
    law_scan_is_idempotent(known, package, files);
    law_known_modules_after_scan(known, package, files);
    let after = scanned(known, package, files).0;
    let previous = known_modules(after, package);
    let current = scanned(after, package, files).1->Ok_0;
    assert(current.difference(previous) =~= Set::<Seq<char>>::empty());
    assert(previous.difference(current) =~= Set::<Seq<char>>::empty());
}

/// A module that is not among the known ones and that a new file imports is among
/// the added ones.
pub proof fn law_new_import_is_added(
    known: Known,
    package: Option<Seq<char>>,
    files: Seq<SourceFile>,
    file: SourceFile,
    module: Seq<char>,
)
    requires
        all_known(known, files),
        file.content is Ok,
        imports_at(known, file.path@, file.content->Ok_0@) is Ok,
        third_party(imports_at(known, file.path@, file.content->Ok_0@)->Ok_0, package).contains(
            module,
        ),
        !known_modules(known, package).contains(module),
    ensures
        scanned(known, package, files.push(file)).1 is Ok,
        scanned(known, package, files.push(file)).1->Ok_0.difference(
            known_modules(known, package),
        ).contains(module),
{
    lemma_known_files_gathered(known, package, files);
    assert(files.push(file).drop_last() =~= files);
}

/// What was added and removed leads from the previous imports to the current ones,
/// and only what was not there before counts as added.
pub proof fn law_delta_leads_to_current(previous: Set<Seq<char>>, current: Set<Seq<char>>)
    ensures
        ({
            let added = current.difference(previous);
            let removed = previous.difference(current);
            &&& previous.difference(removed).union(added) == current
            &&& added.disjoint(previous)
            &&& removed.subset_of(previous)
            &&& added.disjoint(removed)
            &&& (added == Set::<Seq<char>>::empty() && removed == Set::<Seq<char>>::empty()
                <==> previous == current)
        }),
{
    let added = current.difference(previous);
    let removed = previous.difference(current);
    assert(previous.difference(removed).union(added) =~= current);
    if previous == current {
        assert(added =~= Set::<Seq<char>>::empty());
        assert(removed =~= Set::<Seq<char>>::empty());
    }
    if added == Set::<Seq<char>>::empty() && removed == Set::<Seq<char>>::empty() {
        assert forall|module: Seq<char>| previous.contains(module) == current.contains(module) by {
            assert(!added.contains(module));
            assert(!removed.contains(module));
        }
        assert(previous =~= current);
    }
}

proof fn lemma_own_modules_not_gathered(
    known: Known,
    package: Seq<char>,
    files: Seq<SourceFile>,
    module: Seq<char>,
)
    requires
        is_own(module, package),
    ensures
        gathered(known, Some(package), files).1 matches Ok(modules) ==> !modules.contains(module),
    decreases files.len(),
{
    if files.len() > 0 {
        lemma_own_modules_not_gathered(known, package, files.drop_last(), module);
    }
}

/// A scan finds neither the package itself nor a module in it.
pub proof fn law_package_is_not_third_party(
    known: Known,
    package: Seq<char>,
    files: Seq<SourceFile>,
    module: Seq<char>,
)
    requires
        is_own(module, package),
    ensures
        scanned(known, Some(package), files).1 matches Ok(modules) ==> !modules.contains(module),
        !known_modules(known, Some(package)).contains(module),
{
    lemma_own_modules_not_gathered(known, package, files, module);
}

/// What is found in a file: its imports, or why there are none.
pub open spec fn found_in(known: Known, file: SourceFile) -> Result<Seq<Import>, Fault> {
    match file.content {
        Ok(bytes) => imports_at(known, file.path@, bytes@),
        Err(why) => Err(Fault::Read(why@)),
    }
}

/// What is known of a file in which `found` was found.
pub open spec fn facts_of(file: SourceFile, found: Seq<Import>) -> FileFacts {
    FileFacts { hash: file_hash(file.content->Ok_0@), imports: found }
}

/// Files with different paths that are processed one after the other do not touch each
/// other.
pub proof fn lemma_gathered_file_by_file(
    known: Known,
    package: Option<Seq<char>>,
    files: Seq<SourceFile>,
)
    requires
        distinct_paths(files),
    ensures
        gathered(known, package, files).1 is Ok <==> forall|i: int|
            0 <= i < files.len() ==> found_in(known, #[trigger] files[i]) is Ok,
        gathered(known, package, files).1 matches Ok(modules) ==> {
            &&& forall|module: Seq<char>| #[trigger]
                modules.contains(module) <==> exists|i: int|
                    0 <= i < files.len() && third_party(
                        found_in(known, #[trigger] files[i])->Ok_0,
                        package,
                    ).contains(module)
            &&& forall|i: int|
                0 <= i < files.len() ==> {
                    &&& gathered(known, package, files).0.contains_key((#[trigger] files[i]).path@)
                    &&& gathered(known, package, files).0[files[i].path@] == facts_of(
                        files[i],
                        found_in(known, files[i])->Ok_0,
                    )
                }
        },
    decreases files.len(),
{
    if files.len() > 0 {
        let shorter = files.drop_last();
        let file = files.last();
        let (before, found) = gathered(known, package, shorter);
        let (after, modules) = gathered(known, package, files);
        let last: int = files.len() - 1;
        assert(files[last] == file);
        assert forall|i: int, j: int| 0 <= i < j < shorter.len() implies (
        #[trigger] shorter[i]).path@ != (#[trigger] shorter[j]).path@ by {
            assert(shorter[i] == files[i] && shorter[j] == files[j]);
        }
        lemma_gathered_file_by_file(known, package, shorter);
        assert forall|i: int| 0 <= i < shorter.len() implies #[trigger] shorter[i] == files[i] by {}
        if found is Ok {
            lemma_gathered_files_known(known, package, shorter);
            assert(!has_path(shorter, file.path@)) by {
                if has_path(shorter, file.path@) {
                    let i = choose|i: int|
                        0 <= i < shorter.len() && (#[trigger] shorter[i]).path@ == file.path@;
                    assert(files[i] == shorter[i]);
                }
            }
            assert(before.contains_key(file.path@) == known.contains_key(file.path@));
            assert(found_in(before, file) == found_in(known, file));
            assert(modules is Ok <==> found_in(known, file) is Ok);
            if modules is Ok {
                let added = third_party(found_in(known, file)->Ok_0, package);
                assert(modules->Ok_0 == found->Ok_0.union(added));
                assert forall|module: Seq<char>| #[trigger]
                    modules->Ok_0.contains(module) <==> exists|i: int|
                        0 <= i < files.len() && third_party(
                            found_in(known, #[trigger] files[i])->Ok_0,
                            package,
                        ).contains(module) by {
                    if found->Ok_0.contains(module) {
                        let i = choose|i: int|
                            0 <= i < shorter.len() && third_party(
                                found_in(known, #[trigger] shorter[i])->Ok_0,
                                package,
                            ).contains(module);
                        assert(files[i] == shorter[i]);
                    }
                    if added.contains(module) {
                        assert(files[last] == file);
                    }
                    if exists|i: int|
                        0 <= i < files.len() && third_party(
                            found_in(known, #[trigger] files[i])->Ok_0,
                            package,
                        ).contains(module) {
                        let i = choose|i: int|
                            0 <= i < files.len() && third_party(
                                found_in(known, #[trigger] files[i])->Ok_0,
                                package,
                            ).contains(module);
                        if i < last {
                            assert(shorter[i] == files[i]);
                        }
                    }
                }
                assert forall|i: int| 0 <= i < files.len() implies after.contains_key(
                    (#[trigger] files[i]).path@,
                ) && after[files[i].path@] == facts_of(
                    files[i],
                    found_in(known, files[i])->Ok_0,
                ) by {
                    if i < last {
                        assert(shorter[i] == files[i]);
                        assert(files[i].path@ != files[last].path@);
                    }
                }
            }
        } else {
            let i = choose|i: int|
                0 <= i < shorter.len() && !(found_in(known, #[trigger] shorter[i]) is Ok);
            assert(files[i] == shorter[i]);
        }
        if forall|i: int| 0 <= i < files.len() ==> found_in(known, #[trigger] files[i]) is Ok {
            assert forall|i: int| 0 <= i < shorter.len() implies found_in(
                known,
                #[trigger] shorter[i],
            ) is Ok by {
                assert(shorter[i] == files[i]);
            }
            assert(found_in(known, files[last]) is Ok);
        }
        if modules is Ok {
            assert forall|i: int| 0 <= i < files.len() implies found_in(
                known,
                #[trigger] files[i],
            ) is Ok by {
                if i < last {
                    assert(shorter[i] == files[i]);
                }
            }
        }
    }
}

/// A scan of files with different paths meets no fault exactly where none of them has
/// one, whatever the others hold. It then finds the third-party modules of each of the
/// files, and what is known of a file is what was found in it.
pub proof fn law_scan_is_file_by_file(
    known: Known,
    package: Option<Seq<char>>,
    files: Seq<SourceFile>,
)
    requires
        distinct_paths(files),
    ensures
        scanned(known, package, files).1 is Ok <==> forall|i: int|
            0 <= i < files.len() ==> found_in(known, #[trigger] files[i]) is Ok,
        scanned(known, package, files).1 matches Ok(modules) ==> {
            &&& forall|module: Seq<char>| #[trigger]
                modules.contains(module) <==> exists|i: int|
                    0 <= i < files.len() && third_party(
                        found_in(known, #[trigger] files[i])->Ok_0,
                        package,
                    ).contains(module)
            &&& forall|i: int|
                0 <= i < files.len() ==> {
                    &&& scanned(known, package, files).0.contains_key((#[trigger] files[i]).path@)
                    &&& scanned(known, package, files).0[files[i].path@] == facts_of(
                        files[i],
                        found_in(known, files[i])->Ok_0,
                    )
                }
        },
{
    lemma_gathered_file_by_file(known, package, files);
    assert forall|i: int| 0 <= i < files.len() implies paths_of(files).contains(
        (#[trigger] files[i]).path@,
    ) by {}
}

/// An absolute import of another package is found, whatever the name of that package
/// begins with.
pub proof fn law_other_packages_are_found(
    known: Known,
    package: Seq<char>,
    files: Seq<SourceFile>,
    at: int,
    import: Import,
)
    requires
        distinct_paths(files),
        scanned(known, Some(package), files).1 is Ok,
        0 <= at < files.len(),
        found_in(known, files[at]) matches Ok(found) && found.contains(import),
        !import.is_relative,
        !is_own(import.module, package),
    ensures
        scanned(known, Some(package), files).1->Ok_0.contains(import.module),
{
    law_scan_is_file_by_file(known, Some(package), files);
    let found = found_in(known, files[at])->Ok_0;
    let i = found.index_of(import);
    assert(found[i] == import);
    assert(third_party(found, Some(package)).contains(import.module));
}

/// Whether each of `files` is also one of `others`.
pub open spec fn all_among(files: Seq<SourceFile>, others: Seq<SourceFile>) -> bool {
    forall|i: int| 0 <= i < files.len() ==> others.contains(#[trigger] files[i])
}

proof fn lemma_modules_among(
    known: Known,
    package: Option<Seq<char>>,
    files: Seq<SourceFile>,
    others: Seq<SourceFile>,
)
    requires
        distinct_paths(files),
        distinct_paths(others),
        all_among(files, others),
        scanned(known, package, others).1 is Ok,
    ensures
        scanned(known, package, files).1 is Ok,
        scanned(known, package, files).1->Ok_0.subset_of(scanned(known, package, others).1->Ok_0),
{
    law_scan_is_file_by_file(known, package, files);
    law_scan_is_file_by_file(known, package, others);
    assert forall|i: int| 0 <= i < files.len() implies found_in(known, #[trigger] files[i]) is Ok by {
        let j = others.index_of(files[i]);
        assert(others[j] == files[i]);
    }
    let modules = scanned(known, package, files).1->Ok_0;
    assert forall|module: Seq<char>| #[trigger] modules.contains(module) implies scanned(
        known,
        package,
        others,
    ).1->Ok_0.contains(module) by {
        let i = choose|i: int|
            0 <= i < files.len() && third_party(
                found_in(known, #[trigger] files[i])->Ok_0,
                package,
            ).contains(module);
        let j = others.index_of(files[i]);
        assert(others[j] == files[i]);
    }
}

/// The order in which the files of a project are found does not matter: a scan that
/// meets no fault meets none in any order, finds the same modules, and leaves the same
/// known.
pub proof fn law_order_of_files_does_not_matter(
    known: Known,
    package: Option<Seq<char>>,
    files: Seq<SourceFile>,
    others: Seq<SourceFile>,
)
    requires
        distinct_paths(files),
        distinct_paths(others),
        all_among(files, others),
        all_among(others, files),
        scanned(known, package, files).1 is Ok,
    ensures
        scanned(known, package, others) == scanned(known, package, files),
{
    lemma_modules_among(known, package, others, files);
    lemma_modules_among(known, package, files, others);
    let (one, found) = scanned(known, package, files);
    let (two, again) = scanned(known, package, others);
    assert(found->Ok_0 =~= again->Ok_0);
    law_scan_makes_files_known(known, package, files);
    law_scan_makes_files_known(known, package, others);
    law_scan_is_file_by_file(known, package, files);
    law_scan_is_file_by_file(known, package, others);
    assert forall|path: Seq<char>| has_path(files, path) == has_path(others, path) by {
        if has_path(files, path) {
            let i = choose|i: int| 0 <= i < files.len() && (#[trigger] files[i]).path@ == path;
            assert(others[others.index_of(files[i])] == files[i]);
        }
        if has_path(others, path) {
            let j = choose|j: int| 0 <= j < others.len() && (#[trigger] others[j]).path@ == path;
            assert(files[files.index_of(others[j])] == others[j]);
        }
    }
    assert(one.dom() =~= two.dom());
    assert forall|path: Seq<char>| one.contains_key(path) implies one[path] == two[path] by {
        assert(paths_of(files).contains(path));
        let i = choose|i: int| 0 <= i < files.len() && (#[trigger] files[i]).path@ == path;
        let j = others.index_of(files[i]);
        assert(others[j] == files[i]);
    }
    assert(one =~= two);
}

/// The delta is relative to the last check: where `after` is what the manager `before`
/// became by a check of the project that met no fault, another check with nothing changed
/// on disk finds nothing added and nothing removed.
pub proof fn law_second_check_finds_nothing(
    before: ProjectAstManager,
    after: ProjectAstManager,
    project: Project,
)
    requires
        distinct_paths(project.sources@),
        after.package() == before.package_in(project.top),
        after.known() == scanned(before.known(), after.package(), project.sources@).0,
        scanned(before.known(), after.package(), project.sources@).1 is Ok,
    ensures
        ({
            let previous = known_modules(after.known(), after.package());
            let (known, current) = scanned(
                after.known(),
                after.package_in(project.top),
                project.sources@,
            );
            &&& known == after.known()
            &&& current is Ok
            &&& current->Ok_0.difference(previous) == Set::<Seq<char>>::empty()
            &&& previous.difference(current->Ok_0) == Set::<Seq<char>>::empty()
        }),
{
    assert(after.package_in(project.top) == after.package());
    law_scan_is_idempotent(before.known(), after.package(), project.sources@);
    law_no_change_no_delta(before.known(), after.package(), project.sources@);
}

/// What a file imported that is not there any more is removed, unless another file
/// imports it, and it is removed once: the check after that starts from what is there.
pub proof fn law_deleted_file_is_forgotten(
    known: Known,
    package: Option<Seq<char>>,
    files: Seq<SourceFile>,
    path: Seq<char>,
    module: Seq<char>,
)
    requires
        distinct_paths(files),
        scanned(known, package, files).1 is Ok,
        known.contains_key(path),
        !has_path(files, path),
        third_party(known[path].imports, package).contains(module),
        !scanned(known, package, files).1->Ok_0.contains(module),
    ensures
        ({
            let (after, current) = scanned(known, package, files);
            &&& known_modules(known, package).difference(current->Ok_0).contains(module)
            &&& !after.contains_key(path)
            &&& !known_modules(after, package).contains(module)
        }),
{
    law_scan_makes_files_known(known, package, files);
    law_known_modules_after_scan(known, package, files);
}

} // verus!
