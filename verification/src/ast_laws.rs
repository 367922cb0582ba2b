//! What holds of files and of what is known of them: their hashes, their imports, their
//! faults, and the names of their packages.
use vstd::prelude::*;
use vstd::utf8::{decode_utf8, valid_utf8};

use crate::ast::{
    fault_text, has_path, imports_at, is_own, is_third_party, known_after, known_modules,
    paths_of, scanned, third_party, AstError, Fault, Known, Project,
    ProjectAstManager, SourceFile,
};
use crate::ast::gathered;
use crate::file_hash::{file_hash, hex, hex_digit, sha256};
use crate::imports::{imports_in, Import};
use crate::package_name::{
    detected_name, keyword_name, name_in, pyproject_name, setup_name, ProjectFile,
};
use crate::package_name::{is_quote, keyword_at};
use crate::python_source::python_module;
use crate::scan_laws::{distinct_paths, found_in};
use crate::text::{stands_at, view_of};

verus! {

/// A byte is written as two digits, the first for its sixteens and the second for its ones,
/// in the order of the bytes.
pub proof fn law_hex_is_two_digits_a_byte(bytes: Seq<u8>, at: int)
    ensures
        hex(bytes).len() == 2 * bytes.len(),
        0 <= at < bytes.len() ==> {
            &&& hex(bytes)[2 * at] == "0123456789abcdef"@[(bytes[at] / 16) as int]
            &&& hex(bytes)[2 * at + 1] == "0123456789abcdef"@[(bytes[at] % 16) as int]
        },
    decreases bytes.len(),
{
    reveal_strlit("0123456789abcdef");
    if bytes.len() > 0 {
        law_hex_is_two_digits_a_byte(bytes.drop_last(), at);
        if at == bytes.len() - 1 {
            let high = (bytes[at] / 16) as nat;
            let low = (bytes[at] % 16) as nat;
            assert(hex_digit(high) == "0123456789abcdef"@[high as int]);
            assert(hex_digit(low) == "0123456789abcdef"@[low as int]);
        }
    }
}

/// The hash of a file is the digest of all of its content, in hexadecimal: two files have
/// the same hash exactly if their digests are the same.
pub proof fn law_hash_is_the_digest_of_all_content(content: Seq<u8>, other: Seq<u8>)
    ensures
        file_hash(content) == hex(sha256(content)),
        file_hash(content) == file_hash(other) <==> sha256(content) == sha256(other),
{
    if file_hash(content) == file_hash(other) {
        crate::file_hash::law_hex_is_injective(sha256(content), sha256(other));
    }
}

/// A module belongs to a package exactly if it is the package, or its name goes on with a
/// dot behind the name of the package.
pub proof fn law_own_module_is_the_package_or_below(module: Seq<char>, name: Seq<char>)
    ensures
        is_own(module, name) <==> (module == name || (module.len() > name.len() && module.take(
            name.len() as int,
        ) == name && module[name.len() as int] == '.')),
{
    reveal_strlit(".");
    let dotted = name + "."@;
    let n = name.len() as int;
    if dotted.is_prefix_of(module) {
        let head = module.subrange(0, n + 1);
        assert(head == dotted);
        assert(head[n] == module[n]);
        assert(module.take(n) =~= head.take(n));
        assert(dotted.take(n) =~= name);
    }
    if module.len() > n && module.take(n) == name && module[n] == '.' {
        assert(dotted =~= module.subrange(0, n + 1)) by {
            assert forall|i: int| 0 <= i < n implies name[i] == module[i] by {
                assert(module.take(n)[i] == module[i]);
            }
        }
    }
}

/// An import counts as third-party exactly if it has no leading dots and its module does
/// not belong to the package; without a package, every import without leading dots does.
pub proof fn law_third_party_import_is_absolute_and_foreign(import: Import, name: Seq<char>)
    ensures
        is_third_party(import, None) <==> !import.is_relative,
        is_third_party(import, Some(name)) <==> !import.is_relative && !is_own(
            import.module,
            name,
        ),
{
}

/// The third-party modules of imports are the modules of those imports that count as
/// third-party, each with its full name.
pub proof fn law_third_party_modules_are_full_names(
    all: Seq<Import>,
    package: Option<Seq<char>>,
    module: Seq<char>,
)
    ensures
        third_party(all, package).contains(module) <==> exists|import: Import| #[trigger]
            all.contains(import) && is_third_party(import, package) && import.module == module,
{
    if third_party(all, package).contains(module) {
        let i = choose|i: int|
            0 <= i < all.len() && is_third_party(#[trigger] all[i], package) && all[i].module
                == module;
        assert(all.contains(all[i]));
    }
    if exists|import: Import| #[trigger]
        all.contains(import) && is_third_party(import, package) && import.module == module {
        let import = choose|import: Import| #[trigger]
            all.contains(import) && is_third_party(import, package) && import.module == module;
        let i = all.index_of(import);
        assert(all[i] == import);
    }
}

/// The known modules are the third-party modules of all known files.
pub proof fn law_known_modules_are_those_of_all_files(
    known: Known,
    package: Option<Seq<char>>,
    module: Seq<char>,
)
    ensures
        known_modules(known, package).contains(module) <==> exists|path: Seq<char>| #[trigger]
            known.contains_key(path) && third_party(known[path].imports, package).contains(module),
{
}

/// A file whose digest is the known one has the known imports. Any other file has the
/// imports of all of the statements that its text is parsed to; it has a fault where its
/// bytes are no text, its text does not parse, or it is no module.
pub proof fn law_changed_file_is_parsed_anew(known: Known, path: Seq<char>, content: Seq<u8>)
    ensures
        known.contains_key(path) && known[path].hash == file_hash(content) ==> imports_at(
            known,
            path,
            content,
        ) == Ok::<Seq<Import>, Fault>(known[path].imports),
        !(known.contains_key(path) && known[path].hash == file_hash(content)) ==> {
            &&& !valid_utf8(content) ==> imports_at(known, path, content) == Err::<
                Seq<Import>,
                Fault,
            >(Fault::NotUtf8)
            &&& valid_utf8(content) ==> match python_module(decode_utf8(content), path) {
                Ok(Some(body)) => imports_at(known, path, content) == Ok::<Seq<Import>, Fault>(
                    imports_in(body),
                ),
                Ok(None) => imports_at(known, path, content) == Err::<Seq<Import>, Fault>(
                    Fault::UnexpectedAst(path),
                ),
                Err(why) => imports_at(known, path, content) == Err::<Seq<Import>, Fault>(
                    Fault::Parse(path, why),
                ),
            }
        },
{
}

/// A file without a fault is known afterwards, with the digest of its content and with the
/// imports that were found in it; one with a fault changes nothing; and no other file is
/// touched.
pub proof fn law_processed_file_is_known(
    known: Known,
    path: Seq<char>,
    content: Seq<u8>,
    other: Seq<char>,
)
    requires
        other != path,
    ensures
        ({
            let after = known_after(known, path, content);
            &&& imports_at(known, path, content) matches Ok(found) ==> {
                &&& after.contains_key(path)
                &&& after[path].hash == file_hash(content)
                &&& after[path].imports == found
            }
            &&& imports_at(known, path, content) is Err ==> after == known
            &&& after.contains_key(other) == known.contains_key(other)
            &&& after[other] == known[other]
        }),
{
}

proof fn lemma_first_fault(
    known: Known,
    package: Option<Seq<char>>,
    files: Seq<SourceFile>,
    at: int,
)
    requires
        distinct_paths(files),
        0 <= at < files.len(),
        forall|i: int| 0 <= i < at ==> found_in(known, #[trigger] files[i]) is Ok,
        found_in(known, files[at]) is Err,
    ensures
        gathered(known, package, files).1 == Err::<Set<Seq<char>>, Fault>(
            found_in(known, files[at])->Err_0,
        ),
    decreases files.len(),
{
    let shorter = files.drop_last();
    assert forall|i: int, j: int| 0 <= i < j < shorter.len() implies (#[trigger] shorter[i]).path@
        != (#[trigger] shorter[j]).path@ by {
        assert(shorter[i] == files[i] && shorter[j] == files[j]);
    }
    if at < shorter.len() {
        assert forall|i: int| 0 <= i < at implies found_in(known, #[trigger] shorter[i]) is Ok by {
            assert(shorter[i] == files[i]);
        }
        assert(shorter[at] == files[at]);
        lemma_first_fault(known, package, shorter, at);
    } else {
        let file = files.last();
        assert(files[at] == file);
        assert forall|i: int| 0 <= i < shorter.len() implies found_in(
            known,
            #[trigger] shorter[i],
        ) is Ok by {
            assert(shorter[i] == files[i]);
        }
        crate::scan_laws::law_scan_is_file_by_file(known, package, shorter);
        let before = gathered(known, package, shorter).0;
        crate::scan_laws::lemma_gathered_files_known(known, package, shorter);
        assert(!has_path(shorter, file.path@)) by {
            if has_path(shorter, file.path@) {
                let i = choose|i: int|
                    0 <= i < shorter.len() && (#[trigger] shorter[i]).path@ == file.path@;
                assert(files[i] == shorter[i]);
            }
        }
        assert(before.contains_key(file.path@) == known.contains_key(file.path@));
        assert(found_in(before, file) == found_in(known, file));
    }
}

/// A scan reports the fault of the first file that has one: a file that could not be read
/// has the reason for its fault.
pub proof fn law_first_fault_is_reported(
    known: Known,
    package: Option<Seq<char>>,
    files: Seq<SourceFile>,
    at: int,
)
    requires
        distinct_paths(files),
        0 <= at < files.len(),
        forall|i: int| 0 <= i < at ==> found_in(known, #[trigger] files[i]) is Ok,
        found_in(known, files[at]) is Err,
    ensures
        scanned(known, package, files).1 == Err::<Set<Seq<char>>, Fault>(
            match files[at].content {
                Err(why) => Fault::Read(why@),
                Ok(bytes) => imports_at(known, files[at].path@, bytes@)->Err_0,
            },
        ),
{
    lemma_first_fault(known, package, files, at);
}

/// The text of a fault names the file, all of its path, and the reason, all of it.
pub proof fn law_fault_is_told_in_full(path: Seq<char>, why: Seq<char>)
    ensures
        fault_text(Fault::Read(why)) == why,
        fault_text(Fault::NotUtf8) == "stream did not contain valid UTF-8"@,
        fault_text(Fault::Parse(path, why)) == "Failed to parse "@ + path + ": "@ + why,
        fault_text(Fault::UnexpectedAst(path)) == "Unexpected AST format for module in file "@
            + path,
{
}

/// An error stands for the fault that it is.
pub proof fn law_error_is_its_fault(error: AstError)
    ensures
        match error {
            AstError::Read(why) => error@ == Fault::Read(why@),
            AstError::NotUtf8 => error@ is NotUtf8,
            AstError::Parse(path, why) => error@ == Fault::Parse(path@, why@),
            AstError::UnexpectedAst(path) => error@ == Fault::UnexpectedAst(path@),
        },
{
}

/// A package keeps the name that it has; one without a name gets the detected one.
pub proof fn law_package_keeps_its_name(manager: ProjectAstManager, project: Project)
    ensures
        match manager.package() {
            Some(name) => manager.package_in(project.top) == Some(name),
            None => manager.package_in(project.top) == detected_name(
                project.top.files@,
                match project.top.directory {
                    Some(directory) => Some(directory@),
                    None => None,
                },
            ),
        },
{
}

/// The first file that gives a name names the package, with all of that name; where none
/// does, the directory does.
pub proof fn law_first_name_is_taken(
    files: Seq<ProjectFile>,
    directory: Option<Seq<char>>,
    at: int,
)
    requires
        0 <= at <= files.len(),
        forall|i: int|
            0 <= i < at ==> name_in(
                (#[trigger] files[i]).file_name@,
                view_of(files[i].content),
            ) is None,
        at < files.len() ==> name_in(files[at].file_name@, view_of(files[at].content)) is Some,
    ensures
        at < files.len() ==> detected_name(files, directory) == name_in(
            files[at].file_name@,
            view_of(files[at].content),
        ),
        at == files.len() ==> detected_name(files, directory) == directory,
    decreases at,
{
    if at > 0 {
        let rest = files.drop_first();
        assert(name_in(files[0].file_name@, view_of(files[0].content)) is None);
        assert forall|i: int| 0 <= i < at - 1 implies name_in(
            (#[trigger] rest[i]).file_name@,
            view_of(rest[i].content),
        ) is None by {
            assert(rest[i] == files[i + 1]);
        }
        law_first_name_is_taken(rest, directory, at - 1);
    }
}

/// A `setup.py` is read as such and a `pyproject.toml` as such; no other file and no file
/// that cannot be read gives a name.
pub proof fn law_two_files_name_the_package(file_name: Seq<char>, text: Seq<char>)
    ensures
        name_in("setup.py"@, Some(text)) == setup_name(text),
        name_in("pyproject.toml"@, Some(text)) == pyproject_name(text),
        file_name != "setup.py"@ && file_name != "pyproject.toml"@ ==> name_in(
            file_name,
            Some(text),
        ) is None,
        name_in(file_name, None) is None,
{
    reveal_strlit("setup.py");
    reveal_strlit("pyproject.toml");
    assert("setup.py"@.len() != "pyproject.toml"@.len());
}

proof fn lemma_keyword_skips(text: Seq<char>, from: int, at: int)
    requires
        0 <= from <= at < text.len(),
        forall|k: int| from <= k < at ==> !stands_at(text, k, "name="@),
    ensures
        keyword_name(text, from) == keyword_name(text, at),
    decreases at - from,
{
    if from < at {
        assert(!stands_at(text, from, "name="@));
        assert(!exists|close: int| keyword_at(text, from, close));
        lemma_keyword_skips(text, from + 1, at);
    }
}

/// In a `setup.py`, the first `name=` with something in quotes behind it gives all that
/// stands in the quotes.
pub proof fn law_quoted_name_is_taken_whole(text: Seq<char>, at: int, name: Seq<char>, quote: char)
    requires
        0 <= at,
        name.len() > 0,
        quote == '"' || quote == '\'',
        forall|k: int| 0 <= k < name.len() ==> #[trigger] name[k] != '"' && name[k] != '\'',
        stands_at(text, at, "name="@ + seq![quote] + name + seq![quote]),
        forall|k: int| 0 <= k < at ==> !stands_at(text, k, "name="@),
    ensures
        setup_name(text) == Some(name),
{
    reveal_strlit("name=");
    let word = "name="@ + seq![quote] + name + seq![quote];
    let found = text.subrange(at, at + word.len());
    assert(found == word);
    let open = at + 5;
    let end: int = open + 1 + name.len() as int;
    assert forall|k: int| 0 <= k < word.len() implies text[at + k] == #[trigger] word[k] by {
        assert(found[k] == text[at + k]);
    }
    assert(text.subrange(at, at + 5) =~= "name="@) by {
        assert forall|k: int| 0 <= k < 5 implies text[at + k] == "name="@[k] by {
            assert(word[k] == "name="@[k]);
        }
    }
    assert(text[open] == word[5] && word[5] == quote);
    assert(text[end] == word[end - at] && word[end - at] == quote);
    assert forall|k: int| open < k < end implies !is_quote(#[trigger] text[k]) by {
        assert(text[k] == word[k - at]);
        assert(word[k - at] == name[k - open - 1]);
    }
    assert(keyword_at(text, at, end));
    lemma_keyword_skips(text, 0, at);
    let close = choose|close: int| keyword_at(text, at, close);
    assert(keyword_at(text, at, close));
    if close < end {
        assert(!is_quote(text[close]));
    } else if end < close {
        assert(!is_quote(text[end]));
    }
    assert(text.subrange(open + 1, end) =~= name) by {
        assert forall|k: int| 0 <= k < name.len() implies text[open + 1 + k] == name[k] by {
            assert(word[6 + k] == name[k]);
        }
    }
}

/// The patterns are those of the names in the two files.
pub proof fn law_patterns_of_the_names()
    ensures
        crate::package_name::SETUP_NAME@ == r#"name=["']([^"']+)["']"#@,
        crate::package_name::PYPROJECT_NAME@
            == r#"(?:\[project\]|\[tool\.poetry\])(?:.*?|(?:.|\n+[^\[\n])*?\n\s*)name\s*=\s*["']([^"']+)["']"#@,
{
}

/// The paths of files are the paths of those files, and no others.
pub proof fn law_paths_are_those_of_the_files(files: Seq<SourceFile>, path: Seq<char>)
    ensures
        paths_of(files).contains(path) <==> exists|i: int|
            0 <= i < files.len() && (#[trigger] files[i]).path@ == path,
{
}

/// A scan that met a fault forgets nothing: the files before the one with the fault are
/// known with what was found in them, and everything else is known as it was.
pub proof fn law_fault_forgets_nothing(
    known: Known,
    package: Option<Seq<char>>,
    files: Seq<SourceFile>,
    at: int,
    path: Seq<char>,
)
    requires
        distinct_paths(files),
        0 <= at < files.len(),
        forall|i: int| 0 <= i < at ==> found_in(known, #[trigger] files[i]) is Ok,
        found_in(known, files[at]) is Err,
    ensures
        ({
            let after = scanned(known, package, files).0;
            &&& forall|i: int|
                0 <= i < at ==> {
                    &&& after.contains_key((#[trigger] files[i]).path@)
                    &&& after[files[i].path@].imports == found_in(known, files[i])->Ok_0
                    &&& after[files[i].path@].hash == file_hash(files[i].content->Ok_0@)
                }
            &&& (forall|i: int| 0 <= i < at ==> (#[trigger] files[i]).path@ != path) ==> {
                &&& after.contains_key(path) == known.contains_key(path)
                &&& known.contains_key(path) ==> after[path] == known[path]
            }
        }),
{
    let head = files.take(at);
    let through = files.take(at + 1);
    assert forall|i: int, j: int| 0 <= i < j < through.len() implies (#[trigger] through[i]).path@
        != (#[trigger] through[j]).path@ by {
        assert(through[i] == files[i] && through[j] == files[j]);
    }
    assert forall|i: int, j: int| 0 <= i < j < head.len() implies (#[trigger] head[i]).path@ != (
    #[trigger] head[j]).path@ by {
        assert(head[i] == files[i] && head[j] == files[j]);
    }
    assert forall|i: int| 0 <= i < at implies found_in(known, #[trigger] through[i]) is Ok by {
        assert(through[i] == files[i]);
    }
    assert(through[at] == files[at]);
    lemma_first_fault(known, package, through, at);
    crate::ast::lemma_scan_stops(known, package, files, at + 1);
    assert forall|i: int| 0 <= i < head.len() implies found_in(known, #[trigger] head[i]) is Ok by {
        assert(head[i] == files[i]);
    }
    crate::scan_laws::lemma_gathered_file_by_file(known, package, head);
    crate::scan_laws::lemma_gathered_files_known(known, package, head);
    let before = gathered(known, package, head).0;
    let file = files[at];
    assert(through.drop_last() =~= head);
    assert(through.last() == file);
    assert(!has_path(head, file.path@)) by {
        if has_path(head, file.path@) {
            let i = choose|i: int| 0 <= i < head.len() && (#[trigger] head[i]).path@ == file.path@;
            assert(files[i] == head[i]);
        }
    }
    assert(before.contains_key(file.path@) == known.contains_key(file.path@));
    assert(found_in(before, file) == found_in(known, file));
    let after = scanned(known, package, files).0;
    assert(after == before);
    assert forall|i: int| 0 <= i < at implies after.contains_key((#[trigger] files[i]).path@)
        && after[files[i].path@].imports == found_in(known, files[i])->Ok_0
        && after[files[i].path@].hash == file_hash(files[i].content->Ok_0@) by {
        assert(head[i] == files[i]);
    }
    if forall|i: int| 0 <= i < at ==> (#[trigger] files[i]).path@ != path {
        assert(!has_path(head, path)) by {
            if has_path(head, path) {
                let i = choose|i: int| 0 <= i < head.len() && (#[trigger] head[i]).path@ == path;
                assert(files[i] == head[i]);
            }
        }
    }
}

} // verus!
