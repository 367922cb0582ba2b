//! The imports that stand in the statements of a module.
use vstd::prelude::*;

use crate::python_source::{alias_nodes, node, nodes, AliasNode, ImportAlias, Node, Statement};
use crate::text::views;

verus! {

/// A simple structure to hold information about an import.
#[derive(Debug, PartialEq, Eq)]
pub struct ImportInfo {
    /// For an `import X`, this is "X". For a `from X import Y`, this is "X".
    pub module: String,
    /// The names imported from that module.
    pub names: Vec<String>,
    /// Whether this is a relative import (starts with . or ..)
    pub is_relative: bool,
}

/// What an `ImportInfo` stands for.
pub struct Import {
    pub module: Seq<char>,
    pub names: Seq<Seq<char>>,
    pub is_relative: bool,
}

impl View for ImportInfo {
    type V = Import;

    open spec fn view(&self) -> Import {
        Import { module: self.module@, names: views(self.names@), is_relative: self.is_relative }
    }
}

impl Clone for ImportInfo {
    fn clone(&self) -> (info: Self)
        ensures
            info@ == self@,
    {
        let info = ImportInfo {
            module: self.module.clone(),
            names: self.names.clone(),
            is_relative: self.is_relative,
        };
        assert(views(info.names@) =~= views(self.names@));
        info
    }
}

/// What each of `infos` stands for.
pub open spec fn imports(infos: Seq<ImportInfo>) -> Seq<Import> {
    infos.map_values(|info: ImportInfo| info@)
}

/// The name that an alias binds: the one behind `as`, else the imported one.
pub open spec fn bound_name(alias: AliasNode) -> Seq<char> {
    match alias.asname {
        Some(asname) => asname,
        None => alias.name,
    }
}

/// The names that the aliases bind.
pub open spec fn bound_names(names: Seq<AliasNode>) -> Seq<Seq<char>> {
    names.map_values(|alias: AliasNode| bound_name(alias))
}

/// The import of one alias of an `import` statement.
pub open spec fn plain_import(alias: AliasNode) -> Import {
    Import { module: alias.name, names: seq![bound_name(alias)], is_relative: false }
}

/// The imports of one statement: one for each name of an `import`; one for a
/// `from .. import`, unless it names no module; those of the nested statements
/// of an `if`, a `while`, a function or a class. The nested statements of a `for`, a
/// `with`, a `try` or a `match` are not searched.
pub open spec fn imports_of(node: Node) -> Seq<Import>
    decreases node,
{
    match node {
        Node::Import(names) => names.map_values(|alias: AliasNode| plain_import(alias)),
        Node::ImportFrom(Some(module), names, level) => seq![
            Import {
                module,
                names: bound_names(names),
                is_relative: level matches Some(dots) && dots > 0,
            },
        ],
        Node::ImportFrom(None, _, _) => seq![],
        Node::If(body, orelse) => imports_in(body) + imports_in(orelse),
        Node::While(body, orelse) => imports_in(body) + imports_in(orelse),
        Node::FunctionDef(body) => imports_in(body),
        Node::AsyncFunctionDef(body) => imports_in(body),
        Node::ClassDef(body) => imports_in(body),
        Node::For(_, _) => seq![],
        Node::With(_) => seq![],
        Node::Try(_, _, _, _) => seq![],
        Node::Match(_) => seq![],
        Node::Block(_) => seq![],
        Node::Other => seq![],
    }
}

/// The imports of a list of statements, in the order of the statements.
pub open spec fn imports_in(body: Seq<Node>) -> Seq<Import>
    decreases body,
{
    if body.len() == 0 {
        seq![]
    } else {
        imports_in(body.drop_last()) + imports_of(body.last())
    }
}

/// The same imports once more.
pub fn copied(infos: &Vec<ImportInfo>) -> (copy: Vec<ImportInfo>)
    ensures
        imports(copy@) == imports(infos@),
{
    let mut copy: Vec<ImportInfo> = Vec::new();
    let mut at: usize = 0;
    while at < infos.len()
        invariant
            at <= infos@.len(),
            imports(copy@) == imports(infos@).take(at as int),
        decreases infos@.len() - at,
    {
        let ghost before = copy@;
        copy.push(infos[at].clone());
        assert(imports(copy@) =~= imports(before).push(infos@[at as int]@));
        assert(imports(infos@).take(at + 1) =~= imports(infos@).take(at as int).push(
            infos@[at as int]@,
        ));
        at = at + 1;
    }
    assert(imports(infos@).take(at as int) =~= imports(infos@));
    copy
}

fn bound(alias: &ImportAlias) -> (name: String)
    ensures
        name@ == bound_name(alias@),
{
    match &alias.asname {
        Some(asname) => asname.clone(),
        None => alias.name.clone(),
    }
}

fn all_bound(aliases: &Vec<ImportAlias>) -> (names: Vec<String>)
    ensures
        views(names@) == bound_names(alias_nodes(aliases@)),
{
    let mut names: Vec<String> = Vec::new();
    let mut at: usize = 0;
    while at < aliases.len()
        invariant
            at <= aliases@.len(),
            views(names@) == bound_names(alias_nodes(aliases@.take(at as int))),
        decreases aliases@.len() - at,
    {
        names.push(bound(&aliases[at]));
        proof {
            assert(aliases@.take(at + 1).drop_last() =~= aliases@.take(at as int));
            assert(bound_names(alias_nodes(aliases@.take(at + 1))) =~= bound_names(
                alias_nodes(aliases@.take(at as int)),
            ).push(bound_name(aliases@[at as int]@)));
        }
        at = at + 1;
    }
    assert(aliases@.take(at as int) =~= aliases@);
    names
}

fn plain_imports(aliases: &Vec<ImportAlias>) -> (infos: Vec<ImportInfo>)
    ensures
        imports(infos@) == imports_of(Node::Import(alias_nodes(aliases@))),
{
    let mut infos: Vec<ImportInfo> = Vec::new();
    let mut at: usize = 0;
    while at < aliases.len()
        invariant
            at <= aliases@.len(),
            imports(infos@) == imports_of(Node::Import(alias_nodes(aliases@.take(at as int)))),
        decreases aliases@.len() - at,
    {
        let alias = &aliases[at];
        let mut names: Vec<String> = Vec::new();
        names.push(bound(alias));
        assert(views(names@) =~= seq![bound_name(alias@)]);
        let ghost before = infos@;
        infos.push(ImportInfo { module: alias.name.clone(), names, is_relative: false });
        proof {
            assert(imports(infos@) =~= imports(before).push(plain_import(alias@)));
            assert(imports_of(Node::Import(alias_nodes(aliases@.take(at + 1)))) =~= imports_of(
                Node::Import(alias_nodes(aliases@.take(at as int))),
            ).push(plain_import(alias@)));
        }
        at = at + 1;
    }
    assert(aliases@.take(at as int) =~= aliases@);
    infos
}

/// Recursively traverse AST statements to collect import information.
/// Absolute (level == 0) imports are considered third-party.
pub fn collect_imports(stmts: &[Statement]) -> (infos: Vec<ImportInfo>)
    ensures
        imports(infos@) == imports_in(nodes(stmts@)),
    decreases stmts@,
{
    let mut infos: Vec<ImportInfo> = Vec::new();
    let mut at: usize = 0;
    while at < stmts.len()
        invariant
            at <= stmts@.len(),
            imports(infos@) == imports_in(nodes(stmts@.take(at as int))),
        decreases stmts@.len() - at,
    {
        let ghost before = infos@;
        let mut found = imports_of_statement(&stmts[at]);
        let ghost added = found@;
        infos.append(&mut found);
        proof {
            assert(stmts@.take(at + 1).drop_last() =~= stmts@.take(at as int));
            assert(nodes(stmts@.take(at + 1)).drop_last() =~= nodes(stmts@.take(at as int)));
            assert(imports(infos@) =~= imports(before) + imports(added));
        }
        at = at + 1;
    }
    assert(stmts@.take(at as int) =~= stmts@);
    infos
}

fn imports_of_statement(statement: &Statement) -> (infos: Vec<ImportInfo>)
    ensures
        imports(infos@) == imports_of(node(*statement)),
    decreases *statement,
{
    match statement {
        Statement::Import(names) => plain_imports(names),
        Statement::ImportFrom(module, names, level) => {
            let mut infos: Vec<ImportInfo> = Vec::new();
            if let Some(module) = module {
                let is_relative = match level {
                    Some(dots) => *dots > 0,
                    None => false,
                };
                infos.push(
                    ImportInfo { module: module.clone(), names: all_bound(names), is_relative },
                );
            }
            assert(imports(infos@) =~= imports_of(node(*statement)));
            infos
        },
        Statement::If(body, orelse) => chained(
            collect_imports(body.as_slice()),
            collect_imports(orelse.as_slice()),
        ),
        Statement::While(body, orelse) => chained(
            collect_imports(body.as_slice()),
            collect_imports(orelse.as_slice()),
        ),
        Statement::FunctionDef(body) => collect_imports(body.as_slice()),
        Statement::AsyncFunctionDef(body) => collect_imports(body.as_slice()),
        Statement::ClassDef(body) => collect_imports(body.as_slice()),
        Statement::For(_, _) => Vec::new(),
        Statement::With(_) => Vec::new(),
        Statement::Try(_, _, _, _) => Vec::new(),
        Statement::Match(_) => Vec::new(),
        Statement::Block(_) => Vec::new(),
        Statement::Other => Vec::new(),
    }
}

fn chained(first: Vec<ImportInfo>, second: Vec<ImportInfo>) -> (infos: Vec<ImportInfo>)
    ensures
        imports(infos@) == imports(first@) + imports(second@),
{
    let mut infos = first;
    let mut rest = second;
    infos.append(&mut rest);
    assert(imports(infos@) =~= imports(first@) + imports(second@));
    infos
}

/// The imports of two lists of statements, one behind the other, are those of the
/// first and then those of the second.
pub proof fn law_imports_of_joined_lists(first: Seq<Node>, second: Seq<Node>)
    ensures
        imports_in(first + second) == imports_in(first) + imports_in(second),
    decreases second.len(),
{
    if second.len() == 0 {
        assert(first + second =~= first);
        assert(imports_in(first) + imports_in(second) =~= imports_in(first));
    } else {
        law_imports_of_joined_lists(first, second.drop_last());
        assert((first + second).drop_last() =~= first + second.drop_last());
        assert(imports_in(first + second) =~= imports_in(first) + imports_in(second));
    }
}

} // verus!
