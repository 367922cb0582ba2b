//! What holds of the imports that are collected from statements.
use vstd::prelude::*;

use crate::imports::{imports, imports_in, imports_of, Import, ImportInfo};
use crate::imports::law_imports_of_joined_lists;
use crate::python_source::{alias_nodes, node, nodes, AliasNode, ImportAlias, Node, Statement};

verus! {

/// The statements of a list stand for themselves, one for one and in their order.
pub proof fn law_statements_stand_one_for_one(statements: Seq<Statement>)
    ensures
        nodes(statements).len() == statements.len(),
        forall|i: int|
            0 <= i < statements.len() ==> #[trigger] nodes(statements)[i] == node(statements[i]),
    decreases statements.len(),
{
    if statements.len() > 0 {
        let shorter = statements.drop_last();
        law_statements_stand_one_for_one(shorter);
        assert forall|i: int| 0 <= i < statements.len() implies #[trigger] nodes(statements)[i]
            == node(statements[i]) by {
            if i < shorter.len() {
                assert(nodes(statements)[i] == nodes(shorter)[i]);
                assert(shorter[i] == statements[i]);
            }
        }
    }
}

/// The names of an import statement stand for themselves, one for one and in their order.
pub proof fn law_aliases_stand_one_for_one(names: Seq<ImportAlias>)
    ensures
        alias_nodes(names).len() == names.len(),
        forall|i: int|
            0 <= i < names.len() ==> {
                &&& (#[trigger] alias_nodes(names)[i]).name == names[i].name@
                &&& alias_nodes(names)[i].asname is Some <==> names[i].asname is Some
                &&& names[i].asname matches Some(asname) ==> alias_nodes(names)[i].asname->0
                    == asname@
            },
{
}

/// A statement keeps its kind, its names and each of its blocks.
pub proof fn law_statement_keeps_its_blocks(statement: Statement)
    ensures
        match (statement, node(statement)) {
            (Statement::Import(names), Node::Import(seen)) => seen == alias_nodes(names@),
            (Statement::ImportFrom(module, names, level), Node::ImportFrom(m, seen, l)) => {
                &&& seen == alias_nodes(names@)
                &&& l == level
                &&& m is Some <==> module is Some
                &&& module matches Some(text) ==> m->0 == text@
            },
            (Statement::If(body, orelse), Node::If(b, o)) => b == nodes(body@) && o == nodes(
                orelse@,
            ),
            (Statement::While(body, orelse), Node::While(b, o)) => b == nodes(body@) && o
                == nodes(orelse@),
            (Statement::FunctionDef(body), Node::FunctionDef(b)) => b == nodes(body@),
            (Statement::AsyncFunctionDef(body), Node::AsyncFunctionDef(b)) => b == nodes(body@),
            (Statement::ClassDef(body), Node::ClassDef(b)) => b == nodes(body@),
            (Statement::For(body, orelse), Node::For(b, o)) => b == nodes(body@) && o == nodes(
                orelse@,
            ),
            (Statement::With(body), Node::With(b)) => b == nodes(body@),
            (Statement::Try(body, handlers, orelse, last), Node::Try(b, h, o, f)) => {
                &&& b == nodes(body@)
                &&& h == nodes(handlers@)
                &&& o == nodes(orelse@)
                &&& f == nodes(last@)
            },
            (Statement::Match(cases), Node::Match(c)) => c == nodes(cases@),
            (Statement::Block(body), Node::Block(b)) => b == nodes(body@),
            (Statement::Other, Node::Other) => true,
            _ => false,
        },
{
}

/// A list of one statement has the imports of that statement, and an empty list has none.
pub proof fn law_imports_of_one_statement(statement: Node)
    ensures
        imports_in(seq![statement]) == imports_of(statement),
        imports_in(Seq::<Node>::empty()) == Seq::<Import>::empty(),
{
    let one = seq![statement];
    assert(one.drop_last() =~= Seq::<Node>::empty());
    assert(imports_in(one.drop_last()) =~= Seq::<Import>::empty());
    assert(one.last() == statement);
    assert(imports_in(one) =~= imports_of(statement));
}

/// The imports of a list are those of its statements: none is lost, none is made up.
pub proof fn law_imports_of_a_list_are_those_of_its_statements(body: Seq<Node>, import: Import)
    ensures
        imports_in(body).contains(import) <==> exists|i: int|
            0 <= i < body.len() && (#[trigger] imports_of(body[i])).contains(import),
    decreases body.len(),
{
    if body.len() > 0 {
        let shorter = body.drop_last();
        law_imports_of_a_list_are_those_of_its_statements(shorter, import);
        let before = imports_in(shorter);
        let last = imports_of(body.last());
        let all = imports_in(body);
        assert(all == before + last);
        if all.contains(import) {
            let k = all.index_of(import);
            if k < before.len() {
                assert(before[k] == import);
                let i = choose|i: int|
                    0 <= i < shorter.len() && (#[trigger] imports_of(shorter[i])).contains(import);
                assert(imports_of(body[i]).contains(import));
            } else {
                assert(last[k - before.len()] == import);
                assert(imports_of(body[body.len() - 1]).contains(import));
            }
        }
        if exists|i: int| 0 <= i < body.len() && (#[trigger] imports_of(body[i])).contains(import) {
            let i = choose|i: int|
                0 <= i < body.len() && (#[trigger] imports_of(body[i])).contains(import);
            if i < shorter.len() {
                assert(imports_of(shorter[i]).contains(import));
                let k = before.index_of(import);
                assert(all[k] == import);
            } else {
                let k = last.index_of(import);
                assert(all[before.len() + k] == import);
            }
        }
    }
}

/// Nesting loses nothing: a function, a coroutine and a class have the imports of the
/// statements in their bodies, and an `if` and a `while` those of both of their blocks,
/// one behind the other.
pub proof fn law_nesting_loses_nothing(body: Seq<Node>, orelse: Seq<Node>)
    ensures
        imports_of(Node::FunctionDef(body)) == imports_in(body),
        imports_of(Node::AsyncFunctionDef(body)) == imports_in(body),
        imports_of(Node::ClassDef(body)) == imports_in(body),
        imports_of(Node::If(body, orelse)) == imports_in(body + orelse),
        imports_of(Node::While(body, orelse)) == imports_in(body + orelse),
{
    law_imports_of_joined_lists(body, orelse);
}

/// Each import of each statement in a block is among the imports of the statement that
/// holds the block, however deep the block is.
pub proof fn law_import_in_a_block_is_found(
    body: Seq<Node>,
    other: Seq<Node>,
    at: int,
    import: Import,
)
    requires
        0 <= at < body.len(),
        imports_of(body[at]).contains(import),
    ensures
        imports_in(body).contains(import),
        imports_of(Node::FunctionDef(body)).contains(import),
        imports_of(Node::AsyncFunctionDef(body)).contains(import),
        imports_of(Node::ClassDef(body)).contains(import),
        imports_of(Node::If(body, other)).contains(import),
        imports_of(Node::If(other, body)).contains(import),
        imports_of(Node::While(body, other)).contains(import),
        imports_of(Node::While(other, body)).contains(import),
{
    law_imports_of_a_list_are_those_of_its_statements(body, import);
    let ours = imports_in(body);
    let others = imports_in(other);
    let k = ours.index_of(import);
    assert((ours + others)[k] == import);
    assert((others + ours)[others.len() + k] == import);
}

/// What is indented under a `def` is collected just as if it were not: the imports of the
/// statement are those of its body as a module of its own.
pub proof fn law_function_body_is_collected_like_a_module(
    function: Statement,
    coroutine: Statement,
    class: Statement,
    body: Vec<Statement>,
)
    requires
        function == Statement::FunctionDef(body),
        coroutine == Statement::AsyncFunctionDef(body),
        class == Statement::ClassDef(body),
    ensures
        imports_of(node(function)) == imports_in(nodes(body@)),
        imports_of(node(coroutine)) == imports_in(nodes(body@)),
        imports_of(node(class)) == imports_in(nodes(body@)),
{
}

/// An `import` gives one absolute import for each of its names, in their order: of the
/// module of that name, bound to the name behind `as` where there is one.
pub proof fn law_plain_imports_are_one_for_each_name(names: Seq<AliasNode>)
    ensures
        ({
            let found = imports_of(Node::Import(names));
            &&& found.len() == names.len()
            &&& forall|i: int|
                0 <= i < names.len() ==> {
                    &&& (#[trigger] found[i]).module == names[i].name
                    &&& !found[i].is_relative
                    &&& found[i].names.len() == 1
                    &&& found[i].names[0] == match names[i].asname {
                        Some(asname) => asname,
                        None => names[i].name,
                    }
                }
        }),
{
}

/// A `from .. import` gives one import of its module, with all of its names, which is
/// relative where there are leading dots, and none where it names no module.
pub proof fn law_from_import_is_one_import(
    module: Seq<char>,
    names: Seq<AliasNode>,
    level: Option<u32>,
)
    ensures
        ({
            let found = imports_of(Node::ImportFrom(Some(module), names, level));
            &&& found.len() == 1
            &&& found[0].module == module
            &&& found[0].is_relative <==> (level is Some && level->0 > 0)
            &&& found[0].names.len() == names.len()
            &&& forall|i: int|
                0 <= i < names.len() ==> #[trigger] found[0].names[i] == match names[i].asname {
                    Some(asname) => asname,
                    None => names[i].name,
                }
        }),
        imports_of(Node::ImportFrom(None, names, level)) == Seq::<Import>::empty(),
{
}

/// Nothing is collected from other statements.
pub proof fn law_other_statements_give_nothing(statement: Node)
    requires
        statement is For || statement is With || statement is Try || statement is Match
            || statement is Block || statement is Other,
    ensures
        imports_of(statement) == Seq::<Import>::empty(),
{
}

/// What is known of an import is what its record holds.
pub proof fn law_import_is_its_record(infos: Seq<ImportInfo>)
    ensures
        imports(infos).len() == infos.len(),
        forall|i: int|
            0 <= i < infos.len() ==> {
                &&& (#[trigger] imports(infos)[i]).module == infos[i].module@
                &&& imports(infos)[i].is_relative == infos[i].is_relative
                &&& imports(infos)[i].names.len() == infos[i].names@.len()
                &&& forall|k: int|
                    0 <= k < infos[i].names@.len() ==> #[trigger] imports(infos)[i].names[k]
                        == infos[i].names@[k]@
            },
{
}

} // verus!
