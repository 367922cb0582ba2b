//! The statements of a Python module, as far as imports go.
use rustpython_parser::ast::{self, ExceptHandler, MatchCase, Stmt};
use vstd::prelude::*;
use vstd::string::StringSliceAdditionalSpecFns;

use crate::text::view_of;

verus! {

/// One name of an import statement, with the name that it is bound to.
#[derive(Debug, PartialEq, Eq)]
pub struct ImportAlias {
    pub name: String,
    pub asname: Option<String>,
}

/// A Python statement. What no statement stands in, and is no import, is `Other`.
#[derive(Debug)]
pub enum Statement {
    /// `import name as asname, ..`
    Import(Vec<ImportAlias>),
    /// `from module import name as asname, ..`, with the number of leading dots.
    ImportFrom(Option<String>, Vec<ImportAlias>, Option<u32>),
    /// An `if` with its two branches.
    If(Vec<Statement>, Vec<Statement>),
    /// A `while` with its body and its `else` branch.
    While(Vec<Statement>, Vec<Statement>),
    /// The body of a `def`.
    FunctionDef(Vec<Statement>),
    /// The body of an `async def`.
    AsyncFunctionDef(Vec<Statement>),
    /// The body of a `class`.
    ClassDef(Vec<Statement>),
    /// A `for`, asynchronous or not, with its body and its `else` branch.
    For(Vec<Statement>, Vec<Statement>),
    /// The body of a `with`, asynchronous or not.
    With(Vec<Statement>),
    /// A `try`, with its body, a `Block` for each `except`, its `else` branch and its
    /// `finally` branch.
    Try(Vec<Statement>, Vec<Statement>, Vec<Statement>, Vec<Statement>),
    /// A `match`, with a `Block` for each `case`.
    Match(Vec<Statement>),
    /// The body of an `except` or of a `case`.
    Block(Vec<Statement>),
    Other,
}

/// What an `ImportAlias` stands for.
pub struct AliasNode {
    pub name: Seq<char>,
    pub asname: Option<Seq<char>>,
}

impl View for ImportAlias {
    type V = AliasNode;

    open spec fn view(&self) -> AliasNode {
        AliasNode { name: self.name@, asname: view_of(self.asname) }
    }
}

/// What a `Statement` stands for.
pub enum Node {
    Import(Seq<AliasNode>),
    ImportFrom(Option<Seq<char>>, Seq<AliasNode>, Option<u32>),
    If(Seq<Node>, Seq<Node>),
    While(Seq<Node>, Seq<Node>),
    FunctionDef(Seq<Node>),
    AsyncFunctionDef(Seq<Node>),
    ClassDef(Seq<Node>),
    For(Seq<Node>, Seq<Node>),
    With(Seq<Node>),
    Try(Seq<Node>, Seq<Node>, Seq<Node>, Seq<Node>),
    Match(Seq<Node>),
    Block(Seq<Node>),
    Other,
}

/// What each of `names` stands for.
pub open spec fn alias_nodes(names: Seq<ImportAlias>) -> Seq<AliasNode> {
    names.map_values(|alias: ImportAlias| alias@)
}

/// What `statement` stands for.
pub open spec fn node(statement: Statement) -> Node
    decreases statement,
{
    match statement {
        Statement::Import(names) => Node::Import(alias_nodes(names@)),
        Statement::ImportFrom(module, names, level) => Node::ImportFrom(
            view_of(module),
            alias_nodes(names@),
            level,
        ),
        Statement::If(body, orelse) => Node::If(nodes(body@), nodes(orelse@)),
        Statement::While(body, orelse) => Node::While(nodes(body@), nodes(orelse@)),
        Statement::FunctionDef(body) => Node::FunctionDef(nodes(body@)),
        Statement::AsyncFunctionDef(body) => Node::AsyncFunctionDef(nodes(body@)),
        Statement::ClassDef(body) => Node::ClassDef(nodes(body@)),
        Statement::For(body, orelse) => Node::For(nodes(body@), nodes(orelse@)),
        Statement::With(body) => Node::With(nodes(body@)),
        Statement::Try(body, handlers, orelse, finalbody) => Node::Try(
            nodes(body@),
            nodes(handlers@),
            nodes(orelse@),
            nodes(finalbody@),
        ),
        Statement::Match(cases) => Node::Match(nodes(cases@)),
        Statement::Block(body) => Node::Block(nodes(body@)),
        Statement::Other => Node::Other,
    }
}

/// What each of `statements` stands for.
pub open spec fn nodes(statements: Seq<Statement>) -> Seq<Node>
    decreases statements,
{
    if statements.len() == 0 {
        seq![]
    } else {
        nodes(statements.drop_last()).push(node(statements.last()))
    }
}

/// A statement of the syntax tree of `rustpython_parser`.
#[verifier::external_type_specification]
#[verifier::external_body]
#[verifier::reject_recursive_types(R)]
pub struct ExStmt<R>(ast::Stmt<R>);

/// A name in an import statement of the syntax tree of `rustpython_parser`.
#[verifier::external_type_specification]
#[verifier::external_body]
#[verifier::reject_recursive_types(R)]
pub struct ExAlias<R>(ast::Alias<R>);

/// An `except` of the syntax tree of `rustpython_parser`.
#[verifier::external_type_specification]
#[verifier::external_body]
#[verifier::reject_recursive_types(R)]
pub struct ExExceptHandler<R>(ast::ExceptHandler<R>);

/// A `case` of the syntax tree of `rustpython_parser`.
#[verifier::external_type_specification]
#[verifier::external_body]
#[verifier::reject_recursive_types(R)]
pub struct ExMatchCase<R>(ast::MatchCase<R>);

/// The place of a node of the syntax tree in the source text.
#[verifier::external_type_specification]
#[verifier::external_body]
pub struct ExTextRange(rustpython_parser::text_size::TextRange);

/// What `rustpython_parser::parse` makes of the module `source` that it is told
/// stands at `path`: the statements, `None` where the syntax tree is not that of
/// a module, or the debug form of the error.
pub uninterp spec fn python_module(source: Seq<char>, path: Seq<char>) -> Result<
    Option<Seq<Node>>,
    Seq<char>,
>;

/// What the result of parsing stands for.
pub open spec fn parsed_view(parsed: Result<Option<Vec<Statement>>, String>) -> Result<
    Option<Seq<Node>>,
    Seq<char>,
> {
    match parsed {
        Ok(Some(statements)) => Ok(Some(nodes(statements@))),
        Ok(None) => Ok(None),
        Err(error) => Err(error@),
    }
}

/// Turns the names of an import statement of `rustpython_parser` into
/// [`ImportAlias`], one for one.
#[verifier::external_body]
fn aliases(names: &Vec<ast::Alias>) -> Vec<ImportAlias> {
    names.iter().map(|a| ImportAlias {
        name: a.name.to_string(),
        asname: a.asname.as_ref().map(|n| n.to_string()),
    }).collect()
}

/// Turns a statement of `rustpython_parser` into a [`Statement`].
#[verifier::external_body]
fn statement(stmt: &Stmt) -> Statement {
    match stmt {
        Stmt::Import(s) => Statement::Import(aliases(&s.names)),
        Stmt::ImportFrom(s) => Statement::ImportFrom(
            s.module.as_ref().map(ToString::to_string),
            aliases(&s.names),
            s.level.map(|l| l.to_u32()),
        ),
        Stmt::If(s) => Statement::If(statements(&s.body), statements(&s.orelse)),
        Stmt::While(s) => Statement::While(statements(&s.body), statements(&s.orelse)),
        Stmt::FunctionDef(s) => Statement::FunctionDef(statements(&s.body)),
        Stmt::AsyncFunctionDef(s) => Statement::AsyncFunctionDef(statements(&s.body)),
        Stmt::ClassDef(s) => Statement::ClassDef(statements(&s.body)),
        _ => compound(stmt),
    }
}

/// Turns the bodies of the `except`s of a statement of `rustpython_parser` into
/// [`Statement`], one for one.
#[verifier::external_body]
fn handlers(excepts: &Vec<ExceptHandler>) -> Vec<Statement> {
    excepts.iter().map(|except| match except {
        ExceptHandler::ExceptHandler(e) => Statement::Block(statements(&e.body)),
    }).collect()
}

/// Turns the bodies of the `case`s of a statement of `rustpython_parser` into
/// [`Statement`], one for one.
#[verifier::external_body]
fn cases(cases: &Vec<MatchCase>) -> Vec<Statement> {
    cases.iter().map(|case| Statement::Block(statements(&case.body))).collect()
}

/// Turns a statement of `rustpython_parser` in which statements stand, and that is none of
/// those that [`statement`] turns itself, into a [`Statement`].
#[verifier::external_body]
fn compound(stmt: &Stmt) -> Statement {
    match stmt {
        Stmt::For(s) => Statement::For(statements(&s.body), statements(&s.orelse)),
        Stmt::AsyncFor(s) => Statement::For(statements(&s.body), statements(&s.orelse)),
        Stmt::With(s) => Statement::With(statements(&s.body)),
        Stmt::AsyncWith(s) => Statement::With(statements(&s.body)),
        Stmt::Match(s) => Statement::Match(cases(&s.cases)),
        _ => guarded(stmt),
    }
}

/// Turns a `try` of `rustpython_parser` into a [`Statement`]; what is left is `Other`.
#[verifier::external_body]
fn guarded(stmt: &Stmt) -> Statement {
    let (body, excepts, orelse, finalbody) = match stmt {
        Stmt::Try(s) => (&s.body, &s.handlers, &s.orelse, &s.finalbody),
        Stmt::TryStar(s) => (&s.body, &s.handlers, &s.orelse, &s.finalbody),
        _ => return Statement::Other,
    };
    Statement::Try(statements(body), handlers(excepts), statements(orelse), statements(finalbody))
}

/// Turns the statements of `rustpython_parser` into [`Statement`], one for one.
#[verifier::external_body]
fn statements(stmts: &Vec<Stmt>) -> Vec<Statement> {
    stmts.iter().map(|stmt| statement(stmt)).collect()
}

/// `rustpython_parser::parse` on a module: its result is [`python_module`] of
/// the text and the path. The parser counts positions in 32 bits, so the text
/// takes no more bytes than that.
#[verifier::external_body]
pub(crate) fn parse_module(source: &str, path: &str) -> (parsed: Result<
    Option<Vec<Statement>>,
    String,
>)
    requires
        source.spec_bytes().len() <= u32::MAX,
    ensures
        parsed_view(parsed) == python_module(source@, path@),
{
    match rustpython_parser::parse(source, rustpython_parser::Mode::Module, path) {
        Ok(ast::Mod::Module(module)) => Ok(Some(statements(&module.body))),
        Ok(_) => Ok(None),
        Err(error) => Err(format!("{:?}", error)),
    }
}

} // verus!
