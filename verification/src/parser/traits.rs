use vstd::prelude::*;
use crate::token::Token;
use crate::ast::{Stmt, Attribute, stmts_m, attrs_m};
use crate::scope::Scope;
use crate::parser::state::{grows, ps, plain, answers};
use crate::parser::grammar::{sp_import, sp_stmt, sp_block, sp_block_stmt, sp_loop, sp_for, sp_while, sp_fn_decl,
    sp_fn_call, sp_simple_attrs};
use crate::parser::entry;
use crate::parser::descent::stmt_core;
use crate::parser::state::into_message;

verus! {

/// Parses import declarations.
pub trait ImportParser {
    fn parse_import_decl(&self, tokens: &[Token], pos: &mut usize, discovered_modules: &mut Vec<String>)
        -> (res: Result<Stmt, String>)
        requires
            tokens@.len() < usize::MAX,
        ensures
            grows(plain(*old(pos), old(discovered_modules)@), plain(*final(pos), final(discovered_modules)@)),
            answers(res, plain(*final(pos), final(discovered_modules)@),
                sp_import(tokens@, plain(*old(pos), old(discovered_modules)@)), |v: Stmt| v@),
    ;

    fn parse_imported_file(
        &self,
        tokens: &[Token],
        pos: &mut usize,
        discovered_modules: &mut Vec<String>,
        parsers: &GroupedParsers,
        scope: &mut Scope,
    ) -> (res: Result<Stmt, String>)
        requires
            tokens@.len() < usize::MAX,
            !(sp_stmt(tokens@, ps(*old(pos), *old(discovered_modules), *old(scope))) is Abort),
        ensures
            grows(ps(*old(pos), *old(discovered_modules), *old(scope)), ps(*final(pos), *final(discovered_modules), *final(scope))),
            answers(res, ps(*final(pos), *final(discovered_modules), *final(scope)),
                sp_stmt(tokens@, ps(*old(pos), *old(discovered_modules), *old(scope))), |v: Stmt| v@),
            res matches Err(m) ==> m@ == "Failed to parse imported file content"@,
    ;
}

/// Parses statements.
pub trait StmtParser {
    fn parse_stmt(
        &self,
        tokens: &[Token],
        pos: &mut usize,
        discovered_modules: &mut Vec<String>,
        parsers: &GroupedParsers,
        scope: &mut Scope,
    ) -> (res: Result<Stmt, String>)
        requires
            tokens@.len() < usize::MAX,
            !(sp_stmt(tokens@, ps(*old(pos), *old(discovered_modules), *old(scope))) is Abort),
        ensures
            grows(ps(*old(pos), *old(discovered_modules), *old(scope)), ps(*final(pos), *final(discovered_modules), *final(scope))),
            answers(res, ps(*final(pos), *final(discovered_modules), *final(scope)),
                sp_stmt(tokens@, ps(*old(pos), *old(discovered_modules), *old(scope))), |v: Stmt| v@),
    ;
}

/// Parses blocks of statements.
pub trait BlockParser {
    fn parse_block(
        &self,
        tokens: &[Token],
        pos: &mut usize,
        discovered_modules: &mut Vec<String>,
        parsers: &GroupedParsers,
        scope: &mut Scope,
    ) -> (res: Result<Vec<Stmt>, String>)
        requires
            tokens@.len() < usize::MAX,
            !(sp_block(tokens@, ps(*old(pos), *old(discovered_modules), *old(scope))) is Abort),
        ensures
            grows(ps(*old(pos), *old(discovered_modules), *old(scope)), ps(*final(pos), *final(discovered_modules), *final(scope))),
            answers(res, ps(*final(pos), *final(discovered_modules), *final(scope)),
                sp_block(tokens@, ps(*old(pos), *old(discovered_modules), *old(scope))), |v: Vec<Stmt>| stmts_m(v@)),
    ;

    fn parse_block_stmt(
        &self,
        tokens: &[Token],
        pos: &mut usize,
        discovered_modules: &mut Vec<String>,
        parsers: &GroupedParsers,
        scope: &mut Scope,
    ) -> (res: Result<Stmt, String>)
        requires
            tokens@.len() < usize::MAX,
            !(sp_block_stmt(tokens@, ps(*old(pos), *old(discovered_modules), *old(scope))) is Abort),
        ensures
            grows(ps(*old(pos), *old(discovered_modules), *old(scope)), ps(*final(pos), *final(discovered_modules), *final(scope))),
            answers(res, ps(*final(pos), *final(discovered_modules), *final(scope)),
                sp_block_stmt(tokens@, ps(*old(pos), *old(discovered_modules), *old(scope))), |v: Stmt| v@),
    ;
}

/// Parses loops.
pub trait LoopParser {
    fn parse_loop(
        &self,
        tokens: &[Token],
        pos: &mut usize,
        discovered_modules: &mut Vec<String>,
        parsers: &GroupedParsers,
        scope: &mut Scope,
    ) -> (res: Result<Stmt, String>)
        requires
            tokens@.len() < usize::MAX,
            !(sp_loop(tokens@, ps(*old(pos), *old(discovered_modules), *old(scope))) is Abort),
        ensures
            grows(ps(*old(pos), *old(discovered_modules), *old(scope)), ps(*final(pos), *final(discovered_modules), *final(scope))),
            answers(res, ps(*final(pos), *final(discovered_modules), *final(scope)),
                sp_loop(tokens@, ps(*old(pos), *old(discovered_modules), *old(scope))), |v: Stmt| v@),
    ;

    fn parse_for_loop(
        &self,
        tokens: &[Token],
        pos: &mut usize,
        discovered_modules: &mut Vec<String>,
        parsers: &GroupedParsers,
        scope: &mut Scope,
    ) -> (res: Result<Stmt, String>)
        requires
            tokens@.len() < usize::MAX,
            !(sp_for(tokens@, ps(*old(pos), *old(discovered_modules), *old(scope))) is Abort),
        ensures
            grows(ps(*old(pos), *old(discovered_modules), *old(scope)), ps(*final(pos), *final(discovered_modules), *final(scope))),
            answers(res, ps(*final(pos), *final(discovered_modules), *final(scope)),
                sp_for(tokens@, ps(*old(pos), *old(discovered_modules), *old(scope))), |v: Stmt| v@),
    ;

    fn parse_while_loop(
        &self,
        tokens: &[Token],
        pos: &mut usize,
        discovered_modules: &mut Vec<String>,
        parsers: &GroupedParsers,
        scope: &mut Scope,
    ) -> (res: Result<Stmt, String>)
        requires
            tokens@.len() < usize::MAX,
            !(sp_while(tokens@, ps(*old(pos), *old(discovered_modules), *old(scope))) is Abort),
        ensures
            grows(ps(*old(pos), *old(discovered_modules), *old(scope)), ps(*final(pos), *final(discovered_modules), *final(scope))),
            answers(res, ps(*final(pos), *final(discovered_modules), *final(scope)),
                sp_while(tokens@, ps(*old(pos), *old(discovered_modules), *old(scope))), |v: Stmt| v@),
    ;
}

/// Parses function declarations, call statements and attributes.
pub trait FunctionParser {
    fn parse_fn_decl(
        &self,
        tokens: &[Token],
        pos: &mut usize,
        discovered_modules: &mut Vec<String>,
        parsers: &GroupedParsers,
        scope: &mut Scope,
        attrs: Vec<Attribute>,
    ) -> (res: Result<Stmt, String>)
        requires
            tokens@.len() < usize::MAX,
            !(sp_fn_decl(tokens@, ps(*old(pos), *old(discovered_modules), *old(scope)), attrs_m(attrs@)) is Abort),
        ensures
            grows(ps(*old(pos), *old(discovered_modules), *old(scope)), ps(*final(pos), *final(discovered_modules), *final(scope))),
            answers(res, ps(*final(pos), *final(discovered_modules), *final(scope)),
                sp_fn_decl(tokens@, ps(*old(pos), *old(discovered_modules), *old(scope)), attrs_m(attrs@)), |v: Stmt| v@),
    ;

    fn parse_fn_call(&self, tokens: &[Token], pos: &mut usize) -> (res: Result<Stmt, String>)
        requires
            tokens@.len() < usize::MAX,
        ensures
            answers(res, plain(*final(pos), Seq::empty()), sp_fn_call(tokens@, plain(*old(pos), Seq::empty())), |v: Stmt| v@),
    ;

    fn parse_attrs(&self, tokens: &[Token], pos: &mut usize) -> (res: Result<Vec<Attribute>, String>)
        requires
            tokens@.len() < usize::MAX,
        ensures
            answers(res, plain(*final(pos), Seq::empty()),
                sp_simple_attrs(tokens@, plain(*old(pos), Seq::empty()), Seq::empty()), |v: Vec<Attribute>| attrs_m(v@)),
    ;
}

/// The statement parser.
#[derive(Clone, Copy)]
pub struct StmtParserStruct;

/// The block parser.
#[derive(Clone, Copy)]
pub struct BlockParserStruct;

/// The loop parser.
#[derive(Clone, Copy)]
pub struct LoopParserStruct;

/// The function parser.
#[derive(Clone, Copy)]
pub struct FunctionParserStruct;

/// The import parser.
#[derive(Clone, Copy)]
pub struct ImportParserStruct;

/// The parsers that parsing functions hand on to one another.
#[derive(Clone, Copy)]
pub struct GroupedParsers {
    pub stmt_parser: StmtParserStruct,
    pub fn_parser: FunctionParserStruct,
    pub import_parser: ImportParserStruct,
    pub block_parser: BlockParserStruct,
    pub loop_parser: LoopParserStruct,
}

impl GroupedParsers {
    pub fn new(
        stmt_parser: StmtParserStruct,
        fn_parser: FunctionParserStruct,
        import_parser: ImportParserStruct,
        block_parser: BlockParserStruct,
        loop_parser: LoopParserStruct,
    ) -> (res: Self)
        ensures
            res == (GroupedParsers { stmt_parser, fn_parser, import_parser, block_parser, loop_parser }),
    {
        GroupedParsers { stmt_parser, fn_parser, import_parser, block_parser, loop_parser }
    }
}

impl StmtParser for StmtParserStruct {
    fn parse_stmt(
        &self,
        tokens: &[Token],
        pos: &mut usize,
        discovered_modules: &mut Vec<String>,
        parsers: &GroupedParsers,
        scope: &mut Scope,
    ) -> (res: Result<Stmt, String>) {
        into_message(stmt_core(tokens, pos, discovered_modules, scope))
    }
}

impl BlockParser for BlockParserStruct {
    fn parse_block(
        &self,
        tokens: &[Token],
        pos: &mut usize,
        discovered_modules: &mut Vec<String>,
        parsers: &GroupedParsers,
        scope: &mut Scope,
    ) -> (res: Result<Vec<Stmt>, String>) {
        entry::parse_block(tokens, pos, discovered_modules, parsers, scope, "")
    }

    fn parse_block_stmt(
        &self,
        tokens: &[Token],
        pos: &mut usize,
        discovered_modules: &mut Vec<String>,
        parsers: &GroupedParsers,
        scope: &mut Scope,
    ) -> (res: Result<Stmt, String>) {
        entry::parse_block_stmt(tokens, pos, discovered_modules, parsers, scope, "")
    }
}

impl LoopParser for LoopParserStruct {
    fn parse_loop(
        &self,
        tokens: &[Token],
        pos: &mut usize,
        discovered_modules: &mut Vec<String>,
        parsers: &GroupedParsers,
        scope: &mut Scope,
    ) -> (res: Result<Stmt, String>) {
        entry::parse_loop(tokens, pos, discovered_modules, parsers, scope)
    }

    fn parse_for_loop(
        &self,
        tokens: &[Token],
        pos: &mut usize,
        discovered_modules: &mut Vec<String>,
        parsers: &GroupedParsers,
        scope: &mut Scope,
    ) -> (res: Result<Stmt, String>) {
        entry::parse_for_loop(tokens, pos, discovered_modules, parsers, scope)
    }

    fn parse_while_loop(
        &self,
        tokens: &[Token],
        pos: &mut usize,
        discovered_modules: &mut Vec<String>,
        parsers: &GroupedParsers,
        scope: &mut Scope,
    ) -> (res: Result<Stmt, String>) {
        entry::parse_while_loop(tokens, pos, discovered_modules, parsers, scope)
    }
}

impl FunctionParser for FunctionParserStruct {
    fn parse_fn_decl(
        &self,
        tokens: &[Token],
        pos: &mut usize,
        discovered_modules: &mut Vec<String>,
        parsers: &GroupedParsers,
        scope: &mut Scope,
        attrs: Vec<Attribute>,
    ) -> (res: Result<Stmt, String>) {
        entry::parse_fn_decl(tokens, pos, discovered_modules, parsers, scope, attrs)
    }

    fn parse_fn_call(&self, tokens: &[Token], pos: &mut usize) -> (res: Result<Stmt, String>) {
        entry::parse_fn_call(tokens, pos)
    }

    fn parse_attrs(&self, tokens: &[Token], pos: &mut usize) -> (res: Result<Vec<Attribute>, String>) {
        entry::parse_attrs(tokens, pos)
    }
}

impl ImportParser for ImportParserStruct {
    fn parse_import_decl(&self, tokens: &[Token], pos: &mut usize, discovered_modules: &mut Vec<String>)
        -> (res: Result<Stmt, String>)
    {
        entry::parse_import_decl(tokens, pos, discovered_modules)
    }

    fn parse_imported_file(
        &self,
        tokens: &[Token],
        pos: &mut usize,
        discovered_modules: &mut Vec<String>,
        parsers: &GroupedParsers,
        scope: &mut Scope,
    ) -> (res: Result<Stmt, String>) {
        entry::parse_imported_file(tokens, pos, discovered_modules, parsers, scope)
    }
}

} // verus!
