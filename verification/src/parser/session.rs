use vstd::prelude::*;
use crate::token::{Token, SpannedToken};
use crate::ast::{Expr, ExprM, Stmt, StmtM, Attribute, AttributeM, exprs_m, stmts_m, attrs_m};
use crate::scope::Scope;
use crate::parser::state::{grows, PS, Res, ParseFailure, ps, answers, answers_opt, into_message, refused_with};
use crate::parser::grammar::{lemma_program_never_fails, sp_stmt, sp_expr, sp_arith, sp_attrs, sp_program, sp_expr_list};
use crate::parser::descent::{stmt_core, expr_core, arith_core};
use crate::parser::pieces::attrs_core;
use crate::parser::sequence::{program_core, expr_list_core};

verus! {

/// A parser over a list of tokens: the position reached, the variables declared so far
/// and the modules that imports have named.
#[derive(Default)]
pub struct Parser {
    pub tokens: Vec<Token>,
    pub spanned_tokens: Vec<SpannedToken>,
    pub pos: usize,
    pub scope: Scope,
    pub src: String,
    pub discovered_modules: Vec<String>,
}

impl Parser {
    /// The parsing state this parser holds.
    pub open spec fn state(&self) -> PS {
        ps(self.pos, self.discovered_modules, self.scope)
    }

    /// Whether `other` holds the same input as this parser.
    pub open spec fn same_input(&self, other: &Parser) -> bool {
        &&& other.tokens@ == self.tokens@
        &&& other.spanned_tokens@ == self.spanned_tokens@
        &&& other.src@ == self.src@
    }

    /// A parser with no tokens, at position 0, with nothing declared or discovered.
    pub fn new(&self) -> (res: Self)
        ensures
            res.tokens@.len() == 0,
            res.spanned_tokens@.len() == 0,
            res.pos == 0,
            res.scope@ == Map::<Seq<char>, ExprM>::empty(),
            res.src@.len() == 0,
            res.discovered_modules@.len() == 0,
    {
        Parser {
            tokens: Vec::new(),
            spanned_tokens: Vec::new(),
            pos: 0,
            scope: Scope::new(),
            src: String::new(),
            discovered_modules: Vec::new(),
        }
    }

    /// One statement, after optional attributes, from the current position.
    pub fn parse_stmt(&mut self) -> (res: Result<Stmt, String>)
        requires
            old(self).tokens@.len() < usize::MAX,
            !(sp_stmt(old(self).tokens@, old(self).state()) is Abort),
        ensures
            old(self).same_input(final(self)),
            grows(old(self).state(), final(self).state()),
            answers(res, final(self).state(), sp_stmt(old(self).tokens@, old(self).state()), |v: Stmt| v@),
            old(self).pos >= old(self).tokens@.len() ==>
                refused_with(res, "Unexpected end of input while parsing statement."@),
    {
        into_message(stmt_core(self.tokens.as_slice(), &mut self.pos, &mut self.discovered_modules, &mut self.scope))
    }

    /// A primary expression from the current position, followed, inside a condition,
    /// by comparisons.
    pub fn parse_expr(&mut self, in_condition: bool) -> (res: Option<Expr>)
        requires
            old(self).tokens@.len() < usize::MAX,
            !(sp_expr(old(self).tokens@, old(self).state(), in_condition) is Abort),
        ensures
            old(self).same_input(final(self)),
            grows(old(self).state(), final(self).state()),
            answers_opt(res, final(self).state(), sp_expr(old(self).tokens@, old(self).state(), in_condition), |v: Expr| v@),
    {
        match expr_core(self.tokens.as_slice(), &mut self.pos, in_condition, &mut self.discovered_modules, &mut self.scope) {
            Ok(e) => Some(e),
            Err(_) => None,
        }
    }

    /// Arithmetic from the current position, with operators of precedence at least
    /// `min_prec`.
    pub fn parse_arithmetic(&mut self, min_prec: u8) -> (res: Option<Expr>)
        requires
            old(self).tokens@.len() < usize::MAX,
            !(sp_arith(old(self).tokens@, old(self).state(), min_prec as int) is Abort),
        ensures
            old(self).same_input(final(self)),
            grows(old(self).state(), final(self).state()),
            answers_opt(res, final(self).state(), sp_arith(old(self).tokens@, old(self).state(), min_prec as int), |v: Expr| v@),
    {
        match arith_core(self.tokens.as_slice(), &mut self.pos, min_prec, &mut self.discovered_modules, &mut self.scope) {
            Ok(e) => Some(e),
            Err(_) => None,
        }
    }

    /// Attributes `#[name]` or `#[name(args)]` from the current position.
    pub fn parse_attrs(&mut self) -> (res: Result<Vec<Attribute>, String>)
        requires
            old(self).tokens@.len() < usize::MAX,
            !(sp_attrs(old(self).tokens@, old(self).state(), Seq::empty()) is Abort),
        ensures
            old(self).same_input(final(self)),
            grows(old(self).state(), final(self).state()),
            answers(res, final(self).state(), sp_attrs(old(self).tokens@, old(self).state(), Seq::empty()),
                |v: Vec<Attribute>| attrs_m(v@)),
    {
        let acc: Vec<Attribute> = Vec::new();
        assert(attrs_m(acc@) =~= Seq::<AttributeM>::empty());
        into_message(attrs_core(self.tokens.as_slice(), &mut self.pos, &mut self.discovered_modules, &mut self.scope, acc))
    }

    /// The expressions from the current position to the end of the tokens, each
    /// followed by an optional comma; tokens that start no expression are passed over.
    pub fn parse_out_vec_expr(&mut self) -> (res: Result<Vec<Expr>, String>)
        requires
            old(self).tokens@.len() < usize::MAX,
            !(sp_expr_list(old(self).tokens@, old(self).state(), Seq::empty()) is Abort),
        ensures
            old(self).same_input(final(self)),
            grows(old(self).state(), final(self).state()),
            answers(res, final(self).state(), sp_expr_list(old(self).tokens@, old(self).state(), Seq::empty()),
                |v: Vec<Expr>| exprs_m(v@)),
    {
        let acc: Vec<Expr> = Vec::new();
        assert(exprs_m(acc@) =~= Seq::<ExprM>::empty());
        into_message(expr_list_core(self.tokens.as_slice(), &mut self.pos, &mut self.discovered_modules, &mut self.scope, acc))
    }

    /// Every statement of the token list, from its start to its end.
    pub fn parse_out_vec_stmt(&mut self) -> (res: Vec<Stmt>)
        requires
            old(self).tokens@.len() < usize::MAX,
            !(sp_program(old(self).tokens@, ps(0, old(self).discovered_modules, old(self).scope), Seq::empty()) is Abort),
        ensures
            old(self).same_input(final(self)),
            grows(old(self).state(), final(self).state()),
            sp_program(old(self).tokens@, ps(0, old(self).discovered_modules, old(self).scope), Seq::empty())
                == Res::Done(stmts_m(res@), final(self).state()),
    {
        proof {
            lemma_program_never_fails(self.tokens@, ps(0, self.discovered_modules, self.scope), Seq::empty());
        }
        self.pos = 0;
        match self.try_parse_out_vec_stmt() {
            Ok(stmts) => stmts,
            Err(_) => Vec::new(),
        }
    }

    /// Every statement of the token list, from its start to its end, or why the
    /// parse stopped.
    pub fn try_parse_out_vec_stmt(&mut self) -> (res: Result<Vec<Stmt>, ParseFailure>)
        requires
            old(self).tokens@.len() < usize::MAX,
        ensures
            old(self).same_input(final(self)),
            grows(old(self).state(), final(self).state()),
            match sp_program(old(self).tokens@, ps(0, old(self).discovered_modules, old(self).scope), Seq::empty()) {
                Res::Done(v, s) => res matches Ok(x) && stmts_m(x@) == v && final(self).state() == s,
                _ => res is Err,
            },
    {
        self.pos = 0;
        let acc: Vec<Stmt> = Vec::new();
        assert(stmts_m(acc@) =~= Seq::<StmtM>::empty());
        program_core(self.tokens.as_slice(), &mut self.pos, &mut self.discovered_modules, &mut self.scope, acc)
    }
}

} // verus!
