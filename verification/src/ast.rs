use vstd::prelude::*;
use crate::types::Type;
use crate::value::{Value, ValueM};

verus! {

/// A binary operator.
#[derive(Debug, Clone, Copy, PartialEq, Eq, Structural)]
pub enum BinOp {
    Add,
    Sub,
    Mul,
    Div,
    Eq,
    Ne,
    Lt,
    Le,
    Gt,
    Ge,
}

/// An expression.
#[derive(Debug, PartialEq)]
pub enum Expr {
    Id(String),
    Literal(Value),
    Binary { op: BinOp, left: Box<Expr>, right: Box<Expr> },
    FnCall { name: String, args: Vec<Expr> },
    If { branches: Vec<IfBranch>, else_body: Option<Vec<Expr>> },
    Block { stmts: Vec<Stmt>, final_expr: Option<Box<Expr>> },
}

/// One `if` arm: a condition and the expressions run when it holds.
#[derive(Debug, PartialEq)]
pub struct IfBranch {
    pub condition: Expr,
    pub body: Vec<Expr>,
}

/// A statement.
#[derive(Debug, PartialEq)]
pub enum Stmt {
    VarDecl { name: String, typ: Option<String>, value: Option<Expr> },
    Assign { name: String, value: Expr },
    FnCall { name: String, args: Vec<TypedArg> },
    FnDecl {
        name: String,
        args: Vec<TypedArg>,
        body: Vec<Stmt>,
        attributes: Vec<Attribute>,
        ret_type: Type,
        is_extern: bool,
    },
    Import { path: Vec<String>, nickname: Option<String>, is_glob: bool },
    Loop { body: Vec<Stmt> },
    Break,
    Expr(Expr),
    Block(Vec<Stmt>),
    Return(Option<Expr>),
}

/// A named, typed argument, with the expression passed for it where there is one.
#[derive(Debug, PartialEq)]
pub struct TypedArg {
    pub name: String,
    pub typ: Type,
    pub value: Option<Expr>,
}

/// A `#[...]` attribute on a declaration.
#[derive(Debug, PartialEq)]
pub enum Attribute {
    Test,
    Simple(String),
    WithArgs { name: String, args: Vec<AttrArg> },
}

/// An argument inside an attribute's parentheses.
#[derive(Debug, PartialEq)]
pub enum AttrArg {
    Positional(String),
    Named(String, Value),
}

/// A top-level item.
#[derive(Debug, PartialEq)]
pub enum Item {
    FnDecl { name: String, args: Vec<TypedArg>, body: Vec<Expr>, ret_type: Type, attributes: Vec<Attribute> },
    Import { path: Vec<String>, nickname: Option<String>, is_glob: bool },
    Loop { body: Vec<Expr> },
    If { branches: Vec<IfBranch>, else_: Option<Vec<Expr>> },
    Return { expr: Option<Box<Expr>> },
    Expr(Expr),
    Block(Vec<Item>),
    Break,
}

// ---------------------------------------------------------------------------
// Mathematical content of the syntax tree: strings as character sequences,
// vectors as sequences.

pub enum ExprM {
    Id(Seq<char>),
    Literal(ValueM),
    Binary { op: BinOp, left: Box<ExprM>, right: Box<ExprM> },
    FnCall { name: Seq<char>, args: Seq<ExprM> },
    If { branches: Seq<IfBranchM>, else_body: Option<Seq<ExprM>> },
    Block { stmts: Seq<StmtM>, final_expr: Option<Box<ExprM>> },
}

pub struct IfBranchM {
    pub condition: ExprM,
    pub body: Seq<ExprM>,
}

pub enum StmtM {
    VarDecl { name: Seq<char>, typ: Option<Seq<char>>, value: Option<ExprM> },
    Assign { name: Seq<char>, value: ExprM },
    FnCall { name: Seq<char>, args: Seq<TypedArgM> },
    FnDecl {
        name: Seq<char>,
        args: Seq<TypedArgM>,
        body: Seq<StmtM>,
        attributes: Seq<AttributeM>,
        ret_type: Type,
        is_extern: bool,
    },
    Import { path: Seq<Seq<char>>, nickname: Option<Seq<char>>, is_glob: bool },
    Loop { body: Seq<StmtM> },
    Break,
    Expr(ExprM),
    Block(Seq<StmtM>),
    Return(Option<ExprM>),
}

pub struct TypedArgM {
    pub name: Seq<char>,
    pub typ: Type,
    pub value: Option<ExprM>,
}

pub enum AttributeM {
    Test,
    Simple(Seq<char>),
    WithArgs { name: Seq<char>, args: Seq<AttrArgM> },
}

pub enum AttrArgM {
    Positional(Seq<char>),
    Named(Seq<char>, ValueM),
}

pub open spec fn expr_m(e: Expr) -> ExprM
    decreases e,
{
    match e {
        Expr::Id(s) => ExprM::Id(s@),
        Expr::Literal(v) => ExprM::Literal(v@),
        Expr::Binary { op, left, right } => ExprM::Binary {
            op,
            left: Box::new(expr_m(*left)),
            right: Box::new(expr_m(*right)),
        },
        Expr::FnCall { name, args } => ExprM::FnCall { name: name@, args: exprs_m(args@) },
        Expr::If { branches, else_body } => ExprM::If {
            branches: branches_m(branches@),
            else_body: match else_body {
                Some(v) => Some(exprs_m(v@)),
                None => None,
            },
        },
        Expr::Block { stmts, final_expr } => ExprM::Block {
            stmts: stmts_m(stmts@),
            final_expr: match final_expr {
                Some(b) => Some(Box::new(expr_m(*b))),
                None => None,
            },
        },
    }
}

pub open spec fn exprs_m(s: Seq<Expr>) -> Seq<ExprM>
    decreases s,
{
    if s.len() == 0 { Seq::empty() } else { exprs_m(s.drop_last()).push(expr_m(s.last())) }
}

pub open spec fn branch_m(b: IfBranch) -> IfBranchM
    decreases b,
{
    IfBranchM { condition: expr_m(b.condition), body: exprs_m(b.body@) }
}

pub open spec fn branches_m(s: Seq<IfBranch>) -> Seq<IfBranchM>
    decreases s,
{
    if s.len() == 0 { Seq::empty() } else { branches_m(s.drop_last()).push(branch_m(s.last())) }
}

pub open spec fn opt_string_m(o: Option<String>) -> Option<Seq<char>> {
    match o {
        Some(s) => Some(s@),
        None => None,
    }
}

pub open spec fn strings_m(s: Seq<String>) -> Seq<Seq<char>> {
    s.map_values(|x: String| x@)
}

pub open spec fn stmt_m(st: Stmt) -> StmtM
    decreases st,
{
    match st {
        Stmt::VarDecl { name, typ, value } => StmtM::VarDecl {
            name: name@,
            typ: opt_string_m(typ),
            value: match value {
                Some(e) => Some(expr_m(e)),
                None => None,
            },
        },
        Stmt::Assign { name, value } => StmtM::Assign { name: name@, value: expr_m(value) },
        Stmt::FnCall { name, args } => StmtM::FnCall { name: name@, args: targs_m(args@) },
        Stmt::FnDecl { name, args, body, attributes, ret_type, is_extern } => StmtM::FnDecl {
            name: name@,
            args: targs_m(args@),
            body: stmts_m(body@),
            attributes: attrs_m(attributes@),
            ret_type,
            is_extern,
        },
        Stmt::Import { path, nickname, is_glob } => StmtM::Import {
            path: strings_m(path@),
            nickname: opt_string_m(nickname),
            is_glob,
        },
        Stmt::Loop { body } => StmtM::Loop { body: stmts_m(body@) },
        Stmt::Break => StmtM::Break,
        Stmt::Expr(e) => StmtM::Expr(expr_m(e)),
        Stmt::Block(b) => StmtM::Block(stmts_m(b@)),
        Stmt::Return(e) => StmtM::Return(
            match e {
                Some(x) => Some(expr_m(x)),
                None => None,
            },
        ),
    }
}

pub open spec fn stmts_m(s: Seq<Stmt>) -> Seq<StmtM>
    decreases s,
{
    if s.len() == 0 { Seq::empty() } else { stmts_m(s.drop_last()).push(stmt_m(s.last())) }
}

pub open spec fn targ_m(a: TypedArg) -> TypedArgM
    decreases a,
{
    TypedArgM {
        name: a.name@,
        typ: a.typ,
        value: match a.value {
            Some(e) => Some(expr_m(e)),
            None => None,
        },
    }
}

pub open spec fn targs_m(s: Seq<TypedArg>) -> Seq<TypedArgM>
    decreases s,
{
    if s.len() == 0 { Seq::empty() } else { targs_m(s.drop_last()).push(targ_m(s.last())) }
}

pub open spec fn attr_arg_m(a: AttrArg) -> AttrArgM {
    match a {
        AttrArg::Positional(s) => AttrArgM::Positional(s@),
        AttrArg::Named(k, v) => AttrArgM::Named(k@, v@),
    }
}

pub open spec fn attr_args_m(s: Seq<AttrArg>) -> Seq<AttrArgM> {
    s.map_values(|a: AttrArg| attr_arg_m(a))
}

pub open spec fn attr_m(a: Attribute) -> AttributeM {
    match a {
        Attribute::Test => AttributeM::Test,
        Attribute::Simple(s) => AttributeM::Simple(s@),
        Attribute::WithArgs { name, args } => AttributeM::WithArgs { name: name@, args: attr_args_m(args@) },
    }
}

pub open spec fn attrs_m(s: Seq<Attribute>) -> Seq<AttributeM> {
    s.map_values(|a: Attribute| attr_m(a))
}

impl View for Expr {
    type V = ExprM;

    open spec fn view(&self) -> ExprM {
        expr_m(*self)
    }
}

impl View for Stmt {
    type V = StmtM;

    open spec fn view(&self) -> StmtM {
        stmt_m(*self)
    }
}

impl View for TypedArg {
    type V = TypedArgM;

    open spec fn view(&self) -> TypedArgM {
        targ_m(*self)
    }
}

impl View for Attribute {
    type V = AttributeM;

    open spec fn view(&self) -> AttributeM {
        attr_m(*self)
    }
}

pub proof fn lemma_exprs_m_push(s: Seq<Expr>, e: Expr)
    ensures
        exprs_m(s.push(e)) == exprs_m(s).push(expr_m(e)),
{
    assert(s.push(e).drop_last() =~= s);
}

pub proof fn lemma_stmts_m_push(s: Seq<Stmt>, e: Stmt)
    ensures
        stmts_m(s.push(e)) == stmts_m(s).push(stmt_m(e)),
{
    assert(s.push(e).drop_last() =~= s);
}

pub proof fn lemma_targs_m_push(s: Seq<TypedArg>, e: TypedArg)
    ensures
        targs_m(s.push(e)) == targs_m(s).push(targ_m(e)),
{
    assert(s.push(e).drop_last() =~= s);
}

pub proof fn lemma_branches_m_push(s: Seq<IfBranch>, e: IfBranch)
    ensures
        branches_m(s.push(e)) == branches_m(s).push(branch_m(e)),
{
    assert(s.push(e).drop_last() =~= s);
}

pub proof fn lemma_targs_len(s: Seq<TypedArg>)
    ensures
        targs_m(s).len() == s.len(),
        forall|i: int| 0 <= i < s.len() ==> #[trigger] targs_m(s)[i] == targ_m(s[i]),
    decreases s.len(),
{
    if s.len() > 0 {
        lemma_targs_len(s.drop_last());
    }
}

pub proof fn lemma_stmts_m_len(s: Seq<Stmt>)
    ensures
        stmts_m(s).len() == s.len(),
        forall|i: int| 0 <= i < s.len() ==> #[trigger] stmts_m(s)[i] == stmt_m(s[i]),
    decreases s.len(),
{
    if s.len() > 0 {
        lemma_stmts_m_len(s.drop_last());
    }
}

pub proof fn lemma_branches_m_len(s: Seq<IfBranch>)
    ensures
        branches_m(s).len() == s.len(),
        forall|i: int| 0 <= i < s.len() ==> #[trigger] branches_m(s)[i] == branch_m(s[i]),
    decreases s.len(),
{
    if s.len() > 0 {
        lemma_branches_m_len(s.drop_last());
    }
}

pub proof fn lemma_exprs_m_len(s: Seq<Expr>)
    ensures
        exprs_m(s).len() == s.len(),
        forall|i: int| 0 <= i < s.len() ==> #[trigger] exprs_m(s)[i] == expr_m(s[i]),
    decreases s.len(),
{
    if s.len() > 0 {
        lemma_exprs_m_len(s.drop_last());
    }
}

} // verus!

verus! {

impl Expr {
    /// A deep copy of this expression.
    pub fn copied(&self) -> (res: Expr)
        ensures
            res@ == self@,
        decreases *self,
    {
        match self {
            Expr::Id(s) => Expr::Id(s.clone()),
            Expr::Literal(v) => Expr::Literal(v.copied()),
            Expr::Binary { op, left, right } => Expr::Binary {
                op: *op,
                left: Box::new((**left).copied()),
                right: Box::new((**right).copied()),
            },
            Expr::FnCall { name, args } => Expr::FnCall { name: name.clone(), args: copy_exprs(args) },
            Expr::If { branches, else_body } => {
                let bs = copy_branches(branches);
                let eb = match else_body {
                    Some(v) => Some(copy_exprs(v)),
                    None => None,
                };
                Expr::If { branches: bs, else_body: eb }
            },
            Expr::Block { stmts, final_expr } => {
                let ss = copy_stmts(stmts);
                let fe = match final_expr {
                    Some(b) => Some(Box::new((**b).copied())),
                    None => None,
                };
                Expr::Block { stmts: ss, final_expr: fe }
            },
        }
    }
}

/// Deep copies of a list of expressions.
pub fn copy_exprs(v: &Vec<Expr>) -> (res: Vec<Expr>)
    ensures
        exprs_m(res@) == exprs_m(v@),
    decreases v,
{
    let mut out: Vec<Expr> = Vec::new();
    let mut i: usize = 0;
    while i < v.len()
        invariant
            i <= v@.len(),
            exprs_m(out@) == exprs_m(v@.take(i as int)),
        decreases v@.len() - i,
    {
        proof {
            assert(decreases_to!(v => v@[i as int]));
        }
        let e = v[i].copied();
        proof {
            lemma_exprs_m_push(out@, e);
            lemma_exprs_m_push(v@.take(i as int), v@[i as int]);
            assert(v@.take(i as int).push(v@[i as int]) =~= v@.take(i + 1));
        }
        out.push(e);
        i = i + 1;
    }
    assert(v@.take(v@.len() as int) =~= v@);
    out
}

/// Deep copies of a list of `if` arms.
pub fn copy_branches(v: &Vec<IfBranch>) -> (res: Vec<IfBranch>)
    ensures
        branches_m(res@) == branches_m(v@),
    decreases v,
{
    let mut out: Vec<IfBranch> = Vec::new();
    let mut i: usize = 0;
    while i < v.len()
        invariant
            i <= v@.len(),
            branches_m(out@) == branches_m(v@.take(i as int)),
        decreases v@.len() - i,
    {
        proof {
            assert(decreases_to!(v => v@[i as int]));
        }
        let b = &v[i];
        proof {
            assert(decreases_to!(v => v@[i as int].condition));
            assert(decreases_to!(v => v@[i as int].body));
        }
        let nb = IfBranch { condition: b.condition.copied(), body: copy_exprs(&b.body) };
        proof {
            lemma_branches_m_push(out@, nb);
            lemma_branches_m_push(v@.take(i as int), v@[i as int]);
            assert(v@.take(i as int).push(v@[i as int]) =~= v@.take(i + 1));
        }
        out.push(nb);
        i = i + 1;
    }
    assert(v@.take(v@.len() as int) =~= v@);
    out
}

/// Deep copies of a list of statements.
pub fn copy_stmts(v: &Vec<Stmt>) -> (res: Vec<Stmt>)
    ensures
        stmts_m(res@) == stmts_m(v@),
    decreases v,
{
    let mut out: Vec<Stmt> = Vec::new();
    let mut i: usize = 0;
    while i < v.len()
        invariant
            i <= v@.len(),
            stmts_m(out@) == stmts_m(v@.take(i as int)),
        decreases v@.len() - i,
    {
        proof {
            assert(decreases_to!(v => v@[i as int]));
        }
        let s = v[i].copied();
        proof {
            lemma_stmts_m_push(out@, s);
            lemma_stmts_m_push(v@.take(i as int), v@[i as int]);
            assert(v@.take(i as int).push(v@[i as int]) =~= v@.take(i + 1));
        }
        out.push(s);
        i = i + 1;
    }
    assert(v@.take(v@.len() as int) =~= v@);
    out
}

/// Deep copies of a list of typed arguments.
pub fn copy_targs(v: &Vec<TypedArg>) -> (res: Vec<TypedArg>)
    ensures
        targs_m(res@) == targs_m(v@),
    decreases v,
{
    let mut out: Vec<TypedArg> = Vec::new();
    let mut i: usize = 0;
    while i < v.len()
        invariant
            i <= v@.len(),
            targs_m(out@) == targs_m(v@.take(i as int)),
        decreases v@.len() - i,
    {
        proof {
            assert(decreases_to!(v => v@[i as int]));
        }
        let a = &v[i];
        let val = match &a.value {
            Some(e) => {
                proof {
                    assert(decreases_to!(v => v@[i as int].value));
                }
                Some(e.copied())
            },
            None => None,
        };
        let na = TypedArg { name: a.name.clone(), typ: a.typ.copied(), value: val };
        proof {
            lemma_targs_m_push(out@, na);
            lemma_targs_m_push(v@.take(i as int), v@[i as int]);
            assert(v@.take(i as int).push(v@[i as int]) =~= v@.take(i + 1));
        }
        out.push(na);
        i = i + 1;
    }
    assert(v@.take(v@.len() as int) =~= v@);
    out
}

/// Copies of a list of strings.
pub fn copy_strings(v: &Vec<String>) -> (res: Vec<String>)
    ensures
        strings_m(res@) == strings_m(v@),
{
    let mut out: Vec<String> = Vec::new();
    let mut i: usize = 0;
    while i < v.len()
        invariant
            i <= v@.len(),
            out@.len() == i,
            forall|k: int| 0 <= k < i ==> #[trigger] out@[k]@ == v@[k]@,
        decreases v@.len() - i,
    {
        out.push(v[i].clone());
        i = i + 1;
    }
    assert(strings_m(out@) =~= strings_m(v@));
    out
}

fn copy_opt_string(o: &Option<String>) -> (res: Option<String>)
    ensures
        opt_string_m(res) == opt_string_m(*o),
{
    match o {
        Some(s) => Some(s.clone()),
        None => None,
    }
}

impl Attribute {
    /// A copy of this attribute.
    pub fn copied(&self) -> (res: Attribute)
        ensures
            res@ == self@,
    {
        match self {
            Attribute::Test => Attribute::Test,
            Attribute::Simple(s) => Attribute::Simple(s.clone()),
            Attribute::WithArgs { name, args } => {
                let mut out: Vec<AttrArg> = Vec::new();
                let mut i: usize = 0;
                while i < args.len()
                    invariant
                        i <= args@.len(),
                        out@.len() == i,
                        forall|k: int| 0 <= k < i ==> #[trigger] attr_arg_m(out@[k]) == attr_arg_m(args@[k]),
                    decreases args@.len() - i,
                {
                    let a = match &args[i] {
                        AttrArg::Positional(s) => AttrArg::Positional(s.clone()),
                        AttrArg::Named(k, v) => AttrArg::Named(k.clone(), v.copied()),
                    };
                    out.push(a);
                    i = i + 1;
                }
                assert(attr_args_m(out@) =~= attr_args_m(args@));
                Attribute::WithArgs { name: name.clone(), args: out }
            },
        }
    }
}

/// Copies of a list of attributes.
pub fn copy_attrs(v: &Vec<Attribute>) -> (res: Vec<Attribute>)
    ensures
        attrs_m(res@) == attrs_m(v@),
{
    let mut out: Vec<Attribute> = Vec::new();
    let mut i: usize = 0;
    while i < v.len()
        invariant
            i <= v@.len(),
            out@.len() == i,
            forall|k: int| 0 <= k < i ==> #[trigger] attr_m(out@[k]) == attr_m(v@[k]),
        decreases v@.len() - i,
    {
        out.push(v[i].copied());
        i = i + 1;
    }
    assert(attrs_m(out@) =~= attrs_m(v@));
    out
}

impl Stmt {
    /// A deep copy of this statement.
    pub fn copied(&self) -> (res: Stmt)
        ensures
            res@ == self@,
        decreases *self,
    {
        match self {
            Stmt::VarDecl { name, typ, value } => {
                let v = match value {
                    Some(e) => Some(e.copied()),
                    None => None,
                };
                Stmt::VarDecl { name: name.clone(), typ: copy_opt_string(typ), value: v }
            },
            Stmt::Assign { name, value } => Stmt::Assign { name: name.clone(), value: value.copied() },
            Stmt::FnCall { name, args } => Stmt::FnCall { name: name.clone(), args: copy_targs(args) },
            Stmt::FnDecl { name, args, body, attributes, ret_type, is_extern } => Stmt::FnDecl {
                name: name.clone(),
                args: copy_targs(args),
                body: copy_stmts(body),
                attributes: copy_attrs(attributes),
                ret_type: ret_type.copied(),
                is_extern: *is_extern,
            },
            Stmt::Import { path, nickname, is_glob } => Stmt::Import {
                path: copy_strings(path),
                nickname: copy_opt_string(nickname),
                is_glob: *is_glob,
            },
            Stmt::Loop { body } => Stmt::Loop { body: copy_stmts(body) },
            Stmt::Break => Stmt::Break,
            Stmt::Expr(e) => Stmt::Expr(e.copied()),
            Stmt::Block(b) => Stmt::Block(copy_stmts(b)),
            Stmt::Return(e) => {
                let v = match e {
                    Some(x) => Some(x.copied()),
                    None => None,
                };
                Stmt::Return(v)
            },
        }
    }
}

impl Clone for Expr {
    fn clone(&self) -> (res: Self)
        ensures
            res@ == self@,
    {
        self.copied()
    }
}

impl Clone for Stmt {
    fn clone(&self) -> (res: Self)
        ensures
            res@ == self@,
    {
        self.copied()
    }
}

impl Clone for IfBranch {
    fn clone(&self) -> (res: Self)
        ensures
            branch_m(res) == branch_m(*self),
    {
        IfBranch { condition: self.condition.copied(), body: copy_exprs(&self.body) }
    }
}

impl Clone for TypedArg {
    fn clone(&self) -> (res: Self)
        ensures
            res@ == self@,
    {
        let value = match &self.value {
            Some(e) => Some(e.copied()),
            None => None,
        };
        TypedArg { name: self.name.clone(), typ: self.typ.copied(), value }
    }
}

impl Clone for Attribute {
    fn clone(&self) -> (res: Self)
        ensures
            res@ == self@,
    {
        self.copied()
    }
}

impl Clone for AttrArg {
    fn clone(&self) -> (res: Self)
        ensures
            attr_arg_m(res) == attr_arg_m(*self),
    {
        match self {
            AttrArg::Positional(s) => AttrArg::Positional(s.clone()),
            AttrArg::Named(k, v) => AttrArg::Named(k.clone(), v.copied()),
        }
    }
}

} // verus!
