//! Properties of the library as a whole, stated over the models that the functions'
//! contracts use.
use vstd::prelude::*;
use crate::token::Token;
use crate::value::{ValueM, nat_digits, digit_char, value_text};
use crate::token::TokenM;
use crate::ast::{BinOp, ExprM, StmtM};
use crate::lexer::{lemma_number_end, lemma_ident_end, lex_from, comment_end, spec_tokenize, is_digit, digit_value, decimal_value, count_dots, number_end, continues_number,
    ident_end, is_ident_start, is_ident_continue, word_token, lex_step, string_end, lemma_lex_step_advances};
use crate::types::Type;
use crate::parser::state::{PS, Res, grows};
use crate::parser::grammar::{sp_block, sp_block_stmt, sp_program, sp_stmt, sp_arith, arith_loop, sp_expr, expr_tail,
    compare_loop, cond_op, arith_op, literal_of, equal_op};
use crate::parser::fold::{fold, fold_ints, fold_values, same_number, Folded};
use crate::codegen::gen::{CodeGen, Emitted, predicate_of, op_record};
use crate::codegen::llvm::Compare;
use crate::codegen::plan::{module_file, join_with};

verus! {

/// Reading a variable after declaring it gives the expression declared, and declaring
/// one variable leaves every other as it was.
pub proof fn law_scope_read_after_write(before: Map<Seq<char>, ExprM>, name: Seq<char>, e: ExprM, other: Seq<char>)
    ensures
        before.insert(name, e).contains_key(name),
        before.insert(name, e)[name] == e,
        other != name ==> before.insert(name, e).contains_key(other) == before.contains_key(other),
        other != name && before.contains_key(other) ==> before.insert(name, e)[other] == before[other],
{
}

/// What parsing keeps is kept across steps: two parses one after the other keep what
/// the first started from.
pub proof fn law_grows_composes(a: PS, b: PS, c: PS)
    requires
        grows(a, b),
        grows(b, c),
    ensures
        grows(a, c),
{
}

/// What code generation keeps is kept across steps: the context, the module files, the
/// names declared and loaded, and counters that never go back.
pub proof fn law_codegen_keeps_composes<'ctx>(a: &CodeGen<'ctx>, b: &CodeGen<'ctx>, c: &CodeGen<'ctx>)
    requires
        b.keeps(a),
        c.keeps(b),
    ensures
        c.keeps(a),
{
}

/// A block statement is the block of statements that `parse_block` reads, wrapped.
pub proof fn law_block_stmt_wraps_block(t: Seq<Token>, s: PS)
    ensures
        match sp_block(t, s) {
            Res::Done(b, s1) => sp_block_stmt(t, s) == Res::Done(StmtM::Block(b), s1),
            Res::Fail(s1) => sp_block_stmt(t, s) == Res::<StmtM>::Fail(s1),
            Res::Abort => sp_block_stmt(t, s) is Abort,
        },
{
}

/// A space, tab or line break between tokens is passed over: the tokens from it on are
/// the tokens after it.
pub proof fn law_whitespace_is_skipped(s: Seq<char>, i: int)
    requires
        0 <= i < s.len(),
        s[i] == ' ' || s[i] == '\n' || s[i] == '\t',
    ensures
        lex_from(s, i) == lex_from(s, i + 1),
{
}

/// A comment runs from `//` to the end of its line and gives no token.
pub proof fn law_comment_gives_no_token(s: Seq<char>, i: int)
    requires
        0 <= i,
        i + 1 < s.len(),
        s[i] == '/',
        s[i + 1] == '/',
    ensures
        lex_from(s, i) == lex_from(s, comment_end(s, i + 2)),
{
}

/// Parsing a program keeps, in front, the statements parsed before.
pub proof fn law_program_keeps_parsed(t: Seq<Token>, s: PS, acc: Seq<StmtM>)
    ensures
        sp_program(t, s, acc) matches Res::Done(v, _) ==> acc.is_prefix_of(v),
    decreases crate::parser::state::rem(t, s),
{
    if s.at(t) is Some {
        if let Res::Done(st, s1) = sp_stmt(t, s) {
            if s1.pos > s.pos {
                law_program_keeps_parsed(t, s1, acc.push(st));
                assert(acc.is_prefix_of(acc.push(st)));
            }
        }
    }
}

/// A program that parses is parsed to the end of its tokens.
pub proof fn law_program_reaches_end(t: Seq<Token>, s: PS, acc: Seq<StmtM>)
    requires
        0 <= s.pos,
    ensures
        sp_program(t, s, acc) matches Res::Done(_, s1) ==> s1.pos >= t.len(),
    decreases crate::parser::state::rem(t, s),
{
    if s.at(t) is Some {
        if let Res::Done(st, s1) = sp_stmt(t, s) {
            if s1.pos > s.pos {
                law_program_reaches_end(t, s1, acc.push(st));
            }
        }
    }
}

/// A literal folds to its own value.
pub proof fn law_literal_folds_to_itself(v: ValueM, scope: Map<Seq<char>, ExprM>)
    ensures
        fold(ExprM::Literal(v), scope) == Folded::Known(v),
{
}

/// An expression that folds to a value compares equal to itself.
pub proof fn law_fold_equal_to_itself(e: ExprM, scope: Map<Seq<char>, ExprM>)
    requires
        fold(e, scope) is Known,
    ensures
        fold(ExprM::Binary { op: BinOp::Eq, left: Box::new(e), right: Box::new(e) }, scope)
            == Folded::Known(ValueM::Bool(true)),
        fold(ExprM::Binary { op: BinOp::Ne, left: Box::new(e), right: Box::new(e) }, scope)
            == Folded::Known(ValueM::Bool(false)),
{
}

/// Addition of two integer constants folds the same in either order.
pub proof fn law_fold_add_commutes(a: ExprM, b: ExprM, scope: Map<Seq<char>, ExprM>)
    requires
        fold(a, scope) matches Folded::Known(ValueM::Int(_)),
        fold(b, scope) matches Folded::Known(ValueM::Int(_)),
    ensures
        fold(ExprM::Binary { op: BinOp::Add, left: Box::new(a), right: Box::new(b) }, scope)
            == fold(ExprM::Binary { op: BinOp::Add, left: Box::new(b), right: Box::new(a) }, scope),
{
}

proof fn lemma_digits_are_digits(n: nat)
    ensures
        nat_digits(n).len() > 0,
        forall|j: int| 0 <= j < nat_digits(n).len() ==> is_digit(#[trigger] nat_digits(n)[j]),
    decreases n,
{
    if n >= 10 {
        lemma_digits_are_digits(n / 10);
    }
}

proof fn lemma_digit_value_of_char(d: int)
    requires
        0 <= d < 10,
    ensures
        digit_value(digit_char(d)) == d,
        is_digit(digit_char(d)),
        digit_char(d) != '.',
{
}

proof fn lemma_digits_value(n: nat)
    ensures
        decimal_value(nat_digits(n)) == n,
        count_dots(nat_digits(n)) == 0,
    decreases n,
{
    if n < 10 {
        lemma_digit_value_of_char(n as int);
        let w = nat_digits(n);
        assert(w.drop_last() =~= Seq::<char>::empty());
        assert(decimal_value(Seq::<char>::empty()) == 0);
        assert(count_dots(Seq::<char>::empty()) == 0);
        assert(w.last() == digit_char(n as int));
        assert(decimal_value(w) == decimal_value(w.drop_last()) * 10 + digit_value(w.last()));
    } else {
        lemma_digits_value(n / 10);
        lemma_digit_value_of_char((n % 10) as int);
        let w = nat_digits(n);
        assert(w.drop_last() =~= nat_digits(n / 10));
        assert(w.last() == digit_char((n % 10) as int));
        assert(decimal_value(w) == decimal_value(w.drop_last()) * 10 + digit_value(w.last()));
        assert(count_dots(w) == count_dots(w.drop_last()) + 0);
        assert((n / 10) * 10 + n % 10 == n) by (nonlinear_arith);
    }
}

proof fn lemma_number_runs_to_end(s: Seq<char>, i: int)
    requires
        0 <= i <= s.len(),
        forall|j: int| 0 <= j < s.len() ==> is_digit(#[trigger] s[j]),
    ensures
        number_end(s, i) == s.len(),
    decreases s.len() - i,
{
    if i < s.len() {
        assert(continues_number(s, i));
        lemma_number_runs_to_end(s, i + 1);
    }
}

/// Reading back the text of a non-negative integer value gives that integer: the lexer
/// turns the decimal text that `Value::to_string` writes into one number token.
pub proof fn law_integer_text_reads_back(n: i64)
    requires
        0 <= n,
    ensures
        spec_tokenize(value_text(ValueM::Int(n))) == Some(seq![TokenM::Number(n)]),
{
    let s = nat_digits(n as nat);
    lemma_digits_are_digits(n as nat);
    lemma_digits_value(n as nat);
    assert(value_text(ValueM::Int(n)) == s);
    lemma_number_runs_to_end(s, 1);
    assert(s.subrange(0, s.len() as int) =~= s);
    assert(lex_from(s, s.len() as int) == Some(Seq::<TokenM>::empty()));
    assert(seq![TokenM::Number(n)] + Seq::<TokenM>::empty() =~= seq![TokenM::Number(n)]);
}

/// The keyword that names a type in source text, where the type has one.
pub open spec fn type_keyword(t: Type) -> Option<Seq<char>> {
    match t {
        Type::I8 => Some("i8"@),
        Type::I16 => Some("i16"@),
        Type::I32 => Some("i32"@),
        Type::I64 => Some("i64"@),
        Type::I128 => Some("i128"@),
        Type::F32 => Some("f32"@),
        Type::F64 => Some("f64"@),
        Type::F128 => Some("f128"@),
        Type::Bool => Some("bool"@),
        Type::Void => Some("void"@),
        _ => None,
    }
}

proof fn lemma_ident_runs_to_end(w: Seq<char>, k: int)
    requires
        1 <= k <= w.len(),
        forall|j: int| 1 <= j < w.len() ==> is_ident_continue(#[trigger] w[j]),
    ensures
        ident_end(w, k) == w.len(),
    decreases w.len() - k,
{
    if k < w.len() {
        lemma_ident_runs_to_end(w, k + 1);
    }
}

/// A text that is one word alone gives the one token that the word spells.
proof fn lemma_word_alone(w: Seq<char>)
    requires
        w.len() > 0,
        is_ident_start(w[0]),
        forall|j: int| 1 <= j < w.len() ==> is_ident_continue(#[trigger] w[j]),
    ensures
        spec_tokenize(w) == Some(seq![word_token(w)]),
{
    lemma_ident_runs_to_end(w, 1);
    assert(w.subrange(0, w.len() as int) =~= w);
    assert(lex_from(w, w.len() as int) == Some(Seq::<TokenM>::empty()));
    assert(seq![word_token(w)] + Seq::<TokenM>::empty() =~= seq![word_token(w)]);
}

/// Each type keyword, written alone, reads back as the token of its type.
pub proof fn law_type_keyword_reads_back(t: Type)
    requires
        type_keyword(t) is Some,
    ensures
        spec_tokenize(type_keyword(t).unwrap()) == Some(seq![TokenM::Type(t)]),
{
    reveal_strlit("let");
    reveal_strlit("fn");
    reveal_strlit("use");
    reveal_strlit("as");
    reveal_strlit("if");
    reveal_strlit("else");
    reveal_strlit("true");
    reveal_strlit("false");
    reveal_strlit("for");
    reveal_strlit("loop");
    reveal_strlit("while");
    reveal_strlit("in");
    reveal_strlit("break");
    reveal_strlit("return");
    reveal_strlit("i8");
    reveal_strlit("i16");
    reveal_strlit("i32");
    reveal_strlit("i64");
    reveal_strlit("i128");
    reveal_strlit("f32");
    reveal_strlit("f64");
    reveal_strlit("f128");
    reveal_strlit("bool");
    reveal_strlit("void");
    let w = type_keyword(t).unwrap();
    assert(forall|j: int| 1 <= j < w.len() ==> is_ident_continue(#[trigger] w[j]));
    lemma_word_alone(w);
}


/// Whether the lexer, reading `a` from `i` on, closes every string and comment it opens
/// before the end of `a`.
pub open spec fn closes_within(a: Seq<char>, i: int) -> bool
    decreases a.len() - i,
{
    if i < 0 || i >= a.len() {
        true
    } else {
        match lex_step(a, i) {
            None => true,
            Some((_, j)) => {
                proof {
                    lemma_lex_step_advances(a, i);
                }
                step_closes(a, i) && closes_within(a, j)
            },
        }
    }
}

/// Whether the step of the lexer at `i` closes, within `a`, the string or comment it opens.
pub open spec fn step_closes(a: Seq<char>, i: int) -> bool {
    &&& a[i] == '"' ==> string_end(a, i + 1) < a.len()
    &&& (a[i] == '/' && i + 1 < a.len() && a[i + 1] == '/') ==> comment_end(a, i + 2) < a.len()
}

/// Two token lists one after the other, `None` where either is.
pub open spec fn joined(x: Option<Seq<TokenM>>, y: Option<Seq<TokenM>>) -> Option<Seq<TokenM>> {
    match (x, y) {
        (Some(u), Some(v)) => Some(u + v),
        _ => None,
    }
}

proof fn lemma_prefix_number_end(a: Seq<char>, s: Seq<char>, i: int)
    requires
        s.len() > a.len(),
        s[a.len() as int] == ' ',
        forall|k: int| 0 <= k < a.len() ==> s[k] == a[k],
        0 <= i <= a.len(),
    ensures
        number_end(s, i) == number_end(a, i),
    decreases a.len() - i,
{
    if i < a.len() {
        assert(continues_number(s, i) == continues_number(a, i));
        lemma_prefix_number_end(a, s, i + 1);
    } else {
        assert(!continues_number(s, i));
    }
}

proof fn lemma_prefix_ident_end(a: Seq<char>, s: Seq<char>, i: int)
    requires
        s.len() > a.len(),
        s[a.len() as int] == ' ',
        forall|k: int| 0 <= k < a.len() ==> s[k] == a[k],
        0 <= i <= a.len(),
    ensures
        ident_end(s, i) == ident_end(a, i),
    decreases a.len() - i,
{
    if i < a.len() {
        lemma_prefix_ident_end(a, s, i + 1);
    }
}

proof fn lemma_prefix_string_end(a: Seq<char>, s: Seq<char>, i: int)
    requires
        s.len() > a.len(),
        forall|k: int| 0 <= k < a.len() ==> s[k] == a[k],
        0 <= i <= a.len(),
        string_end(a, i) < a.len(),
    ensures
        string_end(s, i) == string_end(a, i),
    decreases a.len() - i,
{
    if a[i] != '"' {
        lemma_prefix_string_end(a, s, i + 1);
    }
}

proof fn lemma_prefix_comment_end(a: Seq<char>, s: Seq<char>, i: int)
    requires
        s.len() > a.len(),
        forall|k: int| 0 <= k < a.len() ==> s[k] == a[k],
        0 <= i <= a.len(),
        comment_end(a, i) < a.len(),
    ensures
        comment_end(s, i) == comment_end(a, i),
    decreases a.len() - i,
{
    if a[i] != '\n' {
        lemma_prefix_comment_end(a, s, i + 1);
    }
}

/// A step that closes what it opens reads the same in `a` and in `a` followed by a space.
proof fn lemma_prefix_step(a: Seq<char>, s: Seq<char>, i: int)
    requires
        s.len() > a.len(),
        s[a.len() as int] == ' ',
        forall|k: int| 0 <= k < a.len() ==> s[k] == a[k],
        0 <= i < a.len(),
        step_closes(a, i),
    ensures
        lex_step(s, i) == lex_step(a, i),
{
    lemma_prefix_number_end(a, s, i + 1);
    lemma_prefix_ident_end(a, s, i + 1);
    lemma_number_end(a, i + 1);
    lemma_ident_end(a, i + 1);
    if a[i] == '"' {
        lemma_prefix_string_end(a, s, i + 1);
        lemma_string_end_le(a, i + 1);
        assert(s.subrange(i + 1, string_end(a, i + 1)) =~= a.subrange(i + 1, string_end(a, i + 1)));
    }
    if a[i] == '/' && i + 1 < a.len() && a[i + 1] == '/' {
        lemma_prefix_comment_end(a, s, i + 2);
    }
    assert(s.subrange(i, number_end(a, i + 1)) =~= a.subrange(i, number_end(a, i + 1)));
    assert(s.subrange(i, ident_end(a, i + 1)) =~= a.subrange(i, ident_end(a, i + 1)));
}

proof fn lemma_string_end_le(a: Seq<char>, i: int)
    requires
        0 <= i <= a.len(),
    ensures
        i <= string_end(a, i) <= a.len(),
    decreases a.len() - i,
{
    if !(i >= a.len() || a[i] == '"') {
        lemma_string_end_le(a, i + 1);
    }
}

/// Reading `a` followed by a space and more: the tokens of `a` from `i` on, then those
/// read from the end of `a` on.
proof fn lemma_prefix_lex(a: Seq<char>, s: Seq<char>, i: int)
    requires
        s.len() > a.len(),
        s[a.len() as int] == ' ',
        forall|k: int| 0 <= k < a.len() ==> s[k] == a[k],
        0 <= i <= a.len(),
        closes_within(a, i),
    ensures
        lex_from(s, i) == joined(lex_from(a, i), lex_from(s, a.len() as int)),
    decreases a.len() - i,
{
    if i == a.len() {
        match lex_from(s, i) {
            Some(r) => {
                assert(Seq::<TokenM>::empty() + r =~= r);
            },
            None => {},
        }
    } else {
        lemma_lex_step_advances(a, i);
        match lex_step(a, i) {
            None => {
                lemma_prefix_step_none(a, s, i);
            },
            Some((t, j)) => {
                lemma_prefix_step(a, s, i);
                lemma_prefix_lex(a, s, j);
                match (lex_from(a, j), lex_from(s, a.len() as int)) {
                    (Some(u), Some(v)) => {
                        match t {
                            Some(tok) => {
                                assert(seq![tok] + (u + v) =~= (seq![tok] + u) + v);
                            },
                            None => {},
                        }
                    },
                    _ => {},
                }
            },
        }
    }
}

proof fn lemma_prefix_step_none(a: Seq<char>, s: Seq<char>, i: int)
    requires
        s.len() > a.len(),
        s[a.len() as int] == ' ',
        forall|k: int| 0 <= k < a.len() ==> s[k] == a[k],
        0 <= i < a.len(),
        lex_step(a, i) is None,
    ensures
        lex_step(s, i) is None,
{
    lemma_prefix_number_end(a, s, i + 1);
    lemma_number_end(a, i + 1);
    assert(s.subrange(i, number_end(a, i + 1)) =~= a.subrange(i, number_end(a, i + 1)));
}

proof fn lemma_shift_number_end(p: Seq<char>, b: Seq<char>, j: int)
    requires
        0 <= j,
    ensures
        number_end(p + b, p.len() + j) == p.len() + number_end(b, j),
    decreases b.len() - j,
{
    let s = p + b;
    if j < b.len() {
        assert(s[p.len() + j] == b[j]);
        if j + 1 < b.len() {
            assert(s[p.len() + j + 1] == b[j + 1]);
        }
        assert(continues_number(s, p.len() + j) == continues_number(b, j));
        if continues_number(b, j) {
            lemma_shift_number_end(p, b, j + 1);
        }
    } else {
        assert(!continues_number(s, p.len() + j));
    }
}

proof fn lemma_shift_ident_end(p: Seq<char>, b: Seq<char>, j: int)
    requires
        0 <= j,
    ensures
        ident_end(p + b, p.len() + j) == p.len() + ident_end(b, j),
    decreases b.len() - j,
{
    let s = p + b;
    if j < b.len() {
        assert(s[p.len() + j] == b[j]);
        if is_ident_continue(b[j]) {
            lemma_shift_ident_end(p, b, j + 1);
        }
    }
}

proof fn lemma_shift_string_end(p: Seq<char>, b: Seq<char>, j: int)
    requires
        0 <= j,
    ensures
        string_end(p + b, p.len() + j) == p.len() + string_end(b, j),
    decreases b.len() - j,
{
    let s = p + b;
    if j < b.len() {
        assert(s[p.len() + j] == b[j]);
        if b[j] != '"' {
            lemma_shift_string_end(p, b, j + 1);
        }
    }
}

proof fn lemma_shift_comment_end(p: Seq<char>, b: Seq<char>, j: int)
    requires
        0 <= j,
    ensures
        comment_end(p + b, p.len() + j) == p.len() + comment_end(b, j),
    decreases b.len() - j,
{
    let s = p + b;
    if j < b.len() {
        assert(s[p.len() + j] == b[j]);
        if b[j] != '\n' {
            lemma_shift_comment_end(p, b, j + 1);
        }
    }
}

/// The step at `p.len() + j` in `p + b` is the step at `j` in `b`, moved by `p.len()`.
proof fn lemma_shift_step(p: Seq<char>, b: Seq<char>, j: int)
    requires
        0 <= j < b.len(),
    ensures
        lex_step(p + b, p.len() + j) == match lex_step(b, j) {
            Some((t, k)) => Some((t, p.len() + k)),
            None => None,
        },
{
    let s = p + b;
    let i = p.len() + j;
    assert(s[i] == b[j]);
    if j + 1 < b.len() {
        assert(s[i + 1] == b[j + 1]);
    }
    lemma_shift_number_end(p, b, j + 1);
    lemma_shift_ident_end(p, b, j + 1);
    lemma_shift_string_end(p, b, j + 1);
    lemma_shift_comment_end(p, b, j + 2);
    lemma_number_end(b, j + 1);
    lemma_ident_end(b, j + 1);
    lemma_string_end_le(b, j + 1);
    assert(s.subrange(i, p.len() + number_end(b, j + 1)) =~= b.subrange(j, number_end(b, j + 1)));
    assert(s.subrange(i, p.len() + ident_end(b, j + 1)) =~= b.subrange(j, ident_end(b, j + 1)));
    assert(s.subrange(i + 1, p.len() + string_end(b, j + 1)) =~= b.subrange(j + 1, string_end(b, j + 1)));
}

/// Reading `p + b` from `p.len() + j` on reads `b` from `j` on.
proof fn lemma_shift_lex(p: Seq<char>, b: Seq<char>, j: int)
    requires
        0 <= j,
    ensures
        lex_from(p + b, p.len() + j) == lex_from(b, j),
    decreases b.len() - j,
{
    if j < b.len() {
        lemma_shift_step(p, b, j);
        lemma_lex_step_advances(b, j);
        match lex_step(b, j) {
            Some((t, k)) => {
                lemma_shift_lex(p, b, k);
            },
            None => {},
        }
    }
}

/// Tokenizing two texts with a space between gives the tokens of the first, then those of
/// the second, where the first closes every string and comment it opens.
pub proof fn law_tokenize_concat(a: Seq<char>, b: Seq<char>)
    requires
        closes_within(a, 0),
    ensures
        spec_tokenize(a + seq![' '] + b) == joined(spec_tokenize(a), spec_tokenize(b)),
{
    let p = a + seq![' '];
    let s = p + b;
    assert(s.len() > a.len());
    assert(s[a.len() as int] == ' ');
    assert(forall|k: int| 0 <= k < a.len() ==> s[k] == a[k]);
    lemma_prefix_lex(a, s, 0);
    lemma_shift_lex(p, b, 0);
    assert(lex_from(s, a.len() as int) == lex_from(s, a.len() + 1int));
}


/// What LLVM's signed integer predicate `p` says of `a` and `b`.
pub open spec fn predicate_holds(p: Compare, a: int, b: int) -> bool {
    match p {
        Compare::Eq => a == b,
        Compare::Ne => a != b,
        Compare::SignedLess => a < b,
        Compare::SignedLessEqual => a <= b,
        Compare::SignedGreater => a > b,
        Compare::SignedGreaterEqual => a >= b,
    }
}

/// The predicate that code generation builds for a comparison means what folding the
/// same comparison of two integer constants computes.
pub proof fn law_comparison_predicate_means_the_operator(op: BinOp, a: i64, b: i64)
    requires
        predicate_of(op) is Some,
    ensures
        fold_ints(op, a, b) == Folded::Known(ValueM::Bool(predicate_holds(predicate_of(op).unwrap(), a as int, b as int))),
{
}

/// Different operators are built as different instructions: the record of what an
/// operator is built as tells the operator.
pub proof fn law_operator_records_differ(o1: BinOp, o2: BinOp)
    requires
        o1 != o2,
    ensures
        op_record(o1) != op_record(o2),
{
}

/// Folding an operator applied to two integer constants gives what the operator means:
/// each comparison its truth, `+ - *` their value where it fits in an `i64`; `a <= b`
/// is the negation of `b < a`.
pub proof fn law_fold_integer_operators(a: i64, b: i64, scope: Map<Seq<char>, ExprM>)
    ensures
        fold(bin(BinOp::Lt, a, b), scope) == Folded::Known(ValueM::Bool(a < b)),
        fold(bin(BinOp::Le, a, b), scope) == Folded::Known(ValueM::Bool(a <= b)),
        fold(bin(BinOp::Gt, a, b), scope) == Folded::Known(ValueM::Bool(a > b)),
        fold(bin(BinOp::Ge, a, b), scope) == Folded::Known(ValueM::Bool(a >= b)),
        fold(bin(BinOp::Eq, a, b), scope) == Folded::Known(ValueM::Bool(a == b)),
        fold(bin(BinOp::Ne, a, b), scope) == Folded::Known(ValueM::Bool(a != b)),
        fold(bin(BinOp::Le, a, b), scope) == Folded::Known(ValueM::Bool(!(b < a))),
        fold(bin(BinOp::Le, a, a), scope) == Folded::Known(ValueM::Bool(true)),
        i64::MIN <= a + b <= i64::MAX ==> fold(bin(BinOp::Add, a, b), scope) == Folded::Known(ValueM::Int((a + b) as i64)),
        i64::MIN <= a - b <= i64::MAX ==> fold(bin(BinOp::Sub, a, b), scope) == Folded::Known(ValueM::Int((a - b) as i64)),
        i64::MIN <= a * b <= i64::MAX ==> fold(bin(BinOp::Mul, a, b), scope) == Folded::Known(ValueM::Int((a * b) as i64)),
{
    reveal_with_fuel(fold, 2);
}

/// An operator applied to two integer literals.
pub open spec fn bin(op: BinOp, a: i64, b: i64) -> ExprM {
    ExprM::Binary { op, left: Box::new(ExprM::Literal(ValueM::Int(a))), right: Box::new(ExprM::Literal(ValueM::Int(b))) }
}

/// A number, then a token that is no arithmetic operator or one of lower precedence than
/// `p`, reads as that number alone at precedence `p`.
proof fn lemma_number_then_stop(t: Seq<Token>, s: PS, n: i64, p: int)
    requires
        0 <= s.pos,
        s.pos + 1 < t.len(),
        t[s.pos]@ == TokenM::Number(n),
        arith_op(t[s.pos + 1]@) is None || arith_op(t[s.pos + 1]@).unwrap().1 < p,
    ensures
        sp_arith(t, s, p) == Res::Done(ExprM::Literal(ValueM::Int(n)), s.skip(1)),
{
    assert(s.at(t) == Some(TokenM::Number(n)));
    assert(literal_of(TokenM::Number(n)) == Some(ValueM::Int(n)));
    assert(sp_expr(t, s, false) == expr_tail(t, s.skip(1), ExprM::Literal(ValueM::Int(n)), false));
    assert(s.skip(1).at(t) == Some(t[s.pos + 1]@));
    assert(arith_loop(t, s.skip(1), p, ExprM::Literal(ValueM::Int(n))) == Res::Done(ExprM::Literal(ValueM::Int(n)), s.skip(1)));
}

/// `/` binds tighter than `+`: `a + b / c` reads as `a + (b / c)`.
pub proof fn law_division_binds_tighter_than_addition(t: Seq<Token>, s: PS, a: i64, b: i64, c: i64)
    requires
        0 <= s.pos,
        s.pos + 5 < t.len(),
        t[s.pos]@ == TokenM::Number(a),
        t[s.pos + 1]@ == TokenM::Plus,
        t[s.pos + 2]@ == TokenM::Number(b),
        t[s.pos + 3]@ == TokenM::Slash,
        t[s.pos + 4]@ == TokenM::Number(c),
        t[s.pos + 5]@ == TokenM::Semicolon,
    ensures
        sp_arith(t, s, 0) == Res::Done(ExprM::Binary {
            op: BinOp::Add,
            left: Box::new(ExprM::Literal(ValueM::Int(a))),
            right: Box::new(bin(BinOp::Div, b, c)),
        }, s.skip(5)),
{
    let la = ExprM::Literal(ValueM::Int(a));
    let lb = ExprM::Literal(ValueM::Int(b));
    let lc = ExprM::Literal(ValueM::Int(c));
    // `c`, then `;`, at the precedence above `/`.
    lemma_number_then_stop(t, s.skip(4), c, 3);
    // `b / c`, at the precedence of `*` and `/`.
    assert(s.skip(2).at(t) == Some(TokenM::Number(b)));
    assert(sp_expr(t, s.skip(2), false) == expr_tail(t, s.skip(3), lb, false));
    assert(s.skip(3).at(t) == Some(TokenM::Slash));
    assert(s.skip(3).skip(1) == s.skip(4));
    assert(s.skip(4).skip(1) == s.skip(5));
    assert(s.skip(5).at(t) == Some(TokenM::Semicolon));
    let div = bin(BinOp::Div, b, c);
    assert(arith_loop(t, s.skip(5), 2, div) == Res::Done(div, s.skip(5)));
    assert(arith_loop(t, s.skip(3), 2, lb) == Res::Done(div, s.skip(5)));
    assert(sp_arith(t, s.skip(2), 2) == Res::Done(div, s.skip(5)));
    // `a + (b / c)`.
    assert(s.at(t) == Some(TokenM::Number(a)));
    assert(sp_expr(t, s, false) == expr_tail(t, s.skip(1), la, false));
    assert(s.skip(1).at(t) == Some(TokenM::Plus));
    assert(s.skip(1).skip(1) == s.skip(2));
    let sum = ExprM::Binary { op: BinOp::Add, left: Box::new(la), right: Box::new(div) };
    assert(arith_loop(t, s.skip(5), 0, sum) == Res::Done(sum, s.skip(5)));
    assert(arith_loop(t, s.skip(1), 0, la) == Res::Done(sum, s.skip(5)));
}

/// `*` and `/` bind alike and to the left: `a * b / c` reads as `(a * b) / c`.
pub proof fn law_multiplication_and_division_group_left(t: Seq<Token>, s: PS, a: i64, b: i64, c: i64)
    requires
        0 <= s.pos,
        s.pos + 5 < t.len(),
        t[s.pos]@ == TokenM::Number(a),
        t[s.pos + 1]@ == TokenM::Star,
        t[s.pos + 2]@ == TokenM::Number(b),
        t[s.pos + 3]@ == TokenM::Slash,
        t[s.pos + 4]@ == TokenM::Number(c),
        t[s.pos + 5]@ == TokenM::Semicolon,
    ensures
        sp_arith(t, s, 0) == Res::Done(ExprM::Binary {
            op: BinOp::Div,
            left: Box::new(bin(BinOp::Mul, a, b)),
            right: Box::new(ExprM::Literal(ValueM::Int(c))),
        }, s.skip(5)),
{
    let la = ExprM::Literal(ValueM::Int(a));
    let lc = ExprM::Literal(ValueM::Int(c));
    lemma_number_then_stop(t, s.skip(2), b, 3);
    lemma_number_then_stop(t, s.skip(4), c, 3);
    assert(s.at(t) == Some(TokenM::Number(a)));
    assert(sp_expr(t, s, false) == expr_tail(t, s.skip(1), la, false));
    assert(s.skip(1).at(t) == Some(TokenM::Star));
    assert(s.skip(1).skip(1) == s.skip(2));
    assert(s.skip(3).at(t) == Some(TokenM::Slash));
    assert(s.skip(3).skip(1) == s.skip(4));
    assert(s.skip(5).at(t) == Some(TokenM::Semicolon));
    let prod = bin(BinOp::Mul, a, b);
    let quot = ExprM::Binary { op: BinOp::Div, left: Box::new(prod), right: Box::new(lc) };
    assert(arith_loop(t, s.skip(5), 0, quot) == Res::Done(quot, s.skip(5)));
    assert(arith_loop(t, s.skip(3), 0, prod) == Res::Done(quot, s.skip(5)));
    assert(arith_loop(t, s.skip(1), 0, la) == Res::Done(quot, s.skip(5)));
}

/// What the comparison token `tok` says of two integers, as its spelling reads.
pub open spec fn spelled_truth(tok: TokenM, a: i64, b: i64) -> Option<bool> {
    match tok {
        TokenM::Less => Some(a < b),
        TokenM::LessEqual => Some(a <= b),
        TokenM::EqualEqual => Some(a == b),
        TokenM::Greater => Some(a > b),
        TokenM::GreaterEqual => Some(a >= b),
        TokenM::BangEqual => Some(a != b),
        _ => None,
    }
}

/// In a condition, `a tok n` (`<`, `<=`, `==`, `>` or `>=` between two numbers, before
/// a `{`) reads as one comparison whose value, folded, is what the token spells.
pub proof fn law_condition_comparison_means_its_token(t: Seq<Token>, s: PS, a: i64, tok: TokenM, n: i64,
    scope: Map<Seq<char>, ExprM>)
    requires
        0 <= s.pos,
        s.pos + 3 < t.len(),
        t[s.pos]@ == TokenM::Number(a),
        t[s.pos + 1]@ == tok,
        spelled_truth(tok, a, n) is Some,
        tok != TokenM::BangEqual,
        t[s.pos + 2]@ == TokenM::Number(n),
        t[s.pos + 3]@ == TokenM::OpenBracket,
    ensures
        sp_expr(t, s, true) matches Res::Done(e, s1) && s1 == s.skip(3)
            && fold(e, scope) == Folded::Known(ValueM::Bool(spelled_truth(tok, a, n).unwrap())),
{
    let la = ExprM::Literal(ValueM::Int(a));
    let ln = ExprM::Literal(ValueM::Int(n));
    lemma_number_then_stop(t, s.skip(2), n, 0);
    assert(s.at(t) == Some(TokenM::Number(a)));
    assert(sp_expr(t, s, true) == expr_tail(t, s.skip(1), la, true));
    assert(s.skip(1).at(t) == Some(tok));
    assert(s.skip(1).skip(1) == s.skip(2));
    assert(s.skip(3).at(t) == Some(TokenM::OpenBracket));
    let op = cond_op(Some(tok)).unwrap();
    let e = ExprM::Binary { op, left: Box::new(la), right: Box::new(ln) };
    assert(compare_loop(t, s.skip(3), e) == Res::Done(e, s.skip(3)));
    assert(compare_loop(t, s.skip(1), la) == Res::Done(e, s.skip(3)));
    reveal_with_fuel(fold, 2);
    assert(fold(e, scope) == fold_values(op, ValueM::Int(a), ValueM::Int(n)));
}

/// The file of a nested import is the file of the outer path with `/` and the last
/// part in place of `.kurai`, then `.kurai`: `a::b` reads `a/b.kurai`.
pub proof fn law_module_file_nests(p: Seq<Seq<char>>, x: Seq<char>)
    ensures
        module_file(seq![x]) == x + ".kurai"@,
        p.len() > 0 ==> module_file(p.push(x))
            == module_file(p).subrange(0, module_file(p).len() - 6) + "/"@ + x + ".kurai"@,
{
    reveal_strlit(".kurai");
    assert(join_with(seq![x], "/"@) == x);
    if p.len() > 0 {
        let q = p.push(x);
        assert(q.drop_last() =~= p);
        assert(join_with(q, "/"@) == join_with(p, "/"@) + "/"@ + x);
        let m = module_file(p);
        assert(m.subrange(0, m.len() - 6) =~= join_with(p, "/"@));
    }
}


/// After a condition, each comparison token (`!=` too) stands for the comparison it
/// spells: folded on two integers, it gives what the token says of them.
pub proof fn law_equal_operator_means_its_token(tok: TokenM, a: i64, n: i64, scope: Map<Seq<char>, ExprM>)
    requires
        spelled_truth(tok, a, n) is Some,
    ensures
        equal_op(tok) matches Some(op)
            && fold(bin(op, a, n), scope) == Folded::Known(ValueM::Bool(spelled_truth(tok, a, n).unwrap())),
{
    reveal_with_fuel(fold, 2);
}

/// Each arithmetic token stands for the operation it spells, and `*` and `/` bind alike
/// and tighter than `+` and `-`, which bind alike.
pub proof fn law_arithmetic_tokens(a: i64, b: i64, scope: Map<Seq<char>, ExprM>)
    ensures
        arith_op(TokenM::Plus) matches Some((op, _)) && (i64::MIN <= a + b <= i64::MAX ==>
            fold(bin(op, a, b), scope) == Folded::Known(ValueM::Int((a + b) as i64))),
        arith_op(TokenM::Dash) matches Some((op, _)) && (i64::MIN <= a - b <= i64::MAX ==>
            fold(bin(op, a, b), scope) == Folded::Known(ValueM::Int((a - b) as i64))),
        arith_op(TokenM::Star) matches Some((op, _)) && (i64::MIN <= a * b <= i64::MAX ==>
            fold(bin(op, a, b), scope) == Folded::Known(ValueM::Int((a * b) as i64))),
        arith_op(TokenM::Slash) matches Some((op, _)) && op == BinOp::Div,
        arith_op(TokenM::Star).unwrap().1 == arith_op(TokenM::Slash).unwrap().1,
        arith_op(TokenM::Plus).unwrap().1 == arith_op(TokenM::Dash).unwrap().1,
        arith_op(TokenM::Plus).unwrap().1 < arith_op(TokenM::Star).unwrap().1,
{
    reveal_with_fuel(fold, 2);
}

} // verus!
