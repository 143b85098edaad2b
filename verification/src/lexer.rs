use vstd::prelude::*;
use crate::types::Type;
use crate::token::{Token, TokenM, tokens_m};
use crate::text::{chars_are, chars_of, string_from_chars};

verus! {

/// std's `char::is_alphanumeric`: alphabetic or numeric in the Unicode sense.
pub uninterp spec fn spec_is_alphanumeric(c: char) -> bool;

/// std's `char::is_alphanumeric`. Its documentation makes an ASCII character
/// alphanumeric exactly when it is a letter or a decimal digit; what it answers for
/// other characters rests on Unicode's tables and is only named here.
#[verifier::external_body]
pub(crate) fn char_is_alphanumeric(c: char) -> (res: bool)
    ensures
        res == spec_is_alphanumeric(c),
        (c as u32) < 128 ==> (res <==> is_ascii_letter(c) || is_digit(c)),
{
    c.is_alphanumeric()
}

pub open spec fn is_digit(c: char) -> bool {
    '0' <= c && c <= '9'
}

pub open spec fn is_ascii_letter(c: char) -> bool {
    ('a' <= c && c <= 'z') || ('A' <= c && c <= 'Z')
}

/// A character that may start an identifier or keyword.
pub open spec fn is_ident_start(c: char) -> bool {
    is_ascii_letter(c) || c == '_'
}

/// A character that may continue an identifier or keyword.
pub open spec fn is_ident_continue(c: char) -> bool {
    if (c as u32) < 128 {
        is_ascii_letter(c) || is_digit(c) || c == '_'
    } else {
        spec_is_alphanumeric(c)
    }
}

/// The first index at or after `i` that holds a line break, or the end.
pub open spec fn comment_end(s: Seq<char>, i: int) -> int
    decreases s.len() - i,
{
    if i >= s.len() || s[i] == '\n' { i } else { comment_end(s, i + 1) }
}

/// The first index at or after `i` that holds a double quote, or the end.
pub open spec fn string_end(s: Seq<char>, i: int) -> int
    decreases s.len() - i,
{
    if i >= s.len() || s[i] == '"' { i } else { string_end(s, i + 1) }
}

/// Whether the character at `i` continues a number: a digit, or a point followed by a digit.
pub open spec fn continues_number(s: Seq<char>, i: int) -> bool {
    0 <= i < s.len() && (is_digit(s[i]) || (s[i] == '.' && i + 1 < s.len() && is_digit(s[i + 1])))
}

/// The end of the number that continues at `i`.
pub open spec fn number_end(s: Seq<char>, i: int) -> int
    decreases s.len() - i,
{
    if continues_number(s, i) { number_end(s, i + 1) } else { i }
}

/// The end of the identifier that continues at `i`.
pub open spec fn ident_end(s: Seq<char>, i: int) -> int
    decreases s.len() - i,
{
    if 0 <= i < s.len() && is_ident_continue(s[i]) { ident_end(s, i + 1) } else { i }
}

pub open spec fn count_dots(w: Seq<char>) -> nat
    decreases w.len(),
{
    if w.len() == 0 { 0 } else { count_dots(w.drop_last()) + if w.last() == '.' { 1nat } else { 0nat } }
}

pub open spec fn digit_value(c: char) -> int {
    (c as int) - ('0' as int)
}

/// The value of a run of decimal digits.
pub open spec fn decimal_value(w: Seq<char>) -> int
    decreases w.len(),
{
    if w.len() == 0 { 0 } else { decimal_value(w.drop_last()) * 10 + digit_value(w.last()) }
}

/// The token that a number spells: an integer when it has no point (`None` when it
/// does not fit in an `i64`), a float when it has one point, `None` when it has more.
pub open spec fn number_token(w: Seq<char>) -> Option<TokenM> {
    if count_dots(w) == 0 {
        if decimal_value(w) <= i64::MAX { Some(TokenM::Number(decimal_value(w) as i64)) } else { None }
    } else if count_dots(w) == 1 {
        Some(TokenM::Float(w))
    } else {
        None
    }
}

/// The token that a word spells: a keyword, a type name, a boolean or an identifier.
pub open spec fn word_token(w: Seq<char>) -> TokenM {
    if w == "let"@ { TokenM::Let }
    else if w == "fn"@ { TokenM::Function }
    else if w == "use"@ { TokenM::Import }
    else if w == "as"@ { TokenM::As }
    else if w == "if"@ { TokenM::If }
    else if w == "else"@ { TokenM::Else }
    else if w == "true"@ { TokenM::Bool(true) }
    else if w == "false"@ { TokenM::Bool(false) }
    else if w == "for"@ { TokenM::For }
    else if w == "loop"@ { TokenM::Loop }
    else if w == "while"@ { TokenM::While }
    else if w == "in"@ { TokenM::In }
    else if w == "break"@ { TokenM::Break }
    else if w == "return"@ { TokenM::Return }
    else if w == "i8"@ { TokenM::Type(Type::I8) }
    else if w == "i16"@ { TokenM::Type(Type::I16) }
    else if w == "i32"@ { TokenM::Type(Type::I32) }
    else if w == "i64"@ { TokenM::Type(Type::I64) }
    else if w == "i128"@ { TokenM::Type(Type::I128) }
    else if w == "f32"@ { TokenM::Type(Type::F32) }
    else if w == "f64"@ { TokenM::Type(Type::F64) }
    else if w == "f128"@ { TokenM::Type(Type::F128) }
    else if w == "bool"@ { TokenM::Type(Type::Bool) }
    else if w == "void"@ { TokenM::Type(Type::Void) }
    else { TokenM::Id(w) }
}

/// A token spelled by one character, or by that character and an `=` after it.
pub open spec fn punct_token(c: char, eq_next: bool) -> Option<(TokenM, int)> {
    if c == '=' { if eq_next { Some((TokenM::EqualEqual, 2)) } else { Some((TokenM::Equal, 1)) } }
    else if c == '!' { if eq_next { Some((TokenM::BangEqual, 2)) } else { Some((TokenM::Bang, 1)) } }
    else if c == '<' { if eq_next { Some((TokenM::LessEqual, 2)) } else { Some((TokenM::Less, 1)) } }
    else if c == '>' { if eq_next { Some((TokenM::GreaterEqual, 2)) } else { Some((TokenM::Greater, 1)) } }
    else if c == '+' { Some((TokenM::Plus, 1)) }
    else if c == '-' { Some((TokenM::Dash, 1)) }
    else if c == '*' { Some((TokenM::Star, 1)) }
    else if c == ';' { Some((TokenM::Semicolon, 1)) }
    else if c == ':' { Some((TokenM::Colon, 1)) }
    else if c == '\'' { Some((TokenM::Quote, 1)) }
    else if c == '(' { Some((TokenM::OpenParenthese, 1)) }
    else if c == ')' { Some((TokenM::CloseParenthese, 1)) }
    else if c == '{' { Some((TokenM::OpenBracket, 1)) }
    else if c == '}' { Some((TokenM::CloseBracket, 1)) }
    else if c == '[' { Some((TokenM::OpenSquareBracket, 1)) }
    else if c == ']' { Some((TokenM::CloseSquareBracket, 1)) }
    else if c == ',' { Some((TokenM::Comma, 1)) }
    else if c == '#' { Some((TokenM::Hash, 1)) }
    else { None }
}

/// One step of the lexer at index `i < s.len()`: the token read there, if any, and the
/// index after it; `None` where the lexer stops on the input (an unknown character, an
/// integer too large for `i64`, or a number with two points).
pub open spec fn lex_step(s: Seq<char>, i: int) -> Option<(Option<TokenM>, int)> {
    let n = s.len();
    let c = s[i];
    let eq_next = i + 1 < n && s[i + 1] == '=';
    if c == ' ' || c == '\n' || c == '\t' {
        Some((None, i + 1))
    } else if c == '/' {
        if i + 1 < s.len() && s[i + 1] == '/' {
            Some((None, comment_end(s, i + 2)))
        } else {
            Some((Some(TokenM::Slash), i + 1))
        }
    } else if c == '.' {
        if i + 1 < s.len() && s[i + 1] == '.' {
            Some((Some(TokenM::Range), i + 2))
        } else {
            Some((Some(TokenM::Dot), i + 1))
        }
    } else if c == '"' {
        let e = string_end(s, i + 1);
        Some((Some(TokenM::StringLiteral(s.subrange(i + 1, e))), if e < s.len() { e + 1 } else { e }))
    } else if is_digit(c) {
        let e = number_end(s, i + 1);
        match number_token(s.subrange(i, e)) {
            Some(t) => Some((Some(t), e)),
            None => None,
        }
    } else if is_ident_start(c) {
        let e = ident_end(s, i + 1);
        Some((Some(word_token(s.subrange(i, e))), e))
    } else {
        match punct_token(c, eq_next) {
            Some((t, n)) => Some((Some(t), i + n)),
            None => None,
        }
    }
}

pub proof fn lemma_comment_end(s: Seq<char>, i: int)
    ensures
        comment_end(s, i) >= i,
        i <= s.len() ==> comment_end(s, i) <= s.len(),
    decreases s.len() - i,
{
    if !(i >= s.len() || s[i] == '\n') {
        lemma_comment_end(s, i + 1);
    }
}

pub proof fn lemma_string_end(s: Seq<char>, i: int)
    ensures
        string_end(s, i) >= i,
        i <= s.len() ==> string_end(s, i) <= s.len(),
        string_end(s, i) < s.len() ==> s[string_end(s, i)] == '"',
        forall|k: int| i <= k < string_end(s, i) ==> s[k] != '"',
    decreases s.len() - i,
{
    if !(i >= s.len() || s[i] == '"') {
        lemma_string_end(s, i + 1);
    }
}

pub proof fn lemma_number_end(s: Seq<char>, i: int)
    ensures
        number_end(s, i) >= i,
        i <= s.len() ==> number_end(s, i) <= s.len(),
    decreases s.len() - i,
{
    if continues_number(s, i) {
        lemma_number_end(s, i + 1);
    }
}

pub proof fn lemma_ident_end(s: Seq<char>, i: int)
    ensures
        ident_end(s, i) >= i,
        i <= s.len() ==> ident_end(s, i) <= s.len(),
    decreases s.len() - i,
{
    if 0 <= i < s.len() && is_ident_continue(s[i]) {
        lemma_ident_end(s, i + 1);
    }
}

pub proof fn lemma_lex_step_advances(s: Seq<char>, i: int)
    requires
        0 <= i < s.len(),
    ensures
        lex_step(s, i) matches Some((_, j)) ==> i < j <= s.len(),
{
    lemma_comment_end(s, i + 2);
    lemma_string_end(s, i + 1);
    lemma_number_end(s, i + 1);
    lemma_ident_end(s, i + 1);
}

/// The tokens of `s` from index `i` on, `None` where the lexer stops on the input.
pub open spec fn lex_from(s: Seq<char>, i: int) -> Option<Seq<TokenM>>
    decreases s.len() - i,
{
    if i < 0 || i >= s.len() {
        Some(Seq::empty())
    } else {
        match lex_step(s, i) {
            None => None,
            Some((t, j)) => {
                proof {
                    lemma_lex_step_advances(s, i);
                }
                match lex_from(s, j) {
                    None => None,
                    Some(rest) => match t {
                        Some(tok) => Some(seq![tok] + rest),
                        None => Some(rest),
                    },
                }
            },
        }
    }
}

/// The tokens of a whole source text, `None` where the lexer stops on it.
pub open spec fn spec_tokenize(s: Seq<char>) -> Option<Seq<TokenM>> {
    lex_from(s, 0)
}

} // verus!

verus! {

fn scan_comment_end(s: &Vec<char>, i: usize) -> (res: usize)
    requires
        i <= s@.len(),
    ensures
        res == comment_end(s@, i as int),
{
    let mut j = i;
    while j < s.len() && s[j] != '\n'
        invariant
            i <= j <= s@.len(),
            comment_end(s@, j as int) == comment_end(s@, i as int),
        decreases s@.len() - j,
    {
        j = j + 1;
    }
    j
}

fn scan_string_end(s: &Vec<char>, i: usize) -> (res: usize)
    requires
        i <= s@.len(),
    ensures
        res == string_end(s@, i as int),
{
    let mut j = i;
    while j < s.len() && s[j] != '"'
        invariant
            i <= j <= s@.len(),
            string_end(s@, j as int) == string_end(s@, i as int),
        decreases s@.len() - j,
    {
        j = j + 1;
    }
    j
}

fn exec_is_digit(c: char) -> (res: bool)
    ensures
        res == is_digit(c),
{
    '0' <= c && c <= '9'
}

fn scan_number_end(s: &Vec<char>, i: usize) -> (res: usize)
    requires
        i <= s@.len(),
    ensures
        res == number_end(s@, i as int),
{
    let mut j = i;
    loop
        invariant
            i <= j <= s@.len(),
            number_end(s@, j as int) == number_end(s@, i as int),
        decreases s@.len() - j,
    {
        if j >= s.len() {
            return j;
        }
        let c = s[j];
        let cont = exec_is_digit(c) || (c == '.' && j + 1 < s.len() && exec_is_digit(s[j + 1]));
        if !cont {
            return j;
        }
        j = j + 1;
    }
}

fn scan_ident_end(s: &Vec<char>, i: usize) -> (res: usize)
    requires
        i <= s@.len(),
    ensures
        res == ident_end(s@, i as int),
{
    let mut j = i;
    while j < s.len() && (char_is_alphanumeric(s[j]) || s[j] == '_')
        invariant
            i <= j <= s@.len(),
            ident_end(s@, j as int) == ident_end(s@, i as int),
        decreases s@.len() - j,
    {
        j = j + 1;
    }
    j
}

pub(crate) fn sub_chars(s: &Vec<char>, from: usize, to: usize) -> (res: Vec<char>)
    requires
        from <= to <= s@.len(),
    ensures
        res@ == s@.subrange(from as int, to as int),
{
    let mut out: Vec<char> = Vec::new();
    let mut k = from;
    while k < to
        invariant
            from <= k <= to <= s@.len(),
            out@ == s@.subrange(from as int, k as int),
        decreases to - k,
    {
        out.push(s[k]);
        k = k + 1;
        assert(out@ =~= s@.subrange(from as int, k as int));
    }
    out
}

proof fn lemma_count_dots_push(w: Seq<char>, c: char)
    ensures
        count_dots(w.push(c)) == count_dots(w) + if c == '.' { 1nat } else { 0nat },
{
    assert(w.push(c).drop_last() =~= w);
}

fn exec_count_dots(w: &Vec<char>) -> (res: usize)
    ensures
        res == count_dots(w@),
{
    let mut n: usize = 0;
    let mut k: usize = 0;
    while k < w.len()
        invariant
            k <= w@.len(),
            n == count_dots(w@.take(k as int)),
            n <= k,
        decreases w@.len() - k,
    {
        proof {
            lemma_count_dots_push(w@.take(k as int), w@[k as int]);
            assert(w@.take(k as int).push(w@[k as int]) =~= w@.take(k + 1));
        }
        if w[k] == '.' {
            n = n + 1;
        }
        k = k + 1;
    }
    assert(w@.take(w@.len() as int) =~= w@);
    n
}

proof fn lemma_decimal_push(w: Seq<char>, c: char)
    ensures
        decimal_value(w.push(c)) == decimal_value(w) * 10 + digit_value(c),
{
    assert(w.push(c).drop_last() =~= w);
}

proof fn lemma_decimal_nonneg_mono(w: Seq<char>, k: int)
    requires
        0 <= k <= w.len(),
        forall|j: int| 0 <= j < w.len() ==> is_digit(#[trigger] w[j]),
    ensures
        0 <= decimal_value(w.take(k)) <= decimal_value(w),
    decreases w.len() - k,
{
    if k < w.len() {
        lemma_decimal_nonneg_mono(w, k + 1);
        lemma_decimal_push(w.take(k), w[k]);
        assert(w.take(k).push(w[k]) =~= w.take(k + 1));
    } else {
        assert(w.take(k) =~= w);
        lemma_decimal_nonneg(w);
    }
}

proof fn lemma_decimal_nonneg(w: Seq<char>)
    requires
        forall|j: int| 0 <= j < w.len() ==> is_digit(#[trigger] w[j]),
    ensures
        0 <= decimal_value(w),
    decreases w.len(),
{
    if w.len() > 0 {
        assert forall|j: int| 0 <= j < w.drop_last().len() implies is_digit(#[trigger] w.drop_last()[j]) by {
            assert(w.drop_last()[j] == w[j]);
        }
        lemma_decimal_nonneg(w.drop_last());
    }
}

/// The value of a run of decimal digits, `None` when it exceeds `i64::MAX`.
fn decimal_i64(w: &Vec<char>) -> (res: Option<i64>)
    requires
        forall|j: int| 0 <= j < w@.len() ==> is_digit(#[trigger] w@[j]),
    ensures
        res matches Some(v) ==> decimal_value(w@) == v,
        res is None <==> decimal_value(w@) > i64::MAX,
{
    let mut v: i64 = 0;
    let mut k: usize = 0;
    while k < w.len()
        invariant
            k <= w@.len(),
            forall|j: int| 0 <= j < w@.len() ==> is_digit(#[trigger] w@[j]),
            v == decimal_value(w@.take(k as int)),
            v >= 0,
        decreases w@.len() - k,
    {
        let c = w[k];
        assert(is_digit(w@[k as int]));
        let d: i64 = (c as u32 - '0' as u32) as i64;
        proof {
            lemma_decimal_push(w@.take(k as int), c);
            assert(w@.take(k as int).push(c) =~= w@.take(k + 1));
            lemma_decimal_nonneg_mono(w@, k + 1);
        }
        if v > (i64::MAX - d) / 10 {
            assert(decimal_value(w@.take(k + 1)) > i64::MAX) by (nonlinear_arith)
                requires
                    decimal_value(w@.take(k + 1)) == v * 10 + d,
                    v > (i64::MAX - d) / 10,
                    0 <= d <= 9,
            ;
            return None;
        }
        assert(v * 10 + d <= i64::MAX) by (nonlinear_arith)
            requires
                v <= (i64::MAX - d) / 10,
                0 <= d <= 9,
                v >= 0,
        ;
        v = v * 10 + d;
        k = k + 1;
    }
    assert(w@.take(w@.len() as int) =~= w@);
    Some(v)
}

} // verus!

verus! {

/// The content of a token that may be absent.
pub open spec fn opt_token_m(t: Option<Token>) -> Option<TokenM> {
    match t {
        Some(tok) => Some(tok@),
        None => None,
    }
}

fn word_to_token(w: &Vec<char>) -> (res: Token)
    ensures
        res@ == word_token(w@),
{
    if chars_are(w, "let") { Token::Let }
    else if chars_are(w, "fn") { Token::Function }
    else if chars_are(w, "use") { Token::Import }
    else if chars_are(w, "as") { Token::As }
    else if chars_are(w, "if") { Token::If }
    else if chars_are(w, "else") { Token::Else }
    else if chars_are(w, "true") { Token::Bool(true) }
    else if chars_are(w, "false") { Token::Bool(false) }
    else if chars_are(w, "for") { Token::For }
    else if chars_are(w, "loop") { Token::Loop }
    else if chars_are(w, "while") { Token::While }
    else if chars_are(w, "in") { Token::In }
    else if chars_are(w, "break") { Token::Break }
    else if chars_are(w, "return") { Token::Return }
    else if chars_are(w, "i8") { Token::Type(Type::I8) }
    else if chars_are(w, "i16") { Token::Type(Type::I16) }
    else if chars_are(w, "i32") { Token::Type(Type::I32) }
    else if chars_are(w, "i64") { Token::Type(Type::I64) }
    else if chars_are(w, "i128") { Token::Type(Type::I128) }
    else if chars_are(w, "f32") { Token::Type(Type::F32) }
    else if chars_are(w, "f64") { Token::Type(Type::F64) }
    else if chars_are(w, "f128") { Token::Type(Type::F128) }
    else if chars_are(w, "bool") { Token::Type(Type::Bool) }
    else if chars_are(w, "void") { Token::Type(Type::Void) }
    else { Token::Id(string_from_chars(w)) }
}

fn number_to_token(w: &Vec<char>) -> (res: Option<Token>)
    requires
        forall|j: int| 0 <= j < w@.len() ==> is_digit(#[trigger] w@[j]) || w@[j] == '.',
    ensures
        opt_token_m(res) == number_token(w@),
{
    let dots = exec_count_dots(w);
    if dots == 0 {
        proof {
            lemma_no_dots_all_digits(w@);
        }
        match decimal_i64(w) {
            Some(v) => Some(Token::Number(v)),
            None => None,
        }
    } else if dots == 1 {
        Some(Token::Float(string_from_chars(w)))
    } else {
        None
    }
}

proof fn lemma_no_dots_all_digits(w: Seq<char>)
    requires
        count_dots(w) == 0,
        forall|j: int| 0 <= j < w.len() ==> is_digit(#[trigger] w[j]) || w[j] == '.',
    ensures
        forall|j: int| 0 <= j < w.len() ==> is_digit(#[trigger] w[j]),
    decreases w.len(),
{
    if w.len() > 0 {
        let d = w.drop_last();
        assert forall|j: int| 0 <= j < d.len() implies is_digit(#[trigger] d[j]) || d[j] == '.' by {
            assert(d[j] == w[j]);
        }
        lemma_no_dots_all_digits(d);
        assert forall|j: int| 0 <= j < w.len() implies is_digit(#[trigger] w[j]) by {
            if j < w.len() - 1 {
                assert(d[j] == w[j]);
            }
        }
    }
}

proof fn lemma_number_chars(s: Seq<char>, i: int, j: int)
    requires
        0 <= i < s.len(),
        is_digit(s[i]),
        i < j,
        j <= number_end(s, i + 1),
    ensures
        forall|k: int| i <= k < j ==> is_digit(#[trigger] s[k]) || s[k] == '.',
    decreases j - i,
{
    if j > i + 1 {
        lemma_number_prefix(s, i + 1, j - 1);
        lemma_number_chars(s, i, j - 1);
    }
}

proof fn lemma_number_prefix(s: Seq<char>, i: int, k: int)
    requires
        i <= k < number_end(s, i),
    ensures
        continues_number(s, k),
    decreases k - i,
{
    if !continues_number(s, i) {
    } else if k > i {
        lemma_number_prefix(s, i + 1, k);
    }
}

fn punct(c: char, eq_next: bool) -> (res: Option<(Token, usize)>)
    ensures
        match punct_token(c, eq_next) {
            Some((t, n)) => res matches Some((tok, m)) && tok@ == t && m == n,
            None => res is None,
        },
{
    if c == '=' { if eq_next { Some((Token::EqualEqual, 2)) } else { Some((Token::Equal, 1)) } }
    else if c == '!' { if eq_next { Some((Token::BangEqual, 2)) } else { Some((Token::Bang, 1)) } }
    else if c == '<' { if eq_next { Some((Token::LessEqual, 2)) } else { Some((Token::Less, 1)) } }
    else if c == '>' { if eq_next { Some((Token::GreaterEqual, 2)) } else { Some((Token::Greater, 1)) } }
    else if c == '+' { Some((Token::Plus, 1)) }
    else if c == '-' { Some((Token::Dash, 1)) }
    else if c == '*' { Some((Token::Star, 1)) }
    else if c == ';' { Some((Token::Semicolon, 1)) }
    else if c == ':' { Some((Token::Colon, 1)) }
    else if c == '\'' { Some((Token::Quote, 1)) }
    else if c == '(' { Some((Token::OpenParenthese, 1)) }
    else if c == ')' { Some((Token::CloseParenthese, 1)) }
    else if c == '{' { Some((Token::OpenBracket, 1)) }
    else if c == '}' { Some((Token::CloseBracket, 1)) }
    else if c == '[' { Some((Token::OpenSquareBracket, 1)) }
    else if c == ']' { Some((Token::CloseSquareBracket, 1)) }
    else if c == ',' { Some((Token::Comma, 1)) }
    else if c == '#' { Some((Token::Hash, 1)) }
    else { None }
}

/// One step of the lexer, as `lex_step` states it.
fn lex_one(s: &Vec<char>, i: usize) -> (res: Option<(Option<Token>, usize)>)
    requires
        i < s@.len(),
    ensures
        match lex_step(s@, i as int) {
            Some((t, j)) => res matches Some((tok, k)) && opt_token_m(tok) == t && k == j,
            None => res is None,
        },
{
    proof {
        lemma_lex_step_advances(s@, i as int);
    }
    let n = s.len();
    let c = s[i];
    let eq_next = i + 1 < n && s[i + 1] == '=';
    if c == ' ' || c == '\n' || c == '\t' {
        Some((None, i + 1))
    } else if c == '/' {
        if i + 1 < s.len() && s[i + 1] == '/' {
            Some((None, scan_comment_end(s, i + 2)))
        } else {
            Some((Some(Token::Slash), i + 1))
        }
    } else if c == '.' {
        if i + 1 < s.len() && s[i + 1] == '.' {
            Some((Some(Token::Range), i + 2))
        } else {
            Some((Some(Token::Dot), i + 1))
        }
    } else if c == '"' {
        let e = scan_string_end(s, i + 1);
        proof {
            lemma_string_end(s@, i + 1);
        }
        let lit = sub_chars(s, i + 1, e);
        let next = if e < s.len() { e + 1 } else { e };
        Some((Some(Token::StringLiteral(string_from_chars(&lit))), next))
    } else if exec_is_digit(c) {
        let e = scan_number_end(s, i + 1);
        proof {
            lemma_number_end(s@, i + 1);
            lemma_number_chars(s@, i as int, e as int);
        }
        let w = sub_chars(s, i, e);
        assert forall|j: int| 0 <= j < w@.len() implies is_digit(#[trigger] w@[j]) || w@[j] == '.' by {
            assert(w@[j] == s@[i + j]);
        }
        match number_to_token(&w) {
            Some(t) => Some((Some(t), e)),
            None => None,
        }
    } else if ('a' <= c && c <= 'z') || ('A' <= c && c <= 'Z') || c == '_' {
        let e = scan_ident_end(s, i + 1);
        proof {
            lemma_ident_end(s@, i + 1);
        }
        let w = sub_chars(s, i, e);
        Some((Some(word_to_token(&w)), e))
    } else {
        match punct(c, eq_next) {
            Some((t, n)) => Some((Some(t), i + n)),
            None => None,
        }
    }
}

/// Splits a source text into tokens; `None` where the lexer stops on the text: on a
/// character that no token starts with, on an integer larger than `i64::MAX`, or on a
/// number with more than one point.
pub fn try_tokenize(code: &str) -> (res: Option<Vec<Token>>)
    ensures
        match spec_tokenize(code@) {
            Some(ts) => res matches Some(v) && tokens_m(v@) == ts,
            None => res is None,
        },
{
    let s = chars_of(code);
    let mut out: Vec<Token> = Vec::new();
    let mut i: usize = 0;
    while i < s.len()
        invariant
            s@ == code@,
            i <= s@.len(),
            lex_from(s@, 0) == match lex_from(s@, i as int) {
                Some(rest) => Some(tokens_m(out@) + rest),
                None => None::<Seq<TokenM>>,
            },
        decreases s@.len() - i,
    {
        proof {
            lemma_lex_step_advances(s@, i as int);
        }
        match lex_one(&s, i) {
            None => {
                return None;
            },
            Some((t, j)) => {
                let ghost old_out = out@;
                match t {
                    Some(tok) => {
                        out.push(tok);
                        proof {
                            assert(tokens_m(out@) =~= tokens_m(old_out) + seq![tok@]);
                            match lex_from(s@, j as int) {
                                Some(rest) => {
                                    assert(tokens_m(old_out) + (seq![tok@] + rest) =~= tokens_m(out@) + rest);
                                },
                                None => {},
                            }
                        }
                    },
                    None => {},
                }
                i = j;
            },
        }
    }
    assert(tokens_m(out@) + Seq::<TokenM>::empty() =~= tokens_m(out@));
    Some(out)
}

impl Token {
    /// Splits a source text into tokens.
    pub fn tokenize(code: &str) -> (res: Vec<Token>)
        requires
            spec_tokenize(code@) is Some,
        ensures
            tokens_m(res@) == spec_tokenize(code@).unwrap(),
    {
        match try_tokenize(code) {
            Some(v) => v,
            None => Vec::new(),
        }
    }
}

} // verus!
