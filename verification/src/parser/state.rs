use vstd::prelude::*;
use crate::token::{Token, TokenM};
use crate::ast::{ExprM, strings_m};
use crate::eat::token_at;
use crate::scope::Scope;

verus! {

/// The state that parsing threads through: the position in the token list, the
/// variables declared so far and the modules named by imports so far.
pub struct PS {
    pub pos: int,
    pub scope: Map<Seq<char>, ExprM>,
    pub mods: Seq<Seq<char>>,
}

impl PS {
    /// The token at the current position, if there is one.
    pub open spec fn at(self, t: Seq<Token>) -> Option<TokenM> {
        token_at(t, self.pos)
    }

    /// The state `n` tokens further on.
    pub open spec fn skip(self, n: int) -> PS {
        PS { pos: self.pos + n, scope: self.scope, mods: self.mods }
    }
}

/// The result of parsing from a state: a value and the state after it; a rejection and
/// the state where it was found; or a stop (the parse cannot go on with this input).
pub enum Res<T> {
    Done(T, PS),
    Fail(PS),
    Abort,
}

/// How many tokens are left from position `p`.
pub open spec fn rem_at(t: Seq<Token>, p: int) -> nat {
    if p < t.len() { (t.len() - p) as nat } else { 0 }
}

/// How many tokens are left from the current position.
pub open spec fn rem(t: Seq<Token>, s: PS) -> nat {
    rem_at(t, s.pos)
}

/// Whether `after` keeps what `before` held: the modules discovered before stay, in their
/// order, at the front of the list, and every variable declared before stays declared.
pub open spec fn grows(before: PS, after: PS) -> bool {
    &&& before.mods.len() <= after.mods.len()
    &&& forall|i: int| 0 <= i < before.mods.len() ==> #[trigger] after.mods[i] == before.mods[i]
    &&& forall|k: Seq<char>| before.scope.contains_key(k) ==> #[trigger] after.scope.contains_key(k)
}

/// The parsing state that the executable parser holds.
pub open spec fn ps(pos: usize, mods: Vec<String>, scope: Scope) -> PS {
    PS { pos: pos as int, scope: scope@, mods: strings_m(mods@) }
}

/// A rejection with the given text.
pub fn error(msg: &str) -> (res: ParseFailure)
    ensures
        res matches ParseFailure::Error(m) && m@ == msg@,
{
    ParseFailure::Error(String::from_str(msg))
}

/// A stop with the given text.
pub fn abort(msg: &str) -> (res: ParseFailure)
    ensures
        res is Abort,
{
    ParseFailure::Abort(String::from_str(msg))
}

/// Why a parse did not produce a value.
#[derive(Debug)]
pub enum ParseFailure {
    /// The input does not have the expected form; the text says what was expected.
    Error(String),
    /// The input is one on which parsing cannot go on; the text says why.
    Abort(String),
}

/// Whether an executable result `r`, with state `after` behind it, is what `expected`
/// says, its value taken through `f`.
pub open spec fn outcome<T, M>(r: Result<T, ParseFailure>, after: PS, expected: Res<M>, f: spec_fn(T) -> M) -> bool {
    match expected {
        Res::Done(v, s) => match r {
            Ok(x) => f(x) == v && after == s,
            Err(_) => false,
        },
        Res::Fail(s) => match r {
            Err(ParseFailure::Error(_)) => after == s,
            _ => false,
        },
        Res::Abort => match r {
            Err(ParseFailure::Abort(_)) => true,
            _ => false,
        },
    }
}

/// What a public parsing function answers for what the grammar says: the value and
/// the state after it where the grammar accepts, an error and the state where it stopped
/// where the grammar rejects. The grammar's stops are left out by the callers' requirements.
pub open spec fn answers<T, M>(res: Result<T, String>, after: PS, expected: Res<M>, f: spec_fn(T) -> M) -> bool {
    match expected {
        Res::Done(v, s) => match res {
            Ok(x) => f(x) == v && after == s,
            Err(_) => false,
        },
        Res::Fail(s) => res is Err && after == s,
        Res::Abort => false,
    }
}

/// As `answers`, for a function that answers `None` where the grammar rejects.
pub open spec fn answers_opt<T, M>(res: Option<T>, after: PS, expected: Res<M>, f: spec_fn(T) -> M) -> bool {
    match expected {
        Res::Done(v, s) => match res {
            Some(x) => f(x) == v && after == s,
            None => false,
        },
        Res::Fail(s) => res is None && after == s,
        Res::Abort => false,
    }
}

/// As `answers`, comparing only the position and the scope of the states.
pub open spec fn answers_in<T, M>(res: Result<T, String>, pos: int, scope: Map<Seq<char>, ExprM>, expected: Res<M>, f: spec_fn(T) -> M) -> bool {
    match expected {
        Res::Done(v, s) => match res {
            Ok(x) => f(x) == v && pos == s.pos && scope == s.scope,
            Err(_) => false,
        },
        Res::Fail(s) => res is Err && pos == s.pos && scope == s.scope,
        Res::Abort => false,
    }
}

/// A state at `pos` with an empty scope and the given modules.
pub open spec fn plain(pos: usize, mods: Seq<String>) -> PS {
    PS { pos: pos as int, scope: Map::empty(), mods: strings_m(mods) }
}

/// A state at `pos` with the given scope and no modules.
pub open spec fn scoped(pos: usize, scope: Scope) -> PS {
    PS { pos: pos as int, scope: scope@, mods: Seq::empty() }
}

/// Whether a parse was rejected with the text `m`.
pub open spec fn failed_with<T>(r: Result<T, ParseFailure>, m: Seq<char>) -> bool {
    r matches Err(ParseFailure::Error(e)) && e@ == m
}

/// Whether a parse answered an error with the text `m`.
pub open spec fn refused_with<T>(r: Result<T, String>, m: Seq<char>) -> bool {
    r matches Err(e) && e@ == m
}

/// What the head of a `for` loop at `p` is refused with, if it is: `for`, a name,
/// `in`, a number, `..` and a number.
pub open spec fn for_head_failure(t: Seq<Token>, p: int) -> Option<Seq<char>> {
    if token_at(t, p) != Some(TokenM::For) {
        Some("Expected `for`"@)
    } else {
        match token_at(t, p + 1) {
            Some(TokenM::Id(v)) => if token_at(t, p + 2) != Some(TokenM::In) {
                Some("Expected `in` after `"@ + v + "`"@)
            } else {
                match token_at(t, p + 3) {
                    Some(TokenM::Number(_)) => if token_at(t, p + 4) != Some(TokenM::Range) {
                        Some("Expected `..` in for loop range"@)
                    } else {
                        match token_at(t, p + 5) {
                            Some(TokenM::Number(_)) => None,
                            _ => Some("For loop failed"@),
                        }
                    },
                    _ => Some("For loop failed"@),
                }
            },
            _ => Some("For loop failed"@),
        }
    }
}

/// What the head of a `let` at `p` is refused with, if it is: `let`, a name and `=`.
pub open spec fn let_head_failure(t: Seq<Token>, p: int) -> Option<Seq<char>> {
    if token_at(t, p) != Some(TokenM::Let) {
        Some("Expected keyword `let`"@)
    } else {
        match token_at(t, p + 1) {
            Some(TokenM::Id(name)) => if token_at(t, p + 2) != Some(TokenM::Equal) {
                Some("Expected an equal sign after `"@ + name + "`"@)
            } else {
                None
            },
            _ => Some("Expected an identifier name after keyword `let`"@),
        }
    }
}

/// What the head of an assignment at `p` is refused with, if it is: a name and `=`.
pub open spec fn assign_head_failure(t: Seq<Token>, p: int) -> Option<Seq<char>> {
    match token_at(t, p) {
        Some(TokenM::Id(id)) => if token_at(t, p + 1) != Some(TokenM::Equal) {
            Some("Expected an equal sign `=` after `"@ + id + "`"@)
        } else {
            None
        },
        _ => Some("Where identifier"@),
    }
}

/// The text of a failure.
pub fn into_message<T>(r: Result<T, ParseFailure>) -> (res: Result<T, String>)
    ensures
        match r {
            Ok(x) => res matches Ok(y) && y == x,
            Err(ParseFailure::Error(m)) => res matches Err(n) && n == m,
            Err(ParseFailure::Abort(m)) => res matches Err(n) && n == m,
        },
{
    match r {
        Ok(x) => Ok(x),
        Err(ParseFailure::Error(m)) => Err(m),
        Err(ParseFailure::Abort(m)) => Err(m),
    }
}

} // verus!
