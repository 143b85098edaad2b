use vstd::prelude::*;
use crate::text::string_from_chars;

verus! {

/// A constant value of the Kurai language.
#[derive(Debug, Clone, PartialEq)]
pub enum Value {
    Int(i64),
    /// A floating-point constant, held as the literal that spells it.
    Float(String),
    Bool(bool),
    Str(String),
}

/// The mathematical content of a value.
pub enum ValueM {
    Int(i64),
    Float(Seq<char>),
    Bool(bool),
    Str(Seq<char>),
}

impl View for Value {
    type V = ValueM;

    open spec fn view(&self) -> ValueM {
        match self {
            Value::Int(i) => ValueM::Int(*i),
            Value::Float(s) => ValueM::Float(s@),
            Value::Bool(b) => ValueM::Bool(*b),
            Value::Str(s) => ValueM::Str(s@),
        }
    }
}

pub open spec fn digit_char(d: int) -> char {
    if d == 0 { '0' } else if d == 1 { '1' } else if d == 2 { '2' } else if d == 3 { '3' }
    else if d == 4 { '4' } else if d == 5 { '5' } else if d == 6 { '6' } else if d == 7 { '7' }
    else if d == 8 { '8' } else { '9' }
}

/// The decimal digits of a natural number, most significant first, without leading zeros.
pub open spec fn nat_digits(n: nat) -> Seq<char>
    decreases n,
{
    if n < 10 { seq![digit_char(n as int)] } else { nat_digits(n / 10).push(digit_char((n % 10) as int)) }
}

/// The decimal text of an integer, with a leading `-` when it is negative.
pub open spec fn int_text(i: int) -> Seq<char> {
    if i < 0 { seq!['-'] + nat_digits((-i) as nat) } else { nat_digits(i as nat) }
}

pub open spec fn bool_text(b: bool) -> Seq<char> {
    if b { "true"@ } else { "false"@ }
}

/// The text of a value: decimal for integers, the literal for floats,
/// `true`/`false` for booleans, the string itself for strings.
pub open spec fn value_text(v: ValueM) -> Seq<char> {
    match v {
        ValueM::Int(i) => int_text(i as int),
        ValueM::Float(s) => s,
        ValueM::Bool(b) => bool_text(b),
        ValueM::Str(s) => s,
    }
}

fn digit_to_char(d: u64) -> (c: char)
    requires
        d < 10,
    ensures
        c == digit_char(d as int),
{
    if d == 0 { '0' } else if d == 1 { '1' } else if d == 2 { '2' } else if d == 3 { '3' }
    else if d == 4 { '4' } else if d == 5 { '5' } else if d == 6 { '6' } else if d == 7 { '7' }
    else if d == 8 { '8' } else { '9' }
}

/// The decimal digits of `n`.
fn u64_digits(n: u64) -> (res: Vec<char>)
    ensures
        res@ == nat_digits(n as nat),
    decreases n,
{
    if n < 10 {
        let mut v: Vec<char> = Vec::new();
        v.push(digit_to_char(n));
        assert(v@ =~= seq![digit_char(n as int)]);
        v
    } else {
        let mut v = u64_digits(n / 10);
        v.push(digit_to_char(n % 10));
        v
    }
}

/// The decimal text of a count.
pub fn count_text(n: usize) -> (res: String)
    ensures
        res@ == nat_digits(n as nat),
{
    string_from_chars(&u64_digits(n as u64))
}

/// The decimal text of a 64-bit integer.
pub fn int_to_text(i: i64) -> (res: Vec<char>)
    ensures
        res@ == int_text(i as int),
{
    if i < 0 {
        let mag: u64 = if i == i64::MIN { 9223372036854775808u64 } else { (-i) as u64 };
        let digits = u64_digits(mag);
        let mut out: Vec<char> = Vec::new();
        out.push('-');
        let mut k: usize = 0;
        while k < digits.len()
            invariant
                k <= digits@.len(),
                out@ == seq!['-'] + digits@.take(k as int),
            decreases digits@.len() - k,
        {
            out.push(digits[k]);
            k = k + 1;
            assert(out@ =~= seq!['-'] + digits@.take(k as int));
        }
        assert(digits@.take(digits@.len() as int) =~= digits@);
        out
    } else {
        u64_digits(i as u64)
    }
}

impl Value {
    /// The text of this value.
    pub fn to_string(&self) -> (res: String)
        ensures
            res@ == value_text(self@),
    {
        match self {
            Value::Int(i) => string_from_chars(&int_to_text(*i)),
            Value::Float(s) => s.clone(),
            Value::Bool(b) => {
                if *b { String::from_str("true") } else { String::from_str("false") }
            },
            Value::Str(s) => s.clone(),
        }
    }

    /// A copy of this value.
    pub fn copied(&self) -> (res: Value)
        ensures
            res == *self,
    {
        match self {
            Value::Int(i) => Value::Int(*i),
            Value::Float(s) => Value::Float(s.clone()),
            Value::Bool(b) => Value::Bool(*b),
            Value::Str(s) => Value::Str(s.clone()),
        }
    }
}

} // verus!
