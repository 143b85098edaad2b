use vstd::prelude::*;
use crate::value::{Value, ValueM, int_text, int_to_text, bool_text};
use crate::text::string_from_chars;

verus! {

/// The text that std's `Debug` gives a string: the string in double quotes, its
/// characters escaped as `char::escape_debug` does. What the escapes are rests on
/// std's tables and is only named here.
pub uninterp spec fn debug_quoted(s: Seq<char>) -> Seq<char>;

/// std's `Debug` formatting of a string (`format!("{:?}", s)`).
#[verifier::external_body]
fn str_debug(s: &str) -> (res: String)
    ensures
        res@ == debug_quoted(s@),
{
    format!("{:?}", s)
}

/// The `Debug` text of a value: the variant's name and its content in brackets, a
/// float's content being the literal that spells it.
pub open spec fn value_debug(v: ValueM) -> Seq<char> {
    match v {
        ValueM::Int(i) => "Int("@ + int_text(i as int) + ")"@,
        ValueM::Float(t) => "Float("@ + t + ")"@,
        ValueM::Bool(b) => "Bool("@ + bool_text(b) + ")"@,
        ValueM::Str(s) => "Str("@ + debug_quoted(s) + ")"@,
    }
}

/// The `Debug` texts of values, separated by `, `.
pub open spec fn values_debug_items(vs: Seq<ValueM>) -> Seq<char>
    decreases vs.len(),
{
    if vs.len() == 0 {
        Seq::empty()
    } else if vs.len() == 1 {
        value_debug(vs[0])
    } else {
        values_debug_items(vs.drop_last()) + ", "@ + value_debug(vs.last())
    }
}

/// The views of a list of values.
pub open spec fn values_m(vs: Seq<Value>) -> Seq<ValueM> {
    vs.map_values(|v: Value| v@)
}

fn value_debug_text(v: &Value) -> (res: String)
    ensures
        res@ == value_debug(v@),
{
    match v {
        Value::Int(i) => {
            let mut s = String::from_str("Int(");
            let t = string_from_chars(&int_to_text(*i));
            s.append(t.as_str());
            s.append(")");
            s
        },
        Value::Float(t) => {
            let mut s = String::from_str("Float(");
            s.append(t.as_str());
            s.append(")");
            s
        },
        Value::Bool(b) => {
            let mut s = String::from_str("Bool(");
            if *b {
                s.append("true");
            } else {
                s.append("false");
            }
            s.append(")");
            s
        },
        Value::Str(t) => {
            let mut s = String::from_str("Str(");
            let q = str_debug(t.as_str());
            s.append(q.as_str());
            s.append(")");
            s
        },
    }
}

/// An instruction: a call of a function with constant arguments.
#[derive(Debug)]
pub struct Instr {
    pub func_name: String,
    pub args: Vec<Value>,
}

impl Instr {
    /// A call of `func_name` with `args`.
    pub fn printf(func_name: String, args: Vec<Value>) -> (res: Self)
        ensures
            res.func_name == func_name,
            res.args == args,
    {
        Instr { func_name, args }
    }

    /// The LLVM IR text of the call: `call i32 (ptr, ...) @name([args])`, the arguments
    /// in their `Debug` text.
    pub fn to_llvm_ir(&self) -> (res: String)
        ensures
            res@ == "call i32 (ptr, ...) @"@ + self.func_name@ + "(["@ + values_debug_items(values_m(self.args@)) + "])"@,
    {
        let mut items = String::new();
        let mut i: usize = 0;
        while i < self.args.len()
            invariant
                i <= self.args@.len(),
                items@ == values_debug_items(values_m(self.args@.take(i as int))),
            decreases self.args@.len() - i,
        {
            let ghost before = items@;
            assert(values_m(self.args@.take(i + 1)).drop_last() =~= values_m(self.args@.take(i as int)));
            if i > 0 {
                items.append(", ");
            }
            let t = value_debug_text(&self.args[i]);
            items.append(t.as_str());
            i = i + 1;
            proof {
                if i == 1 {
                    assert(values_m(self.args@.take(1)) =~= seq![self.args@[0]@]);
                }
            }
        }
        assert(self.args@.take(self.args@.len() as int) =~= self.args@);
        let mut s = String::from_str("call i32 (ptr, ...) @");
        s.append(self.func_name.as_str());
        s.append("([");
        s.append(items.as_str());
        s.append("])");
        s
    }
}

} // verus!
