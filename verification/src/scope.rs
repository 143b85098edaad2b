use vstd::prelude::*;
use crate::ast::{Expr, ExprM};

verus! {

/// The variables declared so far, each with the expression it was declared with.
#[derive(Debug)]
pub struct Scope {
    vars: Vec<(String, Expr)>,
}

/// The bindings of a declaration list, a later declaration of a name hiding earlier ones.
pub open spec fn bindings(s: Seq<(String, Expr)>) -> Map<Seq<char>, ExprM>
    decreases s.len(),
{
    if s.len() == 0 {
        Map::empty()
    } else {
        bindings(s.drop_last()).insert(s.last().0@, s.last().1@)
    }
}

impl View for Scope {
    type V = Map<Seq<char>, ExprM>;

    closed spec fn view(&self) -> Map<Seq<char>, ExprM> {
        bindings(self.vars@)
    }
}

impl Default for Scope {
    fn default() -> (res: Self)
        ensures
            res@ == Map::<Seq<char>, ExprM>::empty(),
    {
        Scope::new()
    }
}

impl Scope {
    /// An empty scope.
    pub fn new() -> (res: Self)
        ensures
            res@ == Map::<Seq<char>, ExprM>::empty(),
    {
        Scope { vars: Vec::new() }
    }

    /// Binds `name` to `expr`, replacing an earlier binding of the same name.
    pub fn declare_var(&mut self, name: String, expr: Expr)
        ensures
            final(self)@ == old(self)@.insert(name@, expr@),
    {
        let ghost old_vars = self.vars@;
        self.vars.push((name, expr));
        assert(self.vars@.drop_last() =~= old_vars);
    }

    /// The expression bound to `name`, if any.
    pub fn get(&self, name: &String) -> (res: Option<&Expr>)
        ensures
            match res {
                Some(e) => self@.contains_key(name@) && e@ == self@[name@],
                None => !self@.contains_key(name@),
            },
    {
        let mut i = self.vars.len();
        while i > 0
            invariant
                i <= self.vars@.len(),
                forall|k: int| i <= k < self.vars@.len() ==> #[trigger] self.vars@[k].0@ != name@,
            decreases i,
        {
            i = i - 1;
            if self.vars[i].0 == *name {
                proof {
                    lemma_bindings_suffix(self.vars@, i as int, name@);
                }
                return Some(&self.vars[i].1);
            }
        }
        proof {
            lemma_bindings_absent(self.vars@, name@);
        }
        None
    }
}

proof fn lemma_bindings_suffix(s: Seq<(String, Expr)>, i: int, n: Seq<char>)
    requires
        0 <= i < s.len(),
        s[i].0@ == n,
        forall|k: int| i < k < s.len() ==> #[trigger] s[k].0@ != n,
    ensures
        bindings(s).contains_key(n),
        bindings(s)[n] == s[i].1@,
    decreases s.len(),
{
    if i < s.len() - 1 {
        let d = s.drop_last();
        assert forall|k: int| i < k < d.len() implies #[trigger] d[k].0@ != n by {
            assert(d[k] == s[k]);
        }
        lemma_bindings_suffix(d, i, n);
    }
}

proof fn lemma_bindings_absent(s: Seq<(String, Expr)>, n: Seq<char>)
    requires
        forall|k: int| 0 <= k < s.len() ==> #[trigger] s[k].0@ != n,
    ensures
        !bindings(s).contains_key(n),
    decreases s.len(),
{
    if s.len() > 0 {
        let d = s.drop_last();
        assert forall|k: int| 0 <= k < d.len() implies #[trigger] d[k].0@ != n by {
            assert(d[k] == s[k]);
        }
        lemma_bindings_absent(d, n);
    }
}

} // verus!
