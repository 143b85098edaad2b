use vstd::prelude::*;

verus! {

/// A table from names to entries; a later entry for a name hides the earlier ones.
pub struct Table<V> {
    entries: Vec<(String, V)>,
}

/// The entries that a list of pairs makes, a later pair for a name winning.
pub open spec fn table_map<V>(s: Seq<(String, V)>) -> Map<Seq<char>, V>
    decreases s.len(),
{
    if s.len() == 0 {
        Map::empty()
    } else {
        table_map(s.drop_last()).insert(s.last().0@, s.last().1)
    }
}

impl<V> View for Table<V> {
    type V = Map<Seq<char>, V>;

    closed spec fn view(&self) -> Map<Seq<char>, V> {
        table_map(self.entries@)
    }
}

impl<V> Table<V> {
    /// An empty table.
    pub fn new() -> (res: Self)
        ensures
            res@ == Map::<Seq<char>, V>::empty(),
    {
        Table { entries: Vec::new() }
    }

    /// Sets the entry for `name`.
    pub fn insert(&mut self, name: String, value: V)
        ensures
            final(self)@ == old(self)@.insert(name@, value),
    {
        let ghost before = self.entries@;
        self.entries.push((name, value));
        assert(self.entries@.drop_last() =~= before);
    }

    /// The entry for `name`, if there is one.
    pub fn get(&self, name: &String) -> (res: Option<&V>)
        ensures
            match res {
                Some(v) => self@.contains_key(name@) && *v == self@[name@],
                None => !self@.contains_key(name@),
            },
    {
        let mut i = self.entries.len();
        while i > 0
            invariant
                i <= self.entries@.len(),
                forall|k: int| i <= k < self.entries@.len() ==> #[trigger] self.entries@[k].0@ != name@,
            decreases i,
        {
            i = i - 1;
            if self.entries[i].0 == *name {
                proof {
                    lemma_table_suffix(self.entries@, i as int, name@);
                }
                return Some(&self.entries[i].1);
            }
        }
        proof {
            lemma_table_absent(self.entries@, name@);
        }
        None
    }

    /// Whether there is an entry for `name`.
    pub fn contains_key(&self, name: &String) -> (res: bool)
        ensures
            res == self@.contains_key(name@),
    {
        self.get(name).is_some()
    }
}

proof fn lemma_table_suffix<V>(s: Seq<(String, V)>, i: int, n: Seq<char>)
    requires
        0 <= i < s.len(),
        s[i].0@ == n,
        forall|k: int| i < k < s.len() ==> #[trigger] s[k].0@ != n,
    ensures
        table_map(s).contains_key(n),
        table_map(s)[n] == s[i].1,
    decreases s.len(),
{
    if i < s.len() - 1 {
        let d = s.drop_last();
        assert forall|k: int| i < k < d.len() implies #[trigger] d[k].0@ != n by {
            assert(d[k] == s[k]);
        }
        lemma_table_suffix(d, i, n);
    }
}

proof fn lemma_table_absent<V>(s: Seq<(String, V)>, n: Seq<char>)
    requires
        forall|k: int| 0 <= k < s.len() ==> #[trigger] s[k].0@ != n,
    ensures
        !table_map(s).contains_key(n),
    decreases s.len(),
{
    if s.len() > 0 {
        let d = s.drop_last();
        assert forall|k: int| 0 <= k < d.len() implies #[trigger] d[k].0@ != n by {
            assert(d[k] == s[k]);
        }
        lemma_table_absent(d, n);
    }
}

} // verus!
