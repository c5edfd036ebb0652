//! Association tables keyed by name, the shape in which the directory, the
//! waiter lists and the caches hold their entries: a vector of pairs whose
//! keys never repeat.

use vstd::prelude::*;

verus! {

/// The views of a list of names.
pub open spec fn strs_of(s: Seq<String>) -> Seq<Seq<char>> {
    s.map_values(|x: String| x@)
}

/// No two entries of the table carry the same name.
pub open spec fn names_unique<V>(s: Seq<(String, V)>) -> bool {
    forall|i: int, j: int| 0 <= i < j < s.len() ==> s[i].0@ != s[j].0@
}

/// Some entry of the table carries the name `n`.
pub open spec fn table_has<V>(s: Seq<(String, V)>, n: Seq<char>) -> bool {
    exists|i: int| 0 <= i < s.len() && s[i].0@ == n
}

/// The value stored under the name `n`; meaningful when `table_has` holds
/// and the names are unique.
pub open spec fn table_get<V>(s: Seq<(String, V)>, n: Seq<char>) -> V {
    s[choose|i: int| 0 <= i < s.len() && s[i].0@ == n].1
}

/// In a table with unique names, any entry carrying `n` holds `table_get`'s value.
pub proof fn lemma_table_get_unique<V>(s: Seq<(String, V)>, n: Seq<char>, i: int)
    requires
        names_unique(s),
        0 <= i < s.len(),
        s[i].0@ == n,
    ensures
        table_has(s, n),
        table_get(s, n) == s[i].1,
{
    assert(table_has(s, n));
    let j = choose|j: int| 0 <= j < s.len() && s[j].0@ == n;
    if i < j {
        assert(s[i].0@ != s[j].0@);
    } else if j < i {
        assert(s[j].0@ != s[i].0@);
    }
}

/// Finds the entry carrying the name `n`, scanning from the front.
pub fn table_find<V>(s: &Vec<(String, V)>, n: &String) -> (r: Option<usize>)
    ensures
        match r {
            Some(i) => i < s@.len() && s@[i as int].0@ == n@,
            None => !table_has(s@, n@),
        },
{
    let mut i: usize = 0;
    while i < s.len()
        invariant
            i <= s@.len(),
            forall|j: int| 0 <= j < i ==> s@[j].0@ != n@,
        decreases s@.len() - i,
    {
        if s[i].0 == *n {
            return Some(i);
        }
        i += 1;
    }
    None
}

} // verus!
