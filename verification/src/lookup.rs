use vstd::prelude::*;
use crate::strings::str_eq;

verus! {

/// The position of the first entry keyed `key`: the entry a map keyed by
/// name gives back.
pub open spec fn first_index<V>(m: Seq<(String, V)>, key: Seq<char>) -> Option<int>
    decreases m.len(),
{
    if m.len() == 0 {
        None
    } else if m[0].0@ == key {
        Some(0)
    } else {
        match first_index(m.drop_first(), key) {
            Some(i) => Some(i + 1),
            None => None,
        }
    }
}

/// The value of the first entry keyed `key`.
pub open spec fn first_value<V>(m: Seq<(String, V)>, key: Seq<char>) -> Option<V> {
    match first_index(m, key) {
        Some(i) => Some(m[i].1),
        None => None,
    }
}

/// The first index found is an entry keyed `key`, and no entry before it is.
pub proof fn lemma_first_index<V>(m: Seq<(String, V)>, key: Seq<char>)
    ensures
        match first_index(m, key) {
            Some(i) => 0 <= i < m.len() && m[i].0@ == key
                && forall|j: int| 0 <= j < i ==> #[trigger] m[j].0@ != key,
            None => forall|j: int| 0 <= j < m.len() ==> #[trigger] m[j].0@ != key,
        },
    decreases m.len(),
{
    if m.len() > 0 {
        lemma_first_index(m.drop_first(), key);
        if m[0].0@ != key {
            assert forall|j: int| 1 <= j < m.len() implies #[trigger] m[j].0@ == m.drop_first()[j - 1].0@ by {}
        }
    }
}

/// The position of the first entry keyed `key`.
pub fn find_index<V>(m: &Vec<(String, V)>, key: &str) -> (r: Option<usize>)
    ensures
        match first_index(m@, key@) {
            Some(i) => r matches Some(j) && j as int == i,
            None => r is None,
        },
{
    proof {
        lemma_first_index(m@, key@);
    }
    let mut i: usize = 0;
    while i < m.len()
        invariant
            i <= m@.len(),
            forall|j: int| 0 <= j < i ==> #[trigger] m@[j].0@ != key@,
            match first_index(m@, key@) {
                Some(k) => 0 <= k < m@.len() && m@[k].0@ == key@
                    && forall|j: int| 0 <= j < k ==> #[trigger] m@[j].0@ != key@,
                None => forall|j: int| 0 <= j < m@.len() ==> #[trigger] m@[j].0@ != key@,
            },
        decreases m@.len() - i,
    {
        if str_eq(m[i].0.as_str(), key) {
            return Some(i);
        }
        i += 1;
    }
    None
}

/// The value of the first entry keyed `key`.
pub fn find_value<V: Copy>(m: &Vec<(String, V)>, key: &str) -> (r: Option<V>)
    ensures
        r == first_value(m@, key@),
{
    proof {
        lemma_first_index(m@, key@);
    }
    match find_index(m, key) {
        Some(i) => Some(m[i].1),
        None => None,
    }
}

} // verus!
