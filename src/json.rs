use vstd::prelude::*;

use crate::ieee::RealBits;

verus! {

/// A parsed JSON document. Object members keep their textual order; numbers
/// are carried as the bit pattern of their double-precision value.
#[derive(Debug)]
pub enum Json {
    Null,
    Bool(bool),
    Number(RealBits),
    Str(String),
    Array(Vec<Json>),
    Object(Vec<(String, Json)>),
}

/// Index of the first of the first `n` members named `key`.
pub open spec fn first_index(members: Seq<(String, Json)>, key: Seq<char>, n: nat) -> Option<int>
    decreases n,
{
    if n == 0 {
        None
    } else {
        match first_index(members, key, (n - 1) as nat) {
            Some(i) => Some(i),
            None => if members[n - 1].0@ == key {
                Some(n - 1)
            } else {
                None
            },
        }
    }
}

/// The value of the first member named `key`.
pub open spec fn lookup(members: Seq<(String, Json)>, key: Seq<char>) -> Option<Json> {
    match first_index(members, key, members.len()) {
        Some(i) => Some(members[i].1),
        None => None,
    }
}

proof fn lemma_first_index_stable(members: Seq<(String, Json)>, key: Seq<char>, k: nat, n: nat)
    requires
        k <= n,
        first_index(members, key, k) is Some,
    ensures
        first_index(members, key, n) == first_index(members, key, k),
    decreases n - k,
{
    if k < n {
        lemma_first_index_stable(members, key, k, (n - 1) as nat);
    }
}

/// Searches the first `n` members for one named `key`.
pub fn find_member(members: &Vec<(String, Json)>, key: &String, n: usize) -> (r: Option<usize>)
    requires
        n <= members.len(),
    ensures
        r matches Some(i) ==> first_index(members@, key@, n as nat) == Some(i as int) && i < n,
        r is None ==> first_index(members@, key@, n as nat) is None,
{
    let mut i: usize = 0;
    while i < n
        invariant
            i <= n <= members.len(),
            first_index(members@, key@, i as nat) is None,
        decreases n - i,
    {
        if members[i].0 == *key {
            proof {
                lemma_first_index_stable(members@, key@, (i + 1) as nat, n as nat);
            }
            return Some(i);
        }
        i = i + 1;
    }
    None
}

/// The first member named `key`, if any.
pub fn get<'a>(members: &'a Vec<(String, Json)>, key: &String) -> (r: Option<&'a Json>)
    ensures
        r matches Some(v) ==> lookup(members@, key@) == Some(*v),
        r is None ==> lookup(members@, key@) is None,
{
    match find_member(members, key, members.len()) {
        Some(i) => Some(&members[i].1),
        None => None,
    }
}

} // verus!
