//! Opening a project without checking its key.

use crate::{first_segment, Deta, Project};
use vstd::prelude::*;
use vstd::std_specs::iter::IteratorSpec;

verus! {

/// The project that `key` opens, for any `key`: its identifier is what
/// stands before the first underscore.
pub fn new(key: &str) -> (deta: Deta)
    ensures
        deta@ == (Project { id: first_segment(key@), key: key@ }),
{
    broadcast use vstd::string::group_string_axioms;

    let mut i: usize = 0;
    let n = key.unicode_len();
    let mut it = key.chars();
    loop
        invariant_except_break
            it.remaining() == key@.skip(i as int),
        invariant
            i <= n == key@.len(),
            forall|j: int| 0 <= j < i ==> key@[j] != '_',
        ensures
            i <= n == key@.len(),
            forall|j: int| 0 <= j < i ==> key@[j] != '_',
            i < n ==> key@[i as int] == '_',
        decreases n - i,
    {
        match it.next() {
            None => {
                break ;
            },
            Some(c) => {
                if c == '_' {
                    break ;
                }
                i = i + 1;
            },
        }
    }
    proof {
        key@.index_of_first_ensures('_');
        if i == n {
            assert(key@.take(i as int) =~= key@);
        }
    }
    Deta::from_parts(String::from_str(key.substring_char(0, i)), String::from_str(key))
}

} // verus!
