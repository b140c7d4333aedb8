//! Small helpers on strings and lists of strings.

use vstd::prelude::*;
use vstd::string::*;

verus! {

/// The texts of a list of strings.
pub open spec fn strings_of(items: Seq<String>) -> Seq<Seq<char>> {
    items.map_values(|s: String| s@)
}

/// `prefix` followed by `rest`.
pub fn concat(prefix: &str, rest: &str) -> (whole: String)
    ensures
        whole@ == prefix@ + rest@,
{
    let mut whole = String::from_str(prefix);
    whole.append(rest);
    whole
}

/// A copy of `items` with the same texts in the same order.
pub fn clone_strings(items: &Vec<String>) -> (copy: Vec<String>)
    ensures
        strings_of(copy@) == strings_of(items@),
{
    let mut copy: Vec<String> = Vec::new();
    let mut i: usize = 0;
    while i < items.len()
        invariant
            i <= items.len(),
            copy@.len() == i,
            forall|j: int| 0 <= j < i ==> (#[trigger] copy@[j])@ == items@[j]@,
        decreases items.len() - i,
    {
        copy.push(items[i].clone());
        i += 1;
    }
    assert(strings_of(copy@) =~= strings_of(items@));
    copy
}

} // verus!
