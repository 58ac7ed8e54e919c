//! Small helpers on lists.

use vstd::prelude::*;

use crate::text::texts;

verus! {

/// Whether a number is in a list.
pub fn has_number(list: &Vec<u8>, item: u8) -> (r: bool)
    ensures
        r == list@.contains(item),
{
    let mut i: usize = 0;
    while i < list.len()
        invariant
            i <= list@.len(),
            forall|j: int| 0 <= j < i ==> list@[j] != item,
        decreases list@.len() - i,
    {
        if list[i] == item {
            assert(list@[i as int] == item);
            return true;
        }
        i += 1;
    }
    false
}

/// No texts yet.
pub fn no_texts() -> (r: Vec<String>)
    ensures
        texts(r@) == Seq::<Seq<char>>::empty(),
{
    let list: Vec<String> = Vec::new();
    proof {
        assert(texts(list@) =~= Seq::<Seq<char>>::empty());
    }
    list
}

/// Appends a text.
pub fn add_text(list: &mut Vec<String>, item: &str)
    ensures
        texts(final(list)@) == texts(old(list)@).push(item@),
{
    list.push(item.to_string());
    proof {
        assert(texts(list@) =~= texts(old(list)@).push(item@));
    }
}

} // verus!
