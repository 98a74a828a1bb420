use vstd::prelude::*;

use crate::text::{same_text, split_on, split_text, trim, trim_text};

verus! {

/// The non-blank lines of `lines`, trimmed.
pub open spec fn names_in(lines: Seq<Seq<char>>) -> Seq<Seq<char>>
    decreases lines.len(),
{
    if lines.len() == 0 {
        Seq::empty()
    } else {
        let rest = names_in(lines.drop_last());
        let t = trim_text(lines.last());
        if t.len() == 0 {
            rest
        } else {
            rest.push(t)
        }
    }
}

/// The keymap names in a listing with one name per line; blank lines are
/// skipped and surrounding whitespace dropped.
pub open spec fn keymap_names_of(listing: Seq<char>) -> Seq<Seq<char>> {
    names_in(split_text(listing, '\n'))
}

/// Reads the keymap names from a listing with one name per line.
pub fn keymap_names(listing: &str) -> (r: Vec<String>)
    ensures
        r@.map_values(|s: String| s@) == keymap_names_of(listing@),
{
    let lines = split_on(listing, '\n');
    let ghost all = lines@.map_values(|p: String| p@);
    let mut names: Vec<String> = Vec::new();
    let mut i: usize = 0;
    assert(all.take(0) =~= Seq::<Seq<char>>::empty());
    while i < lines.len()
        invariant
            i <= lines.len(),
            all == lines@.map_values(|p: String| p@),
            names@.map_values(|s: String| s@) == names_in(all.take(i as int)),
        decreases lines.len() - i,
    {
        let t = trim(lines[i].as_str());
        let ghost before = names@;
        assert(all.take(i + 1).drop_last() =~= all.take(i as int));
        assert(all.take(i + 1).last() == lines[i as int]@);
        if t.unicode_len() > 0 {
            names.push(String::from_str(t));
            assert(names@.map_values(|s: String| s@) =~= before.map_values(|s: String| s@).push(
                t@,
            ));
        }
        i = i + 1;
    }
    assert(all.take(lines.len() as int) =~= all);
    names
}

/// Whether `map` is one of `names`.
pub fn is_known_keymap(names: &Vec<String>, map: &str) -> (r: bool)
    ensures
        r == exists|i: int| 0 <= i < names@.len() && (#[trigger] names@[i])@ == map@,
{
    let mut i: usize = 0;
    while i < names.len()
        invariant
            i <= names.len(),
            forall|j: int| 0 <= j < i ==> (#[trigger] names@[j])@ != map@,
        decreases names.len() - i,
    {
        if same_text(names[i].as_str(), map) {
            return true;
        }
        i = i + 1;
    }
    false
}

} // verus!
