//! Shared index pieces: one step's compiled information, and ordered
//! association lists with unique string keys, the backbone of every
//! index.

use vstd::prelude::*;

use crate::strutil::str_eq;

verus! {

/// One compiled step: its output binding, and the operation function it
/// invokes.
pub struct StepInfo {
    pub binding: String,
    /// e.g. "inspect_magic"
    pub luop_fn: Option<String>,
}

/// First value bound to `name` in an association list.
pub open spec fn lookup_by_name<T>(s: Seq<(String, T)>, name: Seq<char>) -> Option<T>
    decreases s.len(),
{
    if s.len() == 0 {
        None
    } else if s[0].0@ == name {
        Some(s[0].1)
    } else {
        lookup_by_name(s.skip(1), name)
    }
}

/// Pairwise-distinct keys.
pub open spec fn keys_unique<T>(s: Seq<(String, T)>) -> bool {
    forall|i: int, j: int| 0 <= i < j < s.len() ==> s[i].0@ != s[j].0@
}

/// In a unique-keyed association list, looking a present key up finds
/// exactly its entry.
pub proof fn lemma_lookup_at<T>(s: Seq<(String, T)>, k: int)
    requires
        keys_unique(s),
        0 <= k < s.len(),
    ensures
        lookup_by_name(s, s[k].0@) == Some(s[k].1),
    decreases s.len(),
{
    if k > 0 {
        assert(s[0].0@ != s[k].0@);
        assert(keys_unique(s.skip(1))) by {
            assert(forall|i: int, j: int|
                0 <= i < j < s.skip(1).len() ==> s.skip(1)[i].0@ == s[i + 1].0@ && s.skip(1)[j].0@
                    == s[j + 1].0@);
        }
        lemma_lookup_at(s.skip(1), k - 1);
        assert(s.skip(1)[k - 1] == s[k]);
    }
}

/// A missing key looks up to nothing.
pub proof fn lemma_lookup_absent<T>(s: Seq<(String, T)>, name: Seq<char>)
    requires
        forall|i: int| 0 <= i < s.len() ==> (#[trigger] s[i].0@) != name,
    ensures
        lookup_by_name(s, name) is None,
    decreases s.len(),
{
    if s.len() > 0 {
        assert(forall|i: int|
            0 <= i < s.skip(1).len() ==> (#[trigger] s.skip(1)[i].0@) == s[i + 1].0@);
        lemma_lookup_absent(s.skip(1), name);
    }
}

/// Looks a key up in an association list.
pub fn find_by_name<'a, T>(s: &'a Vec<(String, T)>, name: &str) -> (r: Option<&'a T>)
    ensures
        match r {
            Some(v) => lookup_by_name(s@, name@) == Some(*v),
            None => lookup_by_name(s@, name@) is None,
        },
{
    let mut i: usize = 0;
    assert(s@.skip(0) =~= s@);
    while i < s.len()
        invariant
            i <= s@.len(),
            lookup_by_name(s@, name@) == lookup_by_name(s@.skip(i as int), name@),
        decreases s@.len() - i,
    {
        assert(s@.skip(i as int)[0] == s@[i as int]);
        if str_eq(s[i].0.as_str(), name) {
            return Some(&s[i].1);
        }
        assert(s@.skip(i as int).skip(1) =~= s@.skip(i + 1));
        i += 1;
    }
    None
}

/// Whether an association list holds a key.
pub fn has_name<T>(s: &Vec<(String, T)>, name: &str) -> (r: bool)
    ensures
        r == (lookup_by_name(s@, name@) is Some),
{
    match find_by_name(s, name) {
        Some(_) => true,
        None => false,
    }
}

} // verus!
