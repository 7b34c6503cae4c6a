//! Shared data carriers: the immutable input artifact and the per-run
//! mutation record.

use vstd::prelude::*;

use crate::num::Num;
use crate::strutil::str_eq;

verus! {

/// The opaque input object a pipeline inspects: raw bytes, optionally
/// decoded text, and string-keyed metadata. It is read-only; no stage of a
/// run ever mutates it.
#[derive(Debug)]
pub struct Artifact {
    /// Raw bytes of the artifact (file, payload, stream, etc.)
    pub bytes: Vec<u8>,
    /// Optional decoded text (if applicable)
    pub text: Option<String>,
    /// Optional metadata (MIME, filename, etc.), keys unique
    pub meta: Vec<(String, String)>,
}

/// The mutation record one run produces: ordered tag, emit and deferred
/// lists, and a score table with unique keys.
#[derive(Debug)]
pub struct LuciusContext {
    pub tags: Vec<String>,
    pub emits: Vec<String>,
    pub deferred: Vec<String>,
    pub scores: Vec<(String, Num)>,
}

/// The score table holds each key at most once.
pub open spec fn scores_unique(scores: Seq<(String, Num)>) -> bool {
    forall|i: int, j: int|
        0 <= i < j < scores.len() ==> scores[i].0@ != scores[j].0@
}

impl LuciusContext {
    /// A context is well formed when its score keys are unique.
    pub open spec fn wf(&self) -> bool {
        scores_unique(self.scores@)
    }

    /// The score bound to `key`, if any.
    pub open spec fn spec_score_of(&self, key: Seq<char>) -> Option<Num> {
        lookup_score(self.scores@, key)
    }

    pub fn new() -> (r: LuciusContext)
        ensures
            r.tags@.len() == 0,
            r.emits@.len() == 0,
            r.deferred@.len() == 0,
            r.scores@.len() == 0,
            r.wf(),
    {
        LuciusContext {
            tags: Vec::new(),
            emits: Vec::new(),
            deferred: Vec::new(),
            scores: Vec::new(),
        }
    }

    /// Looks a score key up in the table.
    pub fn score_of(&self, key: &str) -> (r: Option<Num>)
        ensures
            r == self.spec_score_of(key@),
    {
        let mut i: usize = 0;
        assert(self.scores@.skip(0) =~= self.scores@);
        while i < self.scores.len()
            invariant
                i <= self.scores@.len(),
                lookup_score(self.scores@, key@) == lookup_score(self.scores@.skip(i as int), key@),
            decreases self.scores@.len() - i,
        {
            assert(self.scores@.skip(i as int)[0] == self.scores@[i as int]);
            if str_eq(self.scores[i].0.as_str(), key) {
                return Some(self.scores[i].1);
            }
            assert(self.scores@.skip(i as int).skip(1) =~= self.scores@.skip(i + 1));
            i += 1;
        }
        None
    }
}

/// First binding of `key` in an association list of scores.
pub open spec fn lookup_score(scores: Seq<(String, Num)>, key: Seq<char>) -> Option<Num>
    decreases scores.len(),
{
    if scores.len() == 0 {
        None
    } else if scores[0].0@ == key {
        Some(scores[0].1)
    } else {
        lookup_score(scores.skip(1), key)
    }
}

/// Descriptor of one registered operation function, for external tooling
/// and introspection; compilation and execution do not consume it.
pub struct LuopDescriptor {
    pub fn_name: &'static str,
    pub output: &'static str,
    pub module: &'static str,
}

} // verus!
