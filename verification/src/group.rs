//! Telling apart what the measuring points delivered.
//!
//! The samples of a run come as one sequence, ordered by the key of their
//! measuring point. Each run of samples with the same key is worked on by
//! itself, so that a measuring point with a wrong number of samples spoils
//! nothing but its own rows.

use crate::sample::Sample;
use vstd::prelude::*;

verus! {

/// The groups laid end to end.
pub open spec fn joined(groups: Seq<Vec<Sample>>) -> Seq<Sample>
    decreases groups.len(),
{
    if groups.len() == 0 {
        Seq::empty()
    } else {
        joined(groups.drop_last()) + groups.last()@
    }
}

/// `g` is not empty and all its samples carry the same key.
pub open spec fn has_one_key(g: Seq<Sample>) -> bool {
    &&& g.len() > 0
    &&& forall|t: int| 0 <= t < g.len() ==> (#[trigger] g[t]).key == g[0].key
}

/// `groups` is `s` cut wherever the key changes, and nowhere else.
pub open spec fn is_split_by_key(s: Seq<Sample>, groups: Seq<Vec<Sample>>) -> bool {
    &&& joined(groups) == s
    &&& forall|g: int| 0 <= g < groups.len() ==> has_one_key((#[trigger] groups[g])@)
    &&& forall|g: int, h: int|
        0 <= g && h == g + 1 && h < groups.len() ==> (#[trigger] groups[g])@[0].key != (
        #[trigger] groups[h])@[0].key
}

proof fn lemma_joined_push(groups: Seq<Vec<Sample>>, v: Vec<Sample>)
    ensures
        joined(groups.push(v)) == joined(groups) + v@,
{
    assert(groups.push(v).drop_last() =~= groups);
}

/// Cuts the samples into runs of equal key.
///
/// The runs keep the order of the samples and leave none out; samples that
/// follow each other with the same key stay together.
pub fn split_by_key(samples: &Vec<Sample>) -> (groups: Vec<Vec<Sample>>)
    ensures
        is_split_by_key(samples@, groups@),
{
    let mut groups: Vec<Vec<Sample>> = Vec::new();
    let mut run: Vec<Sample> = Vec::new();
    let mut i: usize = 0;
    while i < samples.len()
        invariant
            i <= samples.len(),
            joined(groups@) + run@ == samples@.take(i as int),
            (run@.len() == 0) == (i == 0),
            i == 0 ==> groups@.len() == 0,
            forall|g: int| 0 <= g < groups@.len() ==> has_one_key((#[trigger] groups@[g])@),
            forall|t: int| 0 <= t < run@.len() ==> (#[trigger] run@[t]).key == run@[0].key,
            forall|g: int, h: int|
                0 <= g && h == g + 1 && h < groups@.len() ==> (#[trigger] groups@[g])@[0].key != (
                #[trigger] groups@[h])@[0].key,
            groups@.len() > 0 && run@.len() > 0 ==> groups@.last()@[0].key != run@[0].key,
        decreases samples.len() - i,
    {
        let s: Sample = samples[i];
        let ghost before = joined(groups@) + run@;
        if run.len() > 0 && run[0].key != s.key {
            proof {
                lemma_joined_push(groups@, run);
            }
            groups.push(run);
            run = Vec::new();
            assert(joined(groups@) + run@ =~= before);
        }
        run.push(s);
        proof {
            assert(joined(groups@) + run@ =~= before.push(s));
            assert(samples@.take(i + 1) =~= samples@.take(i as int).push(s));
        }
        i = i + 1;
    }
    proof {
        assert(samples@.take(samples.len() as int) =~= samples@);
    }
    if run.len() > 0 {
        proof {
            lemma_joined_push(groups@, run);
        }
        groups.push(run);
    } else {
        assert(joined(groups@) + run@ =~= joined(groups@));
    }
    groups
}

} // verus!
