//! Recognised text regions, as they arrive from the OCR stage.

use vstd::prelude::*;
use crate::geometry::BoundingBox;
use crate::ids::fresh_id;
use crate::clock::now_ns;
use crate::seqs::{keep_if, lemma_keep_if_step};
use crate::text::str_eq;

verus! {

/// One text region of one frame.
#[derive(Debug)]
pub struct OCRResult {
    /// The frame that was processed.
    pub frame_id: String,
    /// Where the text was found.
    pub roi: BoundingBox,
    /// The text itself.
    pub text: String,
    /// The language code, such as "en-US".
    pub language: String,
    /// The recogniser's confidence, in millionths.
    pub confidence: u32,
    /// When the recogniser ran, in nanoseconds since the epoch.
    pub processed_at: i64,
    /// The recogniser, such as "vision".
    pub processor: String,
}

impl Clone for OCRResult {
    fn clone(&self) -> (r: Self)
        ensures
            r == *self,
    {
        OCRResult {
            frame_id: self.frame_id.clone(),
            roi: self.roi,
            text: self.text.clone(),
            language: self.language.clone(),
            confidence: self.confidence,
            processed_at: self.processed_at,
            processor: self.processor.clone(),
        }
    }
}

/// The results whose confidence is at least `min_confidence`, in order.
pub open spec fn confident(results: Seq<OCRResult>, min_confidence: u32) -> Seq<OCRResult> {
    keep_if(results, |r: OCRResult| r.confidence >= min_confidence)
}

/// The sum of the confidences of the results.
pub open spec fn confidence_sum(results: Seq<OCRResult>) -> nat
    decreases results.len(),
{
    if results.len() == 0 {
        0
    } else {
        confidence_sum(results.drop_last()) + results.last().confidence as nat
    }
}

/// The results whose confidence is at least `min_confidence`, in order.
pub fn filter_confident(results: &Vec<OCRResult>, min_confidence: u32) -> (kept: Vec<OCRResult>)
    ensures
        kept@ == confident(results@, min_confidence),
{
    let mut kept: Vec<OCRResult> = Vec::new();
    let mut i: usize = 0;
    while i < results.len()
        invariant
            i <= results.len(),
            kept@ == confident(results@.take(i as int), min_confidence),
        decreases results.len() - i,
    {
        proof {
            lemma_keep_if_step(results@, |r: OCRResult| r.confidence >= min_confidence, i as int);
        }
        if results[i].confidence >= min_confidence {
            kept.push(results[i].clone());
        }
        i += 1;
    }
    assert(results@.take(results.len() as int) =~= results@);
    kept
}

/// A set of results that are processed together.
#[derive(Clone, Debug)]
pub struct OCRBatch {
    pub results: Vec<OCRResult>,
    pub batch_id: String,
    /// When the batch was made, in nanoseconds since the epoch.
    pub created_at: i64,
}

impl OCRBatch {
    /// A batch of the given results, with a fresh identifier and the current
    /// time.
    pub fn new(results: Vec<OCRResult>) -> (b: OCRBatch)
        ensures
            b.results == results,
    {
        let created_at: i64 = match now_ns() {
            Some(t) => t,
            None => i64::MAX,
        };
        OCRBatch { results, batch_id: fresh_id(), created_at }
    }

    /// The number of text regions in the batch.
    pub fn text_region_count(&self) -> (n: usize)
        ensures
            n == self.results@.len(),
    {
        self.results.len()
    }

    /// The mean confidence of the batch, rounded down; 0 for an empty batch.
    pub open spec fn spec_average_confidence(self) -> int {
        if self.results@.len() == 0 {
            0
        } else {
            confidence_sum(self.results@) as int / self.results@.len() as int
        }
    }

    /// The mean confidence of the batch, rounded down; 0 for an empty batch.
    pub fn average_confidence(&self) -> (a: u32)
        ensures
            a as int == self.spec_average_confidence(),
    {
        let n: usize = self.results.len();
        if n == 0 {
            return 0;
        }
        let mut total: u128 = 0;
        let mut i: usize = 0;
        while i < n
            invariant
                i <= n,
                n == self.results.len(),
                total as nat == confidence_sum(self.results@.take(i as int)),
                total <= i * 0xffff_ffff,
            decreases n - i,
        {
            assert(self.results@.take(i + 1).drop_last() =~= self.results@.take(i as int));
            total = total + self.results[i].confidence as u128;
            i += 1;
        }
        assert(self.results@.take(n as int) =~= self.results@);
        let mean: u128 = total / (n as u128);
        proof {
            assert(total as int / n as int <= 0xffff_ffff) by (nonlinear_arith)
                requires
                    0 <= total as int <= n as int * 0xffff_ffff,
                    n as int > 0,
            ;
        }
        mean as u32
    }

    /// The results whose confidence is at least `min_confidence`, in order.
    pub fn filter_by_confidence(&self, min_confidence: u32) -> (kept: Vec<OCRResult>)
        ensures
            kept@ == confident(self.results@, min_confidence),
    {
        filter_confident(&self.results, min_confidence)
    }
}

/// The results in one language.
#[derive(Clone, Debug)]
pub struct LanguageGroup {
    pub language: String,
    pub results: Vec<OCRResult>,
}

/// The position of the first group for `language`, or the number of groups.
pub open spec fn group_position(groups: Seq<LanguageGroup>, language: Seq<char>) -> int
    decreases groups.len(),
{
    if groups.len() == 0 || groups[0].language@ == language {
        0
    } else {
        1 + group_position(groups.drop_first(), language)
    }
}

/// The results of the given language, in order.
pub open spec fn in_language(results: Seq<OCRResult>, language: Seq<char>) -> Seq<OCRResult> {
    keep_if(results, |r: OCRResult| r.language@ == language)
}

/// Whether the groups are the results sorted by language: the languages
/// differ from group to group, each group holds exactly the results of its
/// language, in their order, and none is empty.
pub open spec fn groups_of(groups: Seq<LanguageGroup>, results: Seq<OCRResult>) -> bool {
    &&& forall|i: int, j: int|
        0 <= i < j < groups.len() ==> groups[i].language@ != groups[j].language@
    &&& forall|i: int|
        0 <= i < groups.len() ==> (#[trigger] groups[i]).results@ == in_language(
            results,
            groups[i].language@,
        ) && groups[i].results@.len() > 0
    &&& forall|k: int|
        0 <= k < results.len() ==> exists|i: int|
            0 <= i < groups.len() && (#[trigger] groups[i]).language@ == (
            #[trigger] results[k]).language@
}

impl OCRBatch {
    /// The results sorted by language, the languages in the order in which
    /// they first occur.
    pub fn group_by_language(&self) -> (groups: Vec<LanguageGroup>)
        ensures
            groups_of(groups@, self.results@),
    {
        let mut groups: Vec<LanguageGroup> = Vec::new();
        let mut i: usize = 0;
        assert(self.results@.take(0) =~= Seq::<OCRResult>::empty());
        while i < self.results.len()
            invariant
                i <= self.results.len(),
                groups_of(groups@, self.results@.take(i as int)),
            decreases self.results.len() - i,
        {
            let r = &self.results[i];
            let ghost done = self.results@.take(i as int);
            let ghost next = self.results@.take(i + 1);
            let ghost before = groups@;
            assert(next.drop_last() =~= done);
            assert(next.last() == *r);
            let mut g: usize = 0;
            while g < groups.len() && !str_eq(groups[g].language.as_str(), r.language.as_str())
                invariant
                    g <= groups.len(),
                    forall|t: int| 0 <= t < g ==> groups@[t].language@ != r.language@,
                decreases groups.len() - g,
            {
                g += 1;
            }
            if g < groups.len() {
                let mut group = groups.remove(g);
                group.results.push(r.clone());
                groups.insert(g, group);
                assert forall|t: int| 0 <= t < groups.len() implies (#[trigger] groups@[t]).results@
                    == in_language(next, groups@[t].language@) && groups@[t].results@.len() > 0 by {
                    crate::seqs::lemma_keep_if_step(
                        self.results@,
                        |x: OCRResult| x.language@ == groups@[t].language@,
                        i as int,
                    );
                    if t != g {
                        assert(groups@[t] == before[t]);
                    } else {
                        assert(groups@[t].language == before[t].language);
                    }
                }
                assert forall|k: int| 0 <= k < next.len() implies exists|t: int|
                    0 <= t < groups.len() && (#[trigger] groups@[t]).language@ == (
                    #[trigger] next[k]).language@ by {
                    if k < done.len() {
                        assert(next[k] == done[k]);
                        let t = choose|t: int|
                            0 <= t < before.len() && (#[trigger] before[t]).language@
                                == done[k].language@;
                        assert(groups@[t].language@ == before[t].language@);
                    } else {
                        assert(groups@[g as int].language@ == r.language@);
                    }
                }
                assert forall|a: int, b: int| 0 <= a < b < groups.len() implies groups@[a].language@
                    != groups@[b].language@ by {
                    assert(groups@[a].language@ == before[a].language@);
                    assert(groups@[b].language@ == before[b].language@);
                }
            } else {
                let mut results: Vec<OCRResult> = Vec::new();
                results.push(r.clone());
                let language = r.language.clone();
                groups.push(LanguageGroup { language, results });
                assert forall|t: int| 0 <= t < groups.len() implies (#[trigger] groups@[t]).results@
                    == in_language(next, groups@[t].language@) && groups@[t].results@.len() > 0 by {
                    crate::seqs::lemma_keep_if_step(
                        self.results@,
                        |x: OCRResult| x.language@ == groups@[t].language@,
                        i as int,
                    );
                    if t < before.len() {
                        assert(groups@[t] == before[t]);
                    } else {
                        // No earlier result has this language: else a group for it would exist.
                        let keep = |x: OCRResult| x.language@ == r.language@;
                        assert(in_language(done, r.language@).len() == 0) by {
                            crate::seqs::lemma_keep_if_members(done, keep);
                            if keep_if(done, keep).len() > 0 {
                                let x = keep_if(done, keep)[0];
                                assert(keep_if(done, keep).contains(x));
                                let k = choose|k: int| 0 <= k < done.len() && done[k] == x;
                                let t2 = choose|t2: int|
                                    0 <= t2 < before.len() && (#[trigger] before[t2]).language@
                                        == done[k].language@;
                                assert(false);
                            }
                        }
                        assert(groups@[t].results@ =~= in_language(next, r.language@));
                    }
                }
                assert forall|k: int| 0 <= k < next.len() implies exists|t: int|
                    0 <= t < groups.len() && (#[trigger] groups@[t]).language@ == (
                    #[trigger] next[k]).language@ by {
                    if k < done.len() {
                        assert(next[k] == done[k]);
                        let t = choose|t: int|
                            0 <= t < before.len() && (#[trigger] before[t]).language@
                                == done[k].language@;
                        assert(groups@[t] == before[t]);
                    } else {
                        assert(groups@[before.len() as int].language@ == r.language@);
                    }
                }
                assert forall|a: int, b: int| 0 <= a < b < groups.len() implies groups@[a].language@
                    != groups@[b].language@ by {
                    assert(groups@[a] == before[a]);
                    if b < before.len() {
                        assert(groups@[b] == before[b]);
                    }
                }
            }
            i += 1;
        }
        assert(self.results@.take(self.results.len() as int) =~= self.results@);
        groups
    }
}

} // verus!
