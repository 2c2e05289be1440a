//! The result of extracting one page, and how two results combine.
use vstd::prelude::*;

use crate::keywords::{lemma_merge_associative, lemma_merge_commutative, merged, KeywordSet};

verus! {

/// What an extraction result holds, as plain values.
pub struct ResultModel {
    pub keywords: Map<Seq<char>, u64>,
    pub source: Seq<char>,
    pub job_title: Seq<char>,
    pub company: Seq<char>,
}

/// `a` where it is non-empty, else `b`.
pub open spec fn first_non_empty(a: Seq<char>, b: Seq<char>) -> Seq<char> {
    if a.len() > 0 {
        a
    } else {
        b
    }
}

/// The combination of two results: keywords merged, the source of the left
/// one, and each text field from the left one unless it is empty there.
pub open spec fn combined(a: ResultModel, b: ResultModel) -> ResultModel {
    ResultModel {
        keywords: merged(a.keywords, b.keywords),
        source: a.source,
        job_title: first_non_empty(a.job_title, b.job_title),
        company: first_non_empty(a.company, b.company),
    }
}

/// Combining results does not depend on how the operands are grouped: the
/// keywords, the source and both text fields agree.
pub proof fn lemma_combine_associative(a: ResultModel, b: ResultModel, c: ResultModel)
    ensures
        combined(combined(a, b), c) == combined(a, combined(b, c)),
{
    lemma_merge_associative(a.keywords, b.keywords, c.keywords);
}

/// The keywords of combined results do not depend on the order of the
/// operands (the text fields are taken from the left first, by design).
pub proof fn lemma_combine_commutative_keywords(a: ResultModel, b: ResultModel)
    ensures
        combined(a, b).keywords == combined(b, a).keywords,
{
    lemma_merge_commutative(a.keywords, b.keywords);
}

/// Keywords and job data gathered from one page.
pub struct ExtractionResult {
    pub keywords: KeywordSet,
    pub source: String,
    pub job_title: String,
    pub company: String,
}

impl View for ExtractionResult {
    type V = ResultModel;

    open spec fn view(&self) -> ResultModel {
        ResultModel {
            keywords: self.keywords@,
            source: self.source@,
            job_title: self.job_title@,
            company: self.company@,
        }
    }
}

impl ExtractionResult {
    pub open spec fn wf(&self) -> bool {
        self.keywords.wf()
    }

    /// An empty result for the page at `source`.
    pub fn new(source: String) -> (r: ExtractionResult)
        ensures
            r.wf(),
            r@ == (ResultModel {
                keywords: Map::empty(),
                source: source@,
                job_title: Seq::empty(),
                company: Seq::empty(),
            }),
    {
        ExtractionResult {
            keywords: KeywordSet::new(),
            source,
            job_title: String::new(),
            company: String::new(),
        }
    }

    /// Combines two results; where both hold a non-empty job title (or
    /// organisation), the one of `self` is kept.
    pub fn merge(self, other: ExtractionResult) -> (r: ExtractionResult)
        requires
            self.wf(),
            other.wf(),
        ensures
            r.wf(),
            r@ == combined(self@, other@),
    {
        let keywords = self.keywords.merge(other.keywords);
        let job_title = if !self.job_title.as_str().is_empty() {
            self.job_title
        } else {
            other.job_title
        };
        let company = if !self.company.as_str().is_empty() {
            self.company
        } else {
            other.company
        };
        ExtractionResult { keywords, source: self.source, job_title, company }
    }
}

} // verus!
