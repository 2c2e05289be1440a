//! Combining what the extractors of one page produced, as a balanced tree.
use vstd::prelude::*;

use crate::page::{combined, lemma_combine_associative, ExtractionResult, ResultModel};
use crate::text::views_of;

verus! {

broadcast use vstd::seq_lib::lemma_multiset_commutative;

/// What one extractor made of a page.
pub enum Outcome {
    /// No opinion: disabled, or not applicable to the page.
    Skipped,
    /// Applicable, but failed with this message.
    Failed(String),
    /// Produced this result, possibly empty.
    Produced(ExtractionResult),
}

impl Outcome {
    pub open spec fn wf(&self) -> bool {
        match self {
            Outcome::Produced(r) => r.wf(),
            _ => true,
        }
    }

    pub open spec fn data(&self) -> Option<ResultModel> {
        match self {
            Outcome::Produced(r) => Some(r@),
            _ => None,
        }
    }

    pub open spec fn errors(&self) -> Seq<Seq<char>> {
        match self {
            Outcome::Failed(m) => seq![m@],
            _ => Seq::empty(),
        }
    }
}

/// Two optional results combined; an absent one changes nothing.
pub open spec fn opt_combined(a: Option<ResultModel>, b: Option<ResultModel>) -> Option<ResultModel> {
    match (a, b) {
        (Some(x), Some(y)) => Some(combined(x, y)),
        (Some(x), None) => Some(x),
        (None, y) => y,
    }
}

/// The data of a sequence of outcomes, combined from left to right.
pub open spec fn folded(s: Seq<Outcome>) -> Option<ResultModel>
    decreases s.len(),
{
    if s.len() == 0 {
        None
    } else {
        opt_combined(folded(s.drop_last()), s.last().data())
    }
}

/// The error messages of a sequence of outcomes, in order.
pub open spec fn errors_of(s: Seq<Outcome>) -> Seq<Seq<char>>
    decreases s.len(),
{
    if s.len() == 0 {
        Seq::empty()
    } else {
        errors_of(s.drop_last()) + s.last().errors()
    }
}

proof fn lemma_opt_associative(a: Option<ResultModel>, b: Option<ResultModel>, c: Option<ResultModel>)
    ensures
        opt_combined(opt_combined(a, b), c) == opt_combined(a, opt_combined(b, c)),
{
    if a is Some && b is Some && c is Some {
        lemma_combine_associative(a->Some_0, b->Some_0, c->Some_0);
    }
}

/// The data of two runs of outcomes side by side is the combination of the
/// data of each.
pub proof fn lemma_folded_append(s1: Seq<Outcome>, s2: Seq<Outcome>)
    ensures
        folded(s1 + s2) == opt_combined(folded(s1), folded(s2)),
        errors_of(s1 + s2) == errors_of(s1) + errors_of(s2),
    decreases s2.len(),
{
    if s2.len() == 0 {
        assert(s1 + s2 =~= s1);
        assert(errors_of(s1) + errors_of(s2) =~= errors_of(s1));
    } else {
        lemma_folded_append(s1, s2.drop_last());
        assert((s1 + s2).drop_last() =~= s1 + s2.drop_last());
        lemma_opt_associative(folded(s1), folded(s2.drop_last()), s2.last().data());
        assert(errors_of(s1 + s2) =~= errors_of(s1) + errors_of(s2));
    }
}

/// An extractor that has no opinion on a page contributes neither data nor
/// errors, wherever it stands among the others.
pub proof fn lemma_skipped_contributes_nothing(s1: Seq<Outcome>, s2: Seq<Outcome>)
    ensures
        folded(s1 + seq![Outcome::Skipped] + s2) == folded(s1 + s2),
        errors_of(s1 + seq![Outcome::Skipped] + s2) == errors_of(s1 + s2),
{
    let k = seq![Outcome::Skipped];
    lemma_folded_append(s1, k);
    lemma_folded_append(s1 + k, s2);
    lemma_folded_append(s1, s2);
    assert(k.drop_last() =~= Seq::<Outcome>::empty());
    assert(folded(k.drop_last()) == None::<ResultModel>);
    assert(errors_of(k.drop_last()) =~= Seq::<Seq<char>>::empty());
    assert(folded(k) == None::<ResultModel>);
    assert(errors_of(k) =~= Seq::<Seq<char>>::empty());
    assert(errors_of(s1) + errors_of(k) =~= errors_of(s1));
}

/// The combined data and the collected errors of some extractors.
pub struct Gathered {
    pub data: Option<ExtractionResult>,
    pub errors: Vec<String>,
}

impl Gathered {
    pub open spec fn wf(&self) -> bool {
        self.data matches Some(r) ==> r.wf()
    }

    pub open spec fn data_model(&self) -> Option<ResultModel> {
        match self.data {
            Some(r) => Some(r@),
            None => None,
        }
    }

    pub fn from_outcome(o: Outcome) -> (r: Gathered)
        requires
            o.wf(),
        ensures
            r.wf(),
            r.data_model() == o.data(),
            views_of(r.errors@) == o.errors(),
    {
        match o {
            Outcome::Skipped => Gathered { data: None, errors: Vec::new() },
            Outcome::Failed(m) => {
                let mut errors: Vec<String> = Vec::new();
                errors.push(m);
                assert(views_of(errors@) =~= o.errors());
                Gathered { data: None, errors }
            },
            Outcome::Produced(x) => {
                let r = Gathered { data: Some(x), errors: Vec::new() };
                assert(views_of(r.errors@) =~= o.errors());
                r
            },
        }
    }

    /// Combines two gatherings: the data as results combine, the left one
    /// first; the shorter error list appended to the longer.
    pub fn combine(self, other: Gathered) -> (r: Gathered)
        requires
            self.wf(),
            other.wf(),
        ensures
            r.wf(),
            r.data_model() == opt_combined(self.data_model(), other.data_model()),
            r.errors@ == if self.errors@.len() > other.errors@.len() {
                self.errors@ + other.errors@
            } else {
                other.errors@ + self.errors@
            },
    {
        let data = match self.data {
            Some(a) => match other.data {
                Some(b) => Some(a.merge(b)),
                None => Some(a),
            },
            None => other.data,
        };
        let mut left = self.errors;
        let mut right = other.errors;
        let errors = if left.len() > right.len() {
            left.append(&mut right);
            left
        } else {
            right.append(&mut left);
            right
        };
        Gathered { data, errors }
    }
}

fn gather_all(v: Vec<Outcome>) -> (r: Gathered)
    requires
        forall|i: int| 0 <= i < v@.len() ==> #[trigger] v@[i].wf(),
    ensures
        r.wf(),
        r.data_model() == folded(v@),
        views_of(r.errors@).to_multiset() == errors_of(v@).to_multiset(),
    decreases v@.len(),
{
    let mut v = v;
    if v.len() == 0 {
        let r = Gathered { data: None, errors: Vec::new() };
        assert(views_of(r.errors@) =~= errors_of(v@));
        r
    } else if v.len() == 1 {
        let ghost s = v@;
        let o = v.pop().unwrap();
        assert(s.drop_last() =~= Seq::<Outcome>::empty());
        assert(s.last() == o);
        assert(errors_of(s.drop_last()) =~= Seq::<Seq<char>>::empty());
        assert(folded(s.drop_last()) == None::<ResultModel>);
        assert(errors_of(s) =~= o.errors());
        Gathered::from_outcome(o)
    } else {
        let ghost s = v@;
        let mid = v.len() / 2;
        let right = v.split_off(mid);
        assert(s =~= v@ + right@);
        let a = gather_all(v);
        let b = gather_all(right);
        let ghost ea = a.errors@;
        let ghost eb = b.errors@;
        let r = a.combine(b);
        proof {
            lemma_folded_append(v@, right@);
            assert(views_of(ea + eb) =~= views_of(ea) + views_of(eb));
            assert(views_of(eb + ea) =~= views_of(eb) + views_of(ea));
        }
        r
    }
}

/// Combines the outcomes of a page's extractors as a balanced tree. The data
/// is the left-to-right combination of every produced result; the errors
/// are those of every failed extractor, in no fixed order.
pub fn gather(outcomes: Vec<Outcome>) -> (r: Gathered)
    requires
        forall|i: int| 0 <= i < outcomes@.len() ==> #[trigger] outcomes@[i].wf(),
    ensures
        r.wf(),
        r.data_model() == folded(outcomes@),
        views_of(r.errors@).to_multiset() == errors_of(outcomes@).to_multiset(),
{
    gather_all(outcomes)
}

} // verus!
