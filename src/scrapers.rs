//! The registry of per-site extractors.
use vstd::prelude::*;

use crate::keywords::{add_all, pairs_of, KeywordSet};
use crate::gather::Outcome;
use crate::page::{ExtractionResult, ResultModel};
use crate::source::{opt_view, SourceId};
use crate::text::{
    contains_text, first_match_text, has_substring, join_plain, joined_plain, nested_match_texts,
    select_first_text, select_nested_texts, views_of,
};

verus! {

/// The extractors that this library knows.
#[derive(Clone, Copy, PartialEq, Eq, Structural, Debug)]
pub enum ScraperKind {
    Simplify,
    Workday,
}

/// The extractors that are enabled unless a caller leaves them out.
pub const DEFAULT_SCRAPERS: [ScraperKind; 2] = [ScraperKind::Simplify, ScraperKind::Workday];

impl ScraperKind {
    pub open spec fn name_spec(self) -> Seq<char> {
        match self {
            ScraperKind::Simplify => "simplify"@,
            ScraperKind::Workday => "workday"@,
        }
    }

    /// What the host of a page that the extractor reads contains.
    pub open spec fn host_marker(self) -> Seq<char> {
        match self {
            ScraperKind::Simplify => "simplify.jobs"@,
            ScraperKind::Workday => "myworkdaysite.com"@,
        }
    }

    pub open spec fn applies_to(self, host: Option<Seq<char>>) -> bool {
        match host {
            Some(h) => has_substring(h, self.host_marker()),
            None => false,
        }
    }

    /// The name under which the extractor is enabled.
    pub fn name(&self) -> (r: &'static str)
        ensures
            r@ == self.name_spec(),
    {
        match self {
            ScraperKind::Simplify => "simplify",
            ScraperKind::Workday => "workday",
        }
    }

    /// Whether the extractor reads pages at `source`: its host contains the
    /// extractor's marker.
    pub fn is_applicable(&self, source: &SourceId) -> (r: bool)
        ensures
            r == self.applies_to(opt_view(source.host)),
    {
        let marker = match self {
            ScraperKind::Simplify => "simplify.jobs",
            ScraperKind::Workday => "myworkdaysite.com",
        };
        match &source.host {
            Some(h) => contains_text(h.as_str(), marker),
            None => false,
        }
    }
}

/// Whether `v` holds a string with the characters of `s`.
pub fn list_contains(v: &Vec<String>, s: &str) -> (r: bool)
    ensures
        r == views_of(v@).contains(s@),
{
    let target = s.to_owned();
    let mut i: usize = 0;
    while i < v.len()
        invariant
            target@ == s@,
            i <= v@.len(),
            forall|j: int| 0 <= j < i ==> v@[j]@ != s@,
        decreases v@.len() - i,
    {
        if v[i] == target {
            assert(views_of(v@)[i as int] == s@);
            return true;
        }
        i = i + 1;
    }
    assert forall|j: int| 0 <= j < views_of(v@).len() implies views_of(v@)[j] != s@ by {
        assert(views_of(v@)[j] == v@[j]@);
    }
    false
}

/// Whether an extractor name is enabled, given the default names left out
/// and the names added.
pub open spec fn enabled_by(name: Seq<char>, omit: Seq<Seq<char>>, extra: Seq<Seq<char>>) -> bool {
    (name == ScraperKind::Simplify.name_spec() || name == ScraperKind::Workday.name_spec())
        && !omit.contains(name) || extra.contains(name)
}

/// The names of the enabled extractors: the defaults that `omit` does not
/// list, and every name of `extra`.
pub fn enabled_names(omit: &Vec<String>, extra: &Vec<String>) -> (r: Vec<String>)
    ensures
        forall|name: Seq<char>|
            views_of(r@).contains(name) <==> enabled_by(name, views_of(omit@), views_of(extra@)),
{
    let mut r: Vec<String> = Vec::new();
    if !list_contains(omit, "simplify") {
        r.push("simplify".to_owned());
    }
    let ghost first = r@;
    if !list_contains(omit, "workday") {
        r.push("workday".to_owned());
    }
    proof {
        let o = views_of(omit@);
        let s = ScraperKind::Simplify.name_spec();
        let w = ScraperKind::Workday.name_spec();
        assert(s != w) by {
            reveal_strlit("simplify");
            reveal_strlit("workday");
            assert(s[0] != w[0]);
        }
        assert forall|name: Seq<char>| views_of(r@).contains(name) <==> (name == s || name == w)
            && !o.contains(name) by {
            if views_of(r@).contains(name) {
                let k = choose|k: int| 0 <= k < views_of(r@).len() && views_of(r@)[k] == name;
                assert(r@[k]@ == name);
            }
            if name == s && !o.contains(name) {
                assert(views_of(r@)[0] == name);
            }
            if name == w && !o.contains(name) {
                assert(views_of(r@)[r@.len() - 1] == name);
            }
        }
    }
    let ghost defaults = r@;
    let mut j: usize = 0;
    while j < extra.len()
        invariant
            j <= extra@.len(),
            r@.len() == defaults.len() + j,
            r@.subrange(0, defaults.len() as int) == defaults,
            forall|k: int| 0 <= k < j ==> #[trigger] r@[defaults.len() + k]@ == extra@[k]@,
        decreases extra@.len() - j,
    {
        let e = extra[j].clone();
        r.push(e);
        assert(r@.subrange(0, defaults.len() as int) =~= defaults);
        j = j + 1;
    }
    assert forall|name: Seq<char>| views_of(r@).contains(name) <==> enabled_by(
        name,
        views_of(omit@),
        views_of(extra@),
    ) by {
        if views_of(r@).contains(name) {
            let k = choose|k: int| 0 <= k < views_of(r@).len() && views_of(r@)[k] == name;
            if k < defaults.len() {
                assert(views_of(defaults)[k] == name);
            } else {
                let m = k - defaults.len();
                assert(r@[defaults.len() + m]@ == extra@[m]@);
                assert(views_of(extra@)[m] == name);
            }
        }
        if views_of(defaults).contains(name) {
            let k = choose|k: int| 0 <= k < views_of(defaults).len() && views_of(defaults)[k] == name;
            assert(views_of(r@)[k] == name);
        }
        if views_of(extra@).contains(name) {
            let k = choose|k: int| 0 <= k < views_of(extra@).len() && views_of(extra@)[k] == name;
            assert(views_of(r@)[defaults.len() + k] == name);
        }
    }
    r
}


/// The keyword map after adding each group of scored candidates in turn.
pub open spec fn add_groups(m: Map<Seq<char>, u64>, g: Seq<Seq<(Seq<char>, u64)>>) -> Map<Seq<char>, u64>
    decreases g.len(),
{
    if g.len() == 0 {
        m
    } else {
        add_all(add_groups(m, g.drop_last()), g.last())
    }
}

pub open spec fn score_views(v: Seq<Vec<(String, u64)>>) -> Seq<Seq<(Seq<char>, u64)>> {
    v.map_values(|e: Vec<(String, u64)>| pairs_of(e@))
}

/// The selector of a Workday posting's title.
pub open spec fn title_selector() -> Seq<char> {
    "h2[data-automation-id=\"jobPostingHeader\"]"@
}

/// The selector of a Workday posting's description.
pub open spec fn description_selector() -> Seq<char> {
    "div[data-automation-id=\"jobPostingDescription\"]"@
}

/// The selector of the fragments of a description that get scored.
pub open spec fn item_selector() -> Seq<char> {
    "li"@
}

/// The organisation in a Workday address: the second path segment, or the
/// first where there is only one.
pub open spec fn company_from(segs: Seq<Seq<char>>) -> Option<Seq<char>> {
    if segs.len() == 0 {
        None
    } else if segs.len() == 1 {
        Some(segs[0])
    } else {
        Some(segs[1])
    }
}

/// An extraction that waits for its fragments to be scored.
pub struct PendingExtraction {
    /// The result so far, without keywords.
    pub partial: ExtractionResult,
    /// The text fragments to score, in order.
    pub fragments: Vec<String>,
}

/// What an extractor makes of a page.
pub enum Step {
    /// The extractor is disabled or does not read this page.
    NotApplicable,
    /// The extractor reads this page but failed.
    Failed(String),
    /// The extractor produced a result.
    Ready(ExtractionResult),
    /// The extractor needs its fragments scored to finish.
    NeedsScores(PendingExtraction),
}

/// What a step holds, as plain values.
pub enum StepModel {
    NotApplicable,
    Failed,
    Ready(ResultModel),
    NeedsScores(ResultModel, Seq<Seq<char>>),
}

impl Step {
    pub open spec fn model(&self) -> StepModel {
        match self {
            Step::NotApplicable => StepModel::NotApplicable,
            Step::Failed(_) => StepModel::Failed,
            Step::Ready(r) => StepModel::Ready(r@),
            Step::NeedsScores(p) => StepModel::NeedsScores(p.partial@, views_of(p.fragments@)),
        }
    }

    pub open spec fn wf(&self) -> bool {
        match self {
            Step::Ready(r) => r.wf(),
            Step::NeedsScores(p) => p.partial.wf(),
            _ => true,
        }
    }
}

pub open spec fn empty_result(source: Seq<char>) -> ResultModel {
    ResultModel { keywords: Map::empty(), source, job_title: Seq::empty(), company: Seq::empty() }
}

/// What the Workday extractor makes of a page it reads.
pub open spec fn workday_plan(
    source: Seq<char>,
    segments: Option<Seq<Seq<char>>>,
    html: Seq<char>,
) -> StepModel {
    match segments {
        None => StepModel::Failed,
        Some(segs) => match (
            company_from(segs),
            first_match_text(html, title_selector()),
            nested_match_texts(html, description_selector(), item_selector()),
        ) {
            (Some(company), Some(title), Some(items)) => StepModel::NeedsScores(
                ResultModel {
                    keywords: Map::empty(),
                    source,
                    job_title: joined_plain(title),
                    company,
                },
                items.map_values(|p: Seq<Seq<char>>| joined_plain(p)),
            ),
            _ => StepModel::NotApplicable,
        },
    }
}

/// What an extractor makes of a page, given whether it is enabled.
pub open spec fn planned(
    kind: ScraperKind,
    enabled: bool,
    source: Seq<char>,
    host: Option<Seq<char>>,
    segments: Option<Seq<Seq<char>>>,
    html: Seq<char>,
) -> StepModel {
    if !enabled || !kind.applies_to(host) {
        StepModel::NotApplicable
    } else {
        match kind {
            ScraperKind::Simplify => StepModel::Ready(empty_result(source)),
            ScraperKind::Workday => workday_plan(source, segments, html),
        }
    }
}

fn company_of(segs: &Vec<String>) -> (r: Option<String>)
    ensures
        opt_view(r) == company_from(views_of(segs@)),
{
    if segs.len() == 0 {
        None
    } else if segs.len() == 1 {
        Some(segs[0].clone())
    } else {
        Some(segs[1].clone())
    }
}

fn join_each(items: &Vec<Vec<String>>) -> (r: Vec<String>)
    ensures
        views_of(r@) == items@.map_values(|e: Vec<String>| views_of(e@)).map_values(
            |p: Seq<Seq<char>>| joined_plain(p),
        ),
{
    let ghost target = items@.map_values(|e: Vec<String>| views_of(e@)).map_values(
        |p: Seq<Seq<char>>| joined_plain(p),
    );
    let mut r: Vec<String> = Vec::new();
    let mut i: usize = 0;
    while i < items.len()
        invariant
            i <= items@.len(),
            target.len() == items@.len(),
            target == items@.map_values(|e: Vec<String>| views_of(e@)).map_values(
                |p: Seq<Seq<char>>| joined_plain(p),
            ),
            views_of(r@) =~= target.subrange(0, i as int),
        decreases items@.len() - i,
    {
        let s = join_plain(&items[i]);
        let ghost before = r@;
        r.push(s);
        assert(target[i as int] == joined_plain(views_of(items@[i as int]@)));
        assert(views_of(r@) =~= views_of(before).push(s@));
        assert(target.subrange(0, i + 1) =~= target.subrange(0, i as int).push(target[i as int]));
        i = i + 1;
    }
    assert(target.subrange(0, items@.len() as int) =~= target);
    r
}

fn workday_begin(source: &SourceId, html: &str) -> (r: Step)
    ensures
        r.wf(),
        r.model() == workday_plan(source.text@, crate::source::opt_views(source.segments), html@),
{
    let segs = match &source.segments {
        Some(s) => s,
        None => {
            return Step::Failed("job posting address has no path segments".to_owned());
        },
    };
    let company = match company_of(segs) {
        Some(c) => c,
        None => {
            return Step::NotApplicable;
        },
    };
    let title = match select_first_text(html, "h2[data-automation-id=\"jobPostingHeader\"]") {
        Some(t) => t,
        None => {
            return Step::NotApplicable;
        },
    };
    let items = match select_nested_texts(
        html,
        "div[data-automation-id=\"jobPostingDescription\"]",
        "li",
    ) {
        Some(v) => v,
        None => {
            return Step::NotApplicable;
        },
    };
    let fragments = join_each(&items);
    let mut partial = ExtractionResult::new(source.text.clone());
    partial.job_title = join_plain(&title);
    partial.company = company;
    Step::NeedsScores(PendingExtraction { partial, fragments })
}

impl ScraperKind {
    /// Runs the extractor on a page, as far as it goes without scoring.
    /// A disabled extractor, or one that does not read pages of this host,
    /// is not applicable.
    pub fn begin(&self, enabled: &Vec<String>, source: &SourceId, html: &str) -> (r: Step)
        ensures
            r.wf(),
            r.model() == planned(
                *self,
                views_of(enabled@).contains(self.name_spec()),
                source.text@,
                opt_view(source.host),
                crate::source::opt_views(source.segments),
                html@,
            ),
    {
        if !list_contains(enabled, self.name()) || !self.is_applicable(source) {
            return Step::NotApplicable;
        }
        match self {
            ScraperKind::Simplify => Step::Ready(ExtractionResult::new(source.text.clone())),
            ScraperKind::Workday => workday_begin(source, html),
        }
    }
}

impl Step {
    /// The outcome of a step that needs no scoring; a step that does is
    /// handed back as its pending extraction.
    pub fn into_outcome(self) -> (r: Result<Outcome, PendingExtraction>)
        requires
            self.wf(),
        ensures
            match self.model() {
                StepModel::NotApplicable => r matches Ok(Outcome::Skipped),
                StepModel::Failed => r matches Ok(Outcome::Failed(_)),
                StepModel::Ready(m) => r matches Ok(Outcome::Produced(x)) && x.wf() && x@ == m,
                StepModel::NeedsScores(m, f) => r matches Err(p) && p.partial.wf() && p.partial@
                    == m && views_of(p.fragments@) == f,
            },
            match (self, r) {
                (Step::Failed(m), Ok(Outcome::Failed(n))) => m == n,
                _ => true,
            },
    {
        match self {
            Step::NotApplicable => Ok(Outcome::Skipped),
            Step::Failed(m) => Ok(Outcome::Failed(m)),
            Step::Ready(x) => Ok(Outcome::Produced(x)),
            Step::NeedsScores(p) => Err(p),
        }
    }
}

impl PendingExtraction {
    /// Finishes the extraction with the scored candidates of its fragments:
    /// each candidate's weight is added to its keyword.
    pub fn finish(self, scores: &Vec<Vec<(String, u64)>>) -> (r: ExtractionResult)
        requires
            self.partial.wf(),
        ensures
            r.wf(),
            r@ == (ResultModel {
                keywords: add_groups(self.partial@.keywords, score_views(scores@)),
                source: self.partial@.source,
                job_title: self.partial@.job_title,
                company: self.partial@.company,
            }),
    {
        let mut result = self.partial;
        let ghost m = result.keywords@;
        let ghost g = score_views(scores@);
        let mut i: usize = 0;
        assert(g.subrange(0, 0) =~= Seq::<Seq<(Seq<char>, u64)>>::empty());
        while i < scores.len()
            invariant
                i <= scores@.len(),
                g == score_views(scores@),
                result.wf(),
                result.source == self.partial.source,
                result.job_title == self.partial.job_title,
                result.company == self.partial.company,
                result.keywords@ == add_groups(m, g.subrange(0, i as int)),
            decreases scores@.len() - i,
        {
            let group = &scores[i];
            let ghost base = result.keywords@;
            let mut j: usize = 0;
            assert(g[i as int].subrange(0, 0) =~= Seq::<(Seq<char>, u64)>::empty());
            while j < group.len()
                invariant
                    j <= group@.len(),
                    group == scores@[i as int],
                    g[i as int] == pairs_of(group@),
                    result.wf(),
                    result.source == self.partial.source,
                    result.job_title == self.partial.job_title,
                    result.company == self.partial.company,
                    result.keywords@ == add_all(base, g[i as int].subrange(0, j as int)),
                decreases group@.len() - j,
            {
                let k = group[j].0.clone();
                let w = group[j].1;
                assert(g[i as int].subrange(0, j + 1).drop_last() =~= g[i as int].subrange(0, j as int));
                result.keywords.add(k, w);
                j = j + 1;
            }
            assert(g[i as int].subrange(0, group@.len() as int) =~= g[i as int]);
            assert(g.subrange(0, i + 1).drop_last() =~= g.subrange(0, i as int));
            i = i + 1;
        }
        assert(g.subrange(0, scores@.len() as int) =~= g);
        result
    }
}

} // verus!
