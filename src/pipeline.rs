//! The per-source control flow: cache check, then (on a miss) fetch,
//! extract and persist. The caller performs each action and hands back what
//! came of it.
use vstd::prelude::*;

use crate::cache::{bitcode_of, decode_entry, decoded_entry, CacheEntry};
use crate::gather::Gathered;
use crate::page::{ExtractionResult, ResultModel};
use crate::text::views_of;

verus! {

/// Where a source's task stands.
#[derive(Clone, Copy, PartialEq, Eq, Structural, Debug)]
pub enum Stage {
    CacheCheck,
    Fetch,
    Extract,
    Persist,
    Done,
    Failed,
}

/// What came of the last action.
pub enum Event {
    /// The source has no cache entry.
    CacheMissing,
    /// The bytes of the source's cache entry.
    CacheFound(Vec<u8>),
    /// The rendered page.
    Fetched(String),
    FetchFailed(String),
    /// What the extractors made of the page.
    Extracted(Gathered),
    Persisted,
    PersistFailed(String),
}

/// What the caller does next.
pub enum Action {
    /// Fetch the page.
    Fetch,
    /// Run the extractors on this page.
    Extract(String),
    /// Write these bytes as the source's cache entry; report these errors.
    Write(Vec<u8>, Vec<String>),
    /// Hand the result on (`None`: the source gave no data). The task is done.
    Emit(Option<ExtractionResult>),
    /// The task failed, for this reason.
    Fail(String),
    /// The event does not belong to this stage; nothing to do.
    Ignore,
}

/// An action, as plain values.
pub enum ActionModel {
    Fetch,
    Extract(Seq<char>),
    Write(Seq<u8>, Seq<Seq<char>>),
    Emit(Option<ResultModel>),
    Fail(Seq<char>),
    Ignore,
}

impl Action {
    pub open spec fn model(&self) -> ActionModel {
        match self {
            Action::Fetch => ActionModel::Fetch,
            Action::Extract(h) => ActionModel::Extract(h@),
            Action::Write(b, e) => ActionModel::Write(b@, views_of(e@)),
            Action::Emit(Some(r)) => ActionModel::Emit(Some(r@)),
            Action::Emit(None) => ActionModel::Emit(None),
            Action::Fail(m) => ActionModel::Fail(m@),
            Action::Ignore => ActionModel::Ignore,
        }
    }
}

/// The task of one source.
pub struct SourceTask {
    stage: Stage,
    pending: Option<ExtractionResult>,
}

pub open spec fn gathered_entry_record(g: Gathered) -> crate::cache::RecordModel {
    match g.data {
        Some(r) => Some((r.keywords.entry_seq(), r.source@, r.job_title@, r.company@)),
        None => None,
    }
}

impl SourceTask {
    pub closed spec fn stage(&self) -> Stage {
        self.stage
    }

    /// The result that waits for its cache entry to be written.
    pub closed spec fn pending(&self) -> Option<ResultModel> {
        match self.pending {
            Some(r) => Some(r@),
            None => None,
        }
    }

    pub closed spec fn wf(&self) -> bool {
        self.pending matches Some(r) ==> r.wf()
    }

    /// A task that starts by checking the cache.
    pub fn new() -> (r: SourceTask)
        ensures
            r.wf(),
            r.stage() == Stage::CacheCheck,
    {
        SourceTask { stage: Stage::CacheCheck, pending: None }
    }

    pub fn current_stage(&self) -> (r: Stage)
        ensures
            r == self.stage(),
    {
        self.stage
    }

    /// Moves the task on by one event.
    pub fn step(&mut self, event: Event) -> (r: Action)
        requires
            old(self).wf(),
            event matches Event::Extracted(g) ==> g.wf(),
        ensures
            final(self).wf(),
            match (old(self).stage(), event) {
                (Stage::CacheCheck, Event::CacheMissing) => final(self).stage() == Stage::Fetch
                    && r is Fetch,
                (Stage::CacheCheck, Event::CacheFound(b)) => match decoded_entry(b@) {
                    Ok(e) => final(self).stage() == Stage::Done && r.model() == ActionModel::Emit(e),
                    Err(_) => final(self).stage() == Stage::Failed && r is Fail,
                },
                (Stage::Fetch, Event::Fetched(html)) => final(self).stage() == Stage::Extract
                    && r.model() == ActionModel::Extract(html@),
                (Stage::Fetch, Event::FetchFailed(m)) => final(self).stage() == Stage::Failed
                    && r.model() == ActionModel::Fail(m@),
                (Stage::Extract, Event::Extracted(g)) => final(self).stage() == Stage::Persist
                    && final(self).pending() == g.data_model()
                    && r.model() == ActionModel::Write(
                    bitcode_of(gathered_entry_record(g)),
                    views_of(g.errors@),
                ),
                (Stage::Persist, Event::Persisted) => final(self).stage() == Stage::Done
                    && r.model() == ActionModel::Emit(old(self).pending()),
                (Stage::Persist, Event::PersistFailed(m)) => final(self).stage() == Stage::Failed
                    && r.model() == ActionModel::Fail(m@),
                _ => final(self).stage() == old(self).stage() && r is Ignore,
            },
            // An entry that an earlier run wrote for a valid address is read back without a fetch.
            old(self).stage() == Stage::CacheCheck ==> forall|e: CacheEntry|
                #![trigger bitcode_of(e.record())]
                e.wf() && e.source_parses() && (event matches Event::CacheFound(b) && b@ == bitcode_of(e.record()))
                    ==> final(self).stage() == Stage::Done && r.model() == ActionModel::Emit(e.model()),
    {
        match (self.stage, event) {
            (Stage::CacheCheck, Event::CacheMissing) => {
                self.stage = Stage::Fetch;
                Action::Fetch
            },
            (Stage::CacheCheck, Event::CacheFound(b)) => match decode_entry(b.as_slice()) {
                Ok(CacheEntry::NoData) => {
                    self.stage = Stage::Done;
                    Action::Emit(None)
                },
                Ok(CacheEntry::Data(x)) => {
                    self.stage = Stage::Done;
                    Action::Emit(Some(x))
                },
                Err(e) => {
                    self.stage = Stage::Failed;
                    Action::Fail(e.remedy().to_owned())
                },
            },
            (Stage::Fetch, Event::Fetched(html)) => {
                self.stage = Stage::Extract;
                Action::Extract(html)
            },
            (Stage::Fetch, Event::FetchFailed(m)) => {
                self.stage = Stage::Failed;
                Action::Fail(m)
            },
            (Stage::Extract, Event::Extracted(g)) => {
                let entry = match g.data {
                    Some(x) => CacheEntry::Data(x),
                    None => CacheEntry::NoData,
                };
                let bytes = entry.encode();
                self.pending = match entry {
                    CacheEntry::Data(x) => Some(x),
                    CacheEntry::NoData => None,
                };
                self.stage = Stage::Persist;
                Action::Write(bytes, g.errors)
            },
            (Stage::Persist, Event::Persisted) => {
                self.stage = Stage::Done;
                let p = self.pending.take();
                Action::Emit(p)
            },
            (Stage::Persist, Event::PersistFailed(m)) => {
                self.stage = Stage::Failed;
                Action::Fail(m)
            },
            _ => Action::Ignore,
        }
    }
}

/// Whether a run succeeded: no source's task failed.
pub fn run_succeeded(stages: &Vec<Stage>) -> (r: bool)
    ensures
        r == (forall|i: int| 0 <= i < stages@.len() ==> stages@[i] != Stage::Failed),
{
    let mut i: usize = 0;
    while i < stages.len()
        invariant
            i <= stages@.len(),
            forall|j: int| 0 <= j < i ==> stages@[j] != Stage::Failed,
        decreases stages@.len() - i,
    {
        if stages[i] == Stage::Failed {
            return false;
        }
        i = i + 1;
    }
    true
}

} // verus!
