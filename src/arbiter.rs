//! The mailbox of the scoring worker: the one owner of the scoring resource
//! takes requests from it strictly in the order they were submitted.
use vstd::prelude::*;

use crate::text::views_of;

verus! {

/// Fragments to score, tagged with their place in the submission order.
pub struct ScoreRequest {
    pub tag: u64,
    pub fragments: Vec<String>,
}

impl ScoreRequest {
    pub open spec fn model(&self) -> (u64, Seq<Seq<char>>) {
        (self.tag, views_of(self.fragments@))
    }
}

pub open spec fn request_models(s: Seq<ScoreRequest>) -> Seq<(u64, Seq<Seq<char>>)> {
    s.map_values(|r: ScoreRequest| r.model())
}

/// The state of a mailbox, as plain values.
pub struct MailboxModel {
    pub queue: Seq<(u64, Seq<Seq<char>>)>,
    pub next_tag: u64,
    pub open: bool,
    pub abandoned: u64,
}

/// What the worker does next.
pub enum WorkerAction {
    /// Score this request and reply to its submitter.
    Serve(ScoreRequest),
    /// Wait for a request.
    Wait,
    /// The mailbox is closed and empty: stop.
    Exit,
}

/// Why a request was refused.
#[derive(Clone, Copy, PartialEq, Eq, Structural, Debug)]
pub enum SubmitError {
    /// The mailbox no longer takes requests.
    Closed,
    /// Every tag has been handed out.
    Exhausted,
}

pub open spec fn mailbox_wf(m: MailboxModel) -> bool {
    &&& forall|i: int, j: int| 0 <= i < j < m.queue.len() ==> m.queue[i].0 < m.queue[j].0
    &&& forall|i: int| 0 <= i < m.queue.len() ==> m.queue[i].0 < m.next_tag
}

/// The mailbox after a submission of `fragments` (unchanged where refused).
pub open spec fn after_submit(m: MailboxModel, fragments: Seq<Seq<char>>) -> MailboxModel {
    if !m.open || m.next_tag == u64::MAX {
        m
    } else {
        MailboxModel {
            queue: m.queue.push((m.next_tag, fragments)),
            next_tag: (m.next_tag + 1) as u64,
            ..m
        }
    }
}

/// The mailbox after the worker takes its next action, and the request it
/// serves, if any.
pub open spec fn after_take(m: MailboxModel) -> (MailboxModel, Option<(u64, Seq<Seq<char>>)>) {
    if m.queue.len() > 0 {
        (MailboxModel { queue: m.queue.drop_first(), ..m }, Some(m.queue[0]))
    } else {
        (m, None)
    }
}

/// The mailbox after a reply was delivered, or found abandoned.
pub open spec fn after_reply(m: MailboxModel, delivered: bool) -> MailboxModel {
    if delivered || m.abandoned == u64::MAX {
        m
    } else {
        MailboxModel { abandoned: (m.abandoned + 1) as u64, ..m }
    }
}

/// The mailbox after each fragment list of `batch` is submitted in turn.
pub open spec fn after_submit_all(m: MailboxModel, batch: Seq<Seq<Seq<char>>>) -> MailboxModel
    decreases batch.len(),
{
    if batch.len() == 0 {
        m
    } else {
        after_submit(after_submit_all(m, batch.drop_last()), batch.last())
    }
}

/// The requests that the worker serves, in order, until the queue is empty.
pub open spec fn drained(m: MailboxModel) -> Seq<(u64, Seq<Seq<char>>)>
    decreases m.queue.len(),
{
    if m.queue.len() == 0 {
        Seq::empty()
    } else {
        seq![after_take(m).1->Some_0] + drained(after_take(m).0)
    }
}

/// The worker serves every pending request, in queue order.
pub proof fn lemma_drained_is_queue(m: MailboxModel)
    ensures
        drained(m) == m.queue,
    decreases m.queue.len(),
{
    if m.queue.len() > 0 {
        lemma_drained_is_queue(after_take(m).0);
        assert(seq![m.queue[0]] + m.queue.drop_first() =~= m.queue);
    }
}

/// Requests submitted one after another to an open mailbox are served in
/// the order of submission, each under the next tag, after those already
/// pending.
pub proof fn lemma_served_in_submission_order(m: MailboxModel, batch: Seq<Seq<Seq<char>>>)
    requires
        m.open,
        m.next_tag + batch.len() < u64::MAX,
    ensures
        drained(after_submit_all(m, batch)).len() == m.queue.len() + batch.len(),
        drained(after_submit_all(m, batch)).subrange(0, m.queue.len() as int) == m.queue,
        forall|i: int|
            0 <= i < batch.len() ==> #[trigger] drained(after_submit_all(m, batch))[m.queue.len() + i]
                == ((m.next_tag + i) as u64, batch[i]),
    decreases batch.len(),
{
    lemma_submit_all(m, batch);
    lemma_drained_is_queue(after_submit_all(m, batch));
}

proof fn lemma_submit_all(m: MailboxModel, batch: Seq<Seq<Seq<char>>>)
    requires
        m.open,
        m.next_tag + batch.len() < u64::MAX,
    ensures
        after_submit_all(m, batch).open,
        after_submit_all(m, batch).next_tag == m.next_tag + batch.len(),
        after_submit_all(m, batch).queue.len() == m.queue.len() + batch.len(),
        after_submit_all(m, batch).queue.subrange(0, m.queue.len() as int) == m.queue,
        forall|i: int|
            0 <= i < batch.len() ==> #[trigger] after_submit_all(m, batch).queue[m.queue.len() + i]
                == ((m.next_tag + i) as u64, batch[i]),
    decreases batch.len(),
{
    if batch.len() > 0 {
        lemma_submit_all(m, batch.drop_last());
        let p = after_submit_all(m, batch.drop_last());
        let q = after_submit_all(m, batch);
        assert(q.queue == p.queue.push((p.next_tag, batch.last())));
        assert(q.queue.subrange(0, m.queue.len() as int) =~= p.queue.subrange(0, m.queue.len() as int));
        assert forall|i: int| 0 <= i < batch.len() implies #[trigger] q.queue[m.queue.len() + i] == (
        (m.next_tag + i) as u64, batch[i]) by {
            if i < batch.len() - 1 {
                assert(q.queue[m.queue.len() + i] == p.queue[m.queue.len() + i]);
                assert(batch.drop_last()[i] == batch[i]);
            }
        }
    }
}

/// Whether a reply reached its submitter or was abandoned, the worker's next
/// action is the same: an abandoned reply never holds up later requests.
pub proof fn lemma_abandoned_reply_keeps_serving(m: MailboxModel)
    ensures
        after_take(after_reply(m, false)).1 == after_take(after_reply(m, true)).1,
        after_reply(m, false).queue == m.queue,
        after_reply(m, false).open == m.open,
{
}

/// A first-in, first-out mailbox of score requests.
pub struct Mailbox {
    queue: Vec<ScoreRequest>,
    next_tag: u64,
    open: bool,
    abandoned: u64,
}

impl View for Mailbox {
    type V = MailboxModel;

    closed spec fn view(&self) -> MailboxModel {
        MailboxModel {
            queue: request_models(self.queue@),
            next_tag: self.next_tag,
            open: self.open,
            abandoned: self.abandoned,
        }
    }
}

impl Mailbox {
    pub open spec fn wf(&self) -> bool {
        mailbox_wf(self@)
    }

    /// An open, empty mailbox.
    pub fn new() -> (r: Mailbox)
        ensures
            r.wf(),
            r@ == (MailboxModel { queue: Seq::empty(), next_tag: 0, open: true, abandoned: 0 }),
    {
        let r = Mailbox { queue: Vec::new(), next_tag: 0, open: true, abandoned: 0 };
        assert(request_models(r.queue@) =~= Seq::empty());
        r
    }

    /// Submits fragments to score; the result is the request's tag.
    pub fn submit(&mut self, fragments: Vec<String>) -> (r: Result<u64, SubmitError>)
        requires
            old(self).wf(),
        ensures
            final(self).wf(),
            final(self)@ == after_submit(old(self)@, views_of(fragments@)),
            !old(self)@.open ==> r == Err::<u64, _>(SubmitError::Closed),
            old(self)@.open && old(self)@.next_tag == u64::MAX ==> r == Err::<u64, _>(
                SubmitError::Exhausted,
            ),
            old(self)@.open && old(self)@.next_tag < u64::MAX ==> r == Ok::<_, SubmitError>(
                old(self)@.next_tag,
            ),
    {
        if !self.open {
            return Err(SubmitError::Closed);
        }
        if self.next_tag == u64::MAX {
            return Err(SubmitError::Exhausted);
        }
        let tag = self.next_tag;
        let ghost before = self.queue@;
        self.queue.push(ScoreRequest { tag, fragments });
        self.next_tag = tag + 1;
        assert(request_models(self.queue@) =~= request_models(before).push(
            (tag, views_of(fragments@)),
        ));
        Ok(tag)
    }

    /// Takes the worker's next action: the oldest pending request, else a
    /// wait while the mailbox is open, else the end.
    pub fn take(&mut self) -> (r: WorkerAction)
        requires
            old(self).wf(),
        ensures
            final(self).wf(),
            final(self)@ == after_take(old(self)@).0,
            match r {
                WorkerAction::Serve(q) => after_take(old(self)@).1 == Some(q.model()),
                WorkerAction::Wait => after_take(old(self)@).1 is None && old(self)@.open,
                WorkerAction::Exit => after_take(old(self)@).1 is None && !old(self)@.open,
            },
    {
        if self.queue.len() > 0 {
            let ghost before = self.queue@;
            let q = self.queue.remove(0);
            assert(request_models(self.queue@) =~= request_models(before).drop_first());
            WorkerAction::Serve(q)
        } else if self.open {
            WorkerAction::Wait
        } else {
            WorkerAction::Exit
        }
    }

    /// Records whether the reply to a served request reached its submitter.
    /// Either way the worker goes on with the next request.
    pub fn settle(&mut self, delivered: bool)
        requires
            old(self).wf(),
        ensures
            final(self).wf(),
            final(self)@ == after_reply(old(self)@, delivered),
    {
        if !delivered && self.abandoned < u64::MAX {
            self.abandoned = self.abandoned + 1;
        }
        assert(self@.queue == old(self)@.queue);
        assert(self@.next_tag == old(self)@.next_tag);
    }

    /// Stops taking requests; those pending are still served.
    pub fn close(&mut self)
        requires
            old(self).wf(),
        ensures
            final(self).wf(),
            final(self)@ == (MailboxModel { open: false, ..old(self)@ }),
    {
        self.open = false;
    }

    /// How many replies were abandoned by their submitters.
    pub fn abandoned(&self) -> (r: u64)
        ensures
            r == self@.abandoned,
    {
        self.abandoned
    }
}

} // verus!
