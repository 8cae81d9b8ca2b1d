use vstd::prelude::*;

verus! {

/// The state of a candidate sequence.
pub struct DiscoveryView<T> {
    /// Candidates discovered and not yet pulled, oldest first.
    pub queued: Seq<T>,
    /// Discovery has reported completion (or the consumer has let go).
    pub complete: bool,
}

/// What one `next` yields.
pub enum Pull<T> {
    /// The next discovered candidate.
    Candidate(T),
    /// Discovery is over and every candidate has been pulled.
    Done,
    /// Nothing yet: discovery is still running.
    Pending,
}

/// A `next` result as a value: `None` while pending, `Some(None)` once
/// done, `Some(Some(c))` for a candidate `c`.
pub open spec fn pull_view<T>(p: &Pull<T>) -> Option<Option<T>> {
    match p {
        Pull::Candidate(c) => Some(Some(*c)),
        Pull::Done => Some(None),
        Pull::Pending => None,
    }
}

/// A candidate event: kept while discovery runs, dropped after completion.
pub open spec fn discovered_spec<T>(v: DiscoveryView<T>, c: T) -> DiscoveryView<T> {
    if v.complete {
        v
    } else {
        DiscoveryView { queued: v.queued.push(c), ..v }
    }
}

pub open spec fn completed_spec<T>(v: DiscoveryView<T>) -> DiscoveryView<T> {
    DiscoveryView { complete: true, ..v }
}

/// One `next`: the oldest queued candidate, else done once discovery is
/// complete, else pending.
pub open spec fn next_spec<T>(v: DiscoveryView<T>) -> (Option<Option<T>>, DiscoveryView<T>) {
    if v.queued.len() > 0 {
        (Some(Some(v.queued[0])), DiscoveryView { queued: v.queued.drop_first(), ..v })
    } else if v.complete {
        (Some(None), v)
    } else {
        (None, v)
    }
}

/// Local candidates as a single-consumer pull queue, fed by two event
/// sources (a candidate was found; discovery is complete) and terminated by
/// completion.
pub struct CandidateSequence<T> {
    queued: Vec<T>,
    complete: bool,
}

impl<T> View for CandidateSequence<T> {
    type V = DiscoveryView<T>;

    closed spec fn view(&self) -> DiscoveryView<T> {
        DiscoveryView { queued: self.queued@, complete: self.complete }
    }
}

impl<T> CandidateSequence<T> {
    /// An empty sequence whose discovery is running.
    pub fn new() -> (s: Self)
        ensures
            s@ == (DiscoveryView::<T> { queued: Seq::empty(), complete: false }),
    {
        CandidateSequence { queued: Vec::new(), complete: false }
    }

    /// A candidate was discovered. After completion it is dropped.
    pub fn on_candidate(&mut self, c: T)
        ensures
            final(self)@ == discovered_spec(old(self)@, c),
    {
        if !self.complete {
            self.queued.push(c);
        }
    }

    /// Discovery reports completion.
    pub fn on_complete(&mut self)
        ensures
            final(self)@ == completed_spec(old(self)@),
    {
        self.complete = true;
    }

    /// The consumer lets go: the queue is emptied and no candidate is kept
    /// from now on.
    pub fn close(&mut self)
        ensures
            final(self)@ == (DiscoveryView::<T> { queued: Seq::empty(), complete: true }),
    {
        self.queued = Vec::new();
        self.complete = true;
    }

    /// The event sources must stay registered: discovery has not completed
    /// and the consumer still pulls. Once false, it stays false.
    pub fn is_registered(&self) -> (r: bool)
        ensures
            r == !self@.complete,
    {
        !self.complete
    }

    /// Pulls the next candidate.
    pub fn next(&mut self) -> (r: Pull<T>)
        ensures
            (pull_view(&r), final(self)@) == next_spec(old(self)@),
    {
        if self.queued.len() > 0 {
            let c = self.queued.remove(0);
            Pull::Candidate(c)
        } else if self.complete {
            Pull::Done
        } else {
            Pull::Pending
        }
    }
}

/// Once discovery has completed and the queue is drained, `next` yields
/// done and changes nothing, and neither a late candidate event nor a
/// repeated completion changes the state: termination is final.
pub proof fn lemma_completion_is_final<T>(v: DiscoveryView<T>, late: T)
    requires
        v.complete,
        v.queued.len() == 0,
    ensures
        next_spec(v) == (Some(None::<T>), v),
        discovered_spec(v, late) == v,
        completed_spec(v) == v,
{
}

/// Candidates come out in the order they were discovered: after `c` is
/// discovered during a running discovery, it leaves after everything
/// queued before it.
pub proof fn lemma_discovery_order<T>(v: DiscoveryView<T>, c: T)
    requires
        !v.complete,
    ensures
        discovered_spec(v, c).queued == v.queued.push(c),
        v.queued.len() > 0 ==> next_spec(discovered_spec(v, c)).0 == Some(Some(v.queued[0])),
        v.queued.len() == 0 ==> next_spec(discovered_spec(v, c)).0 == Some(Some(c)),
{
}

} // verus!
