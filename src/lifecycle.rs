use vstd::prelude::*;

verus! {

/// Where a node instance stands in its life.
#[derive(Debug, Clone, Copy, PartialEq, Eq, Structural)]
pub enum Phase {
    /// Not set up yet.
    Unconfigured,
    /// Setup succeeded; no invocation has started.
    Ready,
    /// Invocations have started; `busy` while one is in flight.
    Running { busy: bool },
    /// Setup failed: the node never runs.
    Aborted,
    /// Resources released: nothing more happens to this instance.
    Finalized,
}

/// What the runtime does to a node instance.
#[derive(Debug, Clone, Copy, PartialEq, Eq, Structural)]
pub enum Event {
    SetupSucceeded,
    SetupFailed,
    /// An invocation of the iteration closure begins.
    InvocationStarted,
    /// The invocation in flight returns, successfully or with an error.
    InvocationEnded,
    Finalize,
}

/// The phase an event leads to, or `None` where the event is not allowed.
pub open spec fn next_phase(p: Phase, e: Event) -> Option<Phase> {
    match (p, e) {
        (Phase::Unconfigured, Event::SetupSucceeded) => Some(Phase::Ready),
        (Phase::Unconfigured, Event::SetupFailed) => Some(Phase::Aborted),
        (Phase::Ready, Event::InvocationStarted) => Some(Phase::Running { busy: true }),
        (Phase::Running { busy: false }, Event::InvocationStarted) => Some(Phase::Running { busy: true }),
        (Phase::Running { busy: true }, Event::InvocationEnded) => Some(Phase::Running { busy: false }),
        (Phase::Ready, Event::Finalize) => Some(Phase::Finalized),
        (Phase::Running { busy: false }, Event::Finalize) => Some(Phase::Finalized),
        _ => None,
    }
}

/// The phase after a whole sequence of events, or `None` if one is not allowed.
pub open spec fn run(p: Phase, es: Seq<Event>) -> Option<Phase>
    decreases es.len(),
{
    if es.len() == 0 {
        Some(p)
    } else {
        match run(p, es.drop_last()) {
            Some(q) => next_phase(q, es.last()),
            None => None,
        }
    }
}

/// Every prefix of an allowed sequence is allowed.
proof fn lemma_prefix_allowed(p: Phase, es: Seq<Event>, k: int)
    requires
        0 <= k <= es.len(),
        run(p, es).is_some(),
    ensures
        run(p, es.take(k)).is_some(),
    decreases es.len(),
{
    if k == es.len() {
        assert(es.take(k) =~= es);
    } else {
        lemma_prefix_allowed(p, es.drop_last(), k);
        assert(es.drop_last().take(k) =~= es.take(k));
    }
}

/// An allowed finalize is the last event.
proof fn lemma_finalize_is_last(es: Seq<Event>, i: int)
    requires
        run(Phase::Unconfigured, es).is_some(),
        0 <= i < es.len(),
        es[i] == Event::Finalize,
    ensures
        i == es.len() - 1,
        run(Phase::Unconfigured, es.take(i)) == Some(Phase::Ready)
            || run(Phase::Unconfigured, es.take(i)) == Some(Phase::Running { busy: false }),
{
    let p = Phase::Unconfigured;
    lemma_prefix_allowed(p, es, i + 1);
    assert(es.take(i + 1).drop_last() =~= es.take(i));
    assert(run(p, es.take(i + 1)) == Some(Phase::Finalized));
    if i + 1 < es.len() {
        lemma_prefix_allowed(p, es, i + 2);
        assert(es.take(i + 2).drop_last() =~= es.take(i + 1));
    }
}

/// In any allowed life of a node, finalize happens at most once, as the very
/// last event, and only when no invocation is in flight: the last invocation
/// has returned before it.
pub proof fn lemma_finalize_last_and_once(es: Seq<Event>, i: int)
    requires
        run(Phase::Unconfigured, es).is_some(),
        0 <= i < es.len(),
        es[i] == Event::Finalize,
    ensures
        i == es.len() - 1,
        forall|j: int| 0 <= j < es.len() && j != i ==> es[j] != Event::Finalize,
        run(Phase::Unconfigured, es.take(i)) == Some(Phase::Ready)
            || run(Phase::Unconfigured, es.take(i)) == Some(Phase::Running { busy: false }),
{
    lemma_finalize_is_last(es, i);
    assert forall|j: int| 0 <= j < es.len() && j != i implies es[j] != Event::Finalize by {
        if es[j] == Event::Finalize {
            lemma_finalize_is_last(es, j);
        }
    }
}

/// Tracks one node instance through its life and refuses what the life does
/// not allow.
pub struct Lifecycle {
    phase: Phase,
}

impl Lifecycle {
    pub closed spec fn view(&self) -> Phase {
        self.phase
    }

    /// A node instance before setup.
    pub fn new() -> (r: Lifecycle)
        ensures
            r@ == Phase::Unconfigured,
    {
        Lifecycle { phase: Phase::Unconfigured }
    }

    /// The current phase.
    pub fn phase(&self) -> (r: Phase)
        ensures
            r == self@,
    {
        self.phase
    }

    /// Applies an event. An event that the life does not allow returns `false`
    /// and leaves the phase as it was.
    pub fn apply(&mut self, e: Event) -> (ok: bool)
        ensures
            ok <==> next_phase(old(self)@, e).is_some(),
            ok ==> Some(final(self)@) == next_phase(old(self)@, e),
            !ok ==> final(self)@ == old(self)@,
    {
        let next = match (self.phase, e) {
            (Phase::Unconfigured, Event::SetupSucceeded) => Some(Phase::Ready),
            (Phase::Unconfigured, Event::SetupFailed) => Some(Phase::Aborted),
            (Phase::Ready, Event::InvocationStarted) => Some(Phase::Running { busy: true }),
            (Phase::Running { busy: false }, Event::InvocationStarted) => Some(Phase::Running { busy: true }),
            (Phase::Running { busy: true }, Event::InvocationEnded) => Some(Phase::Running { busy: false }),
            (Phase::Ready, Event::Finalize) => Some(Phase::Finalized),
            (Phase::Running { busy: false }, Event::Finalize) => Some(Phase::Finalized),
            _ => None,
        };
        match next {
            Some(p) => {
                self.phase = p;
                true
            },
            None => false,
        }
    }

    /// Applies events in order until one is not allowed. Returns how many were
    /// applied; all were exactly when the sequence is an allowed life from here.
    pub fn apply_all(&mut self, es: &Vec<Event>) -> (n: usize)
        ensures
            n <= es@.len(),
            run(old(self)@, es@.take(n as int)) == Some(final(self)@),
            n < es@.len() ==> next_phase(final(self)@, es@[n as int]).is_none(),
            (n == es@.len()) <==> run(old(self)@, es@).is_some(),
    {
        let ghost start = self@;
        let mut i: usize = 0;
        while i < es.len()
            invariant
                i <= es@.len(),
                start == old(self)@,
                run(start, es@.take(i as int)) == Some(self@),
            decreases es@.len() - i,
        {
            proof {
                assert(es@.take(i + 1).drop_last() =~= es@.take(i as int));
            }
            if !self.apply(es[i]) {
                proof {
                    if run(start, es@).is_some() {
                        lemma_prefix_allowed(start, es@, i + 1);
                    }
                }
                return i;
            }
            i = i + 1;
        }
        proof {
            assert(es@.take(i as int) =~= es@);
        }
        i
    }
}

} // verus!
