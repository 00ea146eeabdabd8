use vstd::prelude::*;

use crate::accumulate::as_ints;
use crate::error::{InvocationError, SetupError};
use crate::ports::{bind, Direction, Port, PortTable};

verus! {

/// What a counter started at `initial` emits in its first `n` invocations.
pub open spec fn counts(initial: int, n: nat) -> Seq<int> {
    Seq::new(n, |i: int| initial + i)
}

/// Emitted values go up by one per invocation, so no two are equal.
pub proof fn lemma_counts_strictly_increase(initial: int, n: nat)
    ensures
        counts(initial, n).len() == n,
        n > 0 ==> counts(initial, n)[0] == initial,
        forall|i: int| 0 < i < n ==> #[trigger] counts(initial, n)[i] == counts(initial, n)[i - 1] + 1,
        forall|i: int, j: int| 0 <= i < j < n ==> #[trigger] counts(initial, n)[i] < #[trigger] counts(initial, n)[j],
{
}

/// A per-instance counter: the value the next invocation emits.
pub struct Counter {
    next: u64,
}

impl Counter {
    /// The value the next invocation emits.
    pub closed spec fn view(&self) -> int {
        self.next as int
    }

    /// Starts at the configured initial value, or zero.
    pub fn new(initial: Option<u64>) -> (r: Counter)
        ensures
            r@ == match initial {
                Some(v) => v as int,
                None => 0,
            },
    {
        match initial {
            Some(v) => Counter { next: v },
            None => Counter { next: 0 },
        }
    }

    /// Emits the current value and moves on to the next. When the next value
    /// would not fit, this is `Overflow` and nothing changes.
    pub fn emit(&mut self) -> (r: Result<u64, InvocationError>)
        ensures
            old(self)@ < u64::MAX ==> r == Ok::<u64, InvocationError>(old(self)@ as u64)
                && final(self)@ == old(self)@ + 1,
            old(self)@ == u64::MAX ==> r == Err::<u64, InvocationError>(InvocationError::Overflow)
                && final(self)@ == old(self)@,
    {
        if self.next == u64::MAX {
            Err(InvocationError::Overflow)
        } else {
            let v = self.next;
            self.next = v + 1;
            Ok(v)
        }
    }

    /// Runs `n` invocations and returns what they emitted; `Overflow`, with
    /// nothing changed, when the counter would pass the largest `u64`.
    pub fn emit_n(&mut self, n: u64) -> (r: Result<Vec<u64>, InvocationError>)
        ensures
            r.is_ok() <==> old(self)@ + n <= u64::MAX,
            match r {
                Ok(out) => as_ints(out@) == counts(old(self)@, n as nat)
                    && final(self)@ == old(self)@ + n,
                Err(e) => e == InvocationError::Overflow && final(self)@ == old(self)@,
            },
    {
        let start = self.next;
        let mut out: Vec<u64> = Vec::new();
        let mut i: u64 = 0;
        while i < n
            invariant
                i <= n,
                self@ == start + i,
                start as int == old(self)@,
                out@.len() == i,
                as_ints(out@) == counts(start as int, i as nat),
            decreases n - i,
        {
            let ghost before = out@;
            let ghost was = self@;
            match self.emit() {
                Ok(v) => {
                    out.push(v);
                    proof {
                        assert(v as int == was);
                        assert(out@ == before.push(v));
                        assert forall|j: int| 0 <= j < i + 1 implies #[trigger] as_ints(out@)[j]
                            == counts(start as int, (i + 1) as nat)[j] by {
                            if j < i {
                                assert(out@[j] == before[j]);
                                assert(as_ints(before)[j] == counts(start as int, i as nat)[j]);
                            } else {
                                assert(out@[j] == v);
                            }
                        }
                        assert(as_ints(out@) =~= counts(start as int, (i + 1) as nat));
                    }
                },
                Err(e) => {
                    assert(self@ == u64::MAX);
                    self.next = start;
                    return Err(e);
                },
            }
            i = i + 1;
        }
        Ok(out)
    }
}

/// A counting source: emits its counter on `Counter` once per invocation,
/// one second apart.
pub struct CountSource {
    pub output: Port,
    pub counter: Counter,
}

/// The pause after each emitted count, in milliseconds.
pub const COUNT_INTERVAL_MS: u64 = 1000;

impl CountSource {
    /// Takes the output port `Counter` and starts the counter at `initial`, or zero.
    pub fn setup(ports: &mut PortTable, initial: Option<u64>) -> (r: Result<CountSource, SetupError>)
        requires
            old(ports).wf(),
        ensures
            final(ports).wf(),
            r.is_ok() <==> old(ports).available(Direction::Output).contains("Counter"@),
            match r {
                Ok(s) => s.output.name@ == "Counter"@ && s.counter@ == match initial {
                    Some(v) => v as int,
                    None => 0,
                },
                Err(e) => e == SetupError::PortNotFound,
            },
    {
        match bind(ports, "Counter", Direction::Output) {
            Ok(output) => Ok(CountSource { output, counter: Counter::new(initial) }),
            Err(e) => Err(e),
        }
    }

    /// One invocation: the value to send.
    pub fn iterate(&mut self) -> (r: Result<u64, InvocationError>)
        ensures
            final(self).output == old(self).output,
            old(self).counter@ < u64::MAX ==> r == Ok::<u64, InvocationError>(old(self).counter@ as u64)
                && final(self).counter@ == old(self).counter@ + 1,
            old(self).counter@ == u64::MAX ==> r == Err::<u64, InvocationError>(InvocationError::Overflow)
                && final(self).counter@ == old(self).counter@,
    {
        self.counter.emit()
    }
}

} // verus!
