use vstd::prelude::*;

use crate::error::{InvocationError, SetupError};
use crate::ports::{bind, Direction, Port, PortTable};
use crate::message::Message;

verus! {

/// A sequence of emitted values as mathematical integers.
pub open spec fn as_ints(s: Seq<u64>) -> Seq<int> {
    s.map_values(|x: u64| x as int)
}

/// The sum of a sequence of inputs.
pub open spec fn sum_of(vs: Seq<u64>) -> int
    decreases vs.len(),
{
    if vs.len() == 0 {
        0
    } else {
        sum_of(vs.drop_last()) + vs.last()
    }
}

/// What an accumulator started at `initial` emits for the inputs `vs`, one
/// value per input: the running totals.
pub open spec fn prefix_sums(initial: int, vs: Seq<u64>) -> Seq<int> {
    Seq::new(vs.len(), |i: int| initial + sum_of(vs.take(i + 1)))
}

/// The sum of a prefix is no larger than the sum of the whole.
pub proof fn lemma_prefix_sum_le(vs: Seq<u64>, k: int)
    requires
        0 <= k <= vs.len(),
    ensures
        0 <= sum_of(vs.take(k)) <= sum_of(vs),
    decreases vs.len(),
{
    if vs.len() > 0 {
        if k == vs.len() {
            assert(vs.take(k) =~= vs);
            lemma_prefix_sum_le(vs.drop_last(), k - 1);
            assert(vs.drop_last().take(k - 1) =~= vs.drop_last());
        } else {
            lemma_prefix_sum_le(vs.drop_last(), k);
            assert(vs.drop_last().take(k) =~= vs.take(k));
        }
    } else {
        assert(vs.take(k) =~= vs);
    }
}

/// The emitted values are the running totals: the first is the initial value
/// plus the first input, and each later one is the one before plus its input.
pub proof fn lemma_emitted_are_running_totals(initial: int, vs: Seq<u64>)
    ensures
        prefix_sums(initial, vs).len() == vs.len(),
        vs.len() > 0 ==> prefix_sums(initial, vs)[0] == initial + vs[0],
        forall|i: int|
            0 < i < vs.len() ==> #[trigger] prefix_sums(initial, vs)[i] == prefix_sums(initial, vs)[i - 1] + vs[i],
{
    if vs.len() > 0 {
        assert(vs.take(1).drop_last() =~= Seq::<u64>::empty());
        assert(sum_of(vs.take(1)) == sum_of(vs.take(1).drop_last()) + vs.take(1).last());
    }
    assert forall|i: int| 0 < i < vs.len() implies #[trigger] prefix_sums(initial, vs)[i]
        == prefix_sums(initial, vs)[i - 1] + vs[i] by {
        assert(vs.take(i + 1).drop_last() =~= vs.take(i));
    }
}

/// A running total, replaced atomically by each input.
pub struct Accumulator {
    total: u64,
}

impl Accumulator {
    /// The total held now.
    pub closed spec fn view(&self) -> int {
        self.total as int
    }

    /// Starts at the configured initial value, or zero.
    pub fn new(initial: Option<u64>) -> (r: Accumulator)
        ensures
            r@ == match initial {
                Some(v) => v as int,
                None => 0,
            },
    {
        match initial {
            Some(v) => Accumulator { total: v },
            None => Accumulator { total: 0 },
        }
    }

    /// The total held now.
    pub fn total(&self) -> (r: u64)
        ensures
            r as int == self@,
    {
        self.total
    }

    /// Adds `v` to the total and returns the new total. A sum that does not
    /// fit is `Overflow`, and the total is left as it was.
    pub fn add(&mut self, v: u64) -> (r: Result<u64, InvocationError>)
        ensures
            old(self)@ + v <= u64::MAX ==> r == Ok::<u64, InvocationError>((old(self)@ + v) as u64)
                && final(self)@ == old(self)@ + v,
            old(self)@ + v > u64::MAX ==> r == Err::<u64, InvocationError>(InvocationError::Overflow)
                && final(self)@ == old(self)@,
    {
        if v > u64::MAX - self.total {
            Err(InvocationError::Overflow)
        } else {
            self.total = self.total + v;
            Ok(self.total)
        }
    }

    /// One invocation: reads one message, adds its value, emits the new total.
    /// A control message is `NoData` and leaves the total as it was.
    pub fn on_message(&mut self, m: Message<u64>) -> (r: Result<u64, InvocationError>)
        ensures
            match m {
                Message::Control(_) => r == Err::<u64, InvocationError>(InvocationError::NoData)
                    && final(self)@ == old(self)@,
                Message::Data { payload, .. } =>
                    (old(self)@ + payload <= u64::MAX ==> r == Ok::<u64, InvocationError>((old(self)@ + payload) as u64)
                        && final(self)@ == old(self)@ + payload)
                    && (old(self)@ + payload > u64::MAX ==> r == Err::<u64, InvocationError>(InvocationError::Overflow)
                        && final(self)@ == old(self)@),
            },
    {
        match m.into_data() {
            Ok(v) => self.add(v),
            Err(e) => Err(e),
        }
    }

    /// Feeds every input in turn and returns what was emitted. Succeeds exactly
    /// when the final total fits; then the emitted values are the running totals
    /// and the held total is the last of them.
    pub fn add_all(&mut self, vs: &Vec<u64>) -> (r: Result<Vec<u64>, InvocationError>)
        ensures
            (old(self)@ + sum_of(vs@) <= u64::MAX) <==> r.is_ok(),
            match r {
                Ok(out) => as_ints(out@) == prefix_sums(old(self)@, vs@)
                    && final(self)@ == old(self)@ + sum_of(vs@),
                Err(e) => e == InvocationError::Overflow && final(self)@ == old(self)@,
            },
    {
        let start = self.total;
        let mut out: Vec<u64> = Vec::new();
        let mut i: usize = 0;
        while i < vs.len()
            invariant
                i <= vs@.len(),
                self@ == start + sum_of(vs@.take(i as int)),
                start as int == old(self)@,
                out@.len() == i,
                as_ints(out@) == prefix_sums(start as int, vs@.take(i as int)),
            decreases vs@.len() - i,
        {
            let ghost before = out@;
            proof {
                assert(vs@.take(i + 1).drop_last() =~= vs@.take(i as int));
                assert(sum_of(vs@.take(i + 1)) == sum_of(vs@.take(i as int)) + vs@[i as int]);
            }
            match self.add(vs[i]) {
                Ok(t) => {
                    out.push(t);
                    proof {
                        let p = prefix_sums(start as int, vs@.take(i + 1));
                        let q = prefix_sums(start as int, vs@.take(i as int));
                        assert forall|j: int| 0 <= j < i implies p[j] == q[j] by {
                            assert(vs@.take(i + 1).take(j + 1) =~= vs@.take(i as int).take(j + 1));
                        }
                        assert(vs@.take(i + 1).take(i + 1) =~= vs@.take(i + 1));
                        assert(out@ == before.push(t));
                        assert forall|j: int| 0 <= j < i + 1 implies #[trigger] as_ints(out@)[j] == p[j] by {
                            if j < i {
                                assert(out@[j] == before[j]);
                            }
                        }
                        assert(as_ints(out@) =~= p);
                    }
                },
                Err(e) => {
                    self.total = start;
                    proof {
                        lemma_prefix_sum_le(vs@, i + 1);
                    }
                    return Err(e);
                },
            }
            i = i + 1;
        }
        proof {
            assert(vs@.take(vs@.len() as int) =~= vs@);
        }
        Ok(out)
    }
}

/// An accumulation operator: reads one value on `Number`, emits the running
/// total on `Sum`.
pub struct SumAndSend {
    pub input: Port,
    pub output: Port,
    pub state: Accumulator,
}

impl SumAndSend {
    /// Takes the input port `Number` and the output port `Sum`, and starts the
    /// total at `initial`, or zero.
    pub fn setup(ports: &mut PortTable, initial: Option<u64>) -> (r: Result<SumAndSend, SetupError>)
        requires
            old(ports).wf(),
        ensures
            final(ports).wf(),
            r.is_ok() <==> (old(ports).available(Direction::Input).contains("Number"@)
                && old(ports).available(Direction::Output).contains("Sum"@)),
            match r {
                Ok(s) => s.input.name@ == "Number"@ && s.output.name@ == "Sum"@ && s.state@ == match initial {
                    Some(v) => v as int,
                    None => 0,
                },
                Err(e) => e == SetupError::PortNotFound,
            },
    {
        let input = match bind(ports, "Number", Direction::Input) {
            Ok(p) => p,
            Err(e) => return Err(e),
        };
        match bind(ports, "Sum", Direction::Output) {
            Ok(output) => Ok(SumAndSend { input, output, state: Accumulator::new(initial) }),
            Err(e) => Err(e),
        }
    }

    /// One invocation on the message received: the new total to send.
    pub fn iterate(&mut self, m: Message<u64>) -> (r: Result<u64, InvocationError>)
        ensures
            match m {
                Message::Control(_) => r == Err::<u64, InvocationError>(InvocationError::NoData)
                    && final(self).state@ == old(self).state@,
                Message::Data { payload, .. } =>
                    (old(self).state@ + payload <= u64::MAX ==> r == Ok::<u64, InvocationError>((old(self).state@ + payload) as u64)
                        && final(self).state@ == old(self).state@ + payload)
                    && (old(self).state@ + payload > u64::MAX ==> r == Err::<u64, InvocationError>(InvocationError::Overflow)
                        && final(self).state@ == old(self).state@),
            },
    {
        self.state.on_message(m)
    }
}

} // verus!
