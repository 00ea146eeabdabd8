use vstd::prelude::*;

use crate::error::SetupError;

verus! {

/// Which way messages flow through a port, seen from the node.
#[derive(Debug, Clone, Copy, PartialEq, Eq, Structural)]
pub enum Direction {
    Input,
    Output,
}

/// A resolved endpoint that a node holds for the lifetime of its iteration closure.
#[derive(Debug)]
pub struct Port {
    pub name: String,
    pub direction: Direction,
}

/// The views of a list of port names.
pub open spec fn names_of(v: Seq<String>) -> Seq<Seq<char>> {
    v.map_values(|s: String| s@)
}

/// The port names of the graph's wiring that a node has not taken yet.
pub struct PortTable {
    inputs: Vec<String>,
    outputs: Vec<String>,
}

impl PortTable {
    /// The names still available in direction `d`.
    pub closed spec fn available(&self, d: Direction) -> Seq<Seq<char>> {
        match d {
            Direction::Input => names_of(self.inputs@),
            Direction::Output => names_of(self.outputs@),
        }
    }

    /// No name is listed twice in one direction.
    pub open spec fn wf(&self) -> bool {
        self.available(Direction::Input).no_duplicates()
            && self.available(Direction::Output).no_duplicates()
    }

    /// Builds the table from the wiring's input and output names; a name
    /// listed twice in one direction is one port.
    pub fn new(inputs: Vec<String>, outputs: Vec<String>) -> (r: PortTable)
        ensures
            r.wf(),
            forall|n: Seq<char>|
                r.available(Direction::Input).contains(n) <==> names_of(inputs@).contains(n),
            forall|n: Seq<char>|
                r.available(Direction::Output).contains(n) <==> names_of(outputs@).contains(n),
    {
        let ins = dedup(inputs);
        let outs = dedup(outputs);
        PortTable { inputs: ins, outputs: outs }
    }

    /// Takes the port `name` in direction `d`. A name absent from the wiring,
    /// or taken before, is `PortNotFound`; a taken name is no longer available.
    pub fn take(&mut self, name: &String, d: Direction) -> (r: Result<Port, SetupError>)
        requires
            old(self).wf(),
        ensures
            final(self).wf(),
            r.is_ok() <==> old(self).available(d).contains(name@),
            match r {
                Ok(p) => p.name@ == name@ && p.direction == d
                    && !final(self).available(d).contains(name@)
                    && (forall|n: Seq<char>| n != name@ ==>
                        (final(self).available(d).contains(n) <==> old(self).available(d).contains(n))),
                Err(e) => e == SetupError::PortNotFound && final(self).available(d) == old(self).available(d),
            },
            d == Direction::Input ==> final(self).available(Direction::Output) == old(self).available(Direction::Output),
            d == Direction::Output ==> final(self).available(Direction::Input) == old(self).available(Direction::Input),
    {
        match d {
            Direction::Input => {
                let r = remove_name(&mut self.inputs, name);
                match r {
                    Some(s) => Ok(Port { name: s, direction: d }),
                    None => Err(SetupError::PortNotFound),
                }
            },
            Direction::Output => {
                let r = remove_name(&mut self.outputs, name);
                match r {
                    Some(s) => Ok(Port { name: s, direction: d }),
                    None => Err(SetupError::PortNotFound),
                }
            },
        }
    }
}

/// Takes the port named by the text `name` in direction `d`, as `take` does.
pub fn bind(ports: &mut PortTable, name: &str, d: Direction) -> (r: Result<Port, SetupError>)
    requires
        old(ports).wf(),
    ensures
        final(ports).wf(),
        r.is_ok() <==> old(ports).available(d).contains(name@),
        match r {
            Ok(p) => p.name@ == name@ && p.direction == d && !final(ports).available(d).contains(name@),
            Err(e) => e == SetupError::PortNotFound && final(ports).available(d) == old(ports).available(d),
        },
        d == Direction::Input ==> final(ports).available(Direction::Output) == old(ports).available(Direction::Output),
        d == Direction::Output ==> final(ports).available(Direction::Input) == old(ports).available(Direction::Input),
{
    let owned = name.to_owned();
    ports.take(&owned, d)
}

/// Finds `name` in `v`.
fn position_of(v: &Vec<String>, name: &String) -> (r: Option<usize>)
    ensures
        match r {
            Some(i) => i < v@.len() && v@[i as int]@ == name@,
            None => !names_of(v@).contains(name@),
        },
{
    let mut i: usize = 0;
    while i < v.len()
        invariant
            i <= v@.len(),
            forall|j: int| 0 <= j < i ==> v@[j]@ != name@,
        decreases v@.len() - i,
    {
        if v[i] == *name {
            return Some(i);
        }
        i = i + 1;
    }
    proof {
        if names_of(v@).contains(name@) {
            let k = choose|k: int| 0 <= k < names_of(v@).len() && names_of(v@)[k] == name@;
            assert(v@[k]@ == name@);
        }
    }
    None
}

/// Removes the (only) occurrence of `name` from a duplicate-free list.
fn remove_name(v: &mut Vec<String>, name: &String) -> (r: Option<String>)
    requires
        names_of(old(v)@).no_duplicates(),
    ensures
        names_of(final(v)@).no_duplicates(),
        r.is_some() <==> names_of(old(v)@).contains(name@),
        match r {
            Some(s) => s@ == name@ && !names_of(final(v)@).contains(name@)
                && (forall|n: Seq<char>| n != name@ ==>
                    (names_of(final(v)@).contains(n) <==> names_of(old(v)@).contains(n))),
            None => final(v)@ == old(v)@,
        },
{
    match position_of(v, name) {
        None => None,
        Some(i) => {
            let ghost before = names_of(v@);
            let s = v.remove(i);
            proof {
                assert(names_of(v@) =~= before.remove(i as int));
                assert forall|n: Seq<char>| n != name@ implies
                    (names_of(v@).contains(n) <==> before.contains(n)) by {
                    if before.contains(n) {
                        let k = choose|k: int| 0 <= k < before.len() && before[k] == n;
                        if k < i {
                            assert(names_of(v@)[k] == n);
                        } else {
                            assert(names_of(v@)[k - 1] == n);
                        }
                    }
                    if names_of(v@).contains(n) {
                        let k = choose|k: int| 0 <= k < names_of(v@).len() && names_of(v@)[k] == n;
                        if k < i {
                            assert(before[k] == n);
                        } else {
                            assert(before[k + 1] == n);
                        }
                    }
                }
                if names_of(v@).contains(name@) {
                    let k = choose|k: int| 0 <= k < names_of(v@).len() && names_of(v@)[k] == name@;
                    if k < i {
                        assert(before[k] == name@);
                    } else {
                        assert(before[k + 1] == name@);
                    }
                }
                assert(before[i as int] == name@);
            }
            Some(s)
        },
    }
}

/// Keeps the first occurrence of each name.
fn dedup(v: Vec<String>) -> (r: Vec<String>)
    ensures
        names_of(r@).no_duplicates(),
        forall|n: Seq<char>| names_of(r@).contains(n) <==> names_of(v@).contains(n),
{
    let mut out: Vec<String> = Vec::new();
    let mut i: usize = 0;
    while i < v.len()
        invariant
            i <= v@.len(),
            names_of(out@).no_duplicates(),
            forall|n: Seq<char>| names_of(out@).contains(n) ==> names_of(v@.take(i as int)).contains(n),
            forall|n: Seq<char>| names_of(out@).contains(n) <==> names_of(v@.take(i as int)).contains(n),
        decreases v@.len() - i,
    {
        let ghost prev = names_of(out@);
        let found = position_of(&out, &v[i]);
        if found.is_none() {
            out.push(v[i].clone());
            proof {
                assert(names_of(out@) =~= prev.push(v@[i as int]@));
                assert forall|a: int, b: int| 0 <= a < b < names_of(out@).len()
                    implies names_of(out@)[a] != names_of(out@)[b] by {
                    if b == prev.len() {
                        assert(prev[a] == names_of(out@)[a]);
                    }
                }
            }
        }
        proof {
            let pre = names_of(v@.take(i as int));
            let cur = names_of(v@.take(i + 1));
            assert(cur =~= pre.push(v@[i as int]@));
            match found {
                Some(j) => {
                    assert(names_of(out@)[j as int] == v@[i as int]@);
                    assert(names_of(out@) == prev);
                },
                None => {
                    assert(names_of(out@) =~= prev.push(v@[i as int]@));
                },
            }
            assert forall|n: Seq<char>| names_of(out@).contains(n) <==> cur.contains(n) by {
                if cur.contains(n) {
                    let k = choose|k: int| 0 <= k < cur.len() && cur[k] == n;
                    if k < i {
                        assert(pre[k] == n);
                        assert(prev.contains(n));
                        let j = choose|j: int| 0 <= j < prev.len() && prev[j] == n;
                        assert(names_of(out@)[j] == n);
                    } else {
                        assert(n == v@[i as int]@);
                        if found.is_none() {
                            assert(names_of(out@)[prev.len() as int] == n);
                        }
                    }
                }
                if names_of(out@).contains(n) {
                    let k = choose|k: int| 0 <= k < names_of(out@).len() && names_of(out@)[k] == n;
                    if k < prev.len() {
                        assert(prev[k] == n);
                        assert(prev.contains(n));
                        assert(pre.contains(n));
                        let j = choose|j: int| 0 <= j < pre.len() && pre[j] == n;
                        assert(cur[j] == n);
                    } else {
                        assert(cur[i as int] == n);
                    }
                }
            }
        }
        i = i + 1;
    }
    proof {
        assert(v@.take(v@.len() as int) =~= v@);
    }
    out
}

} // verus!
