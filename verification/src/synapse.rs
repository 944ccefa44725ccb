//! Weighted links between learning units, kept as a flat connection list.
//!
//! Link weights are milli-units in `[0, 1]`.

use vstd::prelude::*;

verus! {

/// One weighted link from one unit to another.
#[derive(Clone, Copy, Debug, PartialEq, Eq, Structural)]
pub struct Synapse {
    pub from_id: u64,
    pub to_id: u64,
    pub weight: u64,
}

/// The ordered list of links made so far.
#[derive(Debug)]
pub struct SynapseChain {
    pub synapses: Vec<Synapse>,
}

impl Clone for SynapseChain {
    /// A copy with the same links.
    fn clone(&self) -> (r: Self)
        ensures
            r.synapses@ == self.synapses@,
    {
        let mut synapses: Vec<Synapse> = Vec::new();
        let mut i: usize = 0;
        while i < self.synapses.len()
            invariant
                i <= self.synapses@.len(),
                synapses@ =~= self.synapses@.take(i as int),
            decreases self.synapses@.len() - i,
        {
            synapses.push(self.synapses[i]);
            i = i + 1;
        }
        proof {
            assert(synapses@ =~= self.synapses@);
        }
        SynapseChain { synapses }
    }
}

impl SynapseChain {
    /// A fresh, empty connection list.
    pub fn new() -> (c: SynapseChain)
        ensures
            c.synapses@ =~= Seq::<Synapse>::empty(),
    {
        SynapseChain { synapses: Vec::new() }
    }

    /// Record a link from `from_id` to `to_id` with the given weight.
    pub fn connect(&mut self, from_id: u64, to_id: u64, weight: u64)
        ensures
            final(self).synapses@ == old(self).synapses@.push(
                Synapse { from_id, to_id, weight },
            ),
    {
        self.synapses.push(Synapse { from_id, to_id, weight });
    }
}

} // verus!
