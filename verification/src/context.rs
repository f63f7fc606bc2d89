//! What the host tells the ledger about one invocation.

use vstd::prelude::*;
use crate::types::Address;

verus! {

/// The facts of one invocation: the current ledger sequence, and the principals that
/// authorised the call.
#[derive(Debug)]
pub struct CallContext {
    ledger_sequence: u32,
    signers: Vec<Address>,
}

impl CallContext {
    /// The ledger sequence at which the call runs.
    pub closed spec fn sequence(&self) -> u32 {
        self.ledger_sequence
    }

    /// Whether `who` authorised the call.
    pub closed spec fn authorized(&self, who: Address) -> bool {
        self.signers@.contains(who)
    }

    /// A call at `ledger_sequence` that nobody has authorised yet.
    pub fn new(ledger_sequence: u32) -> (context: Self)
        ensures
            context.sequence() == ledger_sequence,
            forall|who: Address| !context.authorized(who),
    {
        CallContext { ledger_sequence, signers: Vec::new() }
    }

    /// Records that `who` authorised the call.
    pub fn authorize(&mut self, who: Address)
        ensures
            final(self).sequence() == old(self).sequence(),
            forall|other: Address|
                final(self).authorized(other) == (old(self).authorized(other) || other == who),
    {
        self.signers.push(who);
        proof {
            let before = old(self).signers@;
            let after = self.signers@;
            assert(after == before.push(who));
            assert forall|other: Address|
                after.contains(other) == (before.contains(other) || other == who) by {
                if before.contains(other) {
                    let i = before.index_of(other);
                    assert(after[i] == other);
                }
                if other == who {
                    assert(after[before.len() as int] == who);
                }
            }
        }
    }

    /// Moves the call to another ledger sequence; the authorisations stay.
    pub fn set_ledger_sequence(&mut self, ledger_sequence: u32)
        ensures
            final(self).sequence() == ledger_sequence,
            forall|who: Address| final(self).authorized(who) == old(self).authorized(who),
    {
        self.ledger_sequence = ledger_sequence;
    }

    /// The ledger sequence at which the call runs.
    pub fn ledger_sequence(&self) -> (sequence: u32)
        ensures
            sequence == self.sequence(),
    {
        self.ledger_sequence
    }

    /// Whether `who` authorised the call.
    pub fn is_authorized(&self, who: Address) -> (yes: bool)
        ensures
            yes == self.authorized(who),
    {
        let mut i: usize = 0;
        while i < self.signers.len()
            invariant
                i <= self.signers@.len(),
                forall|j: int| 0 <= j < i ==> self.signers@[j] != who,
            decreases self.signers@.len() - i,
        {
            if self.signers[i] == who {
                return true;
            }
            i += 1;
        }
        false
    }
}

} // verus!
