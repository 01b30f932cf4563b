//! Scanning the I2C bus for a device: the addresses 1 to 127 are probed in
//! order, and the scan stops at the first address that answers.
use vstd::prelude::*;

verus! {

/// The highest address probed.
pub const LAST_ADDRESS: u8 = 127;

/// What the scan is to do next.
#[derive(Clone, Copy, Debug, PartialEq, Eq, Structural)]
pub enum ScanStep {
    /// Probe this address.
    Probe(u8),
    /// The scan is over: the address that answered, if any did.
    Finished(Option<u8>),
}

/// The state of a scan: the next address to probe (128 once all were
/// probed), and the address that answered.
pub struct AddressScan {
    next: u8,
    found: Option<u8>,
}

/// The step that a scan state asks for.
pub open spec fn scan_step(next: u8, found: Option<u8>) -> ScanStep {
    if found is Some {
        ScanStep::Finished(found)
    } else if next > LAST_ADDRESS {
        ScanStep::Finished(None)
    } else {
        ScanStep::Probe(next)
    }
}

impl AddressScan {
    #[verifier::type_invariant]
    spec fn well_formed(self) -> bool {
        &&& 1 <= self.next <= LAST_ADDRESS + 1
        &&& self.found matches Some(a) ==> a + 1 == self.next
    }

    /// The next address to probe.
    pub closed spec fn spec_next(&self) -> u8 {
        self.next
    }

    /// The address that answered, if any did.
    pub closed spec fn spec_found(&self) -> Option<u8> {
        self.found
    }

    /// A scan that has probed nothing yet.
    pub fn new() -> (r: Self)
        ensures
            r.spec_next() == 1,
            r.spec_found() is None,
    {
        AddressScan { next: 1, found: None }
    }

    /// The step that the scan asks for. A probe is of an address in
    /// 1..=127; a scan that found an address found the last one it probed;
    /// a scan that found none has probed all 127.
    pub fn step(&self) -> (r: ScanStep)
        ensures
            r == scan_step(self.spec_next(), self.spec_found()),
            r matches ScanStep::Probe(a) ==> 1 <= a <= LAST_ADDRESS,
            r matches ScanStep::Finished(Some(a)) ==> a + 1 == self.spec_next(),
            r == ScanStep::Finished(None::<u8>) ==> self.spec_next() == LAST_ADDRESS + 1,
    {
        proof {
            use_type_invariant(self);
        }
        if self.found.is_some() {
            ScanStep::Finished(self.found)
        } else if self.next > LAST_ADDRESS {
            ScanStep::Finished(None)
        } else {
            ScanStep::Probe(self.next)
        }
    }

    /// Take in whether the probed address answered.
    pub fn report(&mut self, answered: bool)
        requires
            scan_step(old(self).spec_next(), old(self).spec_found()) is Probe,
        ensures
            final(self).spec_next() == old(self).spec_next() + 1,
            final(self).spec_found() == if answered {
                Some(old(self).spec_next())
            } else {
                None::<u8>
            },
    {
        proof {
            use_type_invariant(&*self);
        }
        let probed = self.next;
        let found = if answered {
            Some(probed)
        } else {
            None
        };
        *self = AddressScan { next: probed + 1, found };
    }
}

} // verus!
