//! Boot-time scan of the I2C bus: every address in the valid range is probed
//! once by a read of no bytes, and a device lives where it is acknowledged.

use vstd::prelude::*;

verus! {

pub const FIRST_ADDRESS: u8 = 0x08;

pub const LAST_ADDRESS: u8 = 0x77;

/// Bytes that a probe reads: none, so that no device is disturbed.
pub const PROBE_LEN: usize = 0;

/// A read of `len` bytes at `address`.
#[derive(Debug, Clone, Copy, PartialEq, Eq, Structural)]
pub struct Probe {
    pub address: u8,
    pub len: usize,
}

/// How many of `acks` are set.
pub open spec fn count_of(acks: Seq<bool>) -> nat
    decreases acks.len(),
{
    if acks.len() == 0 {
        0
    } else {
        count_of(acks.drop_last()) + (if acks.last() {
            1nat
        } else {
            0nat
        })
    }
}

pub struct I2cScan {
    /// The next address to probe.
    pub address: u8,
    /// Devices that were found.
    pub found: u8,
    /// Which addresses acknowledged, from the first on.
    pub acks: Ghost<Seq<bool>>,
}

impl I2cScan {
    pub open spec fn wf(self) -> bool {
        &&& self.address == FIRST_ADDRESS + self.acks@.len()
        &&& self.address <= LAST_ADDRESS + 1
        &&& self.found == count_of(self.acks@)
        &&& self.found <= self.acks@.len()
    }

    pub fn new() -> (scan: Self)
        ensures
            scan.wf(),
            scan.acks@ == Seq::<bool>::empty(),
    {
        I2cScan { address: FIRST_ADDRESS, found: 0, acks: Ghost(Seq::empty()) }
    }

    /// The probe that comes next.
    pub open spec fn next_probe(self) -> Option<Probe> {
        if self.address <= LAST_ADDRESS {
            Some(Probe { address: self.address, len: PROBE_LEN })
        } else {
            None
        }
    }

    /// The probe to make next, `None` once all were made.
    pub fn next(&self) -> (probe: Option<Probe>)
        ensures
            probe == (if self.address <= LAST_ADDRESS {
                Some(Probe { address: self.address, len: PROBE_LEN })
            } else {
                None
            }),
            probe == self.next_probe(),
    {
        if self.address <= LAST_ADDRESS {
            Some(Probe { address: self.address, len: PROBE_LEN })
        } else {
            None
        }
    }

    /// The acknowledgements after one more reply.
    pub open spec fn acks_after(self, ack: bool) -> Seq<bool> {
        if self.address <= LAST_ADDRESS {
            self.acks@.push(ack)
        } else {
            self.acks@
        }
    }

    /// The probe at the address was acknowledged, or it was not.
    pub fn reply(&mut self, ack: bool)
        requires
            old(self).wf(),
        ensures
            final(self).wf(),
            if old(self).address <= LAST_ADDRESS {
                final(self).acks@ == old(self).acks@.push(ack)
            } else {
                *final(self) == *old(self)
            },
            final(self).acks@ == old(self).acks_after(ack),
    {
        if self.address <= LAST_ADDRESS {
            assert(self.acks@.push(ack).drop_last() =~= self.acks@);
            if ack {
                self.found = self.found + 1;
            }
            self.address = self.address + 1;
            self.acks = Ghost(self.acks@.push(ack));
        }
    }

    /// Devices that were found.
    pub fn found(&self) -> (found: u8)
        requires
            self.wf(),
        ensures
            found == count_of(self.acks@),
    {
        self.found
    }
}

/// The addresses from 0x08 to 0x77 are probed in turn, each once, by a read of
/// no bytes, and then the scan is over.
pub proof fn law_every_address_is_probed_once(scan: I2cScan)
    requires
        scan.wf(),
    ensures
        scan.acks@.len() <= 112,
        scan.acks@.len() < 112 ==> (scan.next_probe() matches Some(probe) && probe.address == 8
            + scan.acks@.len() && probe.len == 0),
        scan.acks@.len() == 112 ==> scan.next_probe() is None,
{
}

/// The count is that of the acknowledged probes: nothing for none, one for each
/// that was acknowledged, and in two parts of a scan as many as in the whole.
pub proof fn law_acks_are_counted(first: Seq<bool>, second: Seq<bool>)
    ensures
        count_of(first + second) == count_of(first) + count_of(second),
        count_of(Seq::empty()) == 0,
        count_of(seq![true]) == 1,
        count_of(seq![false]) == 0,
    decreases second.len(),
{
    reveal_with_fuel(count_of, 2);
    assert(seq![true].drop_last() =~= Seq::<bool>::empty());
    assert(seq![false].drop_last() =~= Seq::<bool>::empty());
    if second.len() == 0 {
        assert(first + second =~= first);
    } else {
        assert((first + second).drop_last() =~= first + second.drop_last());
        law_acks_are_counted(first, second.drop_last());
    }
}

/// Every reply counts for the address that was probed, as long as there are
/// addresses left: one more device if it was acknowledged, none if not.
pub proof fn law_replies_count_for_their_address(scan: I2cScan, ack: bool)
    requires
        scan.wf(),
    ensures
        scan.acks@.len() < 112 ==> {
            &&& scan.acks_after(ack).len() == scan.acks@.len() + 1
            &&& scan.acks_after(ack).take(scan.acks@.len() as int) == scan.acks@
            &&& count_of(scan.acks_after(ack)) == scan.found + (if ack { 1int } else { 0 })
        },
        scan.acks@.len() == 112 ==> scan.acks_after(ack) == scan.acks@,
{
    let acks = scan.acks@;
    assert(acks.push(ack).drop_last() =~= acks);
    assert(acks.push(ack).take(acks.len() as int) =~= acks);
}

} // verus!
