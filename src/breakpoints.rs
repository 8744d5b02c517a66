use vstd::prelude::*;

verus! {

/// Failures of the breakpoint unit.
#[derive(Debug, Clone, Copy, PartialEq, Eq, Structural)]
pub enum BreakpointError {
    /// Every comparator holds a breakpoint already.
    NoBreakpointAvailable,
}

/// The value of FP_CTRL that enables (`true`) or disables the unit: KEY, and ENABLE.
pub open spec fn fp_ctrl_value(enable: bool) -> u32 {
    if enable {
        3
    } else {
        2
    }
}

pub fn enable_breakpoints_value(enable: bool) -> (r: u32)
    ensures
        r == fp_ctrl_value(enable),
{
    if enable {
        3
    } else {
        2
    }
}

/// The number of code comparators that FP_CTRL reports: NUM_CODE in bits 14 to 12
/// (high part) and 7 to 4 (low part).
pub open spec fn code_comparators(fp_ctrl: u32) -> nat {
    ((fp_ctrl / 4096) % 8 * 16 + (fp_ctrl / 16) % 16) as nat
}

pub fn num_code_comparators(fp_ctrl: u32) -> (r: usize)
    ensures
        r == code_comparators(fp_ctrl),
{
    ((fp_ctrl / 4096) % 8 * 16 + (fp_ctrl / 16) % 16) as usize
}

/// The FP_COMP value that breaks at `addr`: bits 28 to 2 of the address, REPLACE set
/// to the halfword of the word that `addr` names, and ENABLE.
pub open spec fn comparator_value(addr: u32) -> u32 {
    let replace: int = if addr % 4 < 2 {
        0x4000_0000
    } else {
        0x8000_0000
    };
    (addr % 0x2000_0000 / 4 * 4 + replace + 1) as u32
}

/// The comparators of a core's flash patch and breakpoint unit, and the address each
/// one breaks at.
pub struct BreakpointUnit {
    pub slots: Vec<Option<u32>>,
}

/// The first comparator at or after `i` whose content is `v`.
pub open spec fn first_slot(slots: Seq<Option<u32>>, v: Option<u32>, i: int) -> Option<int>
    decreases slots.len() - i,
{
    if i < 0 || i >= slots.len() {
        None
    } else if slots[i] == v {
        Some(i)
    } else {
        first_slot(slots, v, i + 1)
    }
}

impl BreakpointUnit {
    /// A unit with `comparators` free comparators.
    pub fn new(comparators: usize) -> (r: BreakpointUnit)
        ensures
            r.slots@ == Seq::new(comparators as nat, |i: int| None::<u32>),
    {
        let mut slots: Vec<Option<u32>> = Vec::new();
        let mut i: usize = 0;
        while i < comparators
            invariant
                i <= comparators,
                slots@ == Seq::new(i as nat, |j: int| None::<u32>),
            decreases comparators - i,
        {
            slots.push(None);
            i = i + 1;
            assert(slots@ =~= Seq::new(i as nat, |j: int| None::<u32>));
        }
        BreakpointUnit { slots }
    }

    fn find(&self, v: Option<u32>) -> (r: Option<usize>)
        ensures
            match first_slot(self.slots@, v, 0) {
                Some(i) => r == Some(i as usize),
                None => r is None,
            },
    {
        let mut i: usize = 0;
        while i < self.slots.len()
            invariant
                i <= self.slots@.len(),
                first_slot(self.slots@, v, 0) == first_slot(self.slots@, v, i as int),
            decreases self.slots@.len() - i,
        {
            if self.slots[i] == v {
                return Some(i);
            }
            i = i + 1;
        }
        None
    }

    /// Takes the first free comparator for a breakpoint at `addr`: the comparator's
    /// number and the value to write to it.
    pub fn set_hw_breakpoint(&mut self, addr: u32) -> (r: Result<(usize, u32), BreakpointError>)
        ensures
            match first_slot(old(self).slots@, None, 0) {
                Some(i) => r == Ok::<(usize, u32), BreakpointError>((i as usize, comparator_value(addr)))
                    && final(self).slots@ == old(self).slots@.update(i, Some(addr)),
                None => r == Err::<(usize, u32), BreakpointError>(
                    BreakpointError::NoBreakpointAvailable,
                ) && final(self).slots@ == old(self).slots@,
            },
    {
        match self.find(None) {
            Some(i) => {
                proof {
                    lemma_first_slot_bounds(self.slots@, None, 0);
                }
                self.slots.set(i, Some(addr));
                let part: u32 = addr % 0x2000_0000 / 4 * 4;
                let replace: u32 = if addr % 4 < 2 {
                    0x4000_0000
                } else {
                    0x8000_0000
                };
                Ok((i, part + replace + 1))
            },
            None => Err(BreakpointError::NoBreakpointAvailable),
        }
    }

    /// Frees the first comparator that breaks at `addr`: its number, to be written with
    /// zero, or `None` where no comparator breaks there.
    pub fn clear_hw_breakpoint(&mut self, addr: u32) -> (r: Option<usize>)
        ensures
            match first_slot(old(self).slots@, Some(addr), 0) {
                Some(i) => r == Some(i as usize) && final(self).slots@ == old(self).slots@.update(
                    i,
                    None,
                ),
                None => r is None && final(self).slots@ == old(self).slots@,
            },
    {
        match self.find(Some(addr)) {
            Some(i) => {
                proof {
                    lemma_first_slot_bounds(self.slots@, Some(addr), 0);
                }
                self.slots.set(i, None);
                Some(i)
            },
            None => None,
        }
    }
}

proof fn lemma_first_slot_bounds(slots: Seq<Option<u32>>, v: Option<u32>, i: int)
    requires
        first_slot(slots, v, i) is Some,
    ensures
        i <= first_slot(slots, v, i)->0 < slots.len(),
        slots[first_slot(slots, v, i)->0] == v,
    decreases slots.len() - i,
{
    if slots[i] != v {
        lemma_first_slot_bounds(slots, v, i + 1);
    }
}

} // verus!
