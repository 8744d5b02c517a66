use vstd::prelude::*;

verus! {

/// Debug Halting Control and Status Register.
pub const DHCSR: u32 = 0xE000_EDF0;
/// Debug Core Register Selector Register.
pub const DCRSR: u32 = 0xE000_EDF4;
/// Debug Core Register Data Register.
pub const DCRDR: u32 = 0xE000_EDF8;
/// Debug Exception and Monitor Control Register.
pub const DEMCR: u32 = 0xE000_EDFC;

/// The key that a write to DHCSR must carry in its upper half.
pub const DBGKEY: u32 = 0xA05F_0000;
pub const C_DEBUGEN: u32 = 0x1;
pub const C_HALT: u32 = 0x2;
pub const C_STEP: u32 = 0x4;
pub const C_MASKINTS: u32 = 0x8;
/// DEMCR: halt when the core comes out of reset.
pub const VC_CORERESET: u32 = 0x1;
/// DCRSR: the transfer writes the register.
pub const REGWNR: u32 = 0x1_0000;

/// A word to write to a debug register of the core.
#[derive(Debug, Clone, Copy, PartialEq, Eq, Structural)]
pub struct RegisterWrite {
    pub address: u32,
    pub value: u32,
}

/// What the debugger knows of the core.
#[derive(Debug, Clone, Copy, PartialEq, Eq, Structural)]
pub enum CoreState {
    Unknown,
    Running,
    Halted,
}

#[derive(Debug, Clone, Copy, PartialEq, Eq, Structural)]
pub enum CoreError {
    /// Stepping needs a halted core.
    NotHalted,
}

/// S_HALT, bit 17 of DHCSR: the core is halted.
pub open spec fn halted_bit(dhcsr: u32) -> bool {
    (dhcsr / 0x2_0000) % 2 == 1
}

/// S_REGRDY, bit 16 of DHCSR: a core register transfer has completed.
pub open spec fn regrdy_bit(dhcsr: u32) -> bool {
    (dhcsr / 0x1_0000) % 2 == 1
}

/// Whether a DHCSR value says that a core register transfer has completed.
pub fn register_ready(dhcsr: u32) -> (r: bool)
    ensures
        r == regrdy_bit(dhcsr),
{
    (dhcsr / 0x1_0000) % 2 == 1
}

/// The write to DCRSR that reads core register `selector` into DCRDR.
pub fn read_core_register(selector: u16) -> (r: RegisterWrite)
    ensures
        r == (RegisterWrite { address: DCRSR, value: selector as u32 }),
{
    RegisterWrite { address: DCRSR, value: selector as u32 }
}

/// The writes that set core register `selector` to `value`: the value into DCRDR,
/// then the selector with REGWNR into DCRSR.
pub fn write_core_register(selector: u16, value: u32) -> (r: (RegisterWrite, RegisterWrite))
    ensures
        r.0 == (RegisterWrite { address: DCRDR, value }),
        r.1 == (RegisterWrite { address: DCRSR, value: (selector + REGWNR) as u32 }),
{
    (
        RegisterWrite { address: DCRDR, value },
        RegisterWrite { address: DCRSR, value: selector as u32 + REGWNR },
    )
}

/// The debugger's view of one core.
pub struct CoreController {
    pub state: CoreState,
}

impl CoreController {
    pub fn new() -> (r: CoreController)
        ensures
            r.state == CoreState::Unknown,
    {
        CoreController { state: CoreState::Unknown }
    }

    /// The write that asks the core to halt; it counts as halted once DHCSR says so.
    pub fn halt(&self) -> (r: RegisterWrite)
        ensures
            r == (RegisterWrite { address: DHCSR, value: (DBGKEY + C_HALT + C_DEBUGEN) as u32 }),
    {
        RegisterWrite { address: DHCSR, value: DBGKEY + C_HALT + C_DEBUGEN }
    }

    /// Takes a DHCSR value read while waiting for a halt: whether the core has halted.
    pub fn observe(&mut self, dhcsr: u32) -> (r: bool)
        ensures
            r == halted_bit(dhcsr),
            final(self).state == (if r {
                CoreState::Halted
            } else {
                old(self).state
            }),
    {
        if (dhcsr / 0x2_0000) % 2 == 1 {
            self.state = CoreState::Halted;
            true
        } else {
            false
        }
    }

    /// The write that lets the core run.
    pub fn run(&mut self) -> (r: RegisterWrite)
        ensures
            r == (RegisterWrite { address: DHCSR, value: (DBGKEY + C_DEBUGEN) as u32 }),
            final(self).state == CoreState::Running,
    {
        self.state = CoreState::Running;
        RegisterWrite { address: DHCSR, value: DBGKEY + C_DEBUGEN }
    }

    /// The write that steps a halted core by one instruction, with interrupts masked;
    /// the core counts as running until DHCSR says it halted again.
    pub fn step(&mut self) -> (r: Result<RegisterWrite, CoreError>)
        ensures
            old(self).state == CoreState::Halted ==> r == Ok::<RegisterWrite, CoreError>(
                RegisterWrite {
                    address: DHCSR,
                    value: (DBGKEY + C_STEP + C_MASKINTS + C_DEBUGEN) as u32,
                },
            ) && final(self).state == CoreState::Running,
            old(self).state != CoreState::Halted ==> r == Err::<RegisterWrite, CoreError>(
                CoreError::NotHalted,
            ) && final(self).state == old(self).state,
    {
        if self.state != CoreState::Halted {
            return Err(CoreError::NotHalted);
        }
        self.state = CoreState::Running;
        Ok(RegisterWrite { address: DHCSR, value: DBGKEY + C_STEP + C_MASKINTS + C_DEBUGEN })
    }

    /// The write that makes the core halt as it comes out of reset; the reset pulse
    /// follows, and then the wait for the halt. Until then the core's state is unknown.
    pub fn reset_and_halt(&mut self) -> (r: RegisterWrite)
        ensures
            r == (RegisterWrite { address: DEMCR, value: VC_CORERESET }),
            final(self).state == CoreState::Unknown,
    {
        self.state = CoreState::Unknown;
        RegisterWrite { address: DEMCR, value: VC_CORERESET }
    }

    /// After a reset pulse the core runs from its reset state.
    pub fn reset(&mut self)
        ensures
            final(self).state == CoreState::Running,
    {
        self.state = CoreState::Running;
    }
}

} // verus!
