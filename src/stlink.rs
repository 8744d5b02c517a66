use crate::ap_access::AccessPort;
use crate::probe::{DebugProbeError, Port, StlinkError, UsbError, WireProtocol};
use vstd::prelude::*;

verus! {

// Command and parameter bytes of the ST-Link USB protocol.
pub const GET_VERSION: u8 = 0xF1;
pub const JTAG_COMMAND: u8 = 0xF2;
pub const DFU_COMMAND: u8 = 0xF3;
pub const SWIM_COMMAND: u8 = 0xF4;
pub const GET_CURRENT_MODE: u8 = 0xF5;
pub const GET_TARGET_VOLTAGE: u8 = 0xF7;
pub const GET_VERSION_EXT: u8 = 0xFB;
pub const DFU_EXIT: u8 = 0x07;
pub const SWIM_EXIT: u8 = 0x01;
pub const JTAG_READMEM_32BIT: u8 = 0x07;
pub const JTAG_READMEM_8BIT: u8 = 0x0C;
pub const JTAG_ENTER2: u8 = 0x30;
pub const JTAG_DRIVE_NRST: u8 = 0x3C;
pub const SWD_SET_FREQ: u8 = 0x43;
pub const JTAG_SET_FREQ: u8 = 0x44;
pub const JTAG_READ_DAP_REG: u8 = 0x45;
pub const JTAG_WRITE_DAP_REG: u8 = 0x46;
pub const JTAG_INIT_AP: u8 = 0x4B;
pub const JTAG_CLOSE_AP_DBG: u8 = 0x4C;
pub const JTAG_ENTER_SWD: u8 = 0xA3;
pub const JTAG_ENTER_JTAG_NO_CORE_RESET: u8 = 0xA4;
pub const JTAG_DRIVE_NRST_LOW: u8 = 0x00;
pub const JTAG_DRIVE_NRST_HIGH: u8 = 0x01;
pub const JTAG_DRIVE_NRST_PULSE: u8 = 0x02;
pub const JTAG_AP_NO_CORE: u8 = 0x00;
/// The status byte of a command that succeeded.
pub const JTAG_OK: u8 = 0x80;

/// The most bytes that one 32-bit memory command moves.
pub const MAXIMUM_TRANSFER_SIZE: usize = 1024;
/// The most bytes that one 8-bit memory command moves: one full-speed USB packet.
pub const MAXIMUM_8BIT_TRANSFER_SIZE: usize = 64;

/// Minimum required firmware version of the JTAG/SWD part.
pub const MIN_JTAG_VERSION: u8 = 24;
/// Firmware version that adds multiple AP support.
pub const MIN_JTAG_VERSION_MULTI_AP: u8 = 28;

/// Address of the CTRL/STAT register of the debug port.
pub const DP_CTRL_ADDRESS: u16 = 0x4;
/// CTRL/STAT with the system and debug power-up requests set.
pub const DP_CTRL_POWER_UP: u32 = 0x5000_0000;

/// The mode the ST-Link is in.
#[derive(Debug, Clone, Copy, PartialEq, Eq, Structural)]
pub enum Mode {
    Dfu,
    MassStorage,
    Jtag,
    Swim,
}

/// The SWD clock rates that the ST-Link offers.
#[derive(Debug, Clone, Copy, PartialEq, Eq, Structural)]
pub enum SwdFrequencyToDelayCount {
    Hz4600000,
    Hz1800000,
    Hz1200000,
    Hz950000,
    Hz650000,
    Hz480000,
    Hz400000,
    Hz360000,
    Hz240000,
    Hz150000,
    Hz125000,
    Hz100000,
}

impl SwdFrequencyToDelayCount {
    pub open spec fn delay_count_spec(self) -> u8 {
        match self {
            SwdFrequencyToDelayCount::Hz4600000 => 0,
            SwdFrequencyToDelayCount::Hz1800000 => 1,
            SwdFrequencyToDelayCount::Hz1200000 => 2,
            SwdFrequencyToDelayCount::Hz950000 => 3,
            SwdFrequencyToDelayCount::Hz650000 => 5,
            SwdFrequencyToDelayCount::Hz480000 => 7,
            SwdFrequencyToDelayCount::Hz400000 => 9,
            SwdFrequencyToDelayCount::Hz360000 => 10,
            SwdFrequencyToDelayCount::Hz240000 => 15,
            SwdFrequencyToDelayCount::Hz150000 => 25,
            SwdFrequencyToDelayCount::Hz125000 => 31,
            SwdFrequencyToDelayCount::Hz100000 => 40,
        }
    }

    /// The delay count that the probe takes for this rate.
    pub fn delay_count(&self) -> (r: u8)
        ensures
            r == self.delay_count_spec(),
    {
        match self {
            SwdFrequencyToDelayCount::Hz4600000 => 0,
            SwdFrequencyToDelayCount::Hz1800000 => 1,
            SwdFrequencyToDelayCount::Hz1200000 => 2,
            SwdFrequencyToDelayCount::Hz950000 => 3,
            SwdFrequencyToDelayCount::Hz650000 => 5,
            SwdFrequencyToDelayCount::Hz480000 => 7,
            SwdFrequencyToDelayCount::Hz400000 => 9,
            SwdFrequencyToDelayCount::Hz360000 => 10,
            SwdFrequencyToDelayCount::Hz240000 => 15,
            SwdFrequencyToDelayCount::Hz150000 => 25,
            SwdFrequencyToDelayCount::Hz125000 => 31,
            SwdFrequencyToDelayCount::Hz100000 => 40,
        }
    }
}

/// The JTAG clock rates that the ST-Link offers.
#[derive(Debug, Clone, Copy, PartialEq, Eq, Structural)]
pub enum JTagFrequencyToDivider {
    Hz18000000,
    Hz9000000,
    Hz4500000,
    Hz2250000,
    Hz1120000,
    Hz560000,
    Hz280000,
}

impl JTagFrequencyToDivider {
    pub open spec fn divider_spec(self) -> u8 {
        match self {
            JTagFrequencyToDivider::Hz18000000 => 2,
            JTagFrequencyToDivider::Hz9000000 => 4,
            JTagFrequencyToDivider::Hz4500000 => 8,
            JTagFrequencyToDivider::Hz2250000 => 16,
            JTagFrequencyToDivider::Hz1120000 => 32,
            JTagFrequencyToDivider::Hz560000 => 64,
            JTagFrequencyToDivider::Hz280000 => 128,
        }
    }

    /// The clock divider that the probe takes for this rate.
    pub fn divider(&self) -> (r: u8)
        ensures
            r == self.divider_spec(),
    {
        match self {
            JTagFrequencyToDivider::Hz18000000 => 2,
            JTagFrequencyToDivider::Hz9000000 => 4,
            JTagFrequencyToDivider::Hz4500000 => 8,
            JTagFrequencyToDivider::Hz2250000 => 16,
            JTagFrequencyToDivider::Hz1120000 => 32,
            JTagFrequencyToDivider::Hz560000 => 64,
            JTagFrequencyToDivider::Hz280000 => 128,
        }
    }
}

/// One transfer to the probe: the command block to send and the length of the answer
/// to read back.
pub struct Request {
    pub command: Vec<u8>,
    pub response_len: usize,
}

impl Request {
    pub open spec fn is(&self, command: Seq<u8>, response_len: usize) -> bool {
        self.command@ == command && self.response_len == response_len
    }
}

/// Byte `i` (0 is the lowest) of `x`.
pub open spec fn byte_of(x: int, i: nat) -> u8 {
    ((x / pow256(i)) % 256) as u8
}

pub open spec fn pow256(i: nat) -> int
    decreases i,
{
    if i == 0 {
        1
    } else {
        256 * pow256((i - 1) as nat)
    }
}

/// The 32-bit value of four bytes, lowest first.
pub open spec fn le_u32(b: Seq<u8>) -> int {
    b[0] + 256 * b[1] + 65536 * b[2] + 16777216 * b[3]
}

/// The number by which a command names a DAP port: 0xFFFF for the debug port.
pub open spec fn port_code(port: Port) -> u16 {
    match port {
        Port::DebugPort => 0xFFFF,
        Port::AccessPort(p) => p,
    }
}

/// Only registers in the first bank of the debug port can be reached.
pub open spec fn dap_address_allowed(port: Port, addr: u16) -> bool {
    addr % 256 < 16 || port != Port::DebugPort
}

pub open spec fn read_dap_command(port: Port, addr: u16) -> Seq<u8> {
    seq![
        JTAG_COMMAND, JTAG_READ_DAP_REG,
        byte_of(port_code(port) as int, 0), byte_of(port_code(port) as int, 1),
        byte_of(addr as int, 0), byte_of(addr as int, 1),
    ]
}

pub open spec fn write_dap_command(port: Port, addr: u16, value: u32) -> Seq<u8> {
    read_dap_command(port, addr).update(1, JTAG_WRITE_DAP_REG) + seq![
        byte_of(value as int, 0), byte_of(value as int, 1),
        byte_of(value as int, 2), byte_of(value as int, 3),
    ]
}

/// The mode that a GET_CURRENT_MODE answer reports.
pub open spec fn mode_of(code: u8) -> Option<Mode> {
    if code == 0 {
        Some(Mode::Dfu)
    } else if code == 1 {
        Some(Mode::MassStorage)
    } else if code == 2 {
        Some(Mode::Jtag)
    } else if code == 3 {
        Some(Mode::Swim)
    } else {
        None
    }
}

/// The command that leaves `mode` for idle, where one is needed.
pub open spec fn exit_command(mode: Mode) -> Option<Seq<u8>> {
    match mode {
        Mode::Dfu => Some(seq![DFU_COMMAND, DFU_EXIT]),
        Mode::Swim => Some(seq![SWIM_COMMAND, SWIM_EXIT]),
        _ => None,
    }
}

/// The outcome of checking the firmware versions read from the probe.
pub open spec fn version_check(hw_version: u8, jtag_version: u8) -> Result<(u8, u8), DebugProbeError> {
    if jtag_version == 0 {
        Err(DebugProbeError::JTAGNotSupportedOnProbe)
    } else if hw_version < 3 && jtag_version < MIN_JTAG_VERSION {
        Err(DebugProbeError::ProbeFirmwareOutdated)
    } else {
        Ok((hw_version, jtag_version))
    }
}


fn bytes1(a: u8) -> (r: Vec<u8>)
    ensures
        r@ == seq![a],
{
    let r = vec![a];
    assert(r@ =~= seq![a]);
    r
}

fn bytes2(a: u8, b: u8) -> (r: Vec<u8>)
    ensures
        r@ == seq![a, b],
{
    let r = vec![a, b];
    assert(r@ =~= seq![a, b]);
    r
}

fn bytes3(a: u8, b: u8, c: u8) -> (r: Vec<u8>)
    ensures
        r@ == seq![a, b, c],
{
    let r = vec![a, b, c];
    assert(r@ =~= seq![a, b, c]);
    r
}

fn bytes4(a: u8, b: u8, c: u8, d: u8) -> (r: Vec<u8>)
    ensures
        r@ == seq![a, b, c, d],
{
    let r = vec![a, b, c, d];
    assert(r@ =~= seq![a, b, c, d]);
    r
}

fn request(command: Vec<u8>, response_len: usize) -> (r: Request)
    ensures
        r.is(command@, response_len),
{
    Request { command, response_len }
}

/// What an answer to GET_CURRENT_MODE says.
pub open spec fn mode_response(b: Seq<u8>) -> Result<Mode, DebugProbeError> {
    if b.len() == 0 {
        Err(DebugProbeError::Stlink(StlinkError::NotEnoughBytesRead))
    } else {
        match mode_of(b[0]) {
            Some(m) => Ok(m),
            None => Err(DebugProbeError::Stlink(StlinkError::UnknownMode)),
        }
    }
}

/// What an answer to GET_TARGET_VOLTAGE says: the reference reading, then the target's.
pub open spec fn voltage_response(b: Seq<u8>) -> Result<(u32, u32), DebugProbeError> {
    if b.len() < 8 {
        Err(DebugProbeError::Stlink(StlinkError::NotEnoughBytesRead))
    } else if le_u32(b.subrange(0, 4)) == 0 {
        Err(DebugProbeError::Stlink(StlinkError::VoltageDivisionByZero))
    } else {
        Ok((le_u32(b.subrange(0, 4)) as u32, le_u32(b.subrange(4, 8)) as u32))
    }
}




fn read_le_u32(buf: &[u8], at: usize) -> (r: u32)
    requires
        at + 4 <= buf@.len(),
    ensures
        r == le_u32(buf@.subrange(at as int, at + 4)),
{
    buf[at] as u32 + 256 * (buf[at + 1] as u32) + 65536 * (buf[at + 2] as u32) + 16777216 * (
    buf[at + 3] as u32)
}

/// Where the initialisation of an ST-Link stands: the answer it waits for, or its end.
#[derive(Debug, Clone, Copy, PartialEq, Eq, Structural)]
pub enum InitStage {
    /// Waiting for the current mode; `after_reset` once the device was reset.
    QueryMode { after_reset: bool },
    /// Waiting for the command that leaves DFU or SWIM mode to be done.
    LeaveMode { after_reset: bool },
    /// Waiting for the USB device to be reset.
    Reset,
    /// Waiting for the answer to GET_VERSION.
    Version,
    /// Waiting for the answer to GET_VERSION_EXT.
    VersionExt,
    /// Waiting for the answer to GET_TARGET_VOLTAGE.
    Voltage,
    /// The probe is initialised.
    Ready,
    /// The initialisation failed.
    Failed,
}

/// What the driver of the USB device does next during initialisation.
pub enum InitAction {
    /// Send the request and hand its answer, or the transfer's failure, back.
    Send(Request),
    /// Reset the USB device and report how that went.
    ResetDevice,
    /// The probe is ready.
    Finished,
    /// The initialisation failed.
    Failed(DebugProbeError),
}

/// An `InitAction` with its request as bytes.
pub enum InitActionView {
    Send(Seq<u8>, usize),
    ResetDevice,
    Finished,
    Failed(DebugProbeError),
}

impl InitAction {
    pub open spec fn view(&self) -> InitActionView {
        match self {
            InitAction::Send(q) => InitActionView::Send(q.command@, q.response_len),
            InitAction::ResetDevice => InitActionView::ResetDevice,
            InitAction::Finished => InitActionView::Finished,
            InitAction::Failed(e) => InitActionView::Failed(*e),
        }
    }
}

/// The state of an ST-Link as far as this library keeps it.
#[derive(Debug, Clone, Copy, PartialEq, Eq, Structural)]
pub struct STLink {
    pub hw_version: u8,
    pub jtag_version: u8,
    pub protocol: WireProtocol,
    pub stage: InitStage,
}

impl STLink {
    /// Validates the status given: the command succeeded where its first byte is `JTAG_OK`.
    pub fn check_status(status: &[u8]) -> (r: Result<(), DebugProbeError>)
        requires
            status@.len() >= 1,
        ensures
            r == (if status@[0] == JTAG_OK {
                Ok::<(), DebugProbeError>(())
            } else {
                Err(DebugProbeError::Unknown)
            }),
    {
        if status[0] != JTAG_OK {
            Err(DebugProbeError::Unknown)
        } else {
            Ok(())
        }
    }

    /// Reads the mode from the answer to GET_CURRENT_MODE.
    pub fn get_current_mode(buf: &[u8]) -> (r: Result<Mode, DebugProbeError>)
        ensures
            r == mode_response(buf@),
    {
        if buf.len() == 0 {
            return Err(DebugProbeError::Stlink(StlinkError::NotEnoughBytesRead));
        }
        match buf[0] {
            0 => Ok(Mode::Dfu),
            1 => Ok(Mode::MassStorage),
            2 => Ok(Mode::Jtag),
            3 => Ok(Mode::Swim),
            _ => Err(DebugProbeError::Stlink(StlinkError::UnknownMode)),
        }
    }

    /// The command that brings the probe from `mode` to idle, where it is not idle already.
    pub fn enter_idle(mode: Mode) -> (r: Option<Request>)
        ensures
            match exit_command(mode) {
                Some(c) => r matches Some(q) && q.is(c, 0),
                None => r is None,
            },
    {
        match mode {
            Mode::Dfu => Some(request(bytes2(DFU_COMMAND, DFU_EXIT), 0)),
            Mode::Swim => Some(request(bytes2(SWIM_COMMAND, SWIM_EXIT), 0)),
            _ => None,
        }
    }

    /// Reads the two values behind the target voltage from the answer to
    /// GET_TARGET_VOLTAGE: the reference reading first, then the target's.
    pub fn target_voltage_readings(buf: &[u8]) -> (r: Result<(u32, u32), DebugProbeError>)
        ensures
            r == voltage_response(buf@),
    {
        if buf.len() < 8 {
            return Err(DebugProbeError::Stlink(StlinkError::NotEnoughBytesRead));
        }
        let a0 = read_le_u32(buf, 0);
        let a1 = read_le_u32(buf, 4);
        if a0 == 0 {
            Err(DebugProbeError::Stlink(StlinkError::VoltageDivisionByZero))
        } else {
            Ok((a0, a1))
        }
    }
}

/// A step of the initialisation: the state it leaves and the action it asks for.
pub struct InitStep {
    pub next: STLink,
    pub action: InitActionView,
}

pub open spec fn step_to(s: STLink, stage: InitStage, action: InitActionView) -> InitStep {
    InitStep { next: STLink { stage, ..s }, action }
}

pub open spec fn fail_with(s: STLink, e: DebugProbeError) -> InitStep {
    step_to(s, InitStage::Failed, InitActionView::Failed(e))
}

/// A USB failure while the probe is being brought to idle: reset the device and try
/// once more, else give up.
pub open spec fn idle_failure(s: STLink, after_reset: bool, e: UsbError) -> InitStep {
    if after_reset {
        fail_with(s, DebugProbeError::USB(e))
    } else {
        step_to(s, InitStage::Reset, InitActionView::ResetDevice)
    }
}

pub open spec fn ask_version(s: STLink) -> InitStep {
    step_to(s, InitStage::Version, InitActionView::Send(seq![GET_VERSION], 6))
}

/// With the versions known: go on to read the target voltage, or fail.
pub open spec fn versions_known(s: STLink, hw_version: u8, jtag_version: u8) -> InitStep {
    let s = STLink { hw_version, jtag_version, ..s };
    match version_check(hw_version, jtag_version) {
        Ok(_) => step_to(s, InitStage::Voltage, InitActionView::Send(seq![GET_TARGET_VOLTAGE], 8)),
        Err(e) => fail_with(s, e),
    }
}

/// The hardware version in the answer to GET_VERSION: bits 15 to 12 of its first two
/// bytes, read big endian.
pub open spec fn hw_version_of(b: Seq<u8>) -> u8 {
    ((b[0] * 256 + b[1]) / 4096 % 16) as u8
}

/// The JTAG/SWD firmware version in the answer to GET_VERSION: bits 11 to 6.
pub open spec fn jtag_version_of(b: Seq<u8>) -> u8 {
    ((b[0] * 256 + b[1]) / 64 % 64) as u8
}

/// The initialisation of an ST-Link, one answer at a time.
pub open spec fn init_next(s: STLink, answer: Result<Seq<u8>, UsbError>) -> InitStep {
    match s.stage {
        InitStage::QueryMode { after_reset } => match answer {
            Err(e) => idle_failure(s, after_reset, e),
            Ok(b) => match mode_response(b) {
                Err(e) => fail_with(s, e),
                Ok(m) => match exit_command(m) {
                    Some(c) => step_to(
                        s,
                        InitStage::LeaveMode { after_reset },
                        InitActionView::Send(c, 0),
                    ),
                    None => ask_version(s),
                },
            },
        },
        InitStage::LeaveMode { after_reset } => match answer {
            Err(e) => idle_failure(s, after_reset, e),
            Ok(_) => ask_version(s),
        },
        InitStage::Reset => match answer {
            Err(e) => fail_with(s, DebugProbeError::USB(e)),
            Ok(_) => step_to(
                s,
                InitStage::QueryMode { after_reset: true },
                InitActionView::Send(seq![GET_CURRENT_MODE], 2),
            ),
        },
        InitStage::Version => match answer {
            Err(e) => fail_with(s, DebugProbeError::USB(e)),
            Ok(b) => if b.len() < 2 {
                fail_with(s, DebugProbeError::Stlink(StlinkError::NotEnoughBytesRead))
            } else if hw_version_of(b) >= 3 {
                step_to(
                    STLink { hw_version: hw_version_of(b), jtag_version: jtag_version_of(b), ..s },
                    InitStage::VersionExt,
                    InitActionView::Send(seq![GET_VERSION_EXT], 12),
                )
            } else {
                versions_known(s, hw_version_of(b), jtag_version_of(b))
            },
        },
        InitStage::VersionExt => match answer {
            Err(e) => fail_with(s, DebugProbeError::USB(e)),
            Ok(b) => if b.len() < 3 {
                fail_with(s, DebugProbeError::Stlink(StlinkError::NotEnoughBytesRead))
            } else {
                versions_known(s, s.hw_version, b[2])
            },
        },
        InitStage::Voltage => match answer {
            Err(e) => fail_with(s, DebugProbeError::USB(e)),
            Ok(b) => match voltage_response(b) {
                Ok(_) => step_to(s, InitStage::Ready, InitActionView::Finished),
                Err(e) => fail_with(s, e),
            },
        },
        InitStage::Ready | InitStage::Failed => InitStep {
            next: s,
            action: InitActionView::Failed(DebugProbeError::Unknown),
        },
    }
}

pub open spec fn answer_view(answer: &Result<Vec<u8>, UsbError>) -> Result<Seq<u8>, UsbError> {
    match answer {
        Ok(b) => Ok(b@),
        Err(e) => Err(*e),
    }
}

/// The parameter of JTAG_ENTER2 for a protocol.
pub open spec fn enter_param(protocol: WireProtocol) -> u8 {
    match protocol {
        WireProtocol::Swd => JTAG_ENTER_SWD,
        WireProtocol::Jtag => JTAG_ENTER_JTAG_NO_CORE_RESET,
    }
}

impl STLink {
    /// A probe that has not been initialised yet.
    pub fn new() -> (r: STLink)
        ensures
            r == (STLink {
                hw_version: 0,
                jtag_version: 0,
                protocol: WireProtocol::Swd,
                stage: InitStage::QueryMode { after_reset: false },
            }),
    {
        STLink {
            hw_version: 0,
            jtag_version: 0,
            protocol: WireProtocol::Swd,
            stage: InitStage::QueryMode { after_reset: false },
        }
    }

    /// Starts to identify the ST-Link's versions and its target voltage: the first
    /// request asks for the current mode, so that the probe can be brought to idle.
    pub fn init(&mut self) -> (r: InitAction)
        ensures
            *final(self) == (STLink {
                hw_version: 0,
                jtag_version: 0,
                stage: InitStage::QueryMode { after_reset: false },
                ..*old(self)
            }),
            r@ == InitActionView::Send(seq![GET_CURRENT_MODE], 2),
    {
        self.hw_version = 0;
        self.jtag_version = 0;
        self.stage = InitStage::QueryMode { after_reset: false };
        InitAction::Send(request(bytes1(GET_CURRENT_MODE), 2))
    }

    fn fail(&mut self, e: DebugProbeError) -> (r: InitAction)
        ensures
            *final(self) == fail_with(*old(self), e).next,
            r@ == fail_with(*old(self), e).action,
    {
        self.stage = InitStage::Failed;
        InitAction::Failed(e)
    }

    fn ask_version(&mut self) -> (r: InitAction)
        ensures
            *final(self) == ask_version(*old(self)).next,
            r@ == ask_version(*old(self)).action,
    {
        self.stage = InitStage::Version;
        InitAction::Send(request(bytes1(GET_VERSION), 6))
    }

    fn idle_failure(&mut self, after_reset: bool, e: UsbError) -> (r: InitAction)
        ensures
            *final(self) == idle_failure(*old(self), after_reset, e).next,
            r@ == idle_failure(*old(self), after_reset, e).action,
    {
        if after_reset {
            self.fail(DebugProbeError::USB(e))
        } else {
            self.stage = InitStage::Reset;
            InitAction::ResetDevice
        }
    }

    fn versions_known(&mut self, hw_version: u8, jtag_version: u8) -> (r: InitAction)
        ensures
            *final(self) == versions_known(*old(self), hw_version, jtag_version).next,
            r@ == versions_known(*old(self), hw_version, jtag_version).action,
    {
        self.hw_version = hw_version;
        self.jtag_version = jtag_version;
        match self.check_version() {
            Ok(_) => {
                self.stage = InitStage::Voltage;
                InitAction::Send(request(bytes1(GET_TARGET_VOLTAGE), 8))
            },
            Err(e) => self.fail(e),
        }
    }

    /// Takes the answer to the last request of the initialisation and says what to do
    /// next.
    pub fn init_step(&mut self, answer: Result<Vec<u8>, UsbError>) -> (r: InitAction)
        ensures
            *final(self) == init_next(*old(self), answer_view(&answer)).next,
            r@ == init_next(*old(self), answer_view(&answer)).action,
    {
        match self.stage {
            InitStage::QueryMode { after_reset } => match answer {
                Err(e) => self.idle_failure(after_reset, e),
                Ok(b) => match Self::get_current_mode(b.as_slice()) {
                    Err(e) => self.fail(e),
                    Ok(m) => match Self::enter_idle(m) {
                        Some(q) => {
                            self.stage = InitStage::LeaveMode { after_reset };
                            InitAction::Send(q)
                        },
                        None => self.ask_version(),
                    },
                },
            },
            InitStage::LeaveMode { after_reset } => match answer {
                Err(e) => self.idle_failure(after_reset, e),
                Ok(_) => self.ask_version(),
            },
            InitStage::Reset => match answer {
                Err(e) => self.fail(DebugProbeError::USB(e)),
                Ok(_) => {
                    self.stage = InitStage::QueryMode { after_reset: true };
                    InitAction::Send(request(bytes1(GET_CURRENT_MODE), 2))
                },
            },
            InitStage::Version => match answer {
                Err(e) => self.fail(DebugProbeError::USB(e)),
                Ok(b) => {
                    if b.len() < 2 {
                        self.fail(DebugProbeError::Stlink(StlinkError::NotEnoughBytesRead))
                    } else {
                        let version: u16 = b[0] as u16 * 256 + b[1] as u16;
                        let hw: u8 = (version / 4096 % 16) as u8;
                        let jtag: u8 = (version / 64 % 64) as u8;
                        if hw >= 3 {
                            self.hw_version = hw;
                            self.jtag_version = jtag;
                            self.stage = InitStage::VersionExt;
                            InitAction::Send(request(bytes1(GET_VERSION_EXT), 12))
                        } else {
                            self.versions_known(hw, jtag)
                        }
                    }
                },
            },
            InitStage::VersionExt => match answer {
                Err(e) => self.fail(DebugProbeError::USB(e)),
                Ok(b) => {
                    if b.len() < 3 {
                        self.fail(DebugProbeError::Stlink(StlinkError::NotEnoughBytesRead))
                    } else {
                        let hw = self.hw_version;
                        self.versions_known(hw, b[2])
                    }
                },
            },
            InitStage::Voltage => match answer {
                Err(e) => self.fail(DebugProbeError::USB(e)),
                Ok(b) => match Self::target_voltage_readings(b.as_slice()) {
                    Ok(_) => {
                        self.stage = InitStage::Ready;
                        InitAction::Finished
                    },
                    Err(e) => self.fail(e),
                },
            },
            InitStage::Ready | InitStage::Failed => InitAction::Failed(DebugProbeError::Unknown),
        }
    }

    /// Checks the firmware versions read from the probe: the JTAG/SWD part must be
    /// there, and before hardware version 3 it must be recent enough.
    pub fn check_version(&self) -> (r: Result<(u8, u8), DebugProbeError>)
        ensures
            r == version_check(self.hw_version, self.jtag_version),
    {
        if self.jtag_version == 0 {
            Err(DebugProbeError::JTAGNotSupportedOnProbe)
        } else if self.hw_version < 3 && self.jtag_version < MIN_JTAG_VERSION {
            Err(DebugProbeError::ProbeFirmwareOutdated)
        } else {
            Ok((self.hw_version, self.jtag_version))
        }
    }
}

fn low_byte(x: u32) -> (r: u8)
    ensures
        r == byte_of(x as int, 0),
{
    (x % 256) as u8
}

fn dap_command(op: u8, port: Port, addr: u16) -> (r: Vec<u8>)
    ensures
        r@ == read_dap_command(port, addr).update(1, op),
{
    let code: u16 = match port {
        Port::DebugPort => 0xFFFF,
        Port::AccessPort(p) => p,
    };
    proof {
        assert(pow256(0) == 1);
        assert(pow256(1) == 256);
    }
    let mut r = bytes2(JTAG_COMMAND, op);
    r.push(low_byte(code as u32));
    r.push(low_byte(code as u32 / 256));
    r.push(low_byte(addr as u32));
    r.push(low_byte(addr as u32 / 256));
    assert(r@ =~= read_dap_command(port, addr).update(1, op));
    r
}

impl STLink {
    pub fn get_name(&self) -> (r: &'static str) {
        "ST-Link"
    }

    /// Enters debug mode over `protocol` (SWD where none is given), once the probe has
    /// been brought to idle: the requests to send in order, each answered by a status,
    /// and the protocol entered. Before any request the firmware is checked.
    pub fn attach(&self, protocol: Option<WireProtocol>) -> (r: Result<
        (Vec<Request>, WireProtocol),
        DebugProbeError,
    >)
        ensures
            match version_check(self.hw_version, self.jtag_version) {
                Err(e) => r == Err::<(Vec<Request>, WireProtocol), DebugProbeError>(e),
                Ok(_) => r matches Ok((q, p)) && {
                    &&& p == (match protocol {
                        Some(p) => p,
                        None => WireProtocol::Swd,
                    })
                    &&& q@.len() == 2
                    &&& q@[0].is(seq![JTAG_COMMAND, JTAG_ENTER2, enter_param(p), 0], 2)
                    &&& q@[1].is(
                        write_dap_command(Port::DebugPort, DP_CTRL_ADDRESS, DP_CTRL_POWER_UP),
                        2,
                    )
                },
            },
    {
        match self.check_version() {
            Err(e) => Err(e),
            Ok(_) => {
                let protocol = match protocol {
                    Some(p) => p,
                    None => WireProtocol::Swd,
                };
                let param = match protocol {
                    WireProtocol::Swd => JTAG_ENTER_SWD,
                    WireProtocol::Jtag => JTAG_ENTER_JTAG_NO_CORE_RESET,
                };
                let enter = request(bytes4(JTAG_COMMAND, JTAG_ENTER2, param, 0), 2);
                let power_up = match self.write_register(
                    Port::DebugPort,
                    DP_CTRL_ADDRESS,
                    DP_CTRL_POWER_UP,
                ) {
                    Ok(q) => q,
                    Err(e) => {
                        return Err(e);
                    },
                };
                let mut q: Vec<Request> = Vec::new();
                q.push(enter);
                q.push(power_up);
                Ok((q, protocol))
            },
        }
    }

    /// Records the protocol that `attach` entered once its requests have succeeded.
    pub fn attached(&mut self, protocol: WireProtocol)
        ensures
            *final(self) == (STLink { protocol, ..*old(self) }),
    {
        self.protocol = protocol;
    }

    /// The request that pulses the nRESET pin.
    pub fn target_reset(&self) -> (r: Request)
        ensures
            r.is(seq![JTAG_COMMAND, JTAG_DRIVE_NRST, JTAG_DRIVE_NRST_PULSE], 2),
    {
        request(bytes3(JTAG_COMMAND, JTAG_DRIVE_NRST, JTAG_DRIVE_NRST_PULSE), 2)
    }

    /// The request that reads the DAP register at `addr` of `port`; its answer goes to
    /// `read_register_response`. On the debug port only the first bank can be read.
    pub fn read_register(&self, port: Port, addr: u16) -> (r: Result<Request, DebugProbeError>)
        ensures
            dap_address_allowed(port, addr) ==> (r matches Ok(q) && q.is(
                read_dap_command(port, addr),
                8,
            )),
            !dap_address_allowed(port, addr) ==> (r matches Err(e) && e == DebugProbeError::Stlink(
                StlinkError::BlanksNotAllowedOnDPRegister,
            )),
    {
        if addr % 256 < 16 || port != Port::DebugPort {
            let r = request(dap_command(JTAG_READ_DAP_REG, port, addr), 8);
            assert(read_dap_command(port, addr).update(1, JTAG_READ_DAP_REG) =~= read_dap_command(
                port,
                addr,
            ));
            Ok(r)
        } else {
            Err(DebugProbeError::Stlink(StlinkError::BlanksNotAllowedOnDPRegister))
        }
    }

    /// The value in the answer to a register read: its status comes first, the value
    /// in bytes 4 to 7, lowest byte first.
    pub fn read_register_response(buf: &[u8]) -> (r: Result<u32, DebugProbeError>)
        ensures
            buf@.len() < 8 ==> r == Err::<u32, DebugProbeError>(
                DebugProbeError::Stlink(StlinkError::NotEnoughBytesRead),
            ),
            buf@.len() >= 8 ==> r == (if buf@[0] == JTAG_OK {
                Ok::<u32, DebugProbeError>(le_u32(buf@.subrange(4, 8)) as u32)
            } else {
                Err(DebugProbeError::Unknown)
            }),
    {
        if buf.len() < 8 {
            return Err(DebugProbeError::Stlink(StlinkError::NotEnoughBytesRead));
        }
        match Self::check_status(buf) {
            Err(e) => Err(e),
            Ok(()) => Ok(read_le_u32(buf, 4)),
        }
    }

    /// The request that writes `value` to the DAP register at `addr` of `port`. On the
    /// debug port only the first bank can be written.
    pub fn write_register(&self, port: Port, addr: u16, value: u32) -> (r: Result<
        Request,
        DebugProbeError,
    >)
        ensures
            dap_address_allowed(port, addr) ==> (r matches Ok(q) && q.is(
                write_dap_command(port, addr, value),
                2,
            )),
            !dap_address_allowed(port, addr) ==> (r matches Err(e) && e == DebugProbeError::Stlink(
                StlinkError::BlanksNotAllowedOnDPRegister,
            )),
    {
        if addr % 256 < 16 || port != Port::DebugPort {
            let mut c = dap_command(JTAG_WRITE_DAP_REG, port, addr);
            proof {
                assert(pow256(0) == 1);
                assert(pow256(1) == 256);
                assert(pow256(2) == 65536);
                assert(pow256(3) == 16777216);
            }
            c.push(low_byte(value));
            c.push(low_byte(value / 256));
            c.push(low_byte(value / 65536));
            c.push(low_byte(value / 16777216));
            assert(c@ =~= write_dap_command(port, addr, value));
            Ok(request(c, 2))
        } else {
            Err(DebugProbeError::Stlink(StlinkError::BlanksNotAllowedOnDPRegister))
        }
    }

    /// The request that sets the SWD clock.
    pub fn set_swd_frequency(&self, frequency: SwdFrequencyToDelayCount) -> (r: Request)
        ensures
            r.is(seq![JTAG_COMMAND, SWD_SET_FREQ, frequency.delay_count_spec()], 2),
    {
        request(bytes3(JTAG_COMMAND, SWD_SET_FREQ, frequency.delay_count()), 2)
    }

    /// The request that sets the JTAG clock.
    pub fn set_jtag_frequency(&self, frequency: JTagFrequencyToDivider) -> (r: Request)
        ensures
            r.is(seq![JTAG_COMMAND, JTAG_SET_FREQ, frequency.divider_spec()], 2),
    {
        request(bytes3(JTAG_COMMAND, JTAG_SET_FREQ, frequency.divider()), 2)
    }

    /// The request that opens access port `apsel`; firmware before version 28 knows
    /// one access port only.
    pub fn open_ap<A: AccessPort>(&self, apsel: A) -> (r: Result<Request, DebugProbeError>)
        ensures
            self.jtag_version < MIN_JTAG_VERSION_MULTI_AP ==> (r matches Err(e) && e
                == DebugProbeError::Stlink(StlinkError::JTagDoesNotSupportMultipleAP)),
            self.jtag_version >= MIN_JTAG_VERSION_MULTI_AP ==> (r matches Ok(q) && q.is(
                seq![JTAG_COMMAND, JTAG_INIT_AP, apsel.port_number_spec(), JTAG_AP_NO_CORE],
                2,
            )),
    {
        if self.jtag_version < MIN_JTAG_VERSION_MULTI_AP {
            Err(DebugProbeError::Stlink(StlinkError::JTagDoesNotSupportMultipleAP))
        } else {
            Ok(
                request(
                    bytes4(JTAG_COMMAND, JTAG_INIT_AP, apsel.get_port_number(), JTAG_AP_NO_CORE),
                    2,
                ),
            )
        }
    }

    /// The request that closes access port `apsel`; firmware before version 28 knows
    /// one access port only.
    pub fn close_ap<A: AccessPort>(&self, apsel: A) -> (r: Result<Request, DebugProbeError>)
        ensures
            self.jtag_version < MIN_JTAG_VERSION_MULTI_AP ==> (r matches Err(e) && e
                == DebugProbeError::Stlink(StlinkError::JTagDoesNotSupportMultipleAP)),
            self.jtag_version >= MIN_JTAG_VERSION_MULTI_AP ==> (r matches Ok(q) && q.is(
                seq![JTAG_COMMAND, JTAG_CLOSE_AP_DBG, apsel.port_number_spec()],
                2,
            )),
    {
        if self.jtag_version < MIN_JTAG_VERSION_MULTI_AP {
            Err(DebugProbeError::Stlink(StlinkError::JTagDoesNotSupportMultipleAP))
        } else {
            Ok(request(bytes3(JTAG_COMMAND, JTAG_CLOSE_AP_DBG, apsel.get_port_number()), 2))
        }
    }

    /// The request that drives the nRESET pin low (`is_asserted`) or high.
    pub fn drive_nreset(&self, is_asserted: bool) -> (r: Request)
        ensures
            r.is(
                seq![
                    JTAG_COMMAND,
                    JTAG_DRIVE_NRST,
                    if is_asserted { JTAG_DRIVE_NRST_LOW } else { JTAG_DRIVE_NRST_HIGH },
                ],
                2,
            ),
    {
        let state = if is_asserted {
            JTAG_DRIVE_NRST_LOW
        } else {
            JTAG_DRIVE_NRST_HIGH
        };
        request(bytes3(JTAG_COMMAND, JTAG_DRIVE_NRST, state), 2)
    }

    /// The unlock sequence of nRF chips cannot be run through an ST-Link.
    pub fn nrf_recover(&self) -> (r: Result<(), DebugProbeError>)
        ensures
            r == Err::<(), DebugProbeError>(
                DebugProbeError::Stlink(StlinkError::NrfRecoverNotSupported),
            ),
    {
        Err(DebugProbeError::Stlink(StlinkError::NrfRecoverNotSupported))
    }
}

/// One memory command's share of a transfer: `len` bytes at `address`, `offset` bytes
/// into the transfer.
#[derive(Debug, Clone, Copy, PartialEq, Eq, Structural)]
pub struct TransferPiece {
    pub address: u32,
    pub offset: usize,
    pub len: usize,
}

/// `pieces` cut `len` bytes at `address` in order, without gaps, each `max` bytes long
/// but the last, which is not empty.
pub open spec fn is_cut(address: int, len: int, max: int, pieces: Seq<TransferPiece>) -> bool {
    &&& pieces.len() == (len + max - 1) / max
    &&& forall|i: int|
        0 <= i < pieces.len() ==> {
            &&& (#[trigger] pieces[i]).offset == i * max
            &&& pieces[i].address == address + i * max
            &&& pieces[i].len == (if len - i * max < max { len - i * max } else { max })
        }
}

/// Cuts a transfer of `len` bytes at `address` into pieces of at most `max` bytes.
pub fn split_transfer(address: u32, len: usize, max: usize) -> (r: Vec<TransferPiece>)
    requires
        max > 0,
        address + len <= 0x1_0000_0000,
    ensures
        is_cut(address as int, len as int, max as int, r@),
{
    let mut r: Vec<TransferPiece> = Vec::new();
    let mut done: usize = 0;
    proof {
        assert(0 * (max as int) == 0) by (nonlinear_arith);
    }
    while done < len
        invariant
            max > 0,
            address + len <= 0x1_0000_0000,
            done <= len,
            done < len ==> done == r@.len() * max,
            done == len && r@.len() > 0 ==> (r@.len() - 1) * max < len <= r@.len() * max,
            done == len && r@.len() == 0 ==> len == 0,
            forall|i: int|
                0 <= i < r@.len() ==> {
                    &&& (#[trigger] r@[i]).offset == i * max
                    &&& r@[i].address == address + i * max
                    &&& r@[i].len == (if len - i * max < max { len - i * max } else { max as int })
                },
        decreases len - done,
    {
        let rest = len - done;
        let piece = if rest < max {
            rest
        } else {
            max
        };
        let ghost k = r@.len() as int;
        r.push(TransferPiece { address: (address as usize + done) as u32, offset: done, len: piece });
        proof {
            assert((k + 1) * max == done + max) by (nonlinear_arith)
                requires
                    done == k * max,
            ;
        }
        done = done + piece;
    }
    proof {
        let n = r@.len() as int;
        let m = max as int;
        let l = len as int;
        if n > 0 {
            assert(n == (l + m - 1) / m) by (nonlinear_arith)
                requires
                    (n - 1) * m < l,
                    l <= n * m,
                    m > 0,
            ;
        } else {
            assert((l + m - 1) / m == 0) by (nonlinear_arith)
                requires
                    l == 0,
                    m > 0,
            ;
        }
    }
    r
}

/// The command that reads `len` bytes at `address` with 32-bit accesses.
pub open spec fn readmem32_command(address: u32, len: u16) -> Seq<u8> {
    seq![
        JTAG_COMMAND, JTAG_READMEM_32BIT,
        byte_of(address as int, 0), byte_of(address as int, 1),
        byte_of(address as int, 2), byte_of(address as int, 3),
        byte_of(len as int, 0), byte_of(len as int, 1),
    ]
}

fn mem_command(op: u8, address: u32, len: u16) -> (r: Vec<u8>)
    ensures
        r@ == readmem32_command(address, len).update(1, op),
{
    proof {
        assert(pow256(0) == 1);
        assert(pow256(1) == 256);
        assert(pow256(2) == 65536);
        assert(pow256(3) == 16777216);
    }
    let mut r = bytes2(JTAG_COMMAND, op);
    r.push((address % 256) as u8);
    r.push((address / 256 % 256) as u8);
    r.push((address / 65536 % 256) as u8);
    r.push((address / 16777216 % 256) as u8);
    r.push((len % 256) as u8);
    r.push((len / 256 % 256) as u8);
    assert(r@ =~= readmem32_command(address, len).update(1, op));
    r
}

/// A read of whole words at a word address goes by 32-bit accesses.
pub open spec fn reads_words(address: u32, len: usize) -> bool {
    address % 4 == 0 && len % 4 == 0
}

/// The largest piece of a read.
pub open spec fn read_piece_size(address: u32, len: usize) -> usize {
    if reads_words(address, len) {
        MAXIMUM_TRANSFER_SIZE
    } else {
        MAXIMUM_8BIT_TRANSFER_SIZE
    }
}

/// The command of a read.
pub open spec fn read_op(address: u32, len: usize) -> u8 {
    if reads_words(address, len) {
        JTAG_READMEM_32BIT
    } else {
        JTAG_READMEM_8BIT
    }
}

impl STLink {
    /// The commands that read `len` bytes at `address`: with 32-bit accesses in pieces of
    /// at most 1 KiB, which needs a word-aligned address and length; else byte by byte
    /// in pieces of one USB packet. Each answers with its piece's bytes.
    pub fn read_memory(&self, address: u32, len: usize) -> (r: Vec<Request>)
        requires
            address + len <= 0x1_0000_0000,
        ensures
            exists|pieces: Seq<TransferPiece>|
                #[trigger] is_cut(address as int, len as int, read_piece_size(address, len) as int, pieces)
                    && r@.len() == pieces.len() && forall|i: int|
                    0 <= i < pieces.len() ==> #[trigger] r@[i].is(
                        readmem32_command(pieces[i].address, pieces[i].len as u16).update(
                            1,
                            read_op(address, len),
                        ),
                        pieces[i].len,
                    ),
    {
        let words = address % 4 == 0 && len % 4 == 0;
        let max = if words {
            MAXIMUM_TRANSFER_SIZE
        } else {
            MAXIMUM_8BIT_TRANSFER_SIZE
        };
        let op = if words {
            JTAG_READMEM_32BIT
        } else {
            JTAG_READMEM_8BIT
        };
        let pieces = split_transfer(address, len, max);
        let mut r: Vec<Request> = Vec::new();
        let mut i: usize = 0;
        while i < pieces.len()
            invariant
                max == MAXIMUM_TRANSFER_SIZE || max == MAXIMUM_8BIT_TRANSFER_SIZE,
                is_cut(address as int, len as int, max as int, pieces@),
                i <= pieces@.len(),
                r@.len() == i,
                forall|k: int|
                    0 <= k < i ==> #[trigger] r@[k].is(
                        readmem32_command(pieces@[k].address, pieces@[k].len as u16).update(1, op),
                        pieces@[k].len,
                    ),
            decreases pieces@.len() - i,
        {
            let p = pieces[i];
            assert(p.len <= max);
            r.push(request(mem_command(op, p.address, p.len as u16), p.len));
            i = i + 1;
        }
        assert(max == read_piece_size(address, len));
        assert(op == read_op(address, len));
        assert(is_cut(address as int, len as int, read_piece_size(address, len) as int, pieces@));
        r
    }
}

} // verus!
