use vstd::prelude::*;

verus! {

/// The wire protocol between probe and target.
#[derive(Debug, Clone, Copy, PartialEq, Eq, Structural)]
pub enum WireProtocol {
    Swd,
    Jtag,
}

/// Where a DAP register lives: on the debug port, or on the access port of a number.
#[derive(Debug, Clone, Copy, PartialEq, Eq, Structural)]
pub enum Port {
    DebugPort,
    AccessPort(u16),
}

/// The families of probes that are supported.
#[derive(Debug, Clone, Copy, PartialEq, Eq, Structural)]
pub enum DebugProbeType {
    DAPLink,
    STLink,
}

/// Failures of the USB transport to one probe.
#[derive(Debug, Clone, Copy, PartialEq, Eq, Structural)]
pub enum UsbError {
    Io,
    Timeout,
    EndpointNotFound,
    DeviceGone,
}

/// Failures that are particular to the ST-Link.
#[derive(Debug, Clone, Copy, PartialEq, Eq, Structural)]
pub enum StlinkError {
    VoltageDivisionByZero,
    UnknownMode,
    JTagDoesNotSupportMultipleAP,
    BlanksNotAllowedOnDPRegister,
    NotEnoughBytesRead,
    EndpointNotFound,
    NrfRecoverNotSupported,
}

/// Failures of a debug probe.
#[derive(Debug, Clone, Copy, PartialEq, Eq, Structural)]
pub enum DebugProbeError {
    USB(UsbError),
    JTAGNotSupportedOnProbe,
    ProbeFirmwareOutdated,
    Stlink(StlinkError),
    Unknown,
}

/// A probe found on the USB bus.
pub struct DebugProbeInfo {
    pub identifier: String,
    pub vendor_id: u16,
    pub product_id: u16,
    pub serial_number: Option<String>,
    pub probe_type: DebugProbeType,
}

/// Why no probe could be chosen from the ones found.
#[derive(Debug, Clone, Copy, PartialEq, Eq, Structural)]
pub enum ProbeSelectionError {
    /// A probe was asked for by an index past the end of the list.
    IndexNotFound,
    /// No probe was asked for, and the list does not hold exactly one.
    NoProbeFound,
}

impl ProbeSelectionError {
    pub fn message(&self) -> (r: &'static str) {
        match self {
            ProbeSelectionError::IndexNotFound => "Probe with specified index not found",
            ProbeSelectionError::NoProbeFound => "No probe found.",
        }
    }
}

/// Picks the probe to open among `probes`: the one at `index` where it is given, else
/// the only one found.
pub fn open_probe(probes: &Vec<DebugProbeInfo>, index: Option<usize>) -> (r: Result<
    usize,
    ProbeSelectionError,
>)
    ensures
        match index {
            Some(i) => if i < probes@.len() {
                r == Ok::<usize, ProbeSelectionError>(i)
            } else {
                r == Err::<usize, ProbeSelectionError>(ProbeSelectionError::IndexNotFound)
            },
            None => if probes@.len() == 1 {
                r == Ok::<usize, ProbeSelectionError>(0)
            } else {
                r == Err::<usize, ProbeSelectionError>(ProbeSelectionError::NoProbeFound)
            },
        },
{
    match index {
        Some(i) => if i < probes.len() {
            Ok(i)
        } else {
            Err(ProbeSelectionError::IndexNotFound)
        },
        None => if probes.len() == 1 {
            Ok(0)
        } else {
            Err(ProbeSelectionError::NoProbeFound)
        },
    }
}

} // verus!
