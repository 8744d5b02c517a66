use probe_rs::ap_access::GenericAP;
use probe_rs::probe::{DebugProbeError, Port, StlinkError, UsbError, WireProtocol};
use probe_rs::stlink::{
    split_transfer, InitAction, InitStage, JTagFrequencyToDivider, Mode, Request, STLink,
    SwdFrequencyToDelayCount, TransferPiece,
};

fn sent(a: &InitAction) -> (Vec<u8>, usize) {
    match a {
        InitAction::Send(Request { command, response_len }) => (command.clone(), *response_len),
        _ => panic!("expected a request"),
    }
}

fn failed(a: &InitAction) -> DebugProbeError {
    match a {
        InitAction::Failed(e) => *e,
        _ => panic!("expected a failure"),
    }
}

const VOLTAGE: [u8; 8] = [0xF0, 0x05, 0, 0, 0x20, 0x06, 0, 0];

#[test]
fn init_of_current_firmware() {
    let mut link = STLink::new();
    assert_eq!(sent(&link.init()), (vec![0xF5], 2));
    // Mode: JTAG, no exit needed.
    assert_eq!(sent(&link.init_step(Ok(vec![2, 0]))), (vec![0xF1], 6));
    // hw 2, jtag 30: 0x2000 | 30 << 6.
    assert_eq!(sent(&link.init_step(Ok(vec![0x27, 0x80, 0x83, 0x04, 0x48, 0x37]))), (vec![0xF7], 8));
    assert_eq!(link.hw_version, 2);
    assert_eq!(link.jtag_version, 30);
    assert!(matches!(link.init_step(Ok(VOLTAGE.to_vec())), InitAction::Finished));
    assert_eq!(link.stage, InitStage::Ready);
}

#[test]
fn outdated_firmware_fails_before_any_dap_access() {
    let mut link = STLink::new();
    link.init();
    link.init_step(Ok(vec![2, 0]));
    // hw 2, jtag 20.
    let a = link.init_step(Ok(vec![0x25, 0x00, 0x83, 0x04, 0x48, 0x37]));
    assert_eq!(failed(&a), DebugProbeError::ProbeFirmwareOutdated);
    assert_eq!(link.jtag_version, 20);
    assert_eq!(link.stage, InitStage::Failed);
    assert!(matches!(link.attach(Some(WireProtocol::Swd)), Err(DebugProbeError::ProbeFirmwareOutdated)));
}

#[test]
fn v3_reads_extended_version() {
    let mut link = STLink::new();
    link.init();
    link.init_step(Ok(vec![1, 0]));
    // hw 3: the JTAG version comes from GET_VERSION_EXT.
    assert_eq!(sent(&link.init_step(Ok(vec![0x30, 0x00, 0x83, 0x04, 0x4F, 0x37]))), (vec![0xFB], 12));
    assert_eq!(link.hw_version, 3);
    let ext = vec![3, 0, 7, 0, 0, 0, 0, 0, 0x83, 0x04, 0x4F, 0x37];
    assert_eq!(sent(&link.init_step(Ok(ext))), (vec![0xF7], 8));
    assert_eq!(link.jtag_version, 7);
}

#[test]
fn missing_jtag_support_is_reported() {
    let mut link = STLink::new();
    link.init();
    link.init_step(Ok(vec![2, 0]));
    let a = link.init_step(Ok(vec![0x20, 0x05, 0, 0, 0, 0]));
    assert_eq!(failed(&a), DebugProbeError::JTAGNotSupportedOnProbe);
}

#[test]
fn dfu_mode_is_left_first() {
    let mut link = STLink::new();
    link.init();
    assert_eq!(sent(&link.init_step(Ok(vec![0, 0]))), (vec![0xF3, 0x07], 0));
    assert_eq!(sent(&link.init_step(Ok(vec![]))), (vec![0xF1], 6));
}

#[test]
fn usb_failure_resets_once() {
    let mut link = STLink::new();
    link.init();
    assert!(matches!(link.init_step(Err(UsbError::Timeout)), InitAction::ResetDevice));
    assert_eq!(sent(&link.init_step(Ok(vec![]))), (vec![0xF5], 2));
    let a = link.init_step(Err(UsbError::Io));
    assert_eq!(failed(&a), DebugProbeError::USB(UsbError::Io));
}

#[test]
fn unknown_mode_fails() {
    let mut link = STLink::new();
    link.init();
    let a = link.init_step(Ok(vec![9, 0]));
    assert_eq!(failed(&a), DebugProbeError::Stlink(StlinkError::UnknownMode));
    assert_eq!(STLink::get_current_mode(&[3, 0]), Ok(Mode::Swim));
    assert!(STLink::enter_idle(Mode::Jtag).is_none());
}

#[test]
fn zero_reference_voltage_is_refused() {
    assert_eq!(
        STLink::target_voltage_readings(&[0, 0, 0, 0, 1, 0, 0, 0]),
        Err(DebugProbeError::Stlink(StlinkError::VoltageDivisionByZero))
    );
    assert_eq!(STLink::target_voltage_readings(&VOLTAGE), Ok((0x05F0, 0x0620)));
}

fn ready(jtag_version: u8) -> STLink {
    STLink { hw_version: 2, jtag_version, protocol: WireProtocol::Swd, stage: InitStage::Ready }
}

#[test]
fn attach_enters_swd_and_powers_up() {
    let (reqs, p) = ready(30).attach(None).unwrap();
    assert_eq!(p, WireProtocol::Swd);
    assert_eq!(reqs[0].command, vec![0xF2, 0x30, 0xA3, 0]);
    assert_eq!(reqs[1].command, vec![0xF2, 0x46, 0xFF, 0xFF, 0x04, 0x00, 0, 0, 0, 0x50]);
    let (reqs, p) = ready(30).attach(Some(WireProtocol::Jtag)).unwrap();
    assert_eq!(p, WireProtocol::Jtag);
    assert_eq!(reqs[0].command, vec![0xF2, 0x30, 0xA4, 0]);
    let mut link = ready(30);
    link.attached(WireProtocol::Jtag);
    assert_eq!(link.protocol, WireProtocol::Jtag);
}

#[test]
fn status_byte_decides() {
    assert_eq!(STLink::check_status(&[0x80, 0]), Ok(()));
    assert_eq!(STLink::check_status(&[0x09, 0]), Err(DebugProbeError::Unknown));
}

#[test]
fn dap_register_commands() {
    let link = ready(30);
    let q = link.read_register(Port::AccessPort(1), 0xFC).unwrap();
    assert_eq!(q.command, vec![0xF2, 0x45, 0x01, 0x00, 0xFC, 0x00]);
    assert_eq!(q.response_len, 8);
    let q = link.write_register(Port::DebugPort, 0x8, 0x1234_5678).unwrap();
    assert_eq!(q.command, vec![0xF2, 0x46, 0xFF, 0xFF, 0x08, 0x00, 0x78, 0x56, 0x34, 0x12]);
    assert!(matches!(
        link.read_register(Port::DebugPort, 0x14),
        Err(DebugProbeError::Stlink(StlinkError::BlanksNotAllowedOnDPRegister))
    ));
    assert!(matches!(
        link.write_register(Port::DebugPort, 0xF4, 1),
        Err(DebugProbeError::Stlink(StlinkError::BlanksNotAllowedOnDPRegister))
    ));
}

#[test]
fn register_value_from_answer() {
    assert_eq!(STLink::read_register_response(&[0x80, 0, 0, 0, 0x11, 0x00, 0x77, 0x24]), Ok(0x2477_0011));
    assert_eq!(STLink::read_register_response(&[0x14, 0, 0, 0, 1, 2, 3, 4]), Err(DebugProbeError::Unknown));
    assert_eq!(
        STLink::read_register_response(&[0x80, 0]),
        Err(DebugProbeError::Stlink(StlinkError::NotEnoughBytesRead))
    );
}

#[test]
fn clock_commands() {
    let link = ready(30);
    assert_eq!(link.set_swd_frequency(SwdFrequencyToDelayCount::Hz1800000).command, vec![0xF2, 0x43, 1]);
    assert_eq!(link.set_swd_frequency(SwdFrequencyToDelayCount::Hz100000).command, vec![0xF2, 0x43, 40]);
    assert_eq!(link.set_jtag_frequency(JTagFrequencyToDivider::Hz4500000).command, vec![0xF2, 0x44, 8]);
}

#[test]
fn multiple_aps_need_firmware_28() {
    assert!(matches!(
        ready(27).open_ap(GenericAP::new(1)),
        Err(DebugProbeError::Stlink(StlinkError::JTagDoesNotSupportMultipleAP))
    ));
    assert!(matches!(
        ready(27).close_ap(GenericAP::new(1)),
        Err(DebugProbeError::Stlink(StlinkError::JTagDoesNotSupportMultipleAP))
    ));
    assert_eq!(ready(28).open_ap(GenericAP::new(2)).unwrap().command, vec![0xF2, 0x4B, 2, 0]);
    assert_eq!(ready(28).close_ap(GenericAP::new(2)).unwrap().command, vec![0xF2, 0x4C, 2]);
}

#[test]
fn reset_pin_commands() {
    let link = ready(30);
    assert_eq!(link.drive_nreset(true).command, vec![0xF2, 0x3C, 0x00]);
    assert_eq!(link.drive_nreset(false).command, vec![0xF2, 0x3C, 0x01]);
    assert_eq!(link.target_reset().command, vec![0xF2, 0x3C, 0x02]);
    assert_eq!(link.get_name(), "ST-Link");
}

#[test]
fn stlink_cannot_recover_nrf() {
    assert_eq!(
        ready(30).nrf_recover(),
        Err(DebugProbeError::Stlink(StlinkError::NrfRecoverNotSupported))
    );
}

#[test]
fn transfers_are_cut_into_pieces() {
    assert_eq!(
        split_transfer(0x2000_0000, 130, 64),
        vec![
            TransferPiece { address: 0x2000_0000, offset: 0, len: 64 },
            TransferPiece { address: 0x2000_0040, offset: 64, len: 64 },
            TransferPiece { address: 0x2000_0080, offset: 128, len: 2 },
        ]
    );
    assert_eq!(split_transfer(0, 0, 64), vec![]);
    assert_eq!(split_transfer(0x100, 1024, 1024).len(), 1);
}

#[test]
fn memory_reads_by_words_or_bytes() {
    let link = ready(30);
    let q = link.read_memory(0x2000_0000, 2048);
    assert_eq!(q.len(), 2);
    assert_eq!(q[0].command, vec![0xF2, 0x07, 0x00, 0x00, 0x00, 0x20, 0x00, 0x04]);
    assert_eq!(q[1].command, vec![0xF2, 0x07, 0x00, 0x04, 0x00, 0x20, 0x00, 0x04]);
    assert_eq!(q[1].response_len, 1024);
    let q = link.read_memory(0x2000_0001, 100);
    assert_eq!(q.len(), 2);
    assert_eq!(q[0].command, vec![0xF2, 0x0C, 0x01, 0x00, 0x00, 0x20, 64, 0]);
    assert_eq!(q[1].command, vec![0xF2, 0x0C, 0x41, 0x00, 0x00, 0x20, 36, 0]);
    assert_eq!(q[1].response_len, 36);
}
