use probe_rs::daplink::{
    connect_request, connect_response, line_reset_request, transfer_block_write_request,
    transfer_request, transfer_response, DapError,
};
use probe_rs::probe::{Port, WireProtocol};

#[test]
fn connect_frames() {
    assert_eq!(connect_request(Some(WireProtocol::Swd)), vec![0x02, 1]);
    assert_eq!(connect_request(Some(WireProtocol::Jtag)), vec![0x02, 2]);
    assert_eq!(connect_request(None), vec![0x02, 0]);
    assert_eq!(connect_response(&[0x02, 1]), Ok(WireProtocol::Swd));
    assert_eq!(connect_response(&[0x02, 0]), Err(DapError::ConnectFailed));
    assert_eq!(connect_response(&[0x05, 1]), Err(DapError::Protocol));
}

#[test]
fn line_reset_is_51_high_bits() {
    assert_eq!(line_reset_request(), vec![0x12, 51, 0xFF, 0xFF, 0xFF, 0xFF, 0xFF, 0xFF, 0xFF]);
}

#[test]
fn single_transfers() {
    // Read DP IDCODE (address 0): DP, read.
    assert_eq!(transfer_request(Port::DebugPort, 0x0, None), vec![0x05, 0, 1, 0x02]);
    // Write AP TAR (address 0x04): AP, write.
    assert_eq!(
        transfer_request(Port::AccessPort(0), 0x04, Some(0x2000_0000)),
        vec![0x05, 0, 1, 0x05, 0x00, 0x00, 0x00, 0x20]
    );
    // Read AP IDR (0xFC): bank bits are not part of the request.
    assert_eq!(transfer_request(Port::AccessPort(0), 0xFC, None), vec![0x05, 0, 1, 0x0F]);
}

#[test]
fn transfer_answers() {
    assert_eq!(transfer_response(&[0x05, 1, 1, 0x77, 0x14, 0xA0, 0x2B], true), Ok(Some(0x2BA0_1477)));
    assert_eq!(transfer_response(&[0x05, 1, 1], false), Ok(None));
    assert_eq!(transfer_response(&[0x05, 1, 2], false), Err(DapError::Wait));
    assert_eq!(transfer_response(&[0x05, 0, 4], true), Err(DapError::Protocol));
    assert_eq!(transfer_response(&[0x05, 1, 4], true), Err(DapError::Fault));
    assert_eq!(transfer_response(&[0x05, 1, 1, 0x77], true), Err(DapError::Protocol));
}

#[test]
fn block_write_frame() {
    let r = transfer_block_write_request(Port::AccessPort(0), 0x0C, &[0x1122_3344, 0xAABB_CCDD]);
    assert_eq!(r, vec![0x06, 0, 2, 0, 0x0D, 0x44, 0x33, 0x22, 0x11, 0xDD, 0xCC, 0xBB, 0xAA]);
    let long = vec![0u32; 300];
    let r = transfer_block_write_request(Port::AccessPort(0), 0x0C, &long);
    assert_eq!(&r[..5], &[0x06, 0, 44, 1, 0x0D]);
    assert_eq!(r.len(), 5 + 1200);
}
