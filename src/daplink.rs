use crate::probe::{Port, WireProtocol};
use crate::stlink::{byte_of, le_u32, pow256};
use vstd::prelude::*;

verus! {

pub const DAP_CONNECT: u8 = 0x02;
pub const DAP_TRANSFER: u8 = 0x05;
pub const DAP_TRANSFER_BLOCK: u8 = 0x06;
pub const DAP_SWJ_SEQUENCE: u8 = 0x12;

/// The acknowledgements of a DAP transfer.
pub const ACK_OK: u8 = 0x1;
pub const ACK_WAIT: u8 = 0x2;
pub const ACK_FAULT: u8 = 0x4;

/// Failures that a CMSIS-DAP probe reports.
#[derive(Debug, Clone, Copy, PartialEq, Eq, Structural)]
pub enum DapError {
    /// The probe could not connect with the protocol asked for.
    ConnectFailed,
    /// The target kept answering WAIT.
    Wait,
    /// The target answered FAULT.
    Fault,
    /// The answer does not belong to the command, or is cut short.
    Protocol,
}

/// The port number that DAP_Connect takes for a protocol; 0 lets the probe choose.
pub open spec fn connect_port(protocol: Option<WireProtocol>) -> u8 {
    match protocol {
        None => 0,
        Some(WireProtocol::Swd) => 1,
        Some(WireProtocol::Jtag) => 2,
    }
}

/// DAP_Connect with the protocol asked for.
pub fn connect_request(protocol: Option<WireProtocol>) -> (r: Vec<u8>)
    ensures
        r@ == seq![DAP_CONNECT, connect_port(protocol)],
{
    let port: u8 = match protocol {
        None => 0,
        Some(WireProtocol::Swd) => 1,
        Some(WireProtocol::Jtag) => 2,
    };
    let r = vec![DAP_CONNECT, port];
    assert(r@ =~= seq![DAP_CONNECT, connect_port(protocol)]);
    r
}

/// What an answer to DAP_Connect says.
pub open spec fn connect_outcome(b: Seq<u8>) -> Result<WireProtocol, DapError> {
    if b.len() < 2 || b[0] != DAP_CONNECT {
        Err(DapError::Protocol)
    } else if b[1] == 1 {
        Ok(WireProtocol::Swd)
    } else if b[1] == 2 {
        Ok(WireProtocol::Jtag)
    } else {
        Err(DapError::ConnectFailed)
    }
}

/// The protocol that the probe connected with.
pub fn connect_response(buf: &[u8]) -> (r: Result<WireProtocol, DapError>)
    ensures
        r == connect_outcome(buf@),
{
    if buf.len() < 2 || buf[0] != DAP_CONNECT {
        Err(DapError::Protocol)
    } else if buf[1] == 1 {
        Ok(WireProtocol::Swd)
    } else if buf[1] == 2 {
        Ok(WireProtocol::Jtag)
    } else {
        Err(DapError::ConnectFailed)
    }
}

/// DAP_SWJ_Sequence that holds SWDIO high for 51 clocks: the SWD line reset.
pub fn line_reset_request() -> (r: Vec<u8>)
    ensures
        r@ == seq![DAP_SWJ_SEQUENCE, 51u8] + Seq::new(7, |i: int| 0xFFu8),
{
    let r = vec![DAP_SWJ_SEQUENCE, 51, 0xFF, 0xFF, 0xFF, 0xFF, 0xFF, 0xFF, 0xFF];
    assert(r@ =~= seq![DAP_SWJ_SEQUENCE, 51u8] + Seq::new(7, |i: int| 0xFFu8));
    r
}

/// The request byte of a transfer: APnDP in bit 0, RnW in bit 1, and bits 3 and 2 of
/// the register address.
pub open spec fn transfer_request_byte(port: Port, addr: u8, read: bool) -> u8 {
    ((if port == Port::DebugPort { 0int } else { 1int }) + (if read { 2int } else { 0int }) + (
    addr % 16) / 4 * 4) as u8
}

fn request_byte(port: Port, addr: u8, read: bool) -> (r: u8)
    ensures
        r == transfer_request_byte(port, addr, read),
{
    let ap: u8 = if port == Port::DebugPort {
        0
    } else {
        1
    };
    let rnw: u8 = if read {
        2
    } else {
        0
    };
    ap + rnw + (addr % 16) / 4 * 4
}

/// The four bytes of a word, lowest first.
pub open spec fn word_bytes(v: u32) -> Seq<u8> {
    seq![byte_of(v as int, 0), byte_of(v as int, 1), byte_of(v as int, 2), byte_of(v as int, 3)]
}

fn push_word(r: &mut Vec<u8>, v: u32)
    ensures
        final(r)@ == old(r)@ + word_bytes(v),
{
    proof {
        assert(pow256(0) == 1);
        assert(pow256(1) == 256);
        assert(pow256(2) == 65536);
        assert(pow256(3) == 16777216);
    }
    r.push((v % 256) as u8);
    r.push((v / 256 % 256) as u8);
    r.push((v / 65536 % 256) as u8);
    r.push((v / 16777216 % 256) as u8);
    assert(final(r)@ =~= old(r)@ + word_bytes(v));
}

/// DAP_Transfer of one register: a read where `value` is `None`, else a write of it.
pub fn transfer_request(port: Port, addr: u8, value: Option<u32>) -> (r: Vec<u8>)
    ensures
        r@ == seq![DAP_TRANSFER, 0u8, 1u8, transfer_request_byte(port, addr, value is None)] + match value {
            Some(v) => word_bytes(v),
            None => Seq::empty(),
        },
{
    let mut r = vec![DAP_TRANSFER, 0, 1, request_byte(port, addr, value.is_none())];
    match value {
        Some(v) => push_word(&mut r, v),
        None => {},
    }
    assert(r@ =~= seq![DAP_TRANSFER, 0u8, 1u8, transfer_request_byte(port, addr, value is None)]
        + match value {
        Some(v) => word_bytes(v),
        None => Seq::empty(),
    });
    r
}

/// What the acknowledgement of a transfer says.
pub open spec fn ack_outcome(ack: u8) -> Result<(), DapError> {
    if ack == ACK_OK {
        Ok(())
    } else if ack == ACK_WAIT {
        Err(DapError::Wait)
    } else if ack == ACK_FAULT {
        Err(DapError::Fault)
    } else {
        Err(DapError::Protocol)
    }
}

/// What an answer to a one-register DAP_Transfer says: the value read, for a read.
pub open spec fn transfer_outcome(b: Seq<u8>, read: bool) -> Result<Option<u32>, DapError> {
    if b.len() < 3 || b[0] != DAP_TRANSFER || b[1] != 1 {
        Err(DapError::Protocol)
    } else {
        match ack_outcome(b[2]) {
            Err(e) => Err(e),
            Ok(()) => if !read {
                Ok(None)
            } else if b.len() < 7 {
                Err(DapError::Protocol)
            } else {
                Ok(Some(le_u32(b.subrange(3, 7)) as u32))
            },
        }
    }
}

fn ack_check(ack: u8) -> (r: Result<(), DapError>)
    ensures
        r == ack_outcome(ack),
{
    if ack == ACK_OK {
        Ok(())
    } else if ack == ACK_WAIT {
        Err(DapError::Wait)
    } else if ack == ACK_FAULT {
        Err(DapError::Fault)
    } else {
        Err(DapError::Protocol)
    }
}

/// Reads the answer to a one-register DAP_Transfer.
pub fn transfer_response(buf: &[u8], read: bool) -> (r: Result<Option<u32>, DapError>)
    ensures
        r == transfer_outcome(buf@, read),
{
    if buf.len() < 3 || buf[0] != DAP_TRANSFER || buf[1] != 1 {
        return Err(DapError::Protocol);
    }
    match ack_check(buf[2]) {
        Err(e) => Err(e),
        Ok(()) => if !read {
            Ok(None)
        } else if buf.len() < 7 {
            Err(DapError::Protocol)
        } else {
            let v = buf[3] as u32 + 256 * (buf[4] as u32) + 65536 * (buf[5] as u32) + 16777216 * (
            buf[6] as u32);
            proof {
                let w = buf@.subrange(3, 7);
                assert(w[0] == buf@[3] && w[1] == buf@[4] && w[2] == buf@[5] && w[3] == buf@[6]);
            }
            Ok(Some(v))
        },
    }
}

/// The words of `values`, four bytes each, lowest byte first.
pub open spec fn words_bytes(values: Seq<u32>) -> Seq<u8>
    decreases values.len(),
{
    if values.len() == 0 {
        Seq::empty()
    } else {
        words_bytes(values.drop_last()) + word_bytes(values.last())
    }
}

/// DAP_TransferBlock that writes `values` to one register of `port`, one after the
/// other (to DRW, with the address auto-increment, a block of memory).
pub fn transfer_block_write_request(port: Port, addr: u8, values: &[u32]) -> (r: Vec<u8>)
    requires
        values@.len() <= 0xFFFF,
    ensures
        r@ == seq![
            DAP_TRANSFER_BLOCK,
            0u8,
            byte_of(values@.len() as int, 0),
            byte_of(values@.len() as int, 1),
            transfer_request_byte(port, addr, false),
        ] + words_bytes(values@),
{
    let n: usize = values.len();
    proof {
        assert(pow256(0) == 1);
        assert(pow256(1) == 256);
    }
    let mut r = vec![
        DAP_TRANSFER_BLOCK,
        0,
        (n % 256) as u8,
        (n / 256 % 256) as u8,
        request_byte(port, addr, false),
    ];
    let ghost head = r@;
    let mut i: usize = 0;
    while i < n
        invariant
            n == values@.len(),
            i <= n,
            r@ == head + words_bytes(values@.subrange(0, i as int)),
        decreases n - i,
    {
        push_word(&mut r, values[i]);
        i = i + 1;
        proof {
            let pre = values@.subrange(0, i as int);
            assert(pre.drop_last() =~= values@.subrange(0, i - 1));
            assert(r@ =~= head + words_bytes(pre));
        }
    }
    assert(values@.subrange(0, n as int) =~= values@);
    assert(head =~= seq![
        DAP_TRANSFER_BLOCK,
        0u8,
        byte_of(values@.len() as int, 0),
        byte_of(values@.len() as int, 1),
        transfer_request_byte(port, addr, false),
    ]);
    r
}

} // verus!
