use vstd::prelude::*;
use vstd::slice::{slice_subrange, slice_to_vec};
use vstd::string::StringSliceAdditionalSpecFns;

verus! {

/// The answer to a `qXfer` read of `len` bytes at `offset` of a document: `m` and the
/// bytes where the read is complete, `l` and what is left where it reaches the end.
pub open spec fn sanitized(data: Seq<u8>, offset: nat, len: nat) -> Seq<u8> {
    if offset > data.len() {
        seq![108u8]
    } else {
        let end = if offset + len > data.len() {
            data.len()
        } else {
            offset + len
        };
        let part = data.subrange(offset as int, end as int);
        seq![if part.len() >= len { 109u8 } else { 108u8 }] + part
    }
}

/// Cuts the piece at `offset`, `len` bytes long, out of `data` and marks it as the
/// last one (`l`) where it reaches the end of `data`, else as one of more (`m`).
pub fn gdb_sanitize_file(data: Vec<u8>, offset: u32, len: u32) -> (r: Vec<u8>)
    ensures
        r@ == sanitized(data@, offset as nat, len as nat),
{
    let data_len: u64 = data.len() as u64;
    if offset as u64 > data_len {
        let r = vec![108u8];
        assert(r@ =~= sanitized(data@, offset as nat, len as nat));
        return r;
    }
    let end: u64 = if offset as u64 + len as u64 > data_len {
        data_len
    } else {
        offset as u64 + len as u64
    };
    let mut part: Vec<u8> = Vec::new();
    let mut i: usize = offset as usize;
    while (i as u64) < end
        invariant
            offset <= i,
            i as u64 <= end,
            end <= data_len,
            data_len == data@.len(),
            data@.len() <= usize::MAX,
            part@ == data@.subrange(offset as int, i as int),
        decreases end - i as u64,
    {
        part.push(data[i]);
        i = i + 1;
        assert(part@ =~= data@.subrange(offset as int, i as int));
    }
    let mark = if part.len() as u64 >= len as u64 {
        109u8
    } else {
        108u8
    };
    let mut r = vec![mark];
    let mut k: usize = 0;
    while k < part.len()
        invariant
            k <= part@.len(),
            r@ == seq![mark] + part@.subrange(0, k as int),
        decreases part@.len() - k,
    {
        r.push(part[k]);
        k = k + 1;
        assert(r@ =~= seq![mark] + part@.subrange(0, k as int));
    }
    assert(part@.subrange(0, k as int) =~= part@);
    r
}

/// The value of a hexadecimal digit, either case.
pub open spec fn hex_digit(b: u8) -> Option<nat> {
    if 48 <= b <= 57 {
        Some((b - 48) as nat)
    } else if 97 <= b <= 102 {
        Some((b - 87) as nat)
    } else if 65 <= b <= 70 {
        Some((b - 55) as nat)
    } else {
        None
    }
}

/// The number that a nonempty run of hexadecimal digits writes.
pub open spec fn hex_value(s: Seq<u8>) -> Option<nat>
    decreases s.len(),
{
    if s.len() == 0 {
        None
    } else if s.len() == 1 {
        hex_digit(s[0])
    } else {
        match (hex_value(s.drop_last()), hex_digit(s.last())) {
            (Some(v), Some(d)) => Some(v * 16 + d),
            _ => None,
        }
    }
}

/// The number that `s` writes in hexadecimal, where it fits in 32 bits.
pub open spec fn hex_u32(s: Seq<u8>) -> Option<u32> {
    match hex_value(s) {
        Some(v) => if v <= u32::MAX {
            Some(v as u32)
        } else {
            None
        },
        None => None,
    }
}

proof fn lemma_hex_value_grows(s: Seq<u8>, k: int)
    requires
        1 <= k <= s.len(),
        hex_value(s) is Some,
    ensures
        hex_value(s.subrange(0, k)) is Some,
        hex_value(s.subrange(0, k))->0 <= hex_value(s)->0,
    decreases s.len(),
{
    if k < s.len() {
        assert(s.drop_last().subrange(0, k) =~= s.subrange(0, k));
        lemma_hex_value_grows(s.drop_last(), k);
    } else {
        assert(s.subrange(0, k) =~= s);
    }
}

fn hex_digit_exec(b: u8) -> (r: Option<u32>)
    ensures
        match hex_digit(b) {
            Some(d) => r == Some(d as u32),
            None => r is None,
        },
{
    if 48 <= b && b <= 57 {
        Some((b - 48) as u32)
    } else if 97 <= b && b <= 102 {
        Some((b - 87) as u32)
    } else if 65 <= b && b <= 70 {
        Some((b - 55) as u32)
    } else {
        None
    }
}

/// Reads the hexadecimal number in `s[from..to]`; `None` where that is empty, holds
/// another character, or does not fit in 32 bits.
pub fn parse_hex_u32(s: &[u8], from: usize, to: usize) -> (r: Option<u32>)
    requires
        from <= to <= s@.len(),
    ensures
        r == hex_u32(s@.subrange(from as int, to as int)),
{
    let ghost field = s@.subrange(from as int, to as int);
    if from == to {
        return None;
    }
    let mut acc: u64 = 0;
    let mut i: usize = from;
    while i < to
        invariant
            from <= i <= to <= s@.len(),
            field == s@.subrange(from as int, to as int),
            acc <= u32::MAX,
            i > from ==> hex_value(field.subrange(0, i - from)) == Some(acc as nat),
            i == from ==> acc == 0,
        decreases to - i,
    {
        let d = match hex_digit_exec(s[i]) {
            Some(d) => d,
            None => {
                proof {
                    if hex_value(field) is Some {
                        lemma_hex_digits_all(field, (i - from) as int);
                    }
                }
                return None;
            },
        };
        proof {
            let pre = field.subrange(0, i + 1 - from);
            assert(pre.drop_last() =~= field.subrange(0, i - from));
            assert(pre.last() == s@[i as int]);
        }
        acc = acc * 16 + d as u64;
        i = i + 1;
        if acc > u32::MAX as u64 {
            proof {
                if hex_value(field) is Some {
                    lemma_hex_value_grows(field, (i - from) as int);
                }
            }
            return None;
        }
    }
    assert(field.subrange(0, (to - from) as int) =~= field);
    Some(acc as u32)
}

proof fn lemma_hex_digits_all(s: Seq<u8>, k: int)
    requires
        0 <= k < s.len(),
        hex_value(s) is Some,
    ensures
        hex_digit(s[k]) is Some,
    decreases s.len(),
{
    if k < s.len() - 1 {
        lemma_hex_digits_all(s.drop_last(), k);
    }
}

/// `p` begins with `prefix`.
pub open spec fn starts_with(p: Seq<u8>, prefix: Seq<u8>) -> bool {
    p.len() >= prefix.len() && p.subrange(0, prefix.len() as int) == prefix
}

fn starts_with_exec(p: &[u8], prefix: &str) -> (r: bool)
    ensures
        r == starts_with(p@, prefix.spec_bytes()),
{
    let q = prefix.as_bytes();
    if p.len() < q.len() {
        return false;
    }
    let mut i: usize = 0;
    while i < q.len()
        invariant
            q@ == prefix.spec_bytes(),
            p@.len() >= q@.len(),
            i <= q@.len(),
            forall|j: int| 0 <= j < i ==> p@[j] == q@[j],
        decreases q@.len() - i,
    {
        if p[i] != q[i] {
            return false;
        }
        i = i + 1;
    }
    assert(p@.subrange(0, q@.len() as int) =~= q@);
    true
}

/// The first position at or after `from` that holds `c`.
pub open spec fn find_from(p: Seq<u8>, c: u8, from: int) -> Option<int>
    decreases p.len() - from,
{
    if from < 0 || from >= p.len() {
        None
    } else if p[from] == c {
        Some(from)
    } else {
        find_from(p, c, from + 1)
    }
}

fn find_from_exec(p: &[u8], c: u8, from: usize) -> (r: Option<usize>)
    ensures
        match r {
            Some(i) => from <= i < p@.len() && p@[i as int] == c && find_from(p@, c, from as int)
                == Some(i as int),
            None => find_from(p@, c, from as int) is None,
        },
{
    let mut i = from;
    while i < p.len()
        invariant
            from <= i,
            find_from(p@, c, from as int) == find_from(p@, c, i as int),
        decreases p@.len() - i,
    {
        if p[i] == c {
            return Some(i);
        }
        i = i + 1;
    }
    None
}

/// Whether the server owes GDB a stop reply: set when the core was let run, cleared
/// when it is reported halted or halted on request.
pub struct HaltWatch {
    pub awaits_halt: bool,
}

impl HaltWatch {
    pub fn new() -> (r: HaltWatch)
        ensures
            !r.awaits_halt,
    {
        HaltWatch { awaits_halt: false }
    }

    /// Records what an action does to the core: `Continue` lets it run; `Halt` and
    /// `Step` leave it halted and answer for themselves.
    pub fn after_action(&mut self, action: &GdbAction)
        ensures
            final(self).awaits_halt == (match action {
                GdbAction::Continue => true,
                GdbAction::Halt | GdbAction::Step => false,
                _ => old(self).awaits_halt,
            }),
    {
        match action {
            GdbAction::Continue => self.awaits_halt = true,
            GdbAction::Halt | GdbAction::Step => self.awaits_halt = false,
            _ => {},
        }
    }

    /// Takes whether the core is halted, polled while the server waits: the stop reply
    /// to send, once, after the core halted.
    pub fn poll(&mut self, core_halted: bool) -> (r: Option<Vec<u8>>)
        ensures
            old(self).awaits_halt && core_halted ==> (r matches Some(b) && b@
                == "T05hwbreak:;".spec_bytes()),
            old(self).awaits_halt && core_halted ==> !final(self).awaits_halt,
            !(old(self).awaits_halt && core_halted) ==> (r is None),
            !(old(self).awaits_halt && core_halted) ==> final(self).awaits_halt
                == old(self).awaits_halt,
    {
        if self.awaits_halt && core_halted {
            self.awaits_halt = false;
            Some(slice_to_vec("T05hwbreak:;".as_bytes()))
        } else {
            None
        }
    }
}

/// The memory map that the server hands to GDB.
pub const MEMORY_MAP_XML: &'static str = "<?xml version=\"1.0\"?>\n<!DOCTYPE memory-map PUBLIC \"+//IDN gnu.org//DTD GDB Memory Map V1.0//EN\" \"http://sourceware.org/gdb/gdb-memory-map.dtd\">\n<memory-map>\n<memory type=\"ram\" start=\"0x20000000\" length=\"0x4000\"/>\n<memory type=\"rom\" start=\"0x00000000\" length=\"0x40000\"/>\n</memory-map>";

/// What the server does for one request of GDB.
pub enum GdbAction {
    /// Answer with these bytes and nothing else.
    Reply(Vec<u8>),
    /// Halt the core, read this register and answer with `register_reply`.
    ReadRegister(u8),
    /// Read memory and answer with `memory_reply`.
    ReadMemory { address: u32, length: u32 },
    /// Let the core run and report when it halts; no answer now.
    Continue,
    /// Halt the core and answer `OK`.
    Halt,
    /// Step the core and answer `S05`.
    Step,
    /// Reset and halt, set a hardware breakpoint here, run, and answer `OK`.
    SetBreakpoint(u32),
    /// Reset and halt, clear the hardware breakpoint here, run, and answer `OK`.
    ClearBreakpoint(u32),
    /// Write the bytes to memory and answer `OK`.
    WriteMemory { address: u32, data: Vec<u8> },
    /// Answer with `memory_map_reply`.
    MemoryMap,
    /// Halt the core and answer `T05hwbreak:;`.
    Interrupt,
    /// Answer `OK` and end the session.
    Detach,
    /// The request names a known command but its fields do not parse.
    Malformed,
}

/// A `GdbAction` with its bytes as sequences.
pub enum GdbActionView {
    Reply(Seq<u8>),
    ReadRegister(u8),
    ReadMemory { address: u32, length: u32 },
    Continue,
    Halt,
    Step,
    SetBreakpoint(u32),
    ClearBreakpoint(u32),
    WriteMemory { address: u32, data: Seq<u8> },
    MemoryMap,
    Interrupt,
    Detach,
    Malformed,
}

impl GdbAction {
    pub open spec fn view(&self) -> GdbActionView {
        match self {
            GdbAction::Reply(b) => GdbActionView::Reply(b@),
            GdbAction::ReadRegister(r) => GdbActionView::ReadRegister(*r),
            GdbAction::ReadMemory { address, length } => GdbActionView::ReadMemory {
                address: *address,
                length: *length,
            },
            GdbAction::Continue => GdbActionView::Continue,
            GdbAction::Halt => GdbActionView::Halt,
            GdbAction::Step => GdbActionView::Step,
            GdbAction::SetBreakpoint(a) => GdbActionView::SetBreakpoint(*a),
            GdbAction::ClearBreakpoint(a) => GdbActionView::ClearBreakpoint(*a),
            GdbAction::WriteMemory { address, data } => GdbActionView::WriteMemory {
                address: *address,
                data: data@,
            },
            GdbAction::MemoryMap => GdbActionView::MemoryMap,
            GdbAction::Interrupt => GdbActionView::Interrupt,
            GdbAction::Detach => GdbActionView::Detach,
            GdbAction::Malformed => GdbActionView::Malformed,
        }
    }
}

/// `p<register>`, the register number in hexadecimal.
pub open spec fn register_request(p: Seq<u8>) -> GdbActionView {
    if p.len() < 1 {
        GdbActionView::Malformed
    } else {
        match hex_u32(p.subrange(1, p.len() as int)) {
            Some(r) => if r <= 255 {
                GdbActionView::ReadRegister(r as u8)
            } else {
                GdbActionView::Malformed
            },
            None => GdbActionView::Malformed,
        }
    }
}

/// `m<address>,<length>`, both in hexadecimal.
pub open spec fn memory_read_request(p: Seq<u8>) -> GdbActionView {
    match find_from(p, 44, 1) {
        Some(c) => match (hex_u32(p.subrange(1, c)), hex_u32(p.subrange(c + 1, p.len() as int))) {
            (Some(address), Some(length)) => GdbActionView::ReadMemory { address, length },
            _ => GdbActionView::Malformed,
        },
        None => GdbActionView::Malformed,
    }
}

/// The address of `Z1,<address>,<kind>` or `z1,<address>,<kind>`.
pub open spec fn breakpoint_address(p: Seq<u8>) -> Option<u32> {
    if p.len() < 3 || p[2] != 44 {
        None
    } else {
        match find_from(p, 44, 3) {
            Some(c) => match (hex_u32(p.subrange(3, c)), hex_u32(p.subrange(c + 1, p.len() as int))) {
                (Some(address), Some(_)) => Some(address),
                _ => None,
            },
            None => None,
        }
    }
}

/// `X<address>,<length>:<data>`: the data are the last `length` bytes of the request.
pub open spec fn memory_write_request(p: Seq<u8>) -> GdbActionView {
    match find_from(p, 44, 1) {
        Some(c) => match find_from(p, 58, c + 1) {
            Some(e) => match (hex_u32(p.subrange(1, c)), hex_u32(p.subrange(c + 1, e))) {
                (Some(address), Some(length)) => if length <= p.len() {
                    GdbActionView::WriteMemory {
                        address,
                        data: p.subrange(p.len() - length, p.len() as int),
                    }
                } else {
                    GdbActionView::Malformed
                },
                _ => GdbActionView::Malformed,
            },
            None => GdbActionView::Malformed,
        },
        None => GdbActionView::Malformed,
    }
}

pub open spec fn reply_of(s: &str) -> GdbActionView {
    GdbActionView::Reply(s.spec_bytes())
}

/// How the server answers each request of GDB, by the request's first bytes.
pub open spec fn gdb_action_spec(p: Seq<u8>) -> GdbActionView {
    if starts_with(p, "qSupported".spec_bytes()) {
        reply_of("PacketSize=2048;swbreak-;hwbreak+;vContSupported+;qXfer:memory-map:read+")
    } else if starts_with(p, "vMustReplyEmpty".spec_bytes()) || starts_with(p, "qTStatus".spec_bytes())
        || starts_with(p, "qTfV".spec_bytes()) {
        reply_of("")
    } else if starts_with(p, "qAttached".spec_bytes()) {
        reply_of("1")
    } else if starts_with(p, "?".spec_bytes()) {
        reply_of("S05")
    } else if starts_with(p, "g".spec_bytes()) {
        reply_of("xxxxxxxx")
    } else if starts_with(p, "p".spec_bytes()) {
        register_request(p)
    } else if starts_with(p, "qTsP".spec_bytes()) || starts_with(p, "qfThreadInfo".spec_bytes()) {
        reply_of("")
    } else if starts_with(p, "m".spec_bytes()) {
        memory_read_request(p)
    } else {
        gdb_control_spec(p)
    }
}

/// The second half of `gdb_action_spec`: execution control, breakpoints, writes.
pub open spec fn gdb_control_spec(p: Seq<u8>) -> GdbActionView {
    if starts_with(p, "qL".spec_bytes()) || starts_with(p, "qC".spec_bytes()) || starts_with(
        p,
        "qOffsets".spec_bytes(),
    ) {
        reply_of("")
    } else if starts_with(p, "vCont?".spec_bytes()) {
        reply_of("vCont;c;t;s")
    } else if starts_with(p, "vCont;c".spec_bytes()) || starts_with(p, "c".spec_bytes()) {
        GdbActionView::Continue
    } else if starts_with(p, "vCont;t".spec_bytes()) {
        GdbActionView::Halt
    } else if starts_with(p, "vCont;s".spec_bytes()) || starts_with(p, "s".spec_bytes()) {
        GdbActionView::Step
    } else if starts_with(p, "Z0".spec_bytes()) {
        reply_of("")
    } else if starts_with(p, "Z1".spec_bytes()) {
        match breakpoint_address(p) {
            Some(a) => GdbActionView::SetBreakpoint(a),
            None => GdbActionView::Malformed,
        }
    } else if starts_with(p, "z1".spec_bytes()) {
        match breakpoint_address(p) {
            Some(a) => GdbActionView::ClearBreakpoint(a),
            None => GdbActionView::Malformed,
        }
    } else if starts_with(p, "X".spec_bytes()) {
        memory_write_request(p)
    } else if starts_with(p, "qXfer:memory-map:read".spec_bytes()) {
        GdbActionView::MemoryMap
    } else if starts_with(p, seq![3u8]) {
        GdbActionView::Interrupt
    } else if starts_with(p, "D".spec_bytes()) {
        GdbActionView::Detach
    } else {
        reply_of("OK")
    }
}

fn reply(s: &str) -> (r: GdbAction)
    ensures
        r.view() == reply_of(s),
{
    GdbAction::Reply(slice_to_vec(s.as_bytes()))
}

fn register_request_exec(p: &[u8]) -> (r: GdbAction)
    ensures
        r.view() == register_request(p@),
{
    if p.len() < 1 {
        return GdbAction::Malformed;
    }
    match parse_hex_u32(p, 1, p.len()) {
        Some(r) => if r <= 255 {
            GdbAction::ReadRegister(r as u8)
        } else {
            GdbAction::Malformed
        },
        None => GdbAction::Malformed,
    }
}

fn memory_read_request_exec(p: &[u8]) -> (r: GdbAction)
    ensures
        r.view() == memory_read_request(p@),
{
    let n = p.len();
    match find_from_exec(p, 44, 1) {
        Some(c) => match (parse_hex_u32(p, 1, c), parse_hex_u32(p, c + 1, n)) {
            (Some(address), Some(length)) => GdbAction::ReadMemory { address, length },
            _ => GdbAction::Malformed,
        },
        None => GdbAction::Malformed,
    }
}

fn breakpoint_address_exec(p: &[u8]) -> (r: Option<u32>)
    ensures
        r == breakpoint_address(p@),
{
    if p.len() < 3 || p[2] != 44 {
        return None;
    }
    match find_from_exec(p, 44, 3) {
        Some(c) => {
            match (parse_hex_u32(p, 3, c), parse_hex_u32(p, c + 1, p.len())) {
                (Some(address), Some(_)) => Some(address),
                _ => None,
            }
        },
        None => None,
    }
}

fn memory_write_request_exec(p: &[u8]) -> (r: GdbAction)
    ensures
        r.view() == memory_write_request(p@),
{
    let n = p.len();
    match find_from_exec(p, 44, 1) {
        Some(c) => {
            match find_from_exec(p, 58, c + 1) {
                Some(e) => {
                    match (parse_hex_u32(p, 1, c), parse_hex_u32(p, c + 1, e)) {
                        (Some(address), Some(length)) => if length as usize <= p.len() {
                            let start = p.len() - length as usize;
                            let data = slice_to_vec(slice_subrange(p, start, p.len()));
                            assert(data@ =~= p@.subrange(p@.len() - length, p@.len() as int));
                            GdbAction::WriteMemory { address, data }
                        } else {
                            GdbAction::Malformed
                        },
                        _ => GdbAction::Malformed,
                    }
                },
                None => GdbAction::Malformed,
            }
        },
        None => GdbAction::Malformed,
    }
}

/// Decides what to do for one request of GDB.
pub fn gdb_action(p: &[u8]) -> (r: GdbAction)
    ensures
        r.view() == gdb_action_spec(p@),
{
    if starts_with_exec(p, "qSupported") {
        reply("PacketSize=2048;swbreak-;hwbreak+;vContSupported+;qXfer:memory-map:read+")
    } else if starts_with_exec(p, "vMustReplyEmpty") || starts_with_exec(p, "qTStatus")
        || starts_with_exec(p, "qTfV") {
        reply("")
    } else if starts_with_exec(p, "qAttached") {
        reply("1")
    } else if starts_with_exec(p, "?") {
        reply("S05")
    } else if starts_with_exec(p, "g") {
        reply("xxxxxxxx")
    } else if starts_with_exec(p, "p") {
        register_request_exec(p)
    } else if starts_with_exec(p, "qTsP") || starts_with_exec(p, "qfThreadInfo") {
        reply("")
    } else if starts_with_exec(p, "m") {
        memory_read_request_exec(p)
    } else {
        gdb_control(p)
    }
}

fn gdb_control(p: &[u8]) -> (r: GdbAction)
    ensures
        r.view() == gdb_control_spec(p@),
{
    if starts_with_exec(p, "qL") || starts_with_exec(p, "qC") || starts_with_exec(
        p,
        "qOffsets",
    ) {
        reply("")
    } else if starts_with_exec(p, "vCont?") {
        reply("vCont;c;t;s")
    } else if starts_with_exec(p, "vCont;c") || starts_with_exec(p, "c") {
        GdbAction::Continue
    } else if starts_with_exec(p, "vCont;t") {
        GdbAction::Halt
    } else if starts_with_exec(p, "vCont;s") || starts_with_exec(p, "s") {
        GdbAction::Step
    } else if starts_with_exec(p, "Z0") {
        reply("")
    } else if starts_with_exec(p, "Z1") {
        match breakpoint_address_exec(p) {
            Some(a) => GdbAction::SetBreakpoint(a),
            None => GdbAction::Malformed,
        }
    } else if starts_with_exec(p, "z1") {
        match breakpoint_address_exec(p) {
            Some(a) => GdbAction::ClearBreakpoint(a),
            None => GdbAction::Malformed,
        }
    } else if starts_with_exec(p, "X") {
        memory_write_request_exec(p)
    } else if starts_with_exec(p, "qXfer:memory-map:read") {
        GdbAction::MemoryMap
    } else if p.len() >= 1 && p[0] == 3 {
        proof {
            assert(p@.subrange(0, 1) =~= seq![3u8]);
        }
        GdbAction::Interrupt
    } else {
        proof {
            if starts_with(p@, seq![3u8]) {
                assert(p@.subrange(0, 1)[0] == 3u8);
            }
        }
        if starts_with_exec(p, "D") {
            GdbAction::Detach
        } else {
            reply("OK")
        }
    }
}

/// The answer to `qXfer:memory-map:read`.
pub fn memory_map_reply() -> (r: Vec<u8>)
    ensures
        r@ == sanitized(MEMORY_MAP_XML.spec_bytes(), 0, 1000),
{
    gdb_sanitize_file(slice_to_vec(MEMORY_MAP_XML.as_bytes()), 0, 1000)
}

/// The lowercase hexadecimal digit for `n < 16`.
pub open spec fn hex_char(n: int) -> u8 {
    if n < 10 {
        (48 + n) as u8
    } else {
        (87 + n) as u8
    }
}

/// Two lowercase hexadecimal digits for each byte.
pub open spec fn hex_bytes(s: Seq<u8>) -> Seq<u8>
    decreases s.len(),
{
    if s.len() == 0 {
        Seq::empty()
    } else {
        hex_bytes(s.drop_last()) + seq![hex_char(s.last() as int / 16), hex_char(s.last() as int % 16)]
    }
}

/// The four bytes of a word, lowest first.
pub open spec fn le_bytes(v: u32) -> Seq<u8> {
    seq![(v % 256) as u8, (v / 256 % 256) as u8, (v / 65536 % 256) as u8, (v / 16777216) as u8]
}

fn hex_char_exec(n: u8) -> (r: u8)
    requires
        n < 16,
    ensures
        r == hex_char(n as int),
{
    if n < 10 {
        48 + n
    } else {
        87 + n
    }
}

/// Writes each byte of `data` as two lowercase hexadecimal digits: the answer to a
/// memory read.
pub fn memory_reply(data: &[u8]) -> (r: Vec<u8>)
    ensures
        r@ == hex_bytes(data@),
{
    let mut r: Vec<u8> = Vec::new();
    let mut i: usize = 0;
    while i < data.len()
        invariant
            i <= data@.len(),
            r@ == hex_bytes(data@.subrange(0, i as int)),
        decreases data@.len() - i,
    {
        let b = data[i];
        r.push(hex_char_exec(b / 16));
        r.push(hex_char_exec(b % 16));
        i = i + 1;
        proof {
            let pre = data@.subrange(0, i as int);
            assert(pre.drop_last() =~= data@.subrange(0, i - 1));
            assert(r@ =~= hex_bytes(pre));
        }
    }
    assert(data@.subrange(0, i as int) =~= data@);
    r
}

/// The answer to a register read: the register's bytes, lowest first, in hexadecimal.
pub fn register_reply(value: u32) -> (r: Vec<u8>)
    ensures
        r@ == hex_bytes(le_bytes(value)),
{
    let bytes: [u8; 4] = [
        (value % 256) as u8,
        (value / 256 % 256) as u8,
        (value / 65536 % 256) as u8,
        (value / 16777216) as u8,
    ];
    let r = memory_reply(&bytes);
    assert(bytes@ =~= le_bytes(value));
    r
}

/// The number of `-` (a request to send again) at the front of `b` from `from` on.
pub open spec fn leading_nacks(b: Seq<u8>, from: int) -> nat
    decreases b.len() - from,
{
    if from < 0 || from >= b.len() || b[from] != 45 {
        0
    } else {
        1 + leading_nacks(b, from + 1)
    }
}

/// What GDB's answers at the front of `b` say: how many bytes they take, and whether
/// the packet was acknowledged (`+`) after any number of `-`.
pub open spec fn ack_scan_spec(b: Seq<u8>) -> (nat, bool) {
    let k = leading_nacks(b, 0);
    if k < b.len() && b[k as int] == 43 {
        (k + 1, true)
    } else {
        (k, false)
    }
}

/// Reads GDB's answers to a sent packet at the front of `buffer`: the number of bytes
/// they take, and whether the packet was acknowledged.
pub fn ack_scan(buffer: &[u8]) -> (r: (usize, bool))
    ensures
        r.0 as nat == ack_scan_spec(buffer@).0,
        r.1 == ack_scan_spec(buffer@).1,
{
    let mut i: usize = 0;
    while i < buffer.len() && buffer[i] == 45
        invariant
            i <= buffer@.len(),
            leading_nacks(buffer@, 0) == i + leading_nacks(buffer@, i as int),
        decreases buffer@.len() - i,
    {
        i = i + 1;
    }
    if i < buffer.len() && buffer[i] == 43 {
        (i + 1, true)
    } else {
        (i, false)
    }
}

/// Relies on memchr::memchr: the position of the first occurrence of `needle` in
/// `haystack`, or `None` where there is none.
pub assume_specification[ memchr::memchr ](needle: u8, haystack: &[u8]) -> (r: Option<usize>)
    ensures
        match r {
            Some(i) => i < haystack@.len() && haystack@[i as int] == needle && forall|j: int|
                0 <= j < i ==> haystack@[j] != needle,
            None => forall|j: int| 0 <= j < haystack@.len() ==> haystack@[j] != needle,
        },
;

/// Relies on memchr::memchr3: the position of the first byte of `haystack` that is one
/// of the three needles, or `None` where there is none.
pub assume_specification[ memchr::memchr3 ](
    needle1: u8,
    needle2: u8,
    needle3: u8,
    haystack: &[u8],
) -> (r: Option<usize>)
    ensures
        match r {
            Some(i) => i < haystack@.len() && (haystack@[i as int] == needle1 || haystack@[i as int]
                == needle2 || haystack@[i as int] == needle3) && forall|j: int|
                0 <= j < i ==> haystack@[j] != needle1 && haystack@[j] != needle2 && haystack@[j]
                    != needle3,
            None => forall|j: int|
                0 <= j < haystack@.len() ==> haystack@[j] != needle1 && haystack@[j] != needle2
                    && haystack@[j] != needle3,
        },
;

/// Whether a packet is a reply to a request or a notification.
#[derive(Debug, Clone, Copy, PartialEq, Eq, Structural)]
pub enum PacketKind {
    Notification,
    Packet,
}

/// `#`, `$`, `}` and `*` cannot stand as they are in a packet's data.
pub open spec fn needs_escape(b: u8) -> bool {
    b == 35 || b == 36 || b == 125 || b == 42
}

/// The data with each byte that needs it escaped as `}` and the byte xor 0x20.
pub open spec fn escaped(s: Seq<u8>) -> Seq<u8>
    decreases s.len(),
{
    if s.len() == 0 {
        Seq::empty()
    } else {
        escaped(s.drop_last()) + if needs_escape(s.last()) {
            seq![125u8, s.last() ^ 0x20u8]
        } else {
            seq![s.last()]
        }
    }
}

/// A packet on the wire: `$` (or `%` for a notification), the escaped data, `#` and
/// the checksum.
pub open spec fn encoded(kind: PacketKind, data: Seq<u8>, checksum: Seq<u8>) -> Seq<u8> {
    seq![if kind == PacketKind::Notification { 37u8 } else { 36u8 }] + escaped(data) + seq![35u8]
        + checksum
}

/// Frames a packet for the wire.
pub fn encode(kind: PacketKind, data: &[u8], checksum: &[u8]) -> (r: Vec<u8>)
    ensures
        r@ == encoded(kind, data@, checksum@),
{
    let start: u8 = match kind {
        PacketKind::Notification => 37,
        PacketKind::Packet => 36,
    };
    let mut out: Vec<u8> = vec![start];
    let n = data.len();
    let mut pos: usize = 0;
    proof {
        assert(data@.subrange(0, 0) =~= Seq::<u8>::empty());
        assert(out@ =~= seq![start] + escaped(data@.subrange(0, 0)));
    }
    while pos < n
        invariant
            n == data@.len(),
            pos <= n,
            out@ == seq![start] + escaped(data@.subrange(0, pos as int)),
        decreases n - pos,
    {
        let remaining = slice_subrange(data, pos, n);
        let rest = n - pos;
        let escape1 = match memchr::memchr3(35, 36, 125, remaining) {
            Some(i) => i,
            None => rest,
        };
        let escape2 = match memchr::memchr(42, remaining) {
            Some(i) => i,
            None => rest,
        };
        let escape = if escape1 < escape2 {
            escape1
        } else {
            escape2
        };
        let mut k: usize = 0;
        while k < escape
            invariant
                n == data@.len(),
                pos + escape <= n,
                remaining@ == data@.subrange(pos as int, n as int),
                forall|j: int| 0 <= j < escape ==> !needs_escape(#[trigger] remaining@[j]),
                k <= escape,
                out@ == seq![start] + escaped(data@.subrange(0, pos + k)),
            decreases escape - k,
        {
            let b = remaining[k];
            out.push(b);
            proof {
                let pre = data@.subrange(0, pos + k + 1);
                assert(pre.drop_last() =~= data@.subrange(0, pos + k));
                assert(!needs_escape(remaining@[k as int]));
                assert(out@ =~= seq![start] + escaped(pre));
            }
            k = k + 1;
        }
        pos = pos + escape;
        if pos < n {
            let b = data[pos];
            out.push(125);
            out.push(b ^ 0x20);
            proof {
                assert(remaining@[escape as int] == b);
                let pre = data@.subrange(0, pos + 1);
                assert(pre.drop_last() =~= data@.subrange(0, pos as int));
                assert(out@ =~= seq![start] + escaped(pre));
            }
            pos = pos + 1;
        }
    }
    assert(data@.subrange(0, n as int) =~= data@);
    out.push(35);
    let mut k: usize = 0;
    while k < checksum.len()
        invariant
            k <= checksum@.len(),
            out@ == seq![start] + escaped(data@) + seq![35u8] + checksum@.subrange(0, k as int),
        decreases checksum@.len() - k,
    {
        out.push(checksum[k]);
        k = k + 1;
        assert(out@ =~= seq![start] + escaped(data@) + seq![35u8] + checksum@.subrange(0, k as int));
    }
    assert(checksum@.subrange(0, k as int) =~= checksum@);
    out
}

} // verus!
