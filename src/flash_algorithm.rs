use std::ops::Range;
use vstd::prelude::*;

verus! {

/// A region of target RAM, as the half-open address range `[start, end)`.
pub struct RamRegion {
    pub range: Range<u32>,
    pub is_boot_memory: bool,
}

/// A region of target flash, with the geometry that the flash algorithm works in.
pub struct FlashRegion {
    pub range: Range<u32>,
    pub is_boot_memory: bool,
    pub sector_size: u32,
    pub page_size: u32,
    pub erased_byte_value: u8,
}

impl RamRegion {
    /// The range is not reversed.
    pub open spec fn wf(&self) -> bool {
        self.range.start <= self.range.end
    }

    pub open spec fn len(&self) -> int {
        self.range.end - self.range.start
    }
}

impl FlashRegion {
    /// The range is not reversed, it holds whole sectors, and a sector holds whole pages.
    pub open spec fn wf(&self) -> bool {
        &&& self.range.start <= self.range.end
        &&& self.page_size > 0
        &&& self.sector_size > 0
        &&& self.sector_size % self.page_size == 0
        &&& (self.range.end - self.range.start) % (self.sector_size as int) == 0
        &&& (self.range.end - self.range.start) % (self.page_size as int) == 0
    }

    pub open spec fn len(&self) -> int {
        self.range.end - self.range.start
    }
}

/// A flash algorithm relocated into one RAM region, ready to be loaded.
pub struct FlashAlgorithm {
    /// The name of the flash algorithm.
    pub name: String,
    /// Whether this flash algorithm is the default one or not.
    pub default: bool,
    /// Memory address where the flash algo instructions will be loaded to.
    pub load_address: u32,
    /// The blob header followed by the position-independent code of the algorithm.
    pub instructions: Vec<u32>,
    /// Address of the `Init()` entry point. Optional.
    pub pc_init: Option<u32>,
    /// Address of the `UnInit()` entry point. Optional.
    pub pc_uninit: Option<u32>,
    /// Address of the `ProgramPage()` entry point.
    pub pc_program_page: u32,
    /// Address of the `EraseSector()` entry point.
    pub pc_erase_sector: u32,
    /// Address of the `EraseAll()` entry point. Optional.
    pub pc_erase_all: Option<u32>,
    /// Initial value of R9 when calling an entry point: where the position-independent
    /// data resides.
    pub static_base: u32,
    /// Initial value of the stack pointer when calling any entry point.
    pub begin_stack: u32,
    /// Base address of the first page buffer.
    pub begin_data: u32,
    /// Base addresses of the page buffers, each at least one flash page long. With two
    /// of them programming can be double buffered.
    pub page_buffers: Vec<u32>,
}

/// A flash algorithm as a target description ships it: code and entry offsets that
/// are relative to the start of the code.
pub struct RawFlashAlgorithm {
    /// The name of the flash algorithm.
    pub name: String,
    /// The description of the algorithm.
    pub description: String,
    /// Whether this flash algorithm is the default one or not.
    pub default: bool,
    /// List of 32-bit words containing the position-independent code for the algo.
    pub instructions: Vec<u32>,
    /// Offset of the `Init()` entry point. Optional.
    pub pc_init: Option<u32>,
    /// Offset of the `UnInit()` entry point. Optional.
    pub pc_uninit: Option<u32>,
    /// Offset of the `ProgramPage()` entry point.
    pub pc_program_page: u32,
    /// Offset of the `EraseSector()` entry point.
    pub pc_erase_sector: u32,
    /// Offset of the `EraseAll()` entry point. Optional.
    pub pc_erase_all: Option<u32>,
    /// The offset from the start of the code to the data section.
    pub data_section_offset: u32,
}

/// Why a flash algorithm could not be placed in a RAM region.
#[derive(Debug, Clone, Copy, PartialEq, Eq, Structural)]
pub enum AssembleError {
    /// Not even the smallest stack leaves room for the blob and one page buffer.
    NotEnoughRam,
}

/// Size in bytes of the blob header placed in front of the algorithm's code.
pub const FLASH_BLOB_HEADER_SIZE: u32 = 32;

/// The largest stack that is tried below the blob.
pub const FLASH_ALGO_STACK_SIZE: u32 = 512;

/// The step by which the stack is shrunk until the blob fits.
pub const FLASH_ALGO_STACK_DECREMENT: u32 = 64;

/// The eight words of the blob header: a breakpoint the algorithm returns to, and
/// the helper routines the algorithms expect to find in front of their code.
pub open spec fn blob_header() -> Seq<u32> {
    seq![
        0xE00A_BE00u32, 0x062D_780Du32, 0x2408_4068u32, 0xD300_0040u32,
        0x1E64_4058u32, 0x1C49_D1FAu32, 0x2A00_1E52u32, 0x0477_0D1Fu32,
    ]
}

fn flash_blob_header() -> (r: Vec<u32>)
    ensures
        r@ == blob_header(),
{
    let r = vec![
        0xE00A_BE00u32, 0x062D_780Du32, 0x2408_4068u32, 0xD300_0040u32,
        0x1E64_4058u32, 0x1C49_D1FAu32, 0x2A00_1E52u32, 0x0477_0D1Fu32,
    ];
    assert(r@ =~= blob_header());
    r
}

/// Size in bytes of the header and code of `raw` once assembled.
pub open spec fn blob_size(raw: &RawFlashAlgorithm) -> int {
    FLASH_BLOB_HEADER_SIZE + 4 * raw.instructions@.len()
}

/// A stack of `stack` bytes, the blob and one page buffer fit in `ram`, in that order.
pub open spec fn layout_fits(
    raw: &RawFlashAlgorithm,
    ram: &RamRegion,
    flash: &FlashRegion,
    stack: int,
) -> bool {
    stack + blob_size(raw) + flash.page_size <= ram.len()
}

/// The stack sizes that are tried: 64, 128, ..., 512 bytes.
pub open spec fn is_stack_candidate(stack: int) -> bool {
    FLASH_ALGO_STACK_DECREMENT <= stack <= FLASH_ALGO_STACK_SIZE && stack
        % FLASH_ALGO_STACK_DECREMENT as int == 0
}

/// The stack chosen: the largest candidate for which the layout fits.
pub open spec fn is_chosen_stack(
    raw: &RawFlashAlgorithm,
    ram: &RamRegion,
    flash: &FlashRegion,
    stack: int,
) -> bool {
    &&& is_stack_candidate(stack)
    &&& layout_fits(raw, ram, flash, stack)
    &&& forall|s: int| #[trigger]
        is_stack_candidate(s) && s > stack ==> !layout_fits(raw, ram, flash, s)
}

/// Relocating an entry offset against any address of `ram` stays within 32 bits.
pub open spec fn offset_relocatable(ram: &RamRegion, offset: u32) -> bool {
    ram.range.end + offset <= u32::MAX
}

pub open spec fn optional_offset_relocatable(ram: &RamRegion, offset: Option<u32>) -> bool {
    match offset {
        Some(o) => offset_relocatable(ram, o),
        None => true,
    }
}

/// `code_start + offset`, for an offset that is present.
pub open spec fn relocated(code_start: int, offset: Option<u32>) -> Option<u32> {
    match offset {
        Some(o) => Some((code_start + o) as u32),
        None => None,
    }
}

impl RawFlashAlgorithm {
    /// Every entry offset and the data section offset can be relocated into `ram`.
    pub open spec fn relocatable_into(&self, ram: &RamRegion) -> bool {
        &&& optional_offset_relocatable(ram, self.pc_init)
        &&& optional_offset_relocatable(ram, self.pc_uninit)
        &&& optional_offset_relocatable(ram, self.pc_erase_all)
        &&& offset_relocatable(ram, self.pc_program_page)
        &&& offset_relocatable(ram, self.pc_erase_sector)
        &&& offset_relocatable(ram, self.data_section_offset)
    }

    /// What `assemble` produces with a stack of `stack` bytes: the stack grows down from
    /// the load address, the header and code follow it, then one page buffer, and a
    /// second one where the region has room left for it.
    pub open spec fn assembled_with(
        &self,
        ram: &RamRegion,
        flash: &FlashRegion,
        stack: int,
        alg: FlashAlgorithm,
    ) -> bool {
        let load = ram.range.start + stack;
        let code_start = load + FLASH_BLOB_HEADER_SIZE;
        let data = load + blob_size(self);
        &&& alg.name@ == self.name@
        &&& alg.default == self.default
        &&& alg.load_address == load
        &&& alg.instructions@ == blob_header() + self.instructions@
        &&& alg.pc_init == relocated(code_start, self.pc_init)
        &&& alg.pc_uninit == relocated(code_start, self.pc_uninit)
        &&& alg.pc_erase_all == relocated(code_start, self.pc_erase_all)
        &&& alg.pc_program_page == code_start + self.pc_program_page
        &&& alg.pc_erase_sector == code_start + self.pc_erase_sector
        &&& alg.static_base == code_start + self.data_section_offset
        &&& alg.begin_stack == load
        &&& alg.begin_data == data
        &&& if stack + blob_size(self) + 2 * flash.page_size <= ram.len() {
            alg.page_buffers@ == seq![data as u32, (data + flash.page_size) as u32]
        } else {
            alg.page_buffers@ == seq![data as u32]
        }
    }

    /// Constructs a complete flash algorithm, tailored to the flash and RAM sizes given.
    ///
    /// The stack below the blob starts at 512 bytes and shrinks by 64 until the blob and
    /// one page buffer fit in `ram_region`; where not even 64 bytes leave room, the
    /// algorithm cannot be placed there.
    pub fn assemble(&self, ram_region: &RamRegion, flash_region: &FlashRegion) -> (r: Result<
        FlashAlgorithm,
        AssembleError,
    >)
        requires
            ram_region.wf(),
            self.relocatable_into(ram_region),
        ensures
            r is Err <==> !layout_fits(self, ram_region, flash_region, FLASH_ALGO_STACK_DECREMENT as int),
            r is Err ==> r == Err::<FlashAlgorithm, AssembleError>(AssembleError::NotEnoughRam),
            r matches Ok(alg) ==> exists|stack: int|
                is_chosen_stack(self, ram_region, flash_region, stack) && #[trigger] self.assembled_with(
                    ram_region,
                    flash_region,
                    stack,
                    alg,
                ),
    {
        let mut instructions = flash_blob_header();
        let mut k: usize = 0;
        while k < self.instructions.len()
            invariant
                k <= self.instructions@.len(),
                instructions@ == blob_header() + self.instructions@.subrange(0, k as int),
            decreases self.instructions@.len() - k,
        {
            instructions.push(self.instructions[k]);
            k = k + 1;
            assert(instructions@ =~= blob_header() + self.instructions@.subrange(0, k as int));
        }
        assert(self.instructions@.subrange(0, k as int) =~= self.instructions@);

        if self.instructions.len() as u64 > u32::MAX as u64 {
            return Err(AssembleError::NotEnoughRam);
        }
        let ram_len: u64 = (ram_region.range.end - ram_region.range.start) as u64;
        let blob: u64 = FLASH_BLOB_HEADER_SIZE as u64 + 4 * (self.instructions.len() as u64);
        let page: u64 = flash_region.page_size as u64;

        let mut stack: u64 = FLASH_ALGO_STACK_SIZE as u64;
        let mut found = false;
        while stack >= FLASH_ALGO_STACK_DECREMENT as u64
            invariant
                stack <= FLASH_ALGO_STACK_SIZE,
                (stack as int) % (FLASH_ALGO_STACK_DECREMENT as int) == 0,
                ram_len == ram_region.len(),
                blob == blob_size(self),
                blob <= FLASH_BLOB_HEADER_SIZE + 4 * (u32::MAX as int),
                page == flash_region.page_size,
                found ==> is_chosen_stack(self, ram_region, flash_region, stack as int),
                !found ==> forall|s: int| #[trigger]
                    is_stack_candidate(s) && s > stack ==> !layout_fits(self, ram_region, flash_region, s),
            ensures
                found ==> is_chosen_stack(self, ram_region, flash_region, stack as int),
                !found ==> stack < FLASH_ALGO_STACK_DECREMENT,
                !found ==> forall|s: int| #[trigger]
                    is_stack_candidate(s) && s > stack ==> !layout_fits(self, ram_region, flash_region, s),
            decreases stack,
        {
            if stack + blob + page <= ram_len {
                found = true;
                break;
            }
            stack = stack - FLASH_ALGO_STACK_DECREMENT as u64;
        }
        if !found {
            assert(is_stack_candidate(FLASH_ALGO_STACK_DECREMENT as int));
            return Err(AssembleError::NotEnoughRam);
        }
        assert(layout_fits(self, ram_region, flash_region, FLASH_ALGO_STACK_DECREMENT as int));

        let load: u32 = ram_region.range.start + stack as u32;
        let data: u32 = load + blob as u32;
        let page_buffers = if stack + blob + 2 * page <= ram_len {
            vec![data, data + flash_region.page_size]
        } else {
            vec![data]
        };
        let code_start: u32 = load + FLASH_BLOB_HEADER_SIZE;
        let pc_init = match self.pc_init {
            Some(v) => Some(code_start + v),
            None => None,
        };
        let pc_uninit = match self.pc_uninit {
            Some(v) => Some(code_start + v),
            None => None,
        };
        let pc_erase_all = match self.pc_erase_all {
            Some(v) => Some(code_start + v),
            None => None,
        };
        let alg = FlashAlgorithm {
            name: self.name.clone(),
            default: self.default,
            load_address: load,
            instructions,
            pc_init,
            pc_uninit,
            pc_program_page: code_start + self.pc_program_page,
            pc_erase_sector: code_start + self.pc_erase_sector,
            pc_erase_all,
            static_base: code_start + self.data_section_offset,
            begin_stack: load,
            begin_data: data,
            page_buffers,
        };
        assert(alg.instructions@ == blob_header() + self.instructions@);
        assert(alg.page_buffers@ == (if stack + blob_size(self) + 2 * flash_region.page_size <= ram_region.len() {
            seq![data as u32, (data + flash_region.page_size) as u32]
        } else {
            seq![data as u32]
        }));
        assert(alg.pc_init == relocated(code_start as int, self.pc_init));
        assert(self.assembled_with(ram_region, flash_region, stack as int, alg));
        Ok(alg)
    }
}

/// The registers with which an entry point of a loaded algorithm is called.
#[derive(Debug, Clone, Copy, PartialEq, Eq, Structural)]
pub struct AlgorithmCall {
    /// The entry point, with the Thumb bit set.
    pub pc: u32,
    pub r0: u32,
    pub r1: u32,
    pub r2: u32,
    pub r3: u32,
    /// The static base of the algorithm's data.
    pub r9: u32,
    pub sp: u32,
    /// Where the entry point returns to: the breakpoint that opens the blob header, with
    /// the Thumb bit set.
    pub lr: u32,
}

/// The Thumb form of a code address.
pub open spec fn thumb(a: u32) -> u32 {
    if a % 2 == 1 {
        a
    } else {
        (a + 1) as u32
    }
}

/// The function code that `Init` and `UnInit` take for programming.
pub const FUNCTION_PROGRAM: u32 = 1;

impl FlashAlgorithm {
    /// The call of the entry point `pc` with arguments `r0` to `r2`.
    pub open spec fn call_of(&self, pc: u32, r0: u32, r1: u32, r2: u32) -> AlgorithmCall {
        AlgorithmCall {
            pc: thumb(pc),
            r0,
            r1,
            r2,
            r3: 0,
            r9: self.static_base,
            sp: self.begin_stack,
            lr: thumb(self.load_address),
        }
    }

    fn call(&self, pc: u32, r0: u32, r1: u32, r2: u32) -> (r: AlgorithmCall)
        ensures
            r == self.call_of(pc, r0, r1, r2),
    {
        let pc = if pc % 2 == 1 {
            pc
        } else {
            pc + 1
        };
        let lr = if self.load_address % 2 == 1 {
            self.load_address
        } else {
            self.load_address + 1
        };
        AlgorithmCall { pc, r0, r1, r2, r3: 0, r9: self.static_base, sp: self.begin_stack, lr }
    }

    /// `Init(address, clock 0, program)`, where the algorithm has that entry point.
    pub fn init_call(&self, address: u32) -> (r: Option<AlgorithmCall>)
        ensures
            match self.pc_init {
                Some(pc) => r == Some(self.call_of(pc, address, 0, FUNCTION_PROGRAM)),
                None => r is None,
            },
    {
        match self.pc_init {
            Some(pc) => Some(self.call(pc, address, 0, FUNCTION_PROGRAM)),
            None => None,
        }
    }

    /// `UnInit(program)`, where the algorithm has that entry point.
    pub fn uninit_call(&self) -> (r: Option<AlgorithmCall>)
        ensures
            match self.pc_uninit {
                Some(pc) => r == Some(self.call_of(pc, FUNCTION_PROGRAM, 0, 0)),
                None => r is None,
            },
    {
        match self.pc_uninit {
            Some(pc) => Some(self.call(pc, FUNCTION_PROGRAM, 0, 0)),
            None => None,
        }
    }

    /// `EraseSector(address)`.
    pub fn erase_sector_call(&self, address: u32) -> (r: AlgorithmCall)
        ensures
            r == self.call_of(self.pc_erase_sector, address, 0, 0),
    {
        self.call(self.pc_erase_sector, address, 0, 0)
    }

    /// `ProgramPage(address, size, buffer)`: program `size` bytes at `address` from the
    /// page buffer at `buffer`.
    pub fn program_page_call(&self, address: u32, size: u32, buffer: u32) -> (r: AlgorithmCall)
        ensures
            r == self.call_of(self.pc_program_page, address, size, buffer),
    {
        self.call(self.pc_program_page, address, size, buffer)
    }
}

/// Where an assembled algorithm lies: it is loaded inside the RAM region, its header,
/// its code and one page buffer end within the region, and the first page buffer
/// starts where the code ends.
pub proof fn lemma_assembled_layout(
    raw: &RawFlashAlgorithm,
    ram: &RamRegion,
    flash: &FlashRegion,
    alg: FlashAlgorithm,
)
    requires
        ram.wf(),
        exists|stack: int|
            is_chosen_stack(raw, ram, flash, stack) && #[trigger] raw.assembled_with(
                ram,
                flash,
                stack,
                alg,
            ),
    ensures
        alg.load_address >= ram.range.start,
        alg.load_address + FLASH_BLOB_HEADER_SIZE + 4 * raw.instructions@.len() + flash.page_size
            <= ram.range.end,
        alg.load_address + 4 * alg.instructions@.len() + flash.page_size <= ram.range.end,
        alg.page_buffers@.len() >= 1,
        alg.page_buffers@[0] == alg.load_address + FLASH_BLOB_HEADER_SIZE + 4
            * raw.instructions@.len(),
        forall|i: int|
            0 <= i < alg.page_buffers@.len() ==> #[trigger] alg.page_buffers@[i] + flash.page_size
                <= ram.range.end,
{
    let stack = choose|stack: int|
        is_chosen_stack(raw, ram, flash, stack) && #[trigger] raw.assembled_with(
            ram,
            flash,
            stack,
            alg,
        );
    assert(alg.instructions@.len() == 8 + raw.instructions@.len());
}

} // verus!
