use crate::flash_algorithm::{AlgorithmCall, FlashAlgorithm, FlashRegion, RawFlashAlgorithm};
use vstd::prelude::*;

verus! {

/// Bytes to be written to flash at an address.
pub struct FlashFragment {
    pub address: u32,
    pub data: Vec<u8>,
}

/// One page to program: its address and its full contents.
pub struct FlashPage {
    pub address: u32,
    pub data: Vec<u8>,
}

/// What programming a set of fragments into a flash region takes: the sectors to
/// erase and the pages to program, both in ascending order.
pub struct FlashPlan {
    pub sectors: Vec<u32>,
    pub pages: Vec<FlashPage>,
}

/// Why fragments could not be planned into a region.
#[derive(Debug, Clone, Copy, PartialEq, Eq, Structural)]
pub enum FlashError {
    /// A fragment does not lie inside the flash region.
    DataOutsideFlash,
    /// No flash algorithm can be chosen for the region.
    NoAlgorithm,
}

pub open spec fn frag_end(f: FlashFragment) -> int {
    f.address + f.data@.len()
}

/// The fragment gives a value for the byte at `a`.
pub open spec fn covers(f: FlashFragment, a: int) -> bool {
    f.address <= a < frag_end(f)
}

/// The fragment gives a value for some byte in `[lo, hi)`.
pub open spec fn intersects(f: FlashFragment, lo: int, hi: int) -> bool {
    f.data@.len() > 0 && f.address < hi && lo < frag_end(f)
}

/// Some fragment gives a value for a byte in `[lo, hi)`.
pub open spec fn touched(frags: Seq<FlashFragment>, lo: int, hi: int) -> bool {
    exists|i: int| 0 <= i < frags.len() && #[trigger] intersects(frags[i], lo, hi)
}

/// The value that the fragments from the `i`-th on give to the byte at `a`: that of
/// the first one that covers it.
pub open spec fn byte_from(frags: Seq<FlashFragment>, i: int, a: int) -> Option<u8>
    decreases frags.len() - i,
{
    if i < 0 || i >= frags.len() {
        None
    } else if covers(frags[i], a) {
        Some(frags[i].data@[a - frags[i].address])
    } else {
        byte_from(frags, i + 1, a)
    }
}

/// The value that the fragments give to the byte at `a`, where one covers it.
pub open spec fn byte_at(frags: Seq<FlashFragment>, a: int) -> Option<u8> {
    byte_from(frags, 0, a)
}

/// What the byte at `a` holds after erasing and programming: the fragments' value, or
/// the erased value.
pub open spec fn image_byte(frags: Seq<FlashFragment>, erased: u8, a: int) -> u8 {
    match byte_at(frags, a) {
        Some(b) => b,
        None => erased,
    }
}

/// The contents of the page at `address`.
pub open spec fn page_image(frags: Seq<FlashFragment>, region: FlashRegion, address: int) -> Seq<u8> {
    Seq::new(region.page_size as nat, |i: int| image_byte(frags, region.erased_byte_value, address + i))
}

/// The addresses of the units (pages or sectors) of `size` bytes from `start` on, of
/// the first `k`, that a fragment touches, in ascending order.
pub open spec fn touched_units(frags: Seq<FlashFragment>, start: int, size: int, k: nat) -> Seq<int>
    decreases k,
{
    if k == 0 {
        Seq::empty()
    } else {
        let a = start + (k - 1) * size;
        let below = touched_units(frags, start, size, (k - 1) as nat);
        if touched(frags, a, a + size) {
            below.push(a)
        } else {
            below
        }
    }
}

/// The pages of the region that a fragment touches.
pub open spec fn touched_pages(frags: Seq<FlashFragment>, region: FlashRegion) -> Seq<int> {
    touched_units(
        frags,
        region.range.start as int,
        region.page_size as int,
        (region.len() / (region.page_size as int)) as nat,
    )
}

/// The sectors of the region that a fragment touches.
pub open spec fn touched_sectors(frags: Seq<FlashFragment>, region: FlashRegion) -> Seq<int> {
    touched_units(
        frags,
        region.range.start as int,
        region.sector_size as int,
        (region.len() / (region.sector_size as int)) as nat,
    )
}

/// Every fragment lies inside the region.
pub open spec fn fragments_inside(frags: Seq<FlashFragment>, region: FlashRegion) -> bool {
    forall|i: int|
        0 <= i < frags.len() ==> region.range.start <= (#[trigger] frags[i]).address && frag_end(
            frags[i],
        ) <= region.range.end
}

fn fragments_inside_exec(frags: &Vec<FlashFragment>, region: &FlashRegion) -> (r: bool)
    ensures
        r == fragments_inside(frags@, *region),
{
    let mut i: usize = 0;
    while i < frags.len()
        invariant
            i <= frags@.len(),
            forall|j: int|
                0 <= j < i ==> region.range.start <= (#[trigger] frags@[j]).address && frag_end(
                    frags@[j],
                ) <= region.range.end,
        decreases frags@.len() - i,
    {
        let f = &frags[i];
        if f.address < region.range.start || f.address > region.range.end || f.data.len() as u64
            > (region.range.end - f.address) as u64 {
            return false;
        }
        i = i + 1;
    }
    true
}

/// No fragment reaches past the 32-bit address space.
pub open spec fn fragments_bounded(frags: Seq<FlashFragment>) -> bool {
    forall|i: int| 0 <= i < frags.len() ==> frag_end(#[trigger] frags[i]) <= u32::MAX
}

fn touched_exec(frags: &Vec<FlashFragment>, lo: u64, hi: u64) -> (r: bool)
    requires
        fragments_bounded(frags@),
    ensures
        r == touched(frags@, lo as int, hi as int),
{
    let mut i: usize = 0;
    while i < frags.len()
        invariant
            i <= frags@.len(),
            fragments_bounded(frags@),
            forall|j: int| 0 <= j < i ==> !(#[trigger] intersects(frags@[j], lo as int, hi as int)),
        decreases frags@.len() - i,
    {
        let f = &frags[i];
        assert(frag_end(frags@[i as int]) <= u32::MAX);
        if f.data.len() > 0 && (f.address as u64) < hi && lo < f.address as u64 + f.data.len() as u64 {
            assert(intersects(frags@[i as int], lo as int, hi as int));
            return true;
        }
        i = i + 1;
    }
    false
}

fn byte_at_exec(frags: &Vec<FlashFragment>, a: u64) -> (r: Option<u8>)
    requires
        fragments_bounded(frags@),
    ensures
        r == byte_at(frags@, a as int),
{
    let mut i: usize = 0;
    while i < frags.len()
        invariant
            i <= frags@.len(),
            fragments_bounded(frags@),
            byte_at(frags@, a as int) == byte_from(frags@, i as int, a as int),
        decreases frags@.len() - i,
    {
        let f = &frags[i];
        assert(frag_end(frags@[i as int]) <= u32::MAX);
        if f.address as u64 <= a && a < f.address as u64 + f.data.len() as u64 {
            return Some(f.data[(a - f.address as u64) as usize]);
        }
        i = i + 1;
    }
    None
}

pub open spec fn as_ints(s: Seq<u32>) -> Seq<int> {
    s.map_values(|a: u32| a as int)
}

fn touched_units_exec(frags: &Vec<FlashFragment>, start: u32, size: u32, n: u64) -> (r: Vec<u32>)
    requires
        fragments_bounded(frags@),
        size > 0,
        start + n * size <= u32::MAX,
    ensures
        as_ints(r@) == touched_units(frags@, start as int, size as int, n as nat),
{
    let mut r: Vec<u32> = Vec::new();
    let mut k: u64 = 0;
    let mut addr: u64 = start as u64;
    while k < n
        invariant
            fragments_bounded(frags@),
            size > 0,
            start + n * size <= u32::MAX,
            k <= n,
            addr == start + k * size,
            as_ints(r@) == touched_units(frags@, start as int, size as int, k as nat),
        decreases n - k,
    {
        assert((k + 1) * size <= n * size) by (nonlinear_arith)
            requires
                k < n,
        ;
        assert(addr + size == start + (k + 1) * size) by (nonlinear_arith)
            requires
                addr == start + k * size,
        ;
        if touched_exec(frags, addr, addr + size as u64) {
            r.push(addr as u32);
        }
        proof {
            assert(as_ints(r@) =~= touched_units(frags@, start as int, size as int, (k + 1) as nat));
        }
        k = k + 1;
        addr = addr + size as u64;
    }
    r
}

fn page_image_exec(frags: &Vec<FlashFragment>, region: &FlashRegion, address: u32) -> (r: Vec<u8>)
    requires
        fragments_bounded(frags@),
    ensures
        r@ == page_image(frags@, *region, address as int),
{
    let mut r: Vec<u8> = Vec::new();
    let mut i: u32 = 0;
    while i < region.page_size
        invariant
            fragments_bounded(frags@),
            i <= region.page_size,
            r@ == page_image(frags@, *region, address as int).subrange(0, i as int),
        decreases region.page_size - i,
    {
        let b = match byte_at_exec(frags, address as u64 + i as u64) {
            Some(b) => b,
            None => region.erased_byte_value,
        };
        r.push(b);
        i = i + 1;
        assert(r@ =~= page_image(frags@, *region, address as int).subrange(0, i as int));
    }
    assert(r@ =~= page_image(frags@, *region, address as int));
    r
}

/// `len / size` units of `size` bytes fill `len` exactly.
proof fn lemma_whole_units(len: int, size: int)
    requires
        len >= 0,
        size > 0,
        len % size == 0,
    ensures
        (len / size) * size == len,
{
    assert((len / size) * size + len % size == len) by (nonlinear_arith)
        requires
            size > 0,
    ;
}

/// `p` erases the touched sectors and programs the touched pages with their images.
pub open spec fn is_plan(frags: Seq<FlashFragment>, region: FlashRegion, p: FlashPlan) -> bool {
    &&& as_ints(p.sectors@) == touched_sectors(frags, region)
    &&& p.pages@.len() == touched_pages(frags, region).len()
    &&& forall|k: int|
        0 <= k < p.pages@.len() ==> {
            &&& (#[trigger] p.pages@[k]).address == touched_pages(frags, region)[k]
            &&& p.pages@[k].data@ == page_image(frags, region, p.pages@[k].address as int)
        }
}

/// Plans the programming of `fragments` into `region`: every sector that holds a byte
/// of a fragment is erased, and every page that holds one is programmed in full, with
/// the fragments' bytes where they give one (the first fragment that covers a byte
/// wins) and the erased value elsewhere.
pub fn plan_flash(region: &FlashRegion, fragments: &Vec<FlashFragment>) -> (r: Result<
    FlashPlan,
    FlashError,
>)
    requires
        region.wf(),
    ensures
        r is Err <==> !fragments_inside(fragments@, *region),
        r is Err ==> r == Err::<FlashPlan, FlashError>(FlashError::DataOutsideFlash),
        r matches Ok(p) ==> is_plan(fragments@, *region, p),
{
    if !fragments_inside_exec(fragments, region) {
        return Err(FlashError::DataOutsideFlash);
    }
    assert(fragments_bounded(fragments@)) by {
        assert forall|i: int| 0 <= i < fragments@.len() implies frag_end(
            #[trigger] fragments@[i],
        ) <= u32::MAX by {
            assert(region.range.start <= fragments@[i].address);
        }
    }
    let len: u32 = region.range.end - region.range.start;
    proof {
        lemma_whole_units(len as int, region.sector_size as int);
        lemma_whole_units(len as int, region.page_size as int);
    }
    let sectors = touched_units_exec(
        fragments,
        region.range.start,
        region.sector_size,
        (len / region.sector_size) as u64,
    );
    let addresses = touched_units_exec(
        fragments,
        region.range.start,
        region.page_size,
        (len / region.page_size) as u64,
    );
    let ghost wanted = touched_pages(fragments@, *region);
    assert(as_ints(addresses@) == wanted);
    let mut pages: Vec<FlashPage> = Vec::new();
    let mut k: usize = 0;
    while k < addresses.len()
        invariant
            fragments_bounded(fragments@),
            as_ints(addresses@) == wanted,
            k <= addresses@.len(),
            pages@.len() == k,
            forall|j: int|
                0 <= j < k ==> {
                    &&& (#[trigger] pages@[j]).address == addresses@[j]
                    &&& pages@[j].data@ == page_image(fragments@, *region, pages@[j].address as int)
                },
        decreases addresses@.len() - k,
    {
        let address = addresses[k];
        let data = page_image_exec(fragments, region, address);
        pages.push(FlashPage { address, data });
        k = k + 1;
    }
    assert forall|j: int| 0 <= j < pages@.len() implies (#[trigger] pages@[j]).address == wanted[j] by {
        assert(as_ints(addresses@)[j] == addresses@[j] as int);
    }
    Ok(FlashPlan { sectors, pages })
}

/// What the programming engine reports while it works through a plan.
#[derive(Debug, Clone, Copy, PartialEq, Eq, Structural)]
pub enum ProgressEvent {
    Initialized { total_pages: usize, total_sectors: usize, page_size: u32, sector_size: u32 },
    StartedErasing,
    SectorErased { address: u32, size: u32 },
    FinishedErasing,
    StartedFlashing,
    PageFlashed { address: u32, size: u32 },
    FinishedProgramming,
}

/// The bytes that the `PageFlashed` events of `events` report.
pub open spec fn flashed_bytes(events: Seq<ProgressEvent>) -> int
    decreases events.len(),
{
    if events.len() == 0 {
        0
    } else {
        flashed_bytes(events.drop_last()) + match events.last() {
            ProgressEvent::PageFlashed { size, .. } => size as int,
            _ => 0,
        }
    }
}

/// The bytes that the `SectorErased` events of `events` report.
pub open spec fn erased_bytes(events: Seq<ProgressEvent>) -> int
    decreases events.len(),
{
    if events.len() == 0 {
        0
    } else {
        erased_bytes(events.drop_last()) + match events.last() {
            ProgressEvent::SectorErased { size, .. } => size as int,
            _ => 0,
        }
    }
}

/// The events that carrying out `plan` on `region` reports, in order: one
/// `Initialized` with the totals, then the erasure of each sector, then the
/// programming of each page.
pub fn progress_events(plan: &FlashPlan, region: &FlashRegion) -> (r: Vec<ProgressEvent>)
    ensures
        ({
            let ns = plan.sectors@.len() as int;
            let np = plan.pages@.len() as int;
            &&& r@.len() == ns + np + 5
            &&& r@[0] == (ProgressEvent::Initialized {
                total_pages: plan.pages@.len() as usize,
                total_sectors: plan.sectors@.len() as usize,
                page_size: region.page_size,
                sector_size: region.sector_size,
            })
            &&& r@[1] == ProgressEvent::StartedErasing
            &&& forall|i: int|
                0 <= i < ns ==> #[trigger] r@[2 + i] == (ProgressEvent::SectorErased {
                    address: plan.sectors@[i],
                    size: region.sector_size,
                })
            &&& r@[ns + 2] == ProgressEvent::FinishedErasing
            &&& r@[ns + 3] == ProgressEvent::StartedFlashing
            &&& forall|i: int|
                0 <= i < np ==> #[trigger] r@[ns + 4 + i] == (ProgressEvent::PageFlashed {
                    address: plan.pages@[i].address,
                    size: region.page_size,
                })
            &&& r@[ns + np + 4] == ProgressEvent::FinishedProgramming
        }),
        flashed_bytes(r@) == plan.pages@.len() * region.page_size,
        erased_bytes(r@) == plan.sectors@.len() * region.sector_size,
{
    let ns = plan.sectors.len();
    let np = plan.pages.len();
    let mut r: Vec<ProgressEvent> = Vec::new();
    r.push(ProgressEvent::Initialized {
        total_pages: np,
        total_sectors: ns,
        page_size: region.page_size,
        sector_size: region.sector_size,
    });
    r.push(ProgressEvent::StartedErasing);
    assert(flashed_bytes(r@) == 0 && erased_bytes(r@) == 0) by {
        reveal_with_fuel(flashed_bytes, 3);
        reveal_with_fuel(erased_bytes, 3);
    }
    let mut i: usize = 0;
    while i < ns
        invariant
            ns == plan.sectors@.len(),
            np == plan.pages@.len(),
            i <= ns,
            r@.len() == i + 2,
            r@[0] == (ProgressEvent::Initialized {
                total_pages: np,
                total_sectors: ns,
                page_size: region.page_size,
                sector_size: region.sector_size,
            }),
            r@[1] == ProgressEvent::StartedErasing,
            forall|j: int|
                0 <= j < i ==> #[trigger] r@[2 + j] == (ProgressEvent::SectorErased {
                    address: plan.sectors@[j],
                    size: region.sector_size,
                }),
            flashed_bytes(r@) == 0,
            erased_bytes(r@) == i * region.sector_size,
        decreases ns - i,
    {
        let ghost before = r@;
        r.push(ProgressEvent::SectorErased { address: plan.sectors[i], size: region.sector_size });
        assert(r@.drop_last() =~= before);
        assert(erased_bytes(r@) == (i + 1) * region.sector_size) by (nonlinear_arith)
            requires
                erased_bytes(r@) == erased_bytes(before) + region.sector_size,
                erased_bytes(before) == i * region.sector_size,
        ;
        i = i + 1;
    }
    let ghost before = r@;
    r.push(ProgressEvent::FinishedErasing);
    assert(r@.drop_last() =~= before);
    assert(flashed_bytes(r@) == flashed_bytes(before) && erased_bytes(r@) == erased_bytes(before));
    let ghost before = r@;
    r.push(ProgressEvent::StartedFlashing);
    assert(r@.drop_last() =~= before);
    assert(flashed_bytes(r@) == flashed_bytes(before) && erased_bytes(r@) == erased_bytes(before));
    let mut k: usize = 0;
    while k < np
        invariant
            ns == plan.sectors@.len(),
            np == plan.pages@.len(),
            k <= np,
            r@.len() == ns + k + 4,
            r@[0] == (ProgressEvent::Initialized {
                total_pages: np,
                total_sectors: ns,
                page_size: region.page_size,
                sector_size: region.sector_size,
            }),
            r@[1] == ProgressEvent::StartedErasing,
            forall|j: int|
                0 <= j < ns ==> #[trigger] r@[2 + j] == (ProgressEvent::SectorErased {
                    address: plan.sectors@[j],
                    size: region.sector_size,
                }),
            r@[ns + 2] == ProgressEvent::FinishedErasing,
            r@[ns + 3] == ProgressEvent::StartedFlashing,
            forall|j: int|
                0 <= j < k ==> #[trigger] r@[ns + 4 + j] == (ProgressEvent::PageFlashed {
                    address: plan.pages@[j].address,
                    size: region.page_size,
                }),
            flashed_bytes(r@) == k * region.page_size,
            erased_bytes(r@) == ns * region.sector_size,
        decreases np - k,
    {
        let ghost before = r@;
        r.push(ProgressEvent::PageFlashed { address: plan.pages[k].address, size: region.page_size });
        assert(r@.drop_last() =~= before);
        assert(flashed_bytes(r@) == (k + 1) * region.page_size) by (nonlinear_arith)
            requires
                flashed_bytes(r@) == flashed_bytes(before) + region.page_size,
                flashed_bytes(before) == k * region.page_size,
        ;
        k = k + 1;
    }
    let ghost before = r@;
    r.push(ProgressEvent::FinishedProgramming);
    assert(r@.drop_last() =~= before);
    assert(flashed_bytes(r@) == flashed_bytes(before) && erased_bytes(r@) == erased_bytes(before));
    r
}

/// The first algorithm at or after `i` that is marked default.
pub open spec fn first_default(algorithms: Seq<RawFlashAlgorithm>, i: int) -> Option<int>
    decreases algorithms.len() - i,
{
    if i < 0 || i >= algorithms.len() {
        None
    } else if algorithms[i].default {
        Some(i)
    } else {
        first_default(algorithms, i + 1)
    }
}

/// Chooses the algorithm that programs a region among those of its target: the only
/// one, or else the first one marked default.
pub fn select_algorithm(algorithms: &Vec<RawFlashAlgorithm>) -> (r: Result<usize, FlashError>)
    ensures
        algorithms@.len() == 1 ==> r == Ok::<usize, FlashError>(0),
        algorithms@.len() != 1 ==> r == (match first_default(algorithms@, 0) {
            Some(i) => Ok::<usize, FlashError>(i as usize),
            None => Err(FlashError::NoAlgorithm),
        }),
{
    if algorithms.len() == 1 {
        return Ok(0);
    }
    let mut i: usize = 0;
    while i < algorithms.len()
        invariant
            i <= algorithms@.len(),
            first_default(algorithms@, 0) == first_default(algorithms@, i as int),
        decreases algorithms@.len() - i,
    {
        if algorithms[i].default {
            return Ok(i);
        }
        i = i + 1;
    }
    Err(FlashError::NoAlgorithm)
}

/// One step of programming the pages of a plan through the algorithm's page buffers.
#[derive(Debug, Clone, Copy, PartialEq, Eq, Structural)]
pub enum ProgramOp {
    /// Write the page's contents into page buffer `buffer`.
    Write { page: usize, buffer: usize },
    /// Start `ProgramPage` for the page from page buffer `buffer`, without waiting.
    Start { page: usize, buffer: usize },
    /// Wait until `ProgramPage` for the page has returned, and check its result.
    Wait { page: usize },
}

/// The step at position `i` of programming `n` pages: with one buffer, write, start and
/// wait for each page in turn; with two, write page `k + 1` into the other buffer while
/// page `k` is programmed, then wait for page `k` and start page `k + 1`.
pub open spec fn program_op(n: int, double: bool, i: int) -> ProgramOp {
    if !double {
        let k = i / 3;
        if i % 3 == 0 {
            ProgramOp::Write { page: k as usize, buffer: 0 }
        } else if i % 3 == 1 {
            ProgramOp::Start { page: k as usize, buffer: 0 }
        } else {
            ProgramOp::Wait { page: k as usize }
        }
    } else if i == 0 {
        ProgramOp::Write { page: 0, buffer: 0 }
    } else if i == 1 {
        ProgramOp::Start { page: 0, buffer: 0 }
    } else if i == 3 * n - 1 {
        ProgramOp::Wait { page: (n - 1) as usize }
    } else {
        let k = (i + 1) / 3;
        if (i + 1) % 3 == 0 {
            ProgramOp::Write { page: k as usize, buffer: (k % 2) as usize }
        } else if (i + 1) % 3 == 1 {
            ProgramOp::Wait { page: (k - 1) as usize }
        } else {
            ProgramOp::Start { page: k as usize, buffer: (k % 2) as usize }
        }
    }
}

/// The order in which `pages` pages are written and programmed through `buffers` page
/// buffers (two make the programming double buffered).
pub fn program_schedule(pages: usize, buffers: usize) -> (r: Vec<ProgramOp>)
    requires
        buffers == 1 || buffers == 2,
        pages <= usize::MAX / 3,
    ensures
        r@.len() == 3 * pages,
        forall|i: int| 0 <= i < r@.len() ==> #[trigger] r@[i] == program_op(pages as int, buffers == 2, i),
{
    let mut r: Vec<ProgramOp> = Vec::new();
    let double = buffers == 2;
    if pages == 0 {
        return r;
    }
    if !double {
        let mut k: usize = 0;
        while k < pages
            invariant
                pages <= usize::MAX / 3,
                !double,
                k <= pages,
                r@.len() == 3 * k,
                forall|i: int| 0 <= i < r@.len() ==> #[trigger] r@[i] == program_op(pages as int, double, i),
            decreases pages - k,
        {
            r.push(ProgramOp::Write { page: k, buffer: 0 });
            r.push(ProgramOp::Start { page: k, buffer: 0 });
            r.push(ProgramOp::Wait { page: k });
            assert forall|i: int| 0 <= i < r@.len() implies #[trigger] r@[i] == program_op(
                pages as int,
                double,
                i,
            ) by {
                if i >= 3 * k {
                    assert(i / 3 == k);
                }
            }
            k = k + 1;
        }
        return r;
    }
    r.push(ProgramOp::Write { page: 0, buffer: 0 });
    r.push(ProgramOp::Start { page: 0, buffer: 0 });
    let mut k: usize = 1;
    while k < pages
        invariant
            pages <= usize::MAX / 3,
            double,
            1 <= k <= pages,
            r@.len() == 3 * k - 1,
            forall|i: int| 0 <= i < r@.len() ==> #[trigger] r@[i] == program_op(pages as int, double, i),
        decreases pages - k,
    {
        r.push(ProgramOp::Write { page: k, buffer: k % 2 });
        r.push(ProgramOp::Wait { page: k - 1 });
        r.push(ProgramOp::Start { page: k, buffer: k % 2 });
        assert forall|i: int| 0 <= i < r@.len() implies #[trigger] r@[i] == program_op(
            pages as int,
            double,
            i,
        ) by {
            if i >= 3 * k - 1 {
                assert((i + 1) / 3 == k);
            }
        }
        k = k + 1;
    }
    r.push(ProgramOp::Wait { page: pages - 1 });
    r
}

/// The op writes into page buffer `b`.
pub open spec fn writes_buffer(op: ProgramOp, b: usize) -> bool {
    match op {
        ProgramOp::Write { buffer, .. } => buffer == b,
        _ => false,
    }
}

/// Some step strictly between `i` and `j` waits for `page`.
pub open spec fn waited_between(n: int, double: bool, i: int, j: int, page: usize) -> bool {
    exists|m: int| i < m < j && #[trigger] program_op(n, double, m) == (ProgramOp::Wait { page })
}

/// A page buffer is never written while a `ProgramPage` that reads it runs: after the
/// start of page `p` from buffer `b`, the wait for page `p` comes before any write into
/// `b`. And at most one call runs at a time: before each start, every page started
/// earlier has been waited for.
pub proof fn lemma_program_schedule_safe(n: int, double: bool, i: int, j: int)
    requires
        n >= 1,
        0 <= i < j < 3 * n,
        (program_op(n, double, i) is Start),
    ensures
        writes_buffer(program_op(n, double, j), program_op(n, double, i)->Start_buffer) ==> waited_between(
            n,
            double,
            i,
            j,
            program_op(n, double, i)->Start_page,
        ),
        (program_op(n, double, j) is Start) ==> waited_between(
            n,
            double,
            i,
            j,
            program_op(n, double, i)->Start_page,
        ),
{
    if !double {
        let k = i / 3;
        assert(i == 3 * k + 1);
        if j > i + 1 {
            assert(program_op(n, double, i + 1) == ProgramOp::Wait { page: k as usize });
        } else {
            assert((i + 1) % 3 == 2);
        }
    } else if i == 1 {
        if j >= 3 {
            if n == 1 {
                assert(3 * n - 1 == 2);
            }
            assert(program_op(n, double, 3) == ProgramOp::Wait { page: 0 }) by {
                if n >= 2 {
                    assert((3 + 1) / 3 == 1);
                }
            }
        } else {
            assert(j == 2);
            if n >= 2 {
                assert((2 + 1) / 3 == 1);
            }
        }
    } else {
        let k = (i + 1) / 3;
        assert(i + 1 == 3 * k + 2);
        assert(k >= 1);
        if j > i + 1 {
            if k < n - 1 {
                assert((i + 3) / 3 == k + 1);
                assert(program_op(n, double, i + 2) == ProgramOp::Wait { page: k as usize });
            }
        } else {
            assert(j == i + 1);
            if k < n - 1 {
                assert((i + 2) / 3 == k + 1);
                assert(((k + 1) % 2) != (k % 2));
            }
        }
    }
}

/// One operation of programming a region. A driver carries them out in order and stops
/// at the first call that returns nonzero in R0.
#[derive(Debug, Clone, Copy, PartialEq, Eq, Structural)]
pub enum FlashOperation {
    /// Hand the event to the progress sink.
    Report(ProgressEvent),
    /// Run the call to its breakpoint and check R0.
    Call(AlgorithmCall),
    /// Erase a sector by the call, check R0, and report `SectorErased`.
    Erase { call: AlgorithmCall, address: u32, size: u32 },
    /// Write page `page` of the plan into the page buffer at `buffer`.
    WriteBuffer { page: usize, buffer: u32 },
    /// Start the call without waiting for it.
    Start(AlgorithmCall),
    /// Wait for the started call, check R0, and report `PageFlashed`.
    Finish { address: u32, size: u32 },
}

/// The operation for step `i` of the page schedule.
pub open spec fn program_operation(
    plan: FlashPlan,
    alg: FlashAlgorithm,
    region: FlashRegion,
    i: int,
) -> FlashOperation {
    let n = plan.pages@.len() as int;
    match program_op(n, alg.page_buffers@.len() >= 2, i) {
        ProgramOp::Write { page, buffer } => FlashOperation::WriteBuffer {
            page,
            buffer: alg.page_buffers@[buffer as int],
        },
        ProgramOp::Start { page, buffer } => FlashOperation::Start(
            alg.call_of(
                alg.pc_program_page,
                plan.pages@[page as int].address,
                region.page_size,
                alg.page_buffers@[buffer as int],
            ),
        ),
        ProgramOp::Wait { page } => FlashOperation::Finish {
            address: plan.pages@[page as int].address,
            size: region.page_size,
        },
    }
}

pub open spec fn optional_call(c: Option<AlgorithmCall>) -> Seq<FlashOperation> {
    match c {
        Some(c) => seq![FlashOperation::Call(c)],
        None => Seq::empty(),
    }
}

pub open spec fn init_of(alg: FlashAlgorithm, region: FlashRegion) -> Option<AlgorithmCall> {
    match alg.pc_init {
        Some(pc) => Some(alg.call_of(pc, region.range.start, 0, crate::flash_algorithm::FUNCTION_PROGRAM)),
        None => None,
    }
}

pub open spec fn uninit_of(alg: FlashAlgorithm) -> Option<AlgorithmCall> {
    match alg.pc_uninit {
        Some(pc) => Some(alg.call_of(pc, crate::flash_algorithm::FUNCTION_PROGRAM, 0, 0)),
        None => None,
    }
}

/// The operations that program `plan` into `region` with `alg`: `Initialized`, `Init`,
/// the erasure of each sector, then the pages through the page buffers (double
/// buffered where there are two), then `UnInit`.
pub open spec fn region_operations_spec(
    plan: FlashPlan,
    alg: FlashAlgorithm,
    region: FlashRegion,
) -> Seq<FlashOperation> {
    let ns = plan.sectors@.len();
    let np = plan.pages@.len();
    seq![
        FlashOperation::Report(
            ProgressEvent::Initialized {
                total_pages: np as usize,
                total_sectors: ns as usize,
                page_size: region.page_size,
                sector_size: region.sector_size,
            },
        ),
    ] + optional_call(init_of(alg, region)) + seq![FlashOperation::Report(ProgressEvent::StartedErasing)]
        + Seq::new(
        ns,
        |i: int|
            FlashOperation::Erase {
                call: alg.call_of(alg.pc_erase_sector, plan.sectors@[i], 0, 0),
                address: plan.sectors@[i],
                size: region.sector_size,
            },
    ) + seq![
        FlashOperation::Report(ProgressEvent::FinishedErasing),
        FlashOperation::Report(ProgressEvent::StartedFlashing),
    ] + Seq::new(3 * np, |i: int| program_operation(plan, alg, region, i)) + seq![
        FlashOperation::Report(ProgressEvent::FinishedProgramming),
    ] + optional_call(uninit_of(alg))
}

/// Lists the operations that program `plan` into `region` with the loaded `alg`.
pub fn region_operations(plan: &FlashPlan, alg: &FlashAlgorithm, region: &FlashRegion) -> (r: Vec<
    FlashOperation,
>)
    requires
        alg.page_buffers@.len() >= 1,
        plan.pages@.len() <= usize::MAX / 3,
    ensures
        r@ == region_operations_spec(*plan, *alg, *region),
{
    let ns = plan.sectors.len();
    let np = plan.pages.len();
    let mut r: Vec<FlashOperation> = Vec::new();
    r.push(
        FlashOperation::Report(
            ProgressEvent::Initialized {
                total_pages: np,
                total_sectors: ns,
                page_size: region.page_size,
                sector_size: region.sector_size,
            },
        ),
    );
    match alg.init_call(region.range.start) {
        Some(c) => r.push(FlashOperation::Call(c)),
        None => {},
    }
    r.push(FlashOperation::Report(ProgressEvent::StartedErasing));
    let ghost head = r@;
    assert(head =~= seq![
        FlashOperation::Report(
            ProgressEvent::Initialized {
                total_pages: np as usize,
                total_sectors: ns as usize,
                page_size: region.page_size,
                sector_size: region.sector_size,
            },
        ),
    ] + optional_call(init_of(*alg, *region)) + seq![FlashOperation::Report(ProgressEvent::StartedErasing)]);
    let ghost erase = Seq::new(
        ns as nat,
        |i: int|
            FlashOperation::Erase {
                call: alg.call_of(alg.pc_erase_sector, plan.sectors@[i], 0, 0),
                address: plan.sectors@[i],
                size: region.sector_size,
            },
    );
    let mut i: usize = 0;
    while i < ns
        invariant
            ns == plan.sectors@.len(),
            i <= ns,
            erase == Seq::new(
                ns as nat,
                |t: int|
                    FlashOperation::Erase {
                        call: alg.call_of(alg.pc_erase_sector, plan.sectors@[t], 0, 0),
                        address: plan.sectors@[t],
                        size: region.sector_size,
                    },
            ),
            r@ == head + erase.subrange(0, i as int),
        decreases ns - i,
    {
        let a = plan.sectors[i];
        r.push(FlashOperation::Erase { call: alg.erase_sector_call(a), address: a, size: region.sector_size });
        i = i + 1;
        assert(r@ =~= head + erase.subrange(0, i as int));
    }
    assert(erase.subrange(0, ns as int) =~= erase);
    r.push(FlashOperation::Report(ProgressEvent::FinishedErasing));
    r.push(FlashOperation::Report(ProgressEvent::StartedFlashing));
    let ghost before = r@;
    let buffers: usize = if alg.page_buffers.len() >= 2 {
        2
    } else {
        1
    };
    let schedule = program_schedule(np, buffers);
    let ghost prog = Seq::new((3 * np) as nat, |k: int| program_operation(*plan, *alg, *region, k));
    let mut k: usize = 0;
    while k < schedule.len()
        invariant
            np == plan.pages@.len(),
            alg.page_buffers@.len() >= 1,
            buffers == (if alg.page_buffers@.len() >= 2 { 2usize } else { 1usize }),
            schedule@.len() == 3 * np,
            forall|t: int| 0 <= t < schedule@.len() ==> #[trigger] schedule@[t] == program_op(np as int, buffers == 2, t),
            k <= schedule@.len(),
            prog == Seq::new((3 * np) as nat, |t: int| program_operation(*plan, *alg, *region, t)),
            r@ == before + prog.subrange(0, k as int),
        decreases schedule@.len() - k,
    {
        proof {
            lemma_program_op_ranges(np as int, buffers == 2, k as int);
        }
        let op = match schedule[k] {
            ProgramOp::Write { page, buffer } => FlashOperation::WriteBuffer {
                page,
                buffer: alg.page_buffers[buffer],
            },
            ProgramOp::Start { page, buffer } => FlashOperation::Start(
                alg.program_page_call(plan.pages[page].address, region.page_size, alg.page_buffers[buffer]),
            ),
            ProgramOp::Wait { page } => FlashOperation::Finish {
                address: plan.pages[page].address,
                size: region.page_size,
            },
        };
        r.push(op);
        k = k + 1;
        assert(r@ =~= before + prog.subrange(0, k as int));
    }
    assert(prog.subrange(0, (3 * np) as int) =~= prog);
    r.push(FlashOperation::Report(ProgressEvent::FinishedProgramming));
    match alg.uninit_call() {
        Some(c) => r.push(FlashOperation::Call(c)),
        None => {},
    }
    assert(r@ =~= region_operations_spec(*plan, *alg, *region));
    r
}

/// The pages and buffers that step `i` of the schedule names exist.
proof fn lemma_program_op_ranges(n: int, double: bool, i: int)
    requires
        0 <= i < 3 * n,
    ensures
        match program_op(n, double, i) {
            ProgramOp::Write { page, buffer } => page < n && buffer < (if double { 2int } else { 1int }),
            ProgramOp::Start { page, buffer } => page < n && buffer < (if double { 2int } else { 1int }),
            ProgramOp::Wait { page } => page < n,
        },
{
}

proof fn lemma_byte_from_covered(frags: Seq<FlashFragment>, i: int, a: int)
    requires
        byte_from(frags, i, a) is Some,
    ensures
        exists|j: int| 0 <= j < frags.len() && #[trigger] covers(frags[j], a),
    decreases frags.len() - i,
{
    if !covers(frags[i], a) {
        lemma_byte_from_covered(frags, i + 1, a);
    }
}

proof fn lemma_touched_units_contains(
    frags: Seq<FlashFragment>,
    start: int,
    size: int,
    k: nat,
    j: nat,
)
    requires
        j < k,
        touched(frags, start + j * size, start + j * size + size),
    ensures
        touched_units(frags, start, size, k).contains(start + j * size),
    decreases k,
{
    let below = touched_units(frags, start, size, (k - 1) as nat);
    if j < k - 1 {
        lemma_touched_units_contains(frags, start, size, (k - 1) as nat, j);
        let m = choose|m: int| 0 <= m < below.len() && below[m] == start + j * size;
        if touched(frags, start + (k - 1) * size, start + (k - 1) * size + size) {
            assert(below.push(start + (k - 1) * size)[m] == start + j * size);
        }
    } else {
        assert(below.push(start + j * size).last() == start + j * size);
    }
}

proof fn lemma_touched_units_members(
    frags: Seq<FlashFragment>,
    start: int,
    size: int,
    k: nat,
    m: int,
)
    requires
        0 <= m < touched_units(frags, start, size, k).len(),
    ensures
        exists|j: int|
            0 <= j < k && touched_units(frags, start, size, k)[m] == start + j * size && #[trigger] touched(
                frags,
                start + j * size,
                start + j * size + size,
            ),
    decreases k,
{
    let below = touched_units(frags, start, size, (k - 1) as nat);
    if m < below.len() {
        lemma_touched_units_members(frags, start, size, (k - 1) as nat, m);
        let a = start + (k - 1) * size;
        if touched(frags, a, a + size) {
            assert(below.push(a)[m] == below[m]);
        }
    } else {
        let j = k - 1;
        assert(touched(frags, start + j * size, start + j * size + size));
    }
}

/// Erasing and programming by a plan leaves every byte that the fragments give in
/// flash: some programmed page holds it, with the value of the first fragment that
/// covers it.
pub proof fn lemma_plan_programs_every_byte(
    frags: Seq<FlashFragment>,
    region: FlashRegion,
    plan: FlashPlan,
    a: int,
)
    requires
        region.wf(),
        fragments_inside(frags, region),
        is_plan(frags, region, plan),
        byte_at(frags, a) is Some,
    ensures
        exists|k: int|
            0 <= k < plan.pages@.len() && (#[trigger] plan.pages@[k]).address <= a < plan.pages@[k].address
                + region.page_size && plan.pages@[k].data@[a - plan.pages@[k].address] == byte_at(
                frags,
                a,
            )->0,
{
    lemma_byte_from_covered(frags, 0, a);
    let i = choose|i: int| 0 <= i < frags.len() && #[trigger] covers(frags[i], a);
    let start = region.range.start as int;
    let size = region.page_size as int;
    let len = region.len();
    let j = (a - start) / size;
    assert(start <= frags[i].address);
    assert(frag_end(frags[i]) <= region.range.end);
    assert(0 <= j * size <= a - start < j * size + size) by (nonlinear_arith)
        requires
            j == (a - start) / size,
            size > 0,
            a - start >= 0,
    ;
    lemma_whole_units(len, size);
    assert(j < len / size) by (nonlinear_arith)
        requires
            j * size <= a - start,
            a - start < len,
            (len / size) * size == len,
            size > 0,
    ;
    assert(intersects(frags[i], start + j * size, start + j * size + size));
    lemma_touched_units_contains(frags, start, size, (len / size) as nat, j as nat);
    let pages = touched_pages(frags, region);
    let k = choose|k: int| 0 <= k < pages.len() && pages[k] == start + j * size;
    assert(plan.pages@[k].address == start + j * size);
}

/// A sector that holds no byte of the fragments is left alone by a plan: it is not
/// erased, and no programmed page reaches into it.
pub proof fn lemma_plan_spares_untouched_sectors(
    frags: Seq<FlashFragment>,
    region: FlashRegion,
    plan: FlashPlan,
    j: int,
)
    requires
        region.wf(),
        is_plan(frags, region, plan),
        0 <= j < region.len() / (region.sector_size as int),
        !touched(
            frags,
            region.range.start + j * region.sector_size,
            region.range.start + j * region.sector_size + region.sector_size,
        ),
    ensures
        !as_ints(plan.sectors@).contains(region.range.start + j * region.sector_size),
        forall|k: int|
            0 <= k < plan.pages@.len() ==> (#[trigger] plan.pages@[k]).address + region.page_size
                <= region.range.start + j * region.sector_size || region.range.start + j
                * region.sector_size + region.sector_size <= plan.pages@[k].address,
{
    let start = region.range.start as int;
    let ss = region.sector_size as int;
    let ps = region.page_size as int;
    let s = start + j * ss;
    let sectors = touched_sectors(frags, region);
    if sectors.contains(s) {
        let m = choose|m: int| 0 <= m < sectors.len() && sectors[m] == s;
        lemma_touched_units_members(frags, start, ss, (region.len() / ss) as nat, m);
        let jj = choose|jj: int|
            0 <= jj < region.len() / ss && sectors[m] == start + jj * ss && #[trigger] touched(
                frags,
                start + jj * ss,
                start + jj * ss + ss,
            );
        assert(jj * ss == j * ss);
    }
    assert forall|k: int| 0 <= k < plan.pages@.len() implies (#[trigger] plan.pages@[k]).address
        + ps <= s || s + ss <= plan.pages@[k].address by {
        let q = plan.pages@[k].address as int;
        let pages = touched_pages(frags, region);
        lemma_touched_units_members(frags, start, ps, (region.len() / ps) as nat, k);
        let jp = choose|jp: int|
            0 <= jp < region.len() / ps && pages[k] == start + jp * ps && #[trigger] touched(
                frags,
                start + jp * ps,
                start + jp * ps + ps,
            );
        if !(q + ps <= s || s + ss <= q) {
            let m = ss / ps;
            assert(ss == m * ps) by (nonlinear_arith)
                requires
                    ss % ps == 0,
                    ps > 0,
                    m == ss / ps,
            ;
            let y = j * m;
            assert(j * ss == y * ps) by (nonlinear_arith)
                requires
                    ss == m * ps,
                    y == j * m,
            ;
            assert(jp >= y) by (nonlinear_arith)
                requires
                    jp * ps + ps > y * ps,
                    ps > 0,
            ;
            assert(jp + 1 <= y + m) by (nonlinear_arith)
                requires
                    y * ps + m * ps > jp * ps,
                    ps > 0,
            ;
            assert(jp * ps >= y * ps && (jp + 1) * ps <= (y + m) * ps) by (nonlinear_arith)
                requires
                    jp >= y,
                    jp + 1 <= y + m,
                    ps > 0,
            ;
            assert((y + m) * ps == y * ps + m * ps && (jp + 1) * ps == jp * ps + ps)
                by (nonlinear_arith);
            assert(q == start + jp * ps);
            assert(s <= q && q + ps <= s + ss);
            let f = choose|f: int| 0 <= f < frags.len() && #[trigger] intersects(frags[f], q, q + ps);
            assert(intersects(frags[f], s, s + ss));
        }
    }
}

} // verus!
