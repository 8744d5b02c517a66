use probe_rs::flash_algorithm::FlashRegion;
use probe_rs::flash_builder::{plan_flash, progress_events, FlashError, FlashFragment, ProgressEvent};

fn region(start: u32, end: u32, sector_size: u32, page_size: u32) -> FlashRegion {
    FlashRegion { range: start..end, is_boot_memory: true, sector_size, page_size, erased_byte_value: 0xFF }
}

fn frag(address: u32, data: Vec<u8>) -> FlashFragment {
    FlashFragment { address, data }
}

#[test]
fn single_segment_in_first_page() {
    let bytes: Vec<u8> = (0..200u32).map(|i| (i * 7 + 3) as u8).collect();
    let r = region(0, 0x40000, 4096, 4096);
    let plan = plan_flash(&r, &vec![frag(0, bytes.clone())]).unwrap();
    assert_eq!(plan.sectors, vec![0]);
    assert_eq!(plan.pages.len(), 1);
    assert_eq!(plan.pages[0].address, 0);
    assert_eq!(plan.pages[0].data.len(), 4096);
    assert_eq!(&plan.pages[0].data[..200], &bytes[..]);
    assert!(plan.pages[0].data[200..].iter().all(|b| *b == 0xFF));
    let events = progress_events(&plan, &r);
    let erased = events.iter().filter(|e| matches!(e, ProgressEvent::SectorErased { .. })).count();
    assert_eq!(erased, 1);
    let flashed: Vec<_> = events.iter().filter(|e| matches!(e, ProgressEvent::PageFlashed { .. })).collect();
    assert_eq!(flashed, vec![&ProgressEvent::PageFlashed { address: 0, size: 4096 }]);
}

#[test]
fn fragment_across_pages_and_sectors() {
    // Sectors of 1 KiB, pages of 256 bytes; 300 bytes from 0xBF0 reach into 0xD00.
    let r = region(0x800, 0x1800, 1024, 256);
    let plan = plan_flash(&r, &vec![frag(0xBF0, vec![0x11; 300])]).unwrap();
    assert_eq!(plan.sectors, vec![0x800, 0xC00]);
    let addrs: Vec<u32> = plan.pages.iter().map(|p| p.address).collect();
    assert_eq!(addrs, vec![0xB00, 0xC00, 0xD00]);
    assert!(plan.pages[0].data[..0xF0].iter().all(|b| *b == 0xFF));
    assert!(plan.pages[0].data[0xF0..].iter().all(|b| *b == 0x11));
    assert!(plan.pages[1].data.iter().all(|b| *b == 0x11));
    // 300 - 16 - 256 = 28 bytes land in the third page.
    assert!(plan.pages[2].data[..28].iter().all(|b| *b == 0x11));
    assert!(plan.pages[2].data[28..].iter().all(|b| *b == 0xFF));
}

#[test]
fn untouched_sectors_are_skipped() {
    let r = region(0, 0x4000, 0x1000, 0x400);
    let plan = plan_flash(&r, &vec![frag(0x10, vec![1, 2]), frag(0x3000, vec![3])]).unwrap();
    assert_eq!(plan.sectors, vec![0, 0x3000]);
    let addrs: Vec<u32> = plan.pages.iter().map(|p| p.address).collect();
    assert_eq!(addrs, vec![0, 0x3000]);
}

#[test]
fn first_fragment_wins_on_overlap() {
    let r = region(0, 0x100, 0x100, 0x10);
    let plan = plan_flash(&r, &vec![frag(0x4, vec![0xAA; 4]), frag(0x6, vec![0xBB; 4])]).unwrap();
    assert_eq!(plan.pages.len(), 1);
    assert_eq!(
        &plan.pages[0].data[..],
        &[0xFF, 0xFF, 0xFF, 0xFF, 0xAA, 0xAA, 0xAA, 0xAA, 0xBB, 0xBB, 0xFF, 0xFF, 0xFF, 0xFF, 0xFF, 0xFF]
    );
}

#[test]
fn data_outside_region_is_refused() {
    let r = region(0x1000, 0x2000, 0x400, 0x100);
    assert!(matches!(plan_flash(&r, &vec![frag(0xFFF, vec![1, 2])]), Err(FlashError::DataOutsideFlash)));
    assert!(matches!(plan_flash(&r, &vec![frag(0x1FFF, vec![1, 2])]), Err(FlashError::DataOutsideFlash)));
    assert!(plan_flash(&r, &vec![frag(0x1FFE, vec![1, 2])]).is_ok());
}

#[test]
fn no_fragments_no_work() {
    let r = region(0, 0x1000, 0x400, 0x100);
    let plan = plan_flash(&r, &vec![]).unwrap();
    assert!(plan.sectors.is_empty() && plan.pages.is_empty());
    let events = progress_events(&plan, &r);
    assert_eq!(events.len(), 5);
}

#[test]
fn progress_totals_match_initialized() {
    let r = region(0, 0x4000, 0x1000, 0x200);
    let plan = plan_flash(&r, &vec![frag(0x100, vec![7; 0x1200]), frag(0x3F00, vec![9; 4])]).unwrap();
    let events = progress_events(&plan, &r);
    let (pages, sectors) = match events[0] {
        ProgressEvent::Initialized { total_pages, total_sectors, page_size, sector_size } => {
            assert_eq!((page_size, sector_size), (0x200, 0x1000));
            (total_pages, total_sectors)
        }
        _ => panic!("first event must be Initialized"),
    };
    assert_eq!((pages, sectors), (11, 3));
    let flashed: u64 = events
        .iter()
        .map(|e| match e {
            ProgressEvent::PageFlashed { size, .. } => *size as u64,
            _ => 0,
        })
        .sum();
    let erased: u64 = events
        .iter()
        .map(|e| match e {
            ProgressEvent::SectorErased { size, .. } => *size as u64,
            _ => 0,
        })
        .sum();
    assert_eq!(flashed, pages as u64 * 0x200);
    assert_eq!(erased, sectors as u64 * 0x1000);
    assert_eq!(events[1], ProgressEvent::StartedErasing);
    assert_eq!(events[2 + sectors], ProgressEvent::FinishedErasing);
    assert_eq!(events[3 + sectors], ProgressEvent::StartedFlashing);
    assert_eq!(*events.last().unwrap(), ProgressEvent::FinishedProgramming);
}

use probe_rs::flash_builder::{program_schedule, ProgramOp};

#[test]
fn single_buffer_programs_page_by_page() {
    assert_eq!(
        program_schedule(2, 1),
        vec![
            ProgramOp::Write { page: 0, buffer: 0 },
            ProgramOp::Start { page: 0, buffer: 0 },
            ProgramOp::Wait { page: 0 },
            ProgramOp::Write { page: 1, buffer: 0 },
            ProgramOp::Start { page: 1, buffer: 0 },
            ProgramOp::Wait { page: 1 },
        ]
    );
    assert!(program_schedule(0, 2).is_empty());
}

#[test]
fn double_buffer_overlaps_write_and_program() {
    assert_eq!(
        program_schedule(3, 2),
        vec![
            ProgramOp::Write { page: 0, buffer: 0 },
            ProgramOp::Start { page: 0, buffer: 0 },
            ProgramOp::Write { page: 1, buffer: 1 },
            ProgramOp::Wait { page: 0 },
            ProgramOp::Start { page: 1, buffer: 1 },
            ProgramOp::Write { page: 2, buffer: 0 },
            ProgramOp::Wait { page: 1 },
            ProgramOp::Start { page: 2, buffer: 0 },
            ProgramOp::Wait { page: 2 },
        ]
    );
    assert_eq!(program_schedule(1, 2), vec![ProgramOp::Write { page: 0, buffer: 0 }, ProgramOp::Start { page: 0, buffer: 0 }, ProgramOp::Wait { page: 0 }]);
}

#[test]
fn no_buffer_rewritten_while_in_use() {
    for n in 1..12usize {
        let ops = program_schedule(n, 2);
        let mut busy: Option<(usize, usize)> = None;
        for op in ops {
            match op {
                ProgramOp::Write { buffer, .. } => assert!(busy.map_or(true, |(_, b)| b != buffer)),
                ProgramOp::Start { page, buffer } => {
                    assert!(busy.is_none());
                    busy = Some((page, buffer));
                }
                ProgramOp::Wait { page } => {
                    assert_eq!(busy.map(|(p, _)| p), Some(page));
                    busy = None;
                }
            }
        }
        assert!(busy.is_none());
    }
}

use probe_rs::flash_algorithm::{RamRegion, RawFlashAlgorithm};
use probe_rs::flash_builder::{region_operations, FlashOperation};

#[test]
fn operations_for_single_segment_image() {
    let raw = RawFlashAlgorithm {
        name: "nrf52".to_string(),
        description: "nRF52 flash".to_string(),
        default: true,
        instructions: vec![0xBF00_BF00; 32],
        pc_init: Some(0x1),
        pc_uninit: Some(0x11),
        pc_program_page: 0x21,
        pc_erase_sector: 0x31,
        pc_erase_all: None,
        data_section_offset: 0x80,
    };
    let ram = RamRegion { range: 0x2000_0000..0x2001_0000, is_boot_memory: false };
    let r = region(0, 0x8_0000, 4096, 4096);
    let alg = raw.assemble(&ram, &r).unwrap();
    let bytes: Vec<u8> = (0..200u32).map(|i| i as u8).collect();
    let plan = plan_flash(&r, &vec![frag(0, bytes)]).unwrap();
    let ops = region_operations(&plan, &alg, &r);
    assert_eq!(ops.len(), 11);
    assert_eq!(
        ops[0],
        FlashOperation::Report(ProgressEvent::Initialized {
            total_pages: 1,
            total_sectors: 1,
            page_size: 4096,
            sector_size: 4096
        })
    );
    assert_eq!(ops[1], FlashOperation::Call(alg.init_call(0).unwrap()));
    assert_eq!(ops[2], FlashOperation::Report(ProgressEvent::StartedErasing));
    assert_eq!(ops[3], FlashOperation::Erase { call: alg.erase_sector_call(0), address: 0, size: 4096 });
    assert_eq!(ops[4], FlashOperation::Report(ProgressEvent::FinishedErasing));
    assert_eq!(ops[5], FlashOperation::Report(ProgressEvent::StartedFlashing));
    assert_eq!(ops[6], FlashOperation::WriteBuffer { page: 0, buffer: alg.page_buffers[0] });
    assert_eq!(ops[7], FlashOperation::Start(alg.program_page_call(0, 4096, alg.page_buffers[0])));
    assert_eq!(ops[8], FlashOperation::Finish { address: 0, size: 4096 });
    assert_eq!(ops[9], FlashOperation::Report(ProgressEvent::FinishedProgramming));
    assert_eq!(ops[10], FlashOperation::Call(alg.uninit_call().unwrap()));
}

#[test]
fn operations_alternate_buffers() {
    let raw = RawFlashAlgorithm {
        name: "a".to_string(),
        description: "b".to_string(),
        default: true,
        instructions: vec![0; 8],
        pc_init: None,
        pc_uninit: None,
        pc_program_page: 0x1,
        pc_erase_sector: 0x3,
        pc_erase_all: None,
        data_section_offset: 0,
    };
    let ram = RamRegion { range: 0x2000_0000..0x2000_2000, is_boot_memory: false };
    let r = region(0, 0x4000, 0x1000, 0x400);
    let alg = raw.assemble(&ram, &r).unwrap();
    assert_eq!(alg.page_buffers.len(), 2);
    let plan = plan_flash(&r, &vec![frag(0x100, vec![1; 0x800])]).unwrap();
    let ops = region_operations(&plan, &alg, &r);
    let writes: Vec<u32> = ops
        .iter()
        .filter_map(|o| match o {
            FlashOperation::WriteBuffer { buffer, .. } => Some(*buffer),
            _ => None,
        })
        .collect();
    assert_eq!(writes, vec![alg.page_buffers[0], alg.page_buffers[1], alg.page_buffers[0]]);
    assert!(!ops.iter().any(|o| matches!(o, FlashOperation::Call(_))));
}
