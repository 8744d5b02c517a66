use probe_rs::flash_algorithm::{AssembleError, FlashRegion, RamRegion, RawFlashAlgorithm};

fn raw(words: usize) -> RawFlashAlgorithm {
    RawFlashAlgorithm {
        name: "algo".to_string(),
        description: "test algorithm".to_string(),
        default: true,
        instructions: (0..words as u32).collect(),
        pc_init: Some(0x1),
        pc_uninit: None,
        pc_program_page: 0x41,
        pc_erase_sector: 0x21,
        pc_erase_all: Some(0x61),
        data_section_offset: 0x100,
    }
}

fn ram(start: u32, end: u32) -> RamRegion {
    RamRegion { range: start..end, is_boot_memory: false }
}

fn flash(page_size: u32) -> FlashRegion {
    FlashRegion {
        range: 0..0x40000,
        is_boot_memory: true,
        sector_size: 4096,
        page_size,
        erased_byte_value: 0xFF,
    }
}

#[test]
fn ram_too_small_for_header_and_code() {
    let r = raw(64).assemble(&ram(0x2000_0000, 0x2000_0100), &flash(4096));
    assert!(matches!(r, Err(AssembleError::NotEnoughRam)));
}

#[test]
fn largest_stack_and_two_buffers() {
    let alg = raw(4).assemble(&ram(0x2000_0000, 0x2000_4000), &flash(1024)).unwrap();
    assert_eq!(alg.name, "algo");
    assert!(alg.default);
    assert_eq!(alg.load_address, 0x2000_0200);
    assert_eq!(alg.begin_stack, 0x2000_0200);
    assert_eq!(alg.instructions.len(), 12);
    assert_eq!(alg.instructions[0], 0xE00A_BE00);
    assert_eq!(alg.instructions[7], 0x0477_0D1F);
    assert_eq!(&alg.instructions[8..], &[0, 1, 2, 3]);
    assert_eq!(alg.pc_init, Some(0x2000_0221));
    assert_eq!(alg.pc_uninit, None);
    assert_eq!(alg.pc_program_page, 0x2000_0261);
    assert_eq!(alg.pc_erase_sector, 0x2000_0241);
    assert_eq!(alg.pc_erase_all, Some(0x2000_0281));
    assert_eq!(alg.static_base, 0x2000_0320);
    assert_eq!(alg.begin_data, 0x2000_0230);
    assert_eq!(alg.page_buffers, vec![0x2000_0230, 0x2000_0630]);
}

#[test]
fn single_buffer_when_second_does_not_fit() {
    // 512 stack + 48 blob + one page of 1024.
    let alg = raw(4).assemble(&ram(0x1000, 0x1000 + 1584), &flash(1024)).unwrap();
    assert_eq!(alg.load_address, 0x1200);
    assert_eq!(alg.page_buffers, vec![0x1230]);
}

#[test]
fn stack_shrinks_until_the_page_fits() {
    // 64 stack + 48 blob + 1024 page: only the smallest stack fits.
    let alg = raw(4).assemble(&ram(0, 1136), &flash(1024)).unwrap();
    assert_eq!(alg.load_address, 64);
    assert_eq!(alg.page_buffers, vec![112]);
    assert!(matches!(
        raw(4).assemble(&ram(0, 1135), &flash(1024)),
        Err(AssembleError::NotEnoughRam)
    ));
    // 128 bytes more allow a stack of 192.
    let alg = raw(4).assemble(&ram(0, 1136 + 150), &flash(1024)).unwrap();
    assert_eq!(alg.load_address, 192);
}

#[test]
fn assembled_layout_stays_in_ram() {
    for (len, page) in [(1200u32, 512u32), (5000, 1024), (3000, 2048), (20000, 4096)] {
        let r = ram(0x2000_0000, 0x2000_0000 + len);
        let a = raw(10).assemble(&r, &flash(page)).unwrap();
        assert!(a.load_address >= r.range.start);
        assert!(a.load_address + 32 + 4 * 10 + page <= r.range.end);
        assert_eq!(a.page_buffers[0], a.load_address + 32 + 4 * 10);
        for b in &a.page_buffers {
            assert!(b + page <= r.range.end);
        }
    }
}

#[test]
fn entry_points_are_called_in_thumb_state() {
    let alg = raw(4).assemble(&ram(0x2000_0000, 0x2000_4000), &flash(1024)).unwrap();
    let init = alg.init_call(0x0800_0000).unwrap();
    assert_eq!(init.pc, 0x2000_0221);
    assert_eq!((init.r0, init.r1, init.r2), (0x0800_0000, 0, 1));
    assert_eq!(init.sp, 0x2000_0200);
    assert_eq!(init.lr, 0x2000_0201);
    assert_eq!(init.r9, 0x2000_0320);
    assert!(alg.uninit_call().is_none());
    let erase = alg.erase_sector_call(0x0800_1000);
    assert_eq!((erase.pc, erase.r0), (0x2000_0241, 0x0800_1000));
    let program = alg.program_page_call(0x0800_1000, 1024, alg.page_buffers[1]);
    assert_eq!(program.pc, 0x2000_0261);
    assert_eq!((program.r0, program.r1, program.r2), (0x0800_1000, 1024, 0x2000_0630));
}

use probe_rs::flash_builder::{select_algorithm, FlashError};

#[test]
fn algorithm_choice() {
    let mut a = raw(1);
    a.default = false;
    let mut b = raw(1);
    b.default = true;
    let c = raw(1);
    assert_eq!(select_algorithm(&vec![RawFlashAlgorithm { default: false, ..raw(1) }]), Ok(0));
    assert_eq!(select_algorithm(&vec![a, b, c]), Ok(1));
    let none = vec![RawFlashAlgorithm { default: false, ..raw(1) }, RawFlashAlgorithm { default: false, ..raw(2) }];
    assert_eq!(select_algorithm(&none), Err(FlashError::NoAlgorithm));
    assert_eq!(select_algorithm(&vec![]), Err(FlashError::NoAlgorithm));
}
