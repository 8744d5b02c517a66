use probe_rs::memory_ap::{split_block32, AccessPortError, BlockChunk};
use std::collections::HashMap;

fn chunk(address: u32, offset: usize, count: usize) -> BlockChunk {
    BlockChunk { address, offset, count }
}

#[test]
fn unaligned_block_is_refused() {
    assert_eq!(split_block32(0x2000_0002, 4), Err(AccessPortError::AlignmentError));
}

#[test]
fn block_inside_one_window() {
    assert_eq!(split_block32(0x2000_0000, 16), Ok(vec![chunk(0x2000_0000, 0, 16)]));
    assert_eq!(split_block32(0x2000_0000, 0), Ok(vec![]));
}

#[test]
fn block_split_at_window_edges() {
    // Starts 8 bytes before a 1 KiB boundary, then runs over a whole window.
    let r = split_block32(0x2000_03F8, 2 + 256 + 3).unwrap();
    assert_eq!(
        r,
        vec![chunk(0x2000_03F8, 0, 2), chunk(0x2000_0400, 2, 256), chunk(0x2000_0800, 258, 3)]
    );
}

#[test]
fn largest_block_at_top_of_memory() {
    let r = split_block32(0xFFFF_F000, 1024).unwrap();
    assert_eq!(r.len(), 4);
    assert_eq!(r[3], chunk(0xFFFF_FC00, 768, 256));
}

#[test]
fn write_then_read_by_chunks() {
    for (base, n) in [(0x2000_0000u32, 0usize), (0x2000_03F0, 7), (0x1FFF_FF00, 4096), (0x100, 300)] {
        let xs: Vec<u32> = (0..n as u32).map(|i| i.wrapping_mul(0x9E37_79B9)).collect();
        let chunks = split_block32(base, n).unwrap();
        let mut mem: HashMap<u64, u32> = HashMap::new();
        for c in &chunks {
            assert_eq!(c.address as u64 / 1024, (c.address as u64 + 4 * c.count as u64 - 1) / 1024);
            for j in 0..c.count {
                mem.insert(c.address as u64 + 4 * j as u64, xs[c.offset + j]);
            }
        }
        let mut back = Vec::new();
        for c in &chunks {
            for j in 0..c.count {
                back.push(mem[&(c.address as u64 + 4 * j as u64)]);
            }
        }
        assert_eq!(back, xs);
    }
}
