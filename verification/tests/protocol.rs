//! Exercises the remote memory access protocol against simulated target
//! processes: direct reads, pointer chains, fault trails, and request
//! validation.

use radar_core::memory::{
    handler_read, ProcessTable, ReadError, ReadRequest, ReadResponse, TargetMemory, MAX_HOPS,
};

fn le64(v: u64) -> Vec<u8> {
    let mut out = Vec::new();
    for i in 0..8 {
        out.push(((v >> (8 * i)) & 0xff) as u8);
    }
    out
}

fn one_process(regions: Vec<(u64, Vec<u8>)>) -> ProcessTable {
    let mut mem = TargetMemory::new();
    for (base, data) in regions {
        assert!(mem.map_region(base, data));
    }
    let mut table = ProcessTable::new();
    assert!(table.add_process(7, mem));
    table
}

fn run(table: &ProcessTable, offsets: Vec<i64>, count: usize) -> Result<ReadResponse, ReadError> {
    let offset_count = offsets.len();
    let req = ReadRequest { process_id: 7, offsets, offset_count, count };
    let mut res = ReadResponse::UnknownProcess;
    handler_read(table, &req, &mut res)?;
    Ok(res)
}

#[test]
fn direct_read_returns_base_bytes() {
    // A chain with only the base address reads exactly the bytes there.
    let table = one_process(vec![(0x1000, vec![1, 2, 3, 4, 5])]);
    match run(&table, vec![0x1000], 4).unwrap() {
        ReadResponse::Success { data } => assert_eq!(data, vec![1, 2, 3, 4]),
        _ => panic!("expected success"),
    }
}

#[test]
fn zero_count_read_succeeds() {
    let table = one_process(vec![(0x1000, vec![9])]);
    match run(&table, vec![0x1000], 0).unwrap() {
        ReadResponse::Success { data } => assert_eq!(data, Vec::<u8>::new()),
        _ => panic!("expected success"),
    }
}

#[test]
fn pointer_chain_end_to_end() {
    // base -> +0x10 -> +0x20 leads to the 4-byte value 0xdeadbeef.
    let mut region_b = vec![0u8; 0x18];
    region_b[0x10..0x18].copy_from_slice(&le64(0x3000));
    let mut region_c = vec![0u8; 0x24];
    region_c[0x20..0x24].copy_from_slice(&[0xef, 0xbe, 0xad, 0xde]);
    let table = one_process(vec![
        (0x1000, le64(0x2000)),
        (0x2000, region_b),
        (0x3000, region_c),
    ]);
    match run(&table, vec![0x1000, 0x10, 0x20], 4).unwrap() {
        ReadResponse::Success { data } => assert_eq!(data, vec![0xef, 0xbe, 0xad, 0xde]),
        _ => panic!("expected success"),
    }
}

#[test]
fn corrupted_intermediate_pointer_reports_one_resolved_hop() {
    // The first dereference succeeds and is recorded; the second walks into
    // unmapped memory, so exactly one resolved hop is reported.
    let table = one_process(vec![(0x1000, le64(0x9999))]);
    match run(&table, vec![0x1000, 0x10, 0x20], 4).unwrap() {
        ReadResponse::InvalidAddress { resolved_offsets } => {
            assert_eq!(resolved_offsets, vec![0x9999]);
            assert!(resolved_offsets.len() < 3);
        },
        _ => panic!("expected invalid address"),
    }
}

#[test]
fn unmapped_base_reports_zero_resolved_hops() {
    // When the very first probe fails, zero completed hops are reported,
    // never a negative count.
    let table = one_process(vec![(0x1000, le64(0x2000))]);
    match run(&table, vec![0x4000, 0x10], 4).unwrap() {
        ReadResponse::InvalidAddress { resolved_offsets } => {
            assert_eq!(resolved_offsets, Vec::<u64>::new());
        },
        _ => panic!("expected invalid address"),
    }
}

#[test]
fn final_copy_probe_failure_keeps_full_trace() {
    // Every hop resolves, but the final copy runs past the mapped region.
    let table = one_process(vec![(0x1000, le64(0x2000)), (0x2000, vec![1, 2, 3, 4])]);
    match run(&table, vec![0x1000, 0], 16).unwrap() {
        ReadResponse::InvalidAddress { resolved_offsets } => {
            assert_eq!(resolved_offsets, vec![0x2000]);
            assert!(resolved_offsets.len() < 2);
        },
        _ => panic!("expected invalid address"),
    }
}

#[test]
fn unknown_process_is_a_normal_outcome() {
    let table = ProcessTable::new();
    let req = ReadRequest { process_id: 3, offsets: vec![0x1000], offset_count: 1, count: 4 };
    let mut res = ReadResponse::Success { data: Vec::new() };
    handler_read(&table, &req, &mut res).unwrap();
    assert!(matches!(res, ReadResponse::UnknownProcess));
}

#[test]
fn oversized_offset_count_fails_before_any_memory_is_touched() {
    let table = one_process(vec![(0x1000, vec![0; 8])]);
    let offsets = vec![0x1000i64; MAX_HOPS + 1];
    let err = run(&table, offsets, 4).unwrap_err();
    assert_eq!(err, ReadError::InvalidOffsetCount);
}

#[test]
fn offset_count_past_supplied_array_is_rejected() {
    let table = one_process(vec![(0x1000, vec![0; 8])]);
    let req = ReadRequest { process_id: 7, offsets: vec![0x1000], offset_count: 2, count: 4 };
    let mut res = ReadResponse::UnknownProcess;
    assert_eq!(handler_read(&table, &req, &mut res), Err(ReadError::InvalidOffsetCount));
}

#[test]
fn empty_offset_chain_is_rejected() {
    let table = one_process(vec![(0x1000, vec![0; 8])]);
    let req = ReadRequest { process_id: 7, offsets: Vec::new(), offset_count: 0, count: 4 };
    let mut res = ReadResponse::UnknownProcess;
    assert_eq!(handler_read(&table, &req, &mut res), Err(ReadError::InvalidOffsetCount));
}

#[test]
fn negative_offsets_walk_backwards() {
    // A signed displacement may step below the dereferenced pointer.
    let mut region = vec![0u8; 0x20];
    region[0x08..0x10].copy_from_slice(&le64(0x2010));
    let table = one_process(vec![(0x1000, region), (0x2000, vec![7u8; 0x20])]);
    match run(&table, vec![0x1008, -0x10], 2).unwrap() {
        ReadResponse::Success { data } => assert_eq!(data, vec![7, 7]),
        _ => panic!("expected success"),
    }
}

#[test]
fn overlapping_region_is_refused() {
    let mut mem = TargetMemory::new();
    assert!(mem.map_region(0x1000, vec![0; 0x100]));
    assert!(!mem.map_region(0x10f0, vec![0; 0x20]));
    assert!(mem.map_region(0x1100, vec![0; 0x20]));
}

#[test]
fn duplicate_process_id_is_refused() {
    let mut table = ProcessTable::new();
    assert!(table.add_process(7, TargetMemory::new()));
    assert!(!table.add_process(7, TargetMemory::new()));
}
