use inside_overlay::api::{APIHandle, Access, OpenError};
use inside_overlay::input_handler::{InputHandler, Parameter};
use inside_overlay::protocol::{Reply, Request};
use inside_overlay::resolver::{add_offset, ChainWalk};
use std::collections::HashMap;

const WIDTH: usize = std::mem::size_of::<usize>();

/// A byte-addressable stand-in for the target, which counts what is asked of it.
struct Target {
    bytes: HashMap<usize, u8>,
    reads: Vec<(usize, usize)>,
    writes: Vec<(usize, Vec<u8>)>,
}

fn target() -> Target {
    Target { bytes: HashMap::new(), reads: Vec::new(), writes: Vec::new() }
}

fn poke(target: &mut Target, address: usize, bytes: &[u8]) {
    for (i, byte) in bytes.iter().enumerate() {
        target.bytes.insert(address + i, *byte);
    }
}

fn poke_pointer(target: &mut Target, address: usize, pointer: usize) {
    poke(target, address, &pointer.to_le_bytes());
}

fn read(target: &mut Target, address: usize, len: usize) -> Vec<u8> {
    target.reads.push((address, len));
    (0..len).map(|i| *target.bytes.get(&address.wrapping_add(i)).unwrap_or(&0)).collect()
}

fn write(target: &mut Target, address: usize, bytes: &[u8]) {
    target.writes.push((address, bytes.to_vec()));
    poke(target, address, bytes);
}

fn resolve(target: &mut Target, base: usize, offsets: &[usize]) -> usize {
    let mut walk = ChainWalk::new(base, offsets);
    while let Some(slot) = walk.pending() {
        assert_eq!(walk.address(), None);
        let bytes = read(target, slot, WIDTH);
        walk.supply(&bytes);
    }
    walk.address().unwrap()
}

fn run(target: &mut Target, mut access: Access) -> Option<u32> {
    loop {
        match access.request() {
            Request::ReadPointer { address } => {
                let bytes = read(target, address, WIDTH);
                access.answer(&Reply::Bytes(bytes));
            },
            Request::ReadValue { address } => {
                let bytes = read(target, address, 4);
                access.answer(&Reply::Bytes(bytes));
            },
            Request::WriteValue { address, bytes } => {
                write(target, address, &bytes);
                access.answer(&Reply::Written);
            },
            Request::Done => break,
            _ => panic!("an access asks only for memory"),
        }
    }
    assert!(access.finished());
    access.outcome()
}

#[test]
fn a_single_offset_is_added_without_a_read() {
    let mut target = target();
    assert_eq!(resolve(&mut target, 0x1000, &[0x24]), 0x1024);
    assert!(target.reads.is_empty());
    assert!(target.writes.is_empty());
}

#[test]
fn a_single_offset_walk_has_arrived_at_once() {
    let walk = ChainWalk::new(0x40_0000, &[0x10]);
    assert_eq!(walk.pending(), None);
    assert_eq!(walk.address(), Some(0x40_0010));
    assert_eq!(walk.end(), 0x40_0010);
}

#[test]
fn the_empty_chain_stays_at_the_base() {
    let mut target = target();
    assert_eq!(resolve(&mut target, 0x1000, &[]), 0x1000);
    assert!(target.reads.is_empty());
}

#[test]
fn two_offsets_follow_one_pointer() {
    let mut target = target();
    poke_pointer(&mut target, 0x1000 + 0x20, 0x5000);
    assert_eq!(resolve(&mut target, 0x1000, &[0x20, 0x8]), 0x5008);
    assert_eq!(target.reads, vec![(0x1020, WIDTH)]);
    assert!(target.writes.is_empty());
}

#[test]
fn a_chain_of_n_offsets_reads_n_minus_one_pointers() {
    let mut target = target();
    poke_pointer(&mut target, 0x1000 + 0x10, 0x2000);
    poke_pointer(&mut target, 0x2000 + 0x20, 0x3000);
    poke_pointer(&mut target, 0x3000 + 0x30, 0x4000);
    poke_pointer(&mut target, 0x4000, 0x5000);
    let offsets = [0x10, 0x20, 0x30, 0x0, 0x44];
    assert_eq!(resolve(&mut target, 0x1000, &offsets), 0x5044);
    assert_eq!(
        target.reads,
        vec![(0x1010, WIDTH), (0x2020, WIDTH), (0x3030, WIDTH), (0x4000, WIDTH)]
    );
    assert!(target.writes.is_empty());
}

#[test]
fn a_dangling_pointer_leads_on_from_zero() {
    let mut target = target();
    assert_eq!(resolve(&mut target, 0x1000, &[0x20, 0x8, 0x4]), 0x4);
    assert_eq!(target.reads, vec![(0x1020, WIDTH), (0x8, WIDTH)]);
}

#[test]
fn address_arithmetic_wraps_around() {
    assert_eq!(add_offset(usize::MAX, 1), 0);
    assert_eq!(add_offset(usize::MAX, usize::MAX), usize::MAX - 1);
    assert_eq!(add_offset(3, 4), 7);
    let walk = ChainWalk::new(usize::MAX - 1, &[5]);
    assert_eq!(walk.address(), Some(3));
}

#[test]
fn the_pointer_read_replaces_the_base() {
    let mut walk = ChainWalk::new(0x1000, &[0x20, 0x8]);
    assert_eq!(walk.pending(), Some(0x1020));
    assert_eq!(walk.address(), None);
    walk.supply(&0x7000usize.to_le_bytes());
    assert_eq!(walk.pending(), None);
    assert_eq!(walk.address(), Some(0x7008));
}

#[test]
fn a_walk_that_has_arrived_ignores_more_bytes() {
    let mut walk = ChainWalk::new(0x1000, &[0x20]);
    walk.supply(&0x7000usize.to_le_bytes());
    assert_eq!(walk.address(), Some(0x1020));
}

#[test]
fn the_handle_resolves_from_its_base() {
    let handle = APIHandle::new(0x1234, 0x5678, 0x40_0000).unwrap();
    assert_eq!(handle.base_address, 0x40_0000);
    let walk = handle.get_final_address(&[0x10, 0x4]);
    assert_eq!(walk.pending(), Some(0x40_0010));
}

#[test]
fn without_a_window_the_target_is_not_found() {
    assert_eq!(APIHandle::new(0, 0, 0).err(), Some(OpenError::TargetNotFound));
    assert_eq!(APIHandle::new(0, 0x5678, 0x40_0000).err(), Some(OpenError::TargetNotFound));
}

#[test]
fn without_an_open_process_access_is_denied() {
    assert_eq!(APIHandle::new(0x1234, 0, 0).err(), Some(OpenError::AccessDenied));
    assert_eq!(APIHandle::new(0x1234, 0, 0x40_0000).err(), Some(OpenError::AccessDenied));
}

#[test]
fn a_first_module_at_zero_is_accepted() {
    assert_eq!(APIHandle::new(1, 1, 0).ok().map(|handle| handle.base_address), Some(0));
}

#[test]
fn a_failed_pointer_read_leads_on_from_zero() {
    let handle = APIHandle { base_address: 0x1000 };
    let mut access = handle.read_memory_f32(&[0x20, 0x8]);
    assert!(matches!(access.request(), Request::ReadPointer { address: 0x1020 }));
    access.answer(&Reply::Failed);
    assert!(matches!(access.request(), Request::ReadValue { address: 0x8 }));
    access.answer(&Reply::Failed);
    assert!(access.finished());
    assert_eq!(access.outcome(), Some(0));
}

#[test]
fn a_failed_write_is_passed_over() {
    let handle = APIHandle { base_address: 0x1000 };
    let mut access = handle.write_memory_f32(&[0x20, 0x8], 7);
    access.answer(&Reply::Failed);
    assert!(matches!(access.request(), Request::WriteValue { address: 0x8, .. }));
    assert!(!access.finished());
    access.answer(&Reply::Failed);
    assert!(access.finished());
    assert_eq!(access.outcome(), None);
    access.answer(&Reply::Failed);
    assert!(access.finished());
    assert_eq!(access.outcome(), None);
}

#[test]
fn a_read_walks_the_chain_and_reads_four_bytes() {
    let mut target = target();
    poke_pointer(&mut target, 0x1020, 0x5000);
    poke(&mut target, 0x5008, &12.5f32.to_le_bytes());
    let handle = APIHandle { base_address: 0x1000 };
    let found = run(&mut target, handle.read_memory_f32(&[0x20, 0x8]));
    assert_eq!(found, Some(12.5f32.to_bits()));
    assert_eq!(target.reads, vec![(0x1020, WIDTH), (0x5008, 4)]);
    assert!(target.writes.is_empty());
}

#[test]
fn a_read_of_nothing_finds_zero() {
    let mut target = target();
    let handle = APIHandle { base_address: 0x1000 };
    let found = run(&mut target, handle.read_memory_f32(&[0x20, 0x8]));
    assert_eq!(found, Some(0));
}

#[test]
fn a_write_walks_the_chain_and_writes_four_bytes() {
    let mut target = target();
    poke_pointer(&mut target, 0x1020, 0x5000);
    let handle = APIHandle { base_address: 0x1000 };
    let found = run(&mut target, handle.write_memory_f32(&[0x20, 0x8], 10.0f32.to_bits()));
    assert_eq!(found, None);
    assert_eq!(target.reads, vec![(0x1020, WIDTH)]);
    assert_eq!(target.writes, vec![(0x5008, 10.0f32.to_le_bytes().to_vec())]);
}

#[test]
fn a_value_written_reads_back_bit_for_bit() {
    let mut target = target();
    poke_pointer(&mut target, 0x1020, 0x5000);
    let handle = APIHandle { base_address: 0x1000 };
    for value in [0.0f32, -0.0, 12.5, -3.75, f32::MAX, f32::MIN_POSITIVE, f32::INFINITY] {
        run(&mut target, handle.write_memory_f32(&[0x20, 0x8], value.to_bits()));
        let found = run(&mut target, handle.read_memory_f32(&[0x20, 0x8]));
        assert_eq!(found, Some(value.to_bits()));
    }
    let nan = 0x7fc0_1234u32;
    run(&mut target, handle.write_memory_f32(&[0x20, 0x8], nan));
    assert_eq!(run(&mut target, handle.read_memory_f32(&[0x20, 0x8])), Some(nan));
}

#[test]
fn a_write_onto_its_own_pointer_slot_redirects_the_chain() {
    let mut target = target();
    poke_pointer(&mut target, 0x1000, 0x1000);
    let handle = APIHandle { base_address: 0x1000 };
    run(&mut target, handle.write_memory_f32(&[0x0, 0x0], 0x2000));
    let found = run(&mut target, handle.read_memory_f32(&[0x0, 0x0]));
    assert_eq!(found, Some(0));
}

#[test]
fn an_access_ignores_a_reply_it_does_not_wait_for() {
    let handle = APIHandle { base_address: 0x1000 };
    let mut access = handle.write_memory_f32(&[0x20, 0x8], 7);
    access.answer(&Reply::Written);
    assert!(matches!(access.request(), Request::ReadPointer { address: 0x1020 }));
    access.answer(&Reply::Sum(3));
    assert!(matches!(access.request(), Request::ReadPointer { address: 0x1020 }));
    access.answer(&Reply::Bytes(0x5000usize.to_le_bytes().to_vec()));
    assert!(matches!(access.request(), Request::WriteValue { address: 0x5008, .. }));
    access.answer(&Reply::Bytes(vec![1, 2, 3, 4]));
    assert!(matches!(access.request(), Request::WriteValue { address: 0x5008, .. }));
    assert!(!access.finished());
    access.written();
    assert!(access.finished());
    assert!(matches!(access.request(), Request::Done));
    assert_eq!(access.outcome(), None);
}

#[test]
fn a_finished_read_keeps_its_outcome() {
    let handle = APIHandle { base_address: 0x1000 };
    let mut access = handle.read_memory_f32(&[0x20]);
    assert!(matches!(access.request(), Request::ReadValue { address: 0x1020 }));
    access.written();
    assert!(!access.finished());
    access.supply(&[1, 0, 0, 0]);
    assert!(access.finished());
    assert_eq!(access.outcome(), Some(1));
    access.supply(&[2, 0, 0, 0]);
    assert_eq!(access.outcome(), Some(1));
}

#[test]
fn a_parameter_is_read_and_written_by_name() {
    let mut target = target();
    poke_pointer(&mut target, 0x1020, 0x5000);
    let handle = APIHandle { base_address: 0x1000 };
    let x_pos = Parameter::new("x_pos", &[0x20, 0x8]).unwrap();
    let y_pos = Parameter::new("y_pos", &[0x20, 0xc]).unwrap();
    let registry = InputHandler::with_parameters(vec![x_pos, y_pos]).unwrap();
    let write = registry.write_value("y_pos", &handle, 12.5f32.to_bits()).unwrap();
    assert_eq!(run(&mut target, write), None);
    assert_eq!(target.writes, vec![(0x500c, 12.5f32.to_le_bytes().to_vec())]);
    let read = registry.read_value("y_pos", &handle).unwrap();
    assert_eq!(run(&mut target, read), Some(12.5f32.to_bits()));
    let read = registry.read_value("x_pos", &handle).unwrap();
    assert_eq!(run(&mut target, read), Some(0));
    assert!(registry.read_value("z_pos", &handle).is_none());
    assert!(registry.write_value("z_pos", &handle, 1).is_none());
}
