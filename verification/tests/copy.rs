use os_core::manager::TaskManager;
use os_core::memory::{ceil_page, floor_page, AddressSpace, ByteRegion};
use os_core::syscall::{copy_to_user_space, sys_get_time, sys_mmap, TimeVal};
use os_core::task::TaskContext;

fn manager_with_memory(frame_limit: usize) -> TaskManager {
    let mut manager = TaskManager::new();
    manager.add_task(TaskContext::zero_init(), AddressSpace::new(frame_limit, 0x10000, 0x20000));
    manager.run_first_task(0);
    manager
}

fn region(r: &ByteRegion) -> (usize, usize, usize) {
    (r.vpn, r.start, r.end)
}

#[test]
fn page_numbers() {
    assert_eq!(floor_page(0), 0);
    assert_eq!(floor_page(4095), 0);
    assert_eq!(floor_page(4096), 1);
    assert_eq!(floor_page(0x2fff), 2);
    assert_eq!(ceil_page(0), 0);
    assert_eq!(ceil_page(1), 1);
    assert_eq!(ceil_page(4096), 1);
    assert_eq!(ceil_page(4097), 2);
    assert_eq!(ceil_page(usize::MAX), usize::MAX / 4096 + 1);
}

#[test]
fn buffer_within_one_page() {
    let mut manager = manager_with_memory(8);
    assert_eq!(sys_mmap(&mut manager, 0x1000, 0x1000, 0b011), 0);
    let buffers = manager.spaces[0].translated_byte_buffer(0x1010, 0x20);
    assert_eq!(buffers.len(), 1);
    assert_eq!(region(&buffers[0]), (1, 0x10, 0x30));
    assert!(manager.spaces[0].translated_byte_buffer(0x1010, 0).is_empty());
}

#[test]
fn buffer_across_one_boundary() {
    let mut manager = manager_with_memory(8);
    assert_eq!(sys_mmap(&mut manager, 0x1000, 0x2000, 0b011), 0);
    let buffers = manager.spaces[0].translated_byte_buffer(0x1ff8, 16);
    assert_eq!(buffers.len(), 2);
    assert_eq!(region(&buffers[0]), (1, 0xff8, 0x1000));
    assert_eq!(region(&buffers[1]), (2, 0, 8));
}

#[test]
fn buffer_across_three_pages() {
    let mut manager = manager_with_memory(8);
    assert_eq!(sys_mmap(&mut manager, 0x1000, 0x3000, 0b011), 0);
    let buffers = manager.spaces[0].translated_byte_buffer(0x1ffe, 0x1004);
    assert_eq!(buffers.len(), 3);
    assert_eq!(region(&buffers[0]), (1, 0xffe, 0x1000));
    assert_eq!(region(&buffers[1]), (2, 0, 0x1000));
    assert_eq!(region(&buffers[2]), (3, 0, 2));
    let whole = manager.spaces[0].translated_byte_buffer(0x1000, 0x3000);
    assert_eq!(whole.len(), 3);
    assert_eq!(region(&whole[2]), (3, 0, 0x1000));
}

#[test]
fn copy_across_one_boundary() {
    let mut manager = manager_with_memory(8);
    assert_eq!(sys_mmap(&mut manager, 0x1000, 0x2000, 0b011), 0);
    let src: Vec<u8> = (1u8..=16).collect();
    copy_to_user_space(&mut manager, 0x1ffa, &src);
    let space = &manager.spaces[0];
    assert_eq!(space.read(0x1ffa, 6), Some(vec![1, 2, 3, 4, 5, 6]));
    assert_eq!(space.read(0x2000, 10), Some(vec![7, 8, 9, 10, 11, 12, 13, 14, 15, 16]));
    let mut joined = space.read(0x1ffa, 6).unwrap();
    joined.extend(space.read(0x2000, 10).unwrap());
    assert_eq!(joined, src);
    assert_eq!(space.read(0x1ffa, 16), Some(src));
    assert_eq!(space.read(0x1ff9, 1), Some(vec![0]));
    assert_eq!(space.read(0x200a, 1), Some(vec![0]));
}

#[test]
fn copy_across_three_pages() {
    let mut manager = manager_with_memory(8);
    assert_eq!(sys_mmap(&mut manager, 0x4000, 0x3000, 0b010), 0);
    let src: Vec<u8> = (0..0x1010usize).map(|i| (i % 251) as u8 + 1).collect();
    copy_to_user_space(&mut manager, 0x4ff8, &src);
    let space = &manager.spaces[0];
    assert_eq!(space.read(0x4ff8, 0x1010), Some(src.clone()));
    assert_eq!(space.read(0x4ff8, 8).unwrap(), src[..8].to_vec());
    assert_eq!(space.read(0x5000, 0x1000).unwrap(), src[8..0x1008].to_vec());
    assert_eq!(space.read(0x6000, 8).unwrap(), src[0x1008..].to_vec());
    assert_eq!(space.read(0x4000, 0xff8), Some(vec![0u8; 0xff8]));
    assert_eq!(space.read(0x6008, 0xff8), Some(vec![0u8; 0xff8]));
}

#[test]
fn copy_of_nothing_changes_nothing() {
    let mut manager = manager_with_memory(8);
    assert_eq!(sys_mmap(&mut manager, 0x1000, 0x1000, 0b011), 0);
    copy_to_user_space(&mut manager, 0x1800, &[]);
    assert_eq!(manager.spaces[0].read(0x1000, 0x1000), Some(vec![0u8; 0x1000]));
}

#[test]
fn copy_overwrites_earlier_bytes_only_in_range() {
    let mut manager = manager_with_memory(8);
    assert_eq!(sys_mmap(&mut manager, 0x1000, 0x1000, 0b011), 0);
    copy_to_user_space(&mut manager, 0x1000, &[9, 9, 9, 9]);
    copy_to_user_space(&mut manager, 0x1001, &[1, 2]);
    assert_eq!(manager.spaces[0].read(0x1000, 5), Some(vec![9, 1, 2, 9, 0]));
}

#[test]
fn read_of_unmapped_memory() {
    let mut manager = manager_with_memory(8);
    assert_eq!(sys_mmap(&mut manager, 0x1000, 0x1000, 0b011), 0);
    assert_eq!(manager.spaces[0].read(0x1ff0, 0x11), None);
    assert_eq!(manager.spaces[0].read(0xfff, 2), None);
    assert_eq!(manager.spaces[0].read(0x3000, 0), Some(vec![]));
}

#[test]
fn writable_ranges() {
    let mut manager = manager_with_memory(8);
    assert_eq!(sys_mmap(&mut manager, 0x1000, 0x1000, 0b011), 0);
    assert_eq!(sys_mmap(&mut manager, 0x2000, 0x1000, 0b001), 0);
    let space = &manager.spaces[0];
    assert!(space.is_writable(0x1000, 0x1000));
    assert!(space.is_writable(0x1fff, 1));
    assert!(!space.is_writable(0x1fff, 2));
    assert!(!space.is_writable(0x2000, 8));
    assert!(!space.is_writable(0x3000, 8));
    assert!(space.is_writable(0x3000, 0));
}

#[test]
fn get_time_null_pointer() {
    let mut manager = manager_with_memory(8);
    assert_eq!(sys_mmap(&mut manager, 0, 0x1000, 0b011), 0);
    assert_eq!(sys_get_time(&mut manager, 0, 0, 1_234_567), -1);
    assert_eq!(manager.spaces[0].read(0, 0x1000), Some(vec![0u8; 0x1000]));
}

#[test]
fn get_time_stores_seconds_and_microseconds() {
    let mut manager = manager_with_memory(8);
    assert_eq!(sys_mmap(&mut manager, 0x1000, 0x1000, 0b011), 0);
    assert_eq!(sys_get_time(&mut manager, 0x1100, 0, 3_001_234_567), 0);
    let bytes = manager.spaces[0].read(0x1100, 16).unwrap();
    let sec = u64::from_le_bytes(bytes[..8].try_into().unwrap());
    let usec = u64::from_le_bytes(bytes[8..].try_into().unwrap());
    assert_eq!(sec, 3001);
    assert_eq!(usec, 234_567);
    assert_eq!(bytes[..8].to_vec(), vec![0xb9, 0x0b, 0, 0, 0, 0, 0, 0]);
}

#[test]
fn get_time_across_a_page_boundary() {
    let mut manager = manager_with_memory(8);
    assert_eq!(sys_mmap(&mut manager, 0x1000, 0x2000, 0b011), 0);
    assert_eq!(sys_get_time(&mut manager, 0x1ffc, 7, 5_000_042), 0);
    let bytes = manager.spaces[0].read(0x1ffc, 16).unwrap();
    assert_eq!(u64::from_le_bytes(bytes[..8].try_into().unwrap()), 5);
    assert_eq!(u64::from_le_bytes(bytes[8..].try_into().unwrap()), 42);
    assert_eq!(manager.spaces[0].read(0x1ffc, 4), Some(vec![5, 0, 0, 0]));
    assert_eq!(manager.spaces[0].read(0x2000, 12).unwrap()[4], 42);
}

#[test]
fn time_val_bytes() {
    let time = TimeVal { sec: 0x0102_0304, usec: 999_999 };
    let bytes = time.to_bytes();
    assert_eq!(bytes.len(), 16);
    assert_eq!(bytes[..8].to_vec(), vec![4, 3, 2, 1, 0, 0, 0, 0]);
    assert_eq!(bytes[8..].to_vec(), vec![0x3f, 0x42, 0x0f, 0, 0, 0, 0, 0]);
}
