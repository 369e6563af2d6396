use os_core::manager::TaskManager;
use os_core::memory::AddressSpace;
use os_core::mapping::{check_and_translate_port, mmap, munmap, MapError};
use os_core::syscall::{sys_mmap, sys_munmap};
use os_core::task::TaskContext;

fn running_manager(frame_limit: usize) -> TaskManager {
    let mut manager = TaskManager::new();
    manager.add_task(TaskContext::zero_init(), AddressSpace::new(frame_limit, 0x10000, 0x20000));
    manager.run_first_task(0);
    manager
}

#[test]
fn mmap_then_munmap_then_munmap_again() {
    let mut manager = running_manager(64);
    assert_eq!(sys_mmap(&mut manager, 0x1000, 0x2000, 0b011), 0);
    assert_eq!(sys_munmap(&mut manager, 0x1000, 0x2000), 0);
    assert_eq!(sys_munmap(&mut manager, 0x1000, 0x2000), -1);
}

#[test]
fn mmap_misaligned_start_is_refused() {
    let mut manager = running_manager(64);
    assert_eq!(sys_mmap(&mut manager, 0x1001, 0x1000, 0b001), -1);
    assert!(!manager.spaces[0].check_vpn_exists(1));
    assert!(!manager.spaces[0].check_vpn_exists(2));
    assert_eq!(manager.spaces[0].available_frames(), 64);
}

#[test]
fn mmap_without_permission_bits_is_refused() {
    let mut manager = running_manager(64);
    assert_eq!(sys_mmap(&mut manager, 0x1000, 0x1000, 0), -1);
    assert!(!manager.spaces[0].check_vpn_exists(1));
}

#[test]
fn mmap_zero_length_is_refused() {
    let mut manager = running_manager(64);
    assert_eq!(sys_mmap(&mut manager, 0x1000, 0, 0b001), -1);
    assert_eq!(mmap(&mut manager, 0x1000, 0, 0b001), Err(MapError::InvalidArgument));
}

#[test]
fn mmap_gives_the_rights_asked_for() {
    let mut manager = running_manager(64);
    assert_eq!(sys_mmap(&mut manager, 0x1000, 0x2000, 0b011), 0);
    for vpn in [1usize, 2] {
        let perm = manager.spaces[0].permission(vpn).unwrap();
        assert!(perm.is_readable());
        assert!(perm.is_writable());
        assert!(!perm.is_executable());
        assert!(perm.is_user());
        assert_eq!(perm.bits(), 2 + 4 + 16);
    }
    assert!(manager.spaces[0].permission(0).is_none());
    assert!(manager.spaces[0].permission(3).is_none());
    assert_eq!(manager.spaces[0].available_frames(), 62);
}

#[test]
fn mmap_each_port_value() {
    for port in 1usize..=7 {
        let mut manager = running_manager(8);
        assert_eq!(sys_mmap(&mut manager, 0x5000, 1, port), 0);
        let perm = manager.spaces[0].permission(5).unwrap();
        assert_eq!(perm.is_readable(), port & 1 != 0);
        assert_eq!(perm.is_writable(), port & 2 != 0);
        assert_eq!(perm.is_executable(), port & 4 != 0);
        assert!(perm.is_user());
    }
}

#[test]
fn mmap_rounds_the_end_up_to_a_page() {
    let mut manager = running_manager(8);
    assert_eq!(sys_mmap(&mut manager, 0x3000, 0x1001, 0b001), 0);
    assert!(!manager.spaces[0].check_vpn_exists(2));
    assert!(manager.spaces[0].check_vpn_exists(3));
    assert!(manager.spaces[0].check_vpn_exists(4));
    assert!(!manager.spaces[0].check_vpn_exists(5));
}

#[test]
fn mmap_fresh_pages_are_zeroed() {
    let mut manager = running_manager(8);
    assert_eq!(sys_mmap(&mut manager, 0x3000, 0x1000, 0b011), 0);
    assert_eq!(manager.spaces[0].read(0x3000, 0x1000), Some(vec![0u8; 0x1000]));
}

#[test]
fn mmap_on_mapped_pages_is_refused_and_keeps_rights() {
    let mut manager = running_manager(64);
    assert_eq!(sys_mmap(&mut manager, 0x1000, 0x3000, 0b011), 0);
    assert_eq!(sys_mmap(&mut manager, 0x2000, 0x1000, 0b100), -1);
    assert_eq!(sys_mmap(&mut manager, 0x3000, 0x2000, 0b101), -1);
    assert_eq!(sys_mmap(&mut manager, 0x0000, 0x1001, 0b001), -1);
    assert_eq!(mmap(&mut manager, 0x1000, 0x3000, 0b011), Err(MapError::Conflict));
    for vpn in [1usize, 2, 3] {
        let perm = manager.spaces[0].permission(vpn).unwrap();
        assert!(perm.is_readable() && perm.is_writable() && !perm.is_executable());
    }
    assert!(!manager.spaces[0].check_vpn_exists(0));
    assert!(!manager.spaces[0].check_vpn_exists(4));
    assert_eq!(manager.spaces[0].available_frames(), 61);
}

#[test]
fn munmap_then_mmap_same_range() {
    let mut manager = running_manager(2);
    assert_eq!(sys_mmap(&mut manager, 0x8000, 0x2000, 0b001), 0);
    assert_eq!(manager.spaces[0].available_frames(), 0);
    assert_eq!(sys_munmap(&mut manager, 0x8000, 0x2000), 0);
    assert_eq!(manager.spaces[0].available_frames(), 2);
    assert_eq!(sys_mmap(&mut manager, 0x8000, 0x2000, 0b111), 0);
    let perm = manager.spaces[0].permission(8).unwrap();
    assert!(perm.is_readable() && perm.is_writable() && perm.is_executable());
}

#[test]
fn munmap_of_unmapped_range_is_refused() {
    let mut manager = running_manager(8);
    assert_eq!(sys_munmap(&mut manager, 0x1000, 0x1000), -1);
    assert_eq!(munmap(&mut manager, 0x1000, 0x1000), Err(MapError::Conflict));
}

#[test]
fn munmap_bad_arguments_are_refused() {
    let mut manager = running_manager(8);
    assert_eq!(sys_mmap(&mut manager, 0x1000, 0x1000, 0b001), 0);
    assert_eq!(munmap(&mut manager, 0x1001, 0x1000), Err(MapError::InvalidArgument));
    assert_eq!(munmap(&mut manager, 0x1000, 0), Err(MapError::InvalidArgument));
    assert_eq!(sys_munmap(&mut manager, 0x1008, 8), -1);
    assert!(manager.spaces[0].check_vpn_exists(1));
}

#[test]
fn munmap_stops_at_the_first_unmapped_page() {
    let mut manager = running_manager(8);
    assert_eq!(sys_mmap(&mut manager, 0x1000, 0x2000, 0b001), 0);
    assert_eq!(sys_mmap(&mut manager, 0x4000, 0x1000, 0b001), 0);
    assert_eq!(sys_munmap(&mut manager, 0x1000, 0x4000), -1);
    assert!(!manager.spaces[0].check_vpn_exists(1));
    assert!(!manager.spaces[0].check_vpn_exists(2));
    assert!(manager.spaces[0].check_vpn_exists(4));
    assert_eq!(manager.spaces[0].available_frames(), 7);
}

#[test]
fn mmap_without_enough_frames_maps_nothing() {
    let mut manager = running_manager(1);
    assert_eq!(mmap(&mut manager, 0x1000, 0x2000, 0b001), Err(MapError::ResourceExhausted));
    assert_eq!(sys_mmap(&mut manager, 0x1000, 0x2000, 0b001), -1);
    assert!(!manager.spaces[0].check_vpn_exists(1));
    assert!(!manager.spaces[0].check_vpn_exists(2));
    assert_eq!(manager.spaces[0].available_frames(), 1);
    assert_eq!(mmap(&mut manager, 0x1000, 0x1000, 0b001), Ok(()));
}

#[test]
fn port_outside_one_to_seven_is_refused() {
    assert!(check_and_translate_port(0).is_none());
    for port in [8usize, 9, 0x10, 0x17, 0xff, usize::MAX, usize::MAX - 7] {
        assert!(check_and_translate_port(port).is_none());
        let mut manager = running_manager(8);
        assert_eq!(sys_mmap(&mut manager, 0x1000, 0x1000, port), -1);
        assert_eq!(mmap(&mut manager, 0x1000, 0x1000, port), Err(MapError::InvalidArgument));
        assert!(!manager.spaces[0].check_vpn_exists(1));
    }
}

#[test]
fn port_translation() {
    let perm = check_and_translate_port(0b101).unwrap();
    assert!(perm.is_readable());
    assert!(!perm.is_writable());
    assert!(perm.is_executable());
    assert!(perm.is_user());
    assert_eq!(perm.bits(), 2 + 8 + 16);
    assert_eq!(check_and_translate_port(0b010).unwrap().bits(), 4 + 16);
    assert_eq!(check_and_translate_port(0b111).unwrap().bits(), 2 + 4 + 8 + 16);
}

#[test]
fn mapping_leaves_other_tasks_alone() {
    let mut manager = TaskManager::new();
    manager.add_task(TaskContext::zero_init(), AddressSpace::new(4, 0, 0));
    manager.add_task(TaskContext::zero_init(), AddressSpace::new(4, 0, 0));
    manager.run_first_task(0);
    assert_eq!(sys_mmap(&mut manager, 0x1000, 0x1000, 0b011), 0);
    assert!(manager.spaces[0].check_vpn_exists(1));
    assert!(!manager.spaces[1].check_vpn_exists(1));
    assert_eq!(manager.spaces[1].available_frames(), 4);
}
