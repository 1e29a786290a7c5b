use vibe_framebuffer::heap::{find_heap_address, MemoryRegion, LOW_MEMORY_END};

const MIB: u64 = 1024 * 1024;
const HHDM: u64 = 0xffff_8000_0000_0000;

fn region(base: u64, length: u64, usable: bool) -> MemoryRegion {
    MemoryRegion { base, length, usable }
}

#[test]
fn low_memory_ends_at_sixteen_mebibytes() {
    assert_eq!(LOW_MEMORY_END, 0x100_0000);
    assert_eq!(LOW_MEMORY_END, 16 * MIB);
}

#[test]
fn region_suits_when_usable_high_and_long_enough() {
    assert!(region(16 * MIB, 16 * MIB, true).can_hold_heap(16 * MIB));
    assert!(!region(16 * MIB, 16 * MIB, false).can_hold_heap(16 * MIB));
    assert!(!region(16 * MIB - 1, 16 * MIB, true).can_hold_heap(16 * MIB));
    assert!(!region(16 * MIB, 16 * MIB - 1, true).can_hold_heap(16 * MIB));
    assert!(region(u64::MAX, u64::MAX, true).can_hold_heap(u64::MAX));
    assert!(region(16 * MIB, 0, true).can_hold_heap(0));
}

#[test]
fn heap_goes_to_the_first_suitable_region() {
    let map = [
        region(0, 640 * 1024, true),
        region(MIB, 64 * MIB, true),
        region(16 * MIB, 8 * MIB, true),
        region(32 * MIB, 64 * MIB, false),
        region(128 * MIB, 16 * MIB, true),
        region(256 * MIB, 512 * MIB, true),
    ];
    assert_eq!(find_heap_address(&map, HHDM, 16 * MIB), Some(HHDM + 128 * MIB));
    assert_eq!(find_heap_address(&map, 0, 16 * MIB), Some(128 * MIB));
    assert_eq!(find_heap_address(&map, HHDM, 8 * MIB), Some(HHDM + 16 * MIB));
    assert_eq!(find_heap_address(&map, HHDM, 17 * MIB), Some(HHDM + 256 * MIB));
}

#[test]
fn heap_has_no_place_without_a_suitable_region() {
    let map = [region(0, 640 * 1024, true), region(MIB, 64 * MIB, true), region(32 * MIB, 64 * MIB, false)];
    assert_eq!(find_heap_address(&map, HHDM, 16 * MIB), None);
    assert_eq!(find_heap_address(&[], HHDM, 16 * MIB), None);
    assert_eq!(find_heap_address(&[], 0, 0), None);
}

#[test]
fn heap_address_that_overflows_is_refused() {
    let map = [region(u64::MAX - HHDM + 1, 16 * MIB, true), region(32 * MIB, 64 * MIB, true)];
    assert_eq!(find_heap_address(&map, HHDM, 16 * MIB), None);
    let map = [region(u64::MAX - HHDM, 16 * MIB, true)];
    assert_eq!(find_heap_address(&map, HHDM, 16 * MIB), Some(u64::MAX));
}
