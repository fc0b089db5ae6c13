use bufro::mem_align::{page_aligned, round_up, MemAlign};

#[test]
fn round_up_to_multiple() {
    assert_eq!(round_up(0, 4), 0);
    assert_eq!(round_up(1, 4), 4);
    assert_eq!(round_up(4, 4), 4);
    assert_eq!(round_up(5, 4), 8);
    assert_eq!(round_up(4097, 4096), 8192);
}

#[test]
fn page_aligned_sizes() {
    assert_eq!(page_aligned(1), 4096);
    assert_eq!(page_aligned(4096), 4096);
    assert_eq!(page_aligned(25600), 28672);
}

#[test]
fn mem_align_uniform_slots() {
    let m: MemAlign<[u8; 256]> = MemAlign::new(100);
    assert_eq!(MemAlign::<[u8; 256]>::element_size(), 256);
    assert_eq!(m.byte_size(), 28672);
    assert_eq!(m.capacity(), 112);
    assert_eq!(m.remainder(), 0);
    assert!(m.is_valid());
}

#[test]
fn mem_align_with_remainder() {
    let m: MemAlign<[u8; 3]> = MemAlign::new(1);
    assert_eq!(m.byte_size(), 4096);
    assert_eq!(m.capacity(), 1365);
    assert_eq!(m.remainder(), 1);
    assert!(m.is_valid());
}
