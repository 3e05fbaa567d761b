use fp_bindgen::mem::{from_fat_ptr, to_fat_ptr};

#[test]
fn offset_is_high_and_length_is_low() {
    assert_eq!(to_fat_ptr(1, 2), 0x0000_0001_0000_0002);
    assert_eq!(to_fat_ptr(0xdead_beef, 0x0000_cafe), 0xdead_beef_0000_cafe);
}

#[test]
fn handle_is_taken_apart() {
    assert_eq!(from_fat_ptr(0x0000_0001_0000_0002), (1, 2));
    assert_eq!(from_fat_ptr(0xdead_beef_0000_cafe), (0xdead_beef, 0x0000_cafe));
}

#[test]
fn zero_handle_is_an_empty_value() {
    assert_eq!(to_fat_ptr(0, 0), 0);
    assert_eq!(from_fat_ptr(0), (0, 0));
}

#[test]
fn extreme_handles() {
    assert_eq!(to_fat_ptr(u32::MAX, u32::MAX), u64::MAX);
    assert_eq!(from_fat_ptr(u64::MAX), (u32::MAX, u32::MAX));
    assert_eq!(to_fat_ptr(u32::MAX, 0), 0xffff_ffff_0000_0000);
    assert_eq!(to_fat_ptr(0, u32::MAX), 0x0000_0000_ffff_ffff);
}

#[test]
fn packing_and_taking_apart_undo_each_other() {
    let samples: [(u32, u32); 5] =
        [(0, 0), (1, 0), (0, 1), (65536, 4096), (0x8000_0000, 0x7fff_ffff)];
    for (ptr, len) in samples {
        assert_eq!(from_fat_ptr(to_fat_ptr(ptr, len)), (ptr, len));
    }
    let handles: [u64; 4] = [0, 1, 0x1_0000_0000, 0x1234_5678_9abc_def0];
    for fat in handles {
        let (ptr, len) = from_fat_ptr(fat);
        assert_eq!(to_fat_ptr(ptr, len), fat);
    }
}
