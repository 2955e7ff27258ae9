use deet::align_addr_to_word;
use deet::patch::{byte_of_word, set_byte_in_word};

#[test]
fn align_rounds_down_to_word() {
    assert_eq!(align_addr_to_word(0), 0);
    assert_eq!(align_addr_to_word(7), 0);
    assert_eq!(align_addr_to_word(8), 8);
    assert_eq!(align_addr_to_word(0x401133), 0x401130);
    assert_eq!(align_addr_to_word(usize::MAX), usize::MAX - 7);
}

#[test]
fn byte_extraction_is_little_endian() {
    let w: u64 = 0x1122_3344_5566_7788;
    assert_eq!(byte_of_word(w, 0), 0x88);
    assert_eq!(byte_of_word(w, 1), 0x77);
    assert_eq!(byte_of_word(w, 7), 0x11);
}

#[test]
fn set_byte_replaces_only_target() {
    let w: u64 = 0x1122_3344_5566_7788;
    let p = set_byte_in_word(w, 2, 0xCC);
    assert_eq!(p, 0x1122_3344_55CC_7788);
    for off in 0..8 {
        if off != 2 {
            assert_eq!(byte_of_word(p, off), byte_of_word(w, off));
        }
    }
    assert_eq!(byte_of_word(p, 2), 0xCC);
}

#[test]
fn patch_round_trip_restores_original() {
    let w: u64 = 0xDEAD_BEEF_CAFE_F00D;
    for off in 0..8 {
        let saved = byte_of_word(w, off);
        let trapped = set_byte_in_word(w, off, 0xCC);
        assert_eq!(byte_of_word(trapped, off), 0xCC);
        let restored = set_byte_in_word(trapped, off, saved);
        assert_eq!(restored, w);
        assert_eq!(byte_of_word(restored, off), saved);
    }
}
