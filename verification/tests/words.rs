use deet::breakpoints::TRAP_BYTE;
use deet::memory::{read_byte, replace_byte, word_address, word_offset, BYTES_PER_WORD};

#[test]
fn an_address_lies_in_its_word() {
    assert_eq!(BYTES_PER_WORD, 8);
    assert_eq!(word_address(0x1000), 0x1000);
    assert_eq!(word_address(0x1007), 0x1000);
    assert_eq!(word_address(0x1008), 0x1008);
    assert_eq!(word_address(5), 0);
    assert_eq!(word_address(usize::MAX), usize::MAX - 7);
    assert_eq!(word_offset(0x1000), 0);
    assert_eq!(word_offset(0x1007), 7);
    assert_eq!(word_offset(0x100b), 3);
}

#[test]
fn bytes_are_counted_from_the_lowest() {
    let word: u64 = 0x8877_6655_4433_2211;
    assert_eq!(read_byte(word, 0), 0x11);
    assert_eq!(read_byte(word, 1), 0x22);
    assert_eq!(read_byte(word, 6), 0x77);
    assert_eq!(read_byte(word, 7), 0x88);
}

#[test]
fn a_byte_is_replaced_in_place() {
    let word: u64 = 0x8877_6655_4433_2211;
    assert_eq!(replace_byte(word, 0, TRAP_BYTE), (0x8877_6655_4433_22cc, 0x11));
    assert_eq!(replace_byte(word, 2, TRAP_BYTE), (0x8877_6655_44cc_2211, 0x33));
    assert_eq!(replace_byte(word, 7, 0), (0x0077_6655_4433_2211, 0x88));
    assert_eq!(replace_byte(0, 7, 0xff), (0xff00_0000_0000_0000, 0));
}

#[test]
fn patch_then_restore_gives_the_word_back() {
    let word: u64 = 0xc3c9_0000_0000_b8e5;
    for offset in 0..8u64 {
        let (patched, original) = replace_byte(word, offset, TRAP_BYTE);
        assert_eq!(read_byte(patched, offset), TRAP_BYTE);
        assert_eq!(original, read_byte(word, offset));
        let (restored, trap) = replace_byte(patched, offset, original);
        assert_eq!(trap, TRAP_BYTE);
        assert_eq!(restored, word);
        for other in 0..8u64 {
            if other != offset {
                assert_eq!(read_byte(patched, other), read_byte(word, other));
            }
        }
    }
}
