use deet::inferior::write_byte_in_word;
use deet::registry::{Breakpoint, BreakpointRegistry};
use deet::word::{align_addr_to_word, splice_byte, TRAP_OPCODE, WORD_SIZE};

#[test]
fn alignment_rounds_down_to_a_word() {
    assert_eq!(WORD_SIZE, 8);
    assert_eq!(align_addr_to_word(0x1007), 0x1000);
    assert_eq!(align_addr_to_word(0x1008), 0x1008);
    assert_eq!(align_addr_to_word(0), 0);
    assert_eq!(align_addr_to_word(usize::MAX), usize::MAX - 7);
}

#[test]
fn splice_replaces_one_byte() {
    let w: u64 = 0x1122_3344_5566_7788;
    assert_eq!(splice_byte(w, 0, 0xcc), (0x1122_3344_5566_77cc, 0x88));
    assert_eq!(splice_byte(w, 3, 0xcc), (0x1122_3344_cc66_7788, 0x55));
    assert_eq!(splice_byte(w, 7, 0x00), (0x0022_3344_5566_7788, 0x11));
}

#[test]
fn write_byte_uses_the_offset_in_the_word() {
    let w: u64 = 0x1122_3344_5566_7788;
    assert_eq!(write_byte_in_word(0x401002, w, TRAP_OPCODE), (0x1122_3344_55cc_7788, 0x66));
    assert_eq!(write_byte_in_word(0x401008, w, TRAP_OPCODE), (0x1122_3344_5566_77cc, 0x88));
}

#[test]
fn writing_back_the_displaced_byte_restores_the_word() {
    let words: [u64; 3] = [0, u64::MAX, 0x0102_0304_0506_0708];
    for &w in words.iter() {
        for off in 0..8usize {
            for &v in [0u8, 0xcc, 0xff, 0x5a].iter() {
                let (w1, orig) = splice_byte(w, off, v);
                let (w2, back) = splice_byte(w1, off, orig);
                assert_eq!(w2, w);
                assert_eq!(back, v);
            }
        }
    }
}

#[test]
fn registry_keeps_one_record_per_address() {
    let mut r = BreakpointRegistry::new();
    assert_eq!(r.len(), 0);
    r.insert(0x30, 0);
    r.insert(0x10, 0);
    r.insert(0x30, 0x55);
    assert_eq!(r.len(), 2);
    assert_eq!(r.addresses(), vec![0x30, 0x10]);
    assert_eq!(r.find(0x30), Some(Breakpoint { addr: 0x30, orig_byte: 0x55 }));
    assert_eq!(r.find(0x10), Some(Breakpoint { addr: 0x10, orig_byte: 0 }));
    assert_eq!(r.find(0x20), None);
    assert!(r.contains(0x10));
    assert!(!r.contains(0x11));
}
