use cheap8::instruction::Instruction;
use cheap8::{Display, HEIGHT, PIXELS, WIDTH};

fn lit(d: &Display) -> Vec<(usize, usize)> {
    let mut v = Vec::new();
    for y in 0..HEIGHT {
        for x in 0..WIDTH {
            if d.get()[y * WIDTH + x] {
                v.push((x, y));
            }
        }
    }
    v
}

#[test]
fn redraw_restores_and_collides() {
    let mut d = Display::new();
    assert!(!d.draw(3, 4, &[0b1010_0000, 0b0101_0000]));
    assert_eq!(lit(&d), vec![(3, 4), (5, 4), (4, 5), (6, 5)]);
    assert!(d.draw(3, 4, &[0b1010_0000, 0b0101_0000]));
    assert!(lit(&d).is_empty());
}

#[test]
fn disjoint_sprites_do_not_collide() {
    let mut d = Display::new();
    assert!(!d.draw(0, 0, &[0xFF]));
    assert!(!d.draw(8, 0, &[0xFF]));
    assert!(!d.draw(0, 1, &[0xFF]));
    assert_eq!(lit(&d).len(), 24);
}

#[test]
fn right_edge_clips() {
    let mut d = Display::new();
    assert!(!d.draw(62, 0, &[0xFF]));
    assert_eq!(lit(&d), vec![(62, 0), (63, 0)]);
}

#[test]
fn bottom_edge_clips() {
    let mut d = Display::new();
    assert!(!d.draw(0, 30, &[0x80, 0x80, 0x80, 0x80]));
    assert_eq!(lit(&d), vec![(0, 30), (0, 31)]);
}

#[test]
fn origin_wraps() {
    let mut d = Display::new();
    assert!(!d.draw(64 + 2, 32 + 1, &[0xC0]));
    assert_eq!(lit(&d), vec![(2, 1), (3, 1)]);
}

#[test]
fn clear_turns_everything_off() {
    let mut d = Display::new();
    d.draw(10, 10, &[0xFF, 0xFF]);
    d.clear();
    assert!(lit(&d).is_empty());
    assert_eq!(d.get().len(), PIXELS);
}

#[test]
fn debug_text_is_transposed() {
    let mut d = Display::new();
    d.draw(1, 2, &[0x80]);
    let text = d.debug_text();
    assert_eq!(text.len(), WIDTH * (HEIGHT + 1));
    assert_eq!(text[HEIGHT], b'\n');
    assert_eq!(text[(HEIGHT + 1) + 2], b'#');
    assert_eq!(text.iter().filter(|b| **b == b'#').count(), 1);
    assert_eq!(text[2], b' ');
}

#[test]
fn decode_table() {
    assert_eq!(Instruction::decode(0x00E0), Some(Instruction::ClearScreen));
    assert_eq!(Instruction::decode(0x00EE), Some(Instruction::Return));
    assert_eq!(Instruction::decode(0x01E0), None);
    assert_eq!(Instruction::decode(0xD123), Some(Instruction::Draw { x: 1, y: 2, n: 3 }));
    assert_eq!(Instruction::decode(0x8AB6), Some(Instruction::ShiftRight { x: 0xA, y: 0xB }));
    assert_eq!(Instruction::decode(0x8AB8), None);
    assert_eq!(Instruction::decode(0x9120), Some(Instruction::SkipIfNeReg { x: 1, y: 2 }));
    assert_eq!(Instruction::decode(0x9121), None);
    assert_eq!(Instruction::decode(0xB123), Some(Instruction::JumpOffset { addr: 0x123 }));
    assert_eq!(Instruction::decode(0xE19E), Some(Instruction::SkipIfKey { x: 1 }));
    assert_eq!(Instruction::decode(0xE19F), None);
    assert_eq!(Instruction::decode(0xF765), Some(Instruction::LoadRegs { x: 7 }));
    assert_eq!(Instruction::decode(0xF766), None);
}
