use vstd::prelude::*;

verus! {

/// One decoded instruction word. `x` and `y` name registers, `nn` is an
/// immediate byte, `addr` a 12-bit address and `n` a sprite height.
#[derive(Clone, Copy, Debug, PartialEq, Eq, Structural)]
pub enum Instruction {
    /// `00E0`: turn every pixel off.
    ClearScreen,
    /// `00EE`: return from a subroutine.
    Return,
    /// `1nnn`: jump to `nnn`.
    Jump { addr: u16 },
    /// `2nnn`: call the subroutine at `nnn`.
    Call { addr: u16 },
    /// `3xnn`: skip the next instruction if `Vx == nn`.
    SkipIfEqImm { x: u8, nn: u8 },
    /// `4xnn`: skip the next instruction if `Vx != nn`.
    SkipIfNeImm { x: u8, nn: u8 },
    /// `5xy0`: skip the next instruction if `Vx == Vy`.
    SkipIfEqReg { x: u8, y: u8 },
    /// `9xy0`: skip the next instruction if `Vx != Vy`.
    SkipIfNeReg { x: u8, y: u8 },
    /// `6xnn`: `Vx = nn`.
    LoadImm { x: u8, nn: u8 },
    /// `7xnn`: `Vx = Vx + nn`, wrapping.
    AddImm { x: u8, nn: u8 },
    /// `8xy0`: `Vx = Vy`.
    Move { x: u8, y: u8 },
    /// `8xy1`: `Vx = Vx | Vy`.
    Or { x: u8, y: u8 },
    /// `8xy2`: `Vx = Vx & Vy`.
    And { x: u8, y: u8 },
    /// `8xy3`: `Vx = Vx ^ Vy`.
    Xor { x: u8, y: u8 },
    /// `8xy4`: `Vx = Vx + Vy`, wrapping; `VF` is the carry.
    AddReg { x: u8, y: u8 },
    /// `8xy5`: `Vx = Vx - Vy`, wrapping; `VF` is 1 when there is no borrow.
    SubReg { x: u8, y: u8 },
    /// `8xy6`: `VF = Vx & 1`, then `Vx >>= 1`.
    ShiftRight { x: u8, y: u8 },
    /// `8xy7`: `Vx = Vy - Vx`, wrapping; `VF` is 1 when there is no borrow.
    SubRev { x: u8, y: u8 },
    /// `8xyE`: `VF = Vx & 0x80`, then `Vx <<= 1`.
    ShiftLeft { x: u8, y: u8 },
    /// `Annn`: `I = nnn`.
    LoadIndex { addr: u16 },
    /// `Bnnn`: jump to `nnn + V0`.
    JumpOffset { addr: u16 },
    /// `Cxnn`: `Vx = random byte & nn`.
    Random { x: u8, nn: u8 },
    /// `Dxyn`: draw the `n`-byte sprite at `I` at `(Vx, Vy)`; `VF` is the collision flag.
    Draw { x: u8, y: u8, n: u8 },
    /// `Ex9E`: skip the next instruction if key `Vx` is pressed.
    SkipIfKey { x: u8 },
    /// `ExA1`: skip the next instruction if key `Vx` is not pressed.
    SkipIfNotKey { x: u8 },
    /// `Fx07`: `Vx = delay timer`.
    ReadDelay { x: u8 },
    /// `Fx0A`: wait until a key is pressed and store the lowest one in `Vx`.
    WaitKey { x: u8 },
    /// `Fx15`: `delay timer = Vx`.
    SetDelay { x: u8 },
    /// `Fx18`: `sound timer = Vx`.
    SetSound { x: u8 },
    /// `Fx1E`: `I = I + Vx`.
    AddIndex { x: u8 },
    /// `Fx29`: `I` = address of the font glyph for the low nibble of `Vx`.
    FontGlyph { x: u8 },
    /// `Fx33`: store the three decimal digits of `Vx` at `I`, `I+1`, `I+2`.
    StoreBcd { x: u8 },
    /// `Fx55`: store `V0..=Vx` at `I..=I+x`.
    StoreRegs { x: u8 },
    /// `Fx65`: load `V0..=Vx` from `I..=I+x`.
    LoadRegs { x: u8 },
}

/// The four nibbles of an instruction word, most significant first.
pub open spec fn nibbles(op: u16) -> (u16, u16, u16, u16) {
    (op / 0x1000, (op / 0x100) % 0x10, (op / 0x10) % 0x10, op % 0x10)
}

/// The instruction that `op` encodes, if any.
pub open spec fn decode_spec(op: u16) -> Option<Instruction> {
    let (a, b, c, d) = nibbles(op);
    let x = b as u8;
    let y = c as u8;
    let n = d as u8;
    let nn = (op % 0x100) as u8;
    let addr = (op % 0x1000) as u16;
    if a == 0x0 && b == 0x0 && c == 0xE && d == 0x0 {
        Some(Instruction::ClearScreen)
    } else if a == 0x0 && b == 0x0 && c == 0xE && d == 0xE {
        Some(Instruction::Return)
    } else if a == 0x1 {
        Some(Instruction::Jump { addr })
    } else if a == 0x2 {
        Some(Instruction::Call { addr })
    } else if a == 0x3 {
        Some(Instruction::SkipIfEqImm { x, nn })
    } else if a == 0x4 {
        Some(Instruction::SkipIfNeImm { x, nn })
    } else if a == 0x5 && d == 0x0 {
        Some(Instruction::SkipIfEqReg { x, y })
    } else if a == 0x6 {
        Some(Instruction::LoadImm { x, nn })
    } else if a == 0x7 {
        Some(Instruction::AddImm { x, nn })
    } else if a == 0x8 && d == 0x0 {
        Some(Instruction::Move { x, y })
    } else if a == 0x8 && d == 0x1 {
        Some(Instruction::Or { x, y })
    } else if a == 0x8 && d == 0x2 {
        Some(Instruction::And { x, y })
    } else if a == 0x8 && d == 0x3 {
        Some(Instruction::Xor { x, y })
    } else if a == 0x8 && d == 0x4 {
        Some(Instruction::AddReg { x, y })
    } else if a == 0x8 && d == 0x5 {
        Some(Instruction::SubReg { x, y })
    } else if a == 0x8 && d == 0x6 {
        Some(Instruction::ShiftRight { x, y })
    } else if a == 0x8 && d == 0x7 {
        Some(Instruction::SubRev { x, y })
    } else if a == 0x8 && d == 0xE {
        Some(Instruction::ShiftLeft { x, y })
    } else if a == 0x9 && d == 0x0 {
        Some(Instruction::SkipIfNeReg { x, y })
    } else if a == 0xA {
        Some(Instruction::LoadIndex { addr })
    } else if a == 0xB {
        Some(Instruction::JumpOffset { addr })
    } else if a == 0xC {
        Some(Instruction::Random { x, nn })
    } else if a == 0xD {
        Some(Instruction::Draw { x, y, n })
    } else if a == 0xE && c == 0x9 && d == 0xE {
        Some(Instruction::SkipIfKey { x })
    } else if a == 0xE && c == 0xA && d == 0x1 {
        Some(Instruction::SkipIfNotKey { x })
    } else if a == 0xF && c == 0x0 && d == 0x7 {
        Some(Instruction::ReadDelay { x })
    } else if a == 0xF && c == 0x0 && d == 0xA {
        Some(Instruction::WaitKey { x })
    } else if a == 0xF && c == 0x1 && d == 0x5 {
        Some(Instruction::SetDelay { x })
    } else if a == 0xF && c == 0x1 && d == 0x8 {
        Some(Instruction::SetSound { x })
    } else if a == 0xF && c == 0x1 && d == 0xE {
        Some(Instruction::AddIndex { x })
    } else if a == 0xF && c == 0x2 && d == 0x9 {
        Some(Instruction::FontGlyph { x })
    } else if a == 0xF && c == 0x3 && d == 0x3 {
        Some(Instruction::StoreBcd { x })
    } else if a == 0xF && c == 0x5 && d == 0x5 {
        Some(Instruction::StoreRegs { x })
    } else if a == 0xF && c == 0x6 && d == 0x5 {
        Some(Instruction::LoadRegs { x })
    } else {
        None
    }
}

impl Instruction {
    /// Register indices are below 16, addresses below 0x1000, sprite
    /// heights below 16: what every decoded instruction satisfies.
    pub open spec fn well_formed(self) -> bool {
        match self {
            Instruction::Jump { addr } => addr < 0x1000,
            Instruction::Call { addr } => addr < 0x1000,
            Instruction::LoadIndex { addr } => addr < 0x1000,
            Instruction::JumpOffset { addr } => addr < 0x1000,
            Instruction::SkipIfEqImm { x, .. } => x < 16,
            Instruction::SkipIfNeImm { x, .. } => x < 16,
            Instruction::LoadImm { x, .. } => x < 16,
            Instruction::AddImm { x, .. } => x < 16,
            Instruction::Random { x, .. } => x < 16,
            Instruction::SkipIfEqReg { x, y } => x < 16 && y < 16,
            Instruction::SkipIfNeReg { x, y } => x < 16 && y < 16,
            Instruction::Move { x, y } => x < 16 && y < 16,
            Instruction::Or { x, y } => x < 16 && y < 16,
            Instruction::And { x, y } => x < 16 && y < 16,
            Instruction::Xor { x, y } => x < 16 && y < 16,
            Instruction::AddReg { x, y } => x < 16 && y < 16,
            Instruction::SubReg { x, y } => x < 16 && y < 16,
            Instruction::ShiftRight { x, y } => x < 16 && y < 16,
            Instruction::SubRev { x, y } => x < 16 && y < 16,
            Instruction::ShiftLeft { x, y } => x < 16 && y < 16,
            Instruction::Draw { x, y, n } => x < 16 && y < 16 && n < 16,
            Instruction::SkipIfKey { x } => x < 16,
            Instruction::SkipIfNotKey { x } => x < 16,
            Instruction::ReadDelay { x } => x < 16,
            Instruction::WaitKey { x } => x < 16,
            Instruction::SetDelay { x } => x < 16,
            Instruction::SetSound { x } => x < 16,
            Instruction::AddIndex { x } => x < 16,
            Instruction::FontGlyph { x } => x < 16,
            Instruction::StoreBcd { x } => x < 16,
            Instruction::StoreRegs { x } => x < 16,
            Instruction::LoadRegs { x } => x < 16,
            Instruction::ClearScreen => true,
            Instruction::Return => true,
        }
    }

    /// Decodes an instruction word by its nibbles; `None` for a word that
    /// matches no instruction.
    pub fn decode(opcode: u16) -> (r: Option<Instruction>)
        ensures
            r == decode_spec(opcode),
            r matches Some(ins) ==> ins.well_formed(),
    {
        let a = opcode / 0x1000;
        let b = (opcode / 0x100) % 0x10;
        let c = (opcode / 0x10) % 0x10;
        let d = opcode % 0x10;
        let x = b as u8;
        let y = c as u8;
        let n = d as u8;
        let nn = (opcode % 0x100) as u8;
        let addr = opcode % 0x1000;
        match a {
            0x0 => match (b, c, d) {
                (0x0, 0xE, 0x0) => Some(Instruction::ClearScreen),
                (0x0, 0xE, 0xE) => Some(Instruction::Return),
                _ => None,
            },
            0x1 => Some(Instruction::Jump { addr }),
            0x2 => Some(Instruction::Call { addr }),
            0x3 => Some(Instruction::SkipIfEqImm { x, nn }),
            0x4 => Some(Instruction::SkipIfNeImm { x, nn }),
            0x5 => if d == 0x0 {
                Some(Instruction::SkipIfEqReg { x, y })
            } else {
                None
            },
            0x6 => Some(Instruction::LoadImm { x, nn }),
            0x7 => Some(Instruction::AddImm { x, nn }),
            0x8 => match d {
                0x0 => Some(Instruction::Move { x, y }),
                0x1 => Some(Instruction::Or { x, y }),
                0x2 => Some(Instruction::And { x, y }),
                0x3 => Some(Instruction::Xor { x, y }),
                0x4 => Some(Instruction::AddReg { x, y }),
                0x5 => Some(Instruction::SubReg { x, y }),
                0x6 => Some(Instruction::ShiftRight { x, y }),
                0x7 => Some(Instruction::SubRev { x, y }),
                0xE => Some(Instruction::ShiftLeft { x, y }),
                _ => None,
            },
            0x9 => if d == 0x0 {
                Some(Instruction::SkipIfNeReg { x, y })
            } else {
                None
            },
            0xA => Some(Instruction::LoadIndex { addr }),
            0xB => Some(Instruction::JumpOffset { addr }),
            0xC => Some(Instruction::Random { x, nn }),
            0xD => Some(Instruction::Draw { x, y, n }),
            0xE => match (c, d) {
                (0x9, 0xE) => Some(Instruction::SkipIfKey { x }),
                (0xA, 0x1) => Some(Instruction::SkipIfNotKey { x }),
                _ => None,
            },
            _ => match (c, d) {
                (0x0, 0x7) => Some(Instruction::ReadDelay { x }),
                (0x0, 0xA) => Some(Instruction::WaitKey { x }),
                (0x1, 0x5) => Some(Instruction::SetDelay { x }),
                (0x1, 0x8) => Some(Instruction::SetSound { x }),
                (0x1, 0xE) => Some(Instruction::AddIndex { x }),
                (0x2, 0x9) => Some(Instruction::FontGlyph { x }),
                (0x3, 0x3) => Some(Instruction::StoreBcd { x }),
                (0x5, 0x5) => Some(Instruction::StoreRegs { x }),
                (0x6, 0x5) => Some(Instruction::LoadRegs { x }),
                _ => None,
            },
        }
    }
}

} // verus!
