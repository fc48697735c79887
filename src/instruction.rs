//! Decoding of 16-bit opcodes into the base CHIP-8 instruction set.

use vstd::prelude::*;

verus! {

/// The first (highest) nibble of an opcode.
pub open spec fn nib1(op: u16) -> int {
    op as int / 4096
}

/// The second nibble of an opcode (the `x` register field).
pub open spec fn nib2(op: u16) -> int {
    (op as int / 256) % 16
}

/// The third nibble of an opcode (the `y` register field).
pub open spec fn nib3(op: u16) -> int {
    (op as int / 16) % 16
}

/// The fourth (lowest) nibble of an opcode.
pub open spec fn nib4(op: u16) -> int {
    op as int % 16
}

/// The low twelve bits of an opcode (an address).
pub open spec fn addr_of(op: u16) -> u16 {
    (op as int % 4096) as u16
}

/// The low eight bits of an opcode (an immediate byte).
pub open spec fn byte_of(op: u16) -> u8 {
    (op as int % 256) as u8
}

/// One decoded instruction. Register fields hold a register number in `0..16`.
#[derive(Clone, Copy, Debug, PartialEq, Eq, Structural)]
pub enum Instruction {
    /// `00E0`: clear the frame buffer.
    Clear,
    /// `00EE`: return from a subroutine.
    Return,
    /// `1nnn`: jump to `nnn`.
    Jump { addr: u16 },
    /// `2nnn`: call the subroutine at `nnn`.
    Call { addr: u16 },
    /// `3xkk`: skip the next instruction if `Vx == kk`.
    SkipIfEqualByte { x: u8, byte: u8 },
    /// `4xkk`: skip the next instruction if `Vx != kk`.
    SkipIfNotEqualByte { x: u8, byte: u8 },
    /// `5xy0`: skip the next instruction if `Vx == Vy`.
    SkipIfEqualReg { x: u8, y: u8 },
    /// `6xkk`: `Vx = kk`.
    LoadByte { x: u8, byte: u8 },
    /// `7xkk`: `Vx = Vx + kk`, wrapping.
    AddByte { x: u8, byte: u8 },
    /// `8xy0`: `Vx = Vy`.
    LoadReg { x: u8, y: u8 },
    /// `8xy1`: `Vx = Vx | Vy`.
    Or { x: u8, y: u8 },
    /// `8xy2`: `Vx = Vx & Vy`.
    And { x: u8, y: u8 },
    /// `8xy3`: `Vx = Vx ^ Vy`.
    Xor { x: u8, y: u8 },
    /// `8xy4`: `Vx = Vx + Vy`, `VF` = carry.
    AddReg { x: u8, y: u8 },
    /// `8xy5`: `Vx = Vx - Vy`, `VF` = not borrow.
    SubReg { x: u8, y: u8 },
    /// `8xy6`: `Vx = Vx >> 1`, `VF` = the bit shifted out.
    ShiftRight { x: u8, y: u8 },
    /// `8xy7`: `Vx = Vy - Vx`, `VF` = not borrow.
    SubNeg { x: u8, y: u8 },
    /// `8xyE`: `Vx = Vx << 1`, `VF` = the bit shifted out.
    ShiftLeft { x: u8, y: u8 },
    /// `9xy0`: skip the next instruction if `Vx != Vy`.
    SkipIfNotEqualReg { x: u8, y: u8 },
    /// `Annn`: `I = nnn`.
    LoadIndex { addr: u16 },
    /// `Bnnn`: jump to `V0 + nnn`.
    JumpOffset { addr: u16 },
    /// `Cxkk`: `Vx = random byte & kk`.
    Random { x: u8, byte: u8 },
    /// `Dxyn`: draw an `n`-row sprite from `memory[I..]` at `(Vx, Vy)`.
    Draw { x: u8, y: u8, height: u8 },
    /// `Ex9E`: skip the next instruction if key `Vx` is pressed.
    SkipIfKey { x: u8 },
    /// `ExA1`: skip the next instruction if key `Vx` is not pressed.
    SkipIfNotKey { x: u8 },
    /// `Fx07`: `Vx = delay timer`.
    LoadDelay { x: u8 },
    /// `Fx0A`: wait for a key press and store its number in `Vx`.
    WaitKey { x: u8 },
    /// `Fx15`: `delay timer = Vx`.
    SetDelay { x: u8 },
    /// `Fx18`: `sound timer = Vx`.
    SetSound { x: u8 },
    /// `Fx1E`: `I = I + Vx`, wrapping at 16 bits.
    AddIndex { x: u8 },
    /// `Fx29`: `I` = address of the font glyph for digit `Vx`.
    LoadFont { x: u8 },
    /// `Fx33`: store the decimal digits of `Vx` at `memory[I..I+3]`.
    StoreBcd { x: u8 },
    /// `Fx55`: store `V0..=Vx` at `memory[I..]`.
    StoreRegs { x: u8 },
    /// `Fx65`: load `V0..=Vx` from `memory[I..]`.
    LoadRegs { x: u8 },
    /// Any opcode outside the instruction set.
    Unknown { opcode: u16 },
}

/// The number of instructions in the set (every variant but `Unknown`).
pub const NUM_CLASSES: u8 = 34;

/// Whether `op` fits the nibble pattern of instruction class `k` (`0 <= k < NUM_CLASSES`),
/// classes numbered in the order of the variants of `Instruction`.
pub open spec fn fits_pattern(op: u16, k: int) -> bool {
    let (a, b, c, d) = (nib1(op), nib2(op), nib3(op), nib4(op));
    if k == 0 { a == 0 && b == 0 && c == 0xe && d == 0 }
    else if k == 1 { a == 0 && b == 0 && c == 0xe && d == 0xe }
    else if k == 2 { a == 1 }
    else if k == 3 { a == 2 }
    else if k == 4 { a == 3 }
    else if k == 5 { a == 4 }
    else if k == 6 { a == 5 && d == 0 }
    else if k == 7 { a == 6 }
    else if k == 8 { a == 7 }
    else if k == 9 { a == 8 && d == 0 }
    else if k == 10 { a == 8 && d == 1 }
    else if k == 11 { a == 8 && d == 2 }
    else if k == 12 { a == 8 && d == 3 }
    else if k == 13 { a == 8 && d == 4 }
    else if k == 14 { a == 8 && d == 5 }
    else if k == 15 { a == 8 && d == 6 }
    else if k == 16 { a == 8 && d == 7 }
    else if k == 17 { a == 8 && d == 0xe }
    else if k == 18 { a == 9 && d == 0 }
    else if k == 19 { a == 0xa }
    else if k == 20 { a == 0xb }
    else if k == 21 { a == 0xc }
    else if k == 22 { a == 0xd }
    else if k == 23 { a == 0xe && c == 9 && d == 0xe }
    else if k == 24 { a == 0xe && c == 0xa && d == 1 }
    else if k == 25 { a == 0xf && c == 0 && d == 7 }
    else if k == 26 { a == 0xf && c == 0 && d == 0xa }
    else if k == 27 { a == 0xf && c == 1 && d == 5 }
    else if k == 28 { a == 0xf && c == 1 && d == 8 }
    else if k == 29 { a == 0xf && c == 1 && d == 0xe }
    else if k == 30 { a == 0xf && c == 2 && d == 9 }
    else if k == 31 { a == 0xf && c == 3 && d == 3 }
    else if k == 32 { a == 0xf && c == 5 && d == 5 }
    else if k == 33 { a == 0xf && c == 6 && d == 5 }
    else { false }
}

impl Instruction {
    /// The class number of an instruction, as `fits_pattern` numbers them;
    /// `Unknown` is `NUM_CLASSES`.
    pub open spec fn class(self) -> int {
        match self {
            Instruction::Clear => 0,
            Instruction::Return => 1,
            Instruction::Jump { .. } => 2,
            Instruction::Call { .. } => 3,
            Instruction::SkipIfEqualByte { .. } => 4,
            Instruction::SkipIfNotEqualByte { .. } => 5,
            Instruction::SkipIfEqualReg { .. } => 6,
            Instruction::LoadByte { .. } => 7,
            Instruction::AddByte { .. } => 8,
            Instruction::LoadReg { .. } => 9,
            Instruction::Or { .. } => 10,
            Instruction::And { .. } => 11,
            Instruction::Xor { .. } => 12,
            Instruction::AddReg { .. } => 13,
            Instruction::SubReg { .. } => 14,
            Instruction::ShiftRight { .. } => 15,
            Instruction::SubNeg { .. } => 16,
            Instruction::ShiftLeft { .. } => 17,
            Instruction::SkipIfNotEqualReg { .. } => 18,
            Instruction::LoadIndex { .. } => 19,
            Instruction::JumpOffset { .. } => 20,
            Instruction::Random { .. } => 21,
            Instruction::Draw { .. } => 22,
            Instruction::SkipIfKey { .. } => 23,
            Instruction::SkipIfNotKey { .. } => 24,
            Instruction::LoadDelay { .. } => 25,
            Instruction::WaitKey { .. } => 26,
            Instruction::SetDelay { .. } => 27,
            Instruction::SetSound { .. } => 28,
            Instruction::AddIndex { .. } => 29,
            Instruction::LoadFont { .. } => 30,
            Instruction::StoreBcd { .. } => 31,
            Instruction::StoreRegs { .. } => 32,
            Instruction::LoadRegs { .. } => 33,
            Instruction::Unknown { .. } => 34,
        }
    }

    /// Every register field names one of the sixteen registers, and a sprite
    /// height is a single nibble.
    pub open spec fn well_formed(self) -> bool {
        match self {
            Instruction::SkipIfEqualByte { x, .. } | Instruction::SkipIfNotEqualByte { x, .. }
            | Instruction::LoadByte { x, .. } | Instruction::AddByte { x, .. }
            | Instruction::Random { x, .. } | Instruction::SkipIfKey { x }
            | Instruction::SkipIfNotKey { x } | Instruction::LoadDelay { x }
            | Instruction::WaitKey { x } | Instruction::SetDelay { x }
            | Instruction::SetSound { x } | Instruction::AddIndex { x }
            | Instruction::LoadFont { x } | Instruction::StoreBcd { x }
            | Instruction::StoreRegs { x } | Instruction::LoadRegs { x } => x < 16,
            Instruction::SkipIfEqualReg { x, y } | Instruction::LoadReg { x, y }
            | Instruction::Or { x, y } | Instruction::And { x, y } | Instruction::Xor { x, y }
            | Instruction::AddReg { x, y } | Instruction::SubReg { x, y }
            | Instruction::ShiftRight { x, y } | Instruction::SubNeg { x, y }
            | Instruction::ShiftLeft { x, y }
            | Instruction::SkipIfNotEqualReg { x, y } => x < 16 && y < 16,
            Instruction::Draw { x, y, height } => x < 16 && y < 16 && height < 16,
            Instruction::Jump { addr } | Instruction::Call { addr }
            | Instruction::LoadIndex { addr } | Instruction::JumpOffset { addr } => addr < 4096,
            _ => true,
        }
    }
}

/// What `decode` returns for `op`: the instruction whose pattern it fits, or
/// `Unknown`.
pub open spec fn decode_spec(op: u16) -> Instruction {
    let (a, b, c, d) = (nib1(op), nib2(op), nib3(op), nib4(op));
    let x = b as u8;
    let y = c as u8;
    let addr = addr_of(op);
    let byte = byte_of(op);
    if a == 0 && b == 0 && c == 0xe && d == 0 { Instruction::Clear }
    else if a == 0 && b == 0 && c == 0xe && d == 0xe { Instruction::Return }
    else if a == 1 { Instruction::Jump { addr } }
    else if a == 2 { Instruction::Call { addr } }
    else if a == 3 { Instruction::SkipIfEqualByte { x, byte } }
    else if a == 4 { Instruction::SkipIfNotEqualByte { x, byte } }
    else if a == 5 && d == 0 { Instruction::SkipIfEqualReg { x, y } }
    else if a == 6 { Instruction::LoadByte { x, byte } }
    else if a == 7 { Instruction::AddByte { x, byte } }
    else if a == 8 && d == 0 { Instruction::LoadReg { x, y } }
    else if a == 8 && d == 1 { Instruction::Or { x, y } }
    else if a == 8 && d == 2 { Instruction::And { x, y } }
    else if a == 8 && d == 3 { Instruction::Xor { x, y } }
    else if a == 8 && d == 4 { Instruction::AddReg { x, y } }
    else if a == 8 && d == 5 { Instruction::SubReg { x, y } }
    else if a == 8 && d == 6 { Instruction::ShiftRight { x, y } }
    else if a == 8 && d == 7 { Instruction::SubNeg { x, y } }
    else if a == 8 && d == 0xe { Instruction::ShiftLeft { x, y } }
    else if a == 9 && d == 0 { Instruction::SkipIfNotEqualReg { x, y } }
    else if a == 0xa { Instruction::LoadIndex { addr } }
    else if a == 0xb { Instruction::JumpOffset { addr } }
    else if a == 0xc { Instruction::Random { x, byte } }
    else if a == 0xd { Instruction::Draw { x, y, height: d as u8 } }
    else if a == 0xe && c == 9 && d == 0xe { Instruction::SkipIfKey { x } }
    else if a == 0xe && c == 0xa && d == 1 { Instruction::SkipIfNotKey { x } }
    else if a == 0xf && c == 0 && d == 7 { Instruction::LoadDelay { x } }
    else if a == 0xf && c == 0 && d == 0xa { Instruction::WaitKey { x } }
    else if a == 0xf && c == 1 && d == 5 { Instruction::SetDelay { x } }
    else if a == 0xf && c == 1 && d == 8 { Instruction::SetSound { x } }
    else if a == 0xf && c == 1 && d == 0xe { Instruction::AddIndex { x } }
    else if a == 0xf && c == 2 && d == 9 { Instruction::LoadFont { x } }
    else if a == 0xf && c == 3 && d == 3 { Instruction::StoreBcd { x } }
    else if a == 0xf && c == 5 && d == 5 { Instruction::StoreRegs { x } }
    else if a == 0xf && c == 6 && d == 5 { Instruction::LoadRegs { x } }
    else { Instruction::Unknown { opcode: op } }
}

/// Splits `opcode` into its nibbles and fields and picks the instruction
/// whose pattern it fits.
pub fn decode(opcode: u16) -> (r: Instruction)
    ensures
        r == decode_spec(opcode),
        r.well_formed(),
{
    let a: u16 = opcode / 4096;
    let b: u16 = (opcode / 256) % 16;
    let c: u16 = (opcode / 16) % 16;
    let d: u16 = opcode % 16;
    let x = b as u8;
    let y = c as u8;
    let addr: u16 = opcode % 4096;
    let byte = (opcode % 256) as u8;
    match (a, b, c, d) {
        (0, 0, 0xe, 0) => Instruction::Clear,
        (0, 0, 0xe, 0xe) => Instruction::Return,
        (1, _, _, _) => Instruction::Jump { addr },
        (2, _, _, _) => Instruction::Call { addr },
        (3, _, _, _) => Instruction::SkipIfEqualByte { x, byte },
        (4, _, _, _) => Instruction::SkipIfNotEqualByte { x, byte },
        (5, _, _, 0) => Instruction::SkipIfEqualReg { x, y },
        (6, _, _, _) => Instruction::LoadByte { x, byte },
        (7, _, _, _) => Instruction::AddByte { x, byte },
        (8, _, _, 0) => Instruction::LoadReg { x, y },
        (8, _, _, 1) => Instruction::Or { x, y },
        (8, _, _, 2) => Instruction::And { x, y },
        (8, _, _, 3) => Instruction::Xor { x, y },
        (8, _, _, 4) => Instruction::AddReg { x, y },
        (8, _, _, 5) => Instruction::SubReg { x, y },
        (8, _, _, 6) => Instruction::ShiftRight { x, y },
        (8, _, _, 7) => Instruction::SubNeg { x, y },
        (8, _, _, 0xe) => Instruction::ShiftLeft { x, y },
        (9, _, _, 0) => Instruction::SkipIfNotEqualReg { x, y },
        (0xa, _, _, _) => Instruction::LoadIndex { addr },
        (0xb, _, _, _) => Instruction::JumpOffset { addr },
        (0xc, _, _, _) => Instruction::Random { x, byte },
        (0xd, _, _, _) => Instruction::Draw { x, y, height: d as u8 },
        (0xe, _, 9, 0xe) => Instruction::SkipIfKey { x },
        (0xe, _, 0xa, 1) => Instruction::SkipIfNotKey { x },
        (0xf, _, 0, 7) => Instruction::LoadDelay { x },
        (0xf, _, 0, 0xa) => Instruction::WaitKey { x },
        (0xf, _, 1, 5) => Instruction::SetDelay { x },
        (0xf, _, 1, 8) => Instruction::SetSound { x },
        (0xf, _, 1, 0xe) => Instruction::AddIndex { x },
        (0xf, _, 2, 9) => Instruction::LoadFont { x },
        (0xf, _, 3, 3) => Instruction::StoreBcd { x },
        (0xf, _, 5, 5) => Instruction::StoreRegs { x },
        (0xf, _, 6, 5) => Instruction::LoadRegs { x },
        _ => Instruction::Unknown { opcode },
    }
}

/// No two instruction patterns overlap: every opcode fits at most one of
/// them, and `decode` picks exactly that one, or `Unknown` when it fits none.
pub proof fn lemma_decode_dispatches_once(op: u16, k: int, k2: int)
    requires
        0 <= k < NUM_CLASSES,
        0 <= k2 < NUM_CLASSES,
    ensures
        fits_pattern(op, k) && fits_pattern(op, k2) ==> k == k2,
        fits_pattern(op, k) <==> decode_spec(op).class() == k,
        decode_spec(op).class() == NUM_CLASSES as int
            <==> forall|j: int| 0 <= j < NUM_CLASSES ==> !fits_pattern(op, j),
{
    let a = nib1(op);
    let d = nib4(op);
    assert(0 <= a < 16 && 0 <= nib2(op) < 16 && 0 <= nib3(op) < 16 && 0 <= d < 16);
    if decode_spec(op).class() == NUM_CLASSES as int {
        assert forall|j: int| 0 <= j < NUM_CLASSES implies !fits_pattern(op, j) by {}
    } else {
        assert(fits_pattern(op, decode_spec(op).class()));
    }
}

} // verus!
