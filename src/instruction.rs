use vstd::prelude::*;

verus! {

/// One CHIP-8 instruction, decoded from its 16-bit word.
///
/// Register operands (`x`, `y`) are register numbers 0 to 15, addresses are
/// 12-bit values and immediates are bytes.
#[derive(PartialEq, Eq, Structural, Clone, Copy, Debug)]
pub enum Instruction {
    /// `00E0`: clear the display.
    Cls,
    /// `00EE`: return from a subroutine.
    Ret,
    /// `1nnn`: jump to `nnn`.
    Jump(u16),
    /// `2nnn`: call the subroutine at `nnn`.
    Call(u16),
    /// `3xkk`: skip the next instruction if `Vx == kk`.
    SkipEqByte(u8, u8),
    /// `4xkk`: skip the next instruction if `Vx != kk`.
    SkipNeByte(u8, u8),
    /// `5xy0`: skip the next instruction if `Vx == Vy`.
    SkipEqReg(u8, u8),
    /// `6xkk`: `Vx = kk`.
    LoadByte(u8, u8),
    /// `7xkk`: `Vx = Vx + kk`, wrapping, flags untouched.
    AddByte(u8, u8),
    /// `8xy0`: `Vx = Vy`.
    LoadReg(u8, u8),
    /// `8xy1`: `Vx = Vx | Vy`.
    Or(u8, u8),
    /// `8xy2`: `Vx = Vx & Vy`.
    And(u8, u8),
    /// `8xy3`: `Vx = Vx ^ Vy`.
    Xor(u8, u8),
    /// `8xy4`: `Vx = Vx + Vy`, `VF` = carry.
    AddReg(u8, u8),
    /// `8xy5`: `Vx = Vx - Vy`, `VF` = not borrow.
    Sub(u8, u8),
    /// `8xy6`: `Vx = Vx >> 1`, `VF` = the bit shifted out.
    ShiftRight(u8),
    /// `8xy7`: `Vx = Vy - Vx`, `VF` = not borrow.
    SubN(u8, u8),
    /// `8xyE`: `Vx = Vx << 1`, `VF` = the bit shifted out.
    ShiftLeft(u8),
    /// `9xy0`: skip the next instruction if `Vx != Vy`.
    SkipNeReg(u8, u8),
    /// `Annn`: `I = nnn`.
    LoadIndex(u16),
    /// `Bnnn`: jump to `nnn + V0`.
    JumpV0(u16),
    /// `Cxkk`: `Vx = random byte & kk`.
    Random(u8, u8),
    /// `Dxyn`: draw the `n`-row sprite at `I` at `(Vx, Vy)`, `VF` = collision.
    Draw(u8, u8, u8),
    /// `Ex9E`: skip the next instruction if the key `Vx` is pressed.
    SkipKey(u8),
    /// `ExA1`: skip the next instruction if the key `Vx` is not pressed.
    SkipNotKey(u8),
    /// `Fx07`: `Vx = delay timer`.
    LoadDelay(u8),
    /// `Fx0A`: wait for a key press and store its number in `Vx`.
    WaitKey(u8),
    /// `Fx15`: `delay timer = Vx`.
    SetDelay(u8),
    /// `Fx18`: `sound timer = Vx`.
    SetSound(u8),
    /// `Fx1E`: `I = I + Vx`.
    AddIndex(u8),
    /// `Fx29`: `I` = address of the font glyph for the digit `Vx`.
    LoadFont(u8),
    /// `Fx33`: store the decimal digits of `Vx` at `I`, `I+1`, `I+2`.
    StoreBcd(u8),
    /// `Fx55`: store `V0..=Vx` at `I..=I+x`, then `I = I + x + 1`.
    StoreRegs(u8),
    /// `Fx65`: load `V0..=Vx` from `I..=I+x`, then `I = I + x + 1`.
    LoadRegs(u8),
}

/// The high nibble of a word: the primary dispatch key.
pub open spec fn op_class(w: u16) -> u16 {
    (w & 0xF000) >> 12
}

/// The 12-bit address field `nnn`.
pub open spec fn op_addr(w: u16) -> u16 {
    w & 0x0FFF
}

/// The low nibble `n`.
pub open spec fn op_nibble(w: u16) -> u8 {
    (w & 0x000F) as u8
}

/// The register field `x` (bits 8 to 11).
pub open spec fn op_x(w: u16) -> u8 {
    ((w & 0x0F00) >> 8) as u8
}

/// The register field `y` (bits 4 to 7).
pub open spec fn op_y(w: u16) -> u8 {
    ((w & 0x00F0) >> 4) as u8
}

/// The immediate byte `kk`.
pub open spec fn op_byte(w: u16) -> u8 {
    (w & 0x00FF) as u8
}

/// The instruction table: which instruction a word encodes, if any.
pub open spec fn spec_decode(w: u16) -> Option<Instruction> {
    let x = op_x(w);
    let y = op_y(w);
    let n = op_nibble(w);
    let kk = op_byte(w);
    let nnn = op_addr(w);
    let c = op_class(w);
    if c == 0x0 {
        if w == 0x00E0 {
            Some(Instruction::Cls)
        } else if w == 0x00EE {
            Some(Instruction::Ret)
        } else {
            None
        }
    } else if c == 0x1 {
        Some(Instruction::Jump(nnn))
    } else if c == 0x2 {
        Some(Instruction::Call(nnn))
    } else if c == 0x3 {
        Some(Instruction::SkipEqByte(x, kk))
    } else if c == 0x4 {
        Some(Instruction::SkipNeByte(x, kk))
    } else if c == 0x5 {
        if n == 0 { Some(Instruction::SkipEqReg(x, y)) } else { None }
    } else if c == 0x6 {
        Some(Instruction::LoadByte(x, kk))
    } else if c == 0x7 {
        Some(Instruction::AddByte(x, kk))
    } else if c == 0x8 {
        if n == 0x0 {
            Some(Instruction::LoadReg(x, y))
        } else if n == 0x1 {
            Some(Instruction::Or(x, y))
        } else if n == 0x2 {
            Some(Instruction::And(x, y))
        } else if n == 0x3 {
            Some(Instruction::Xor(x, y))
        } else if n == 0x4 {
            Some(Instruction::AddReg(x, y))
        } else if n == 0x5 {
            Some(Instruction::Sub(x, y))
        } else if n == 0x6 {
            Some(Instruction::ShiftRight(x))
        } else if n == 0x7 {
            Some(Instruction::SubN(x, y))
        } else if n == 0xE {
            Some(Instruction::ShiftLeft(x))
        } else {
            None
        }
    } else if c == 0x9 {
        if n == 0 { Some(Instruction::SkipNeReg(x, y)) } else { None }
    } else if c == 0xA {
        Some(Instruction::LoadIndex(nnn))
    } else if c == 0xB {
        Some(Instruction::JumpV0(nnn))
    } else if c == 0xC {
        Some(Instruction::Random(x, kk))
    } else if c == 0xD {
        Some(Instruction::Draw(x, y, n))
    } else if c == 0xE {
        if kk == 0x9E {
            Some(Instruction::SkipKey(x))
        } else if kk == 0xA1 {
            Some(Instruction::SkipNotKey(x))
        } else {
            None
        }
    } else if kk == 0x07 {
        Some(Instruction::LoadDelay(x))
    } else if kk == 0x0A {
        Some(Instruction::WaitKey(x))
    } else if kk == 0x15 {
        Some(Instruction::SetDelay(x))
    } else if kk == 0x18 {
        Some(Instruction::SetSound(x))
    } else if kk == 0x1E {
        Some(Instruction::AddIndex(x))
    } else if kk == 0x29 {
        Some(Instruction::LoadFont(x))
    } else if kk == 0x33 {
        Some(Instruction::StoreBcd(x))
    } else if kk == 0x55 {
        Some(Instruction::StoreRegs(x))
    } else if kk == 0x65 {
        Some(Instruction::LoadRegs(x))
    } else {
        None
    }
}

impl Instruction {
    /// Every operand is in range: registers below 16, addresses below 4096,
    /// sprite heights below 16.
    pub open spec fn wf(self) -> bool {
        match self {
            Instruction::Cls | Instruction::Ret => true,
            Instruction::Jump(a) | Instruction::Call(a) | Instruction::LoadIndex(a)
            | Instruction::JumpV0(a) => a < 4096,
            Instruction::SkipEqByte(x, _) | Instruction::SkipNeByte(x, _)
            | Instruction::LoadByte(x, _) | Instruction::AddByte(x, _)
            | Instruction::Random(x, _) => x < 16,
            Instruction::SkipEqReg(x, y) | Instruction::SkipNeReg(x, y)
            | Instruction::LoadReg(x, y) | Instruction::Or(x, y) | Instruction::And(x, y)
            | Instruction::Xor(x, y) | Instruction::AddReg(x, y) | Instruction::Sub(x, y)
            | Instruction::SubN(x, y) => x < 16 && y < 16,
            Instruction::Draw(x, y, n) => x < 16 && y < 16 && n < 16,
            Instruction::ShiftRight(x) | Instruction::ShiftLeft(x) | Instruction::SkipKey(x)
            | Instruction::SkipNotKey(x) | Instruction::LoadDelay(x) | Instruction::WaitKey(x)
            | Instruction::SetDelay(x) | Instruction::SetSound(x) | Instruction::AddIndex(x)
            | Instruction::LoadFont(x) | Instruction::StoreBcd(x) | Instruction::StoreRegs(x)
            | Instruction::LoadRegs(x) => x < 16,
        }
    }
}

/// Every instruction that the table yields has its operands in range.
pub proof fn lemma_decode_wf(w: u16)
    ensures
        spec_decode(w) matches Some(ins) ==> ins.wf(),
{
    lemma_fields_in_range(w);
}

proof fn lemma_fields_in_range(w: u16)
    ensures
        op_x(w) < 16,
        op_y(w) < 16,
        op_nibble(w) < 16,
        op_addr(w) < 4096,
        op_class(w) < 16,
{
    assert((w & 0x0F00) >> 8 < 16) by (bit_vector);
    assert((w & 0x00F0) >> 4 < 16) by (bit_vector);
    assert(w & 0x000F < 16) by (bit_vector);
    assert(w & 0x0FFF < 4096) by (bit_vector);
    assert((w & 0xF000) >> 12 < 16) by (bit_vector);
}

/// Decodes an instruction word: the instruction it encodes, or `None` for a
/// word outside the instruction table.
pub fn decode(w: u16) -> (r: Option<Instruction>)
    ensures
        r == spec_decode(w),
        r matches Some(ins) ==> ins.wf(),
{
    proof {
        lemma_fields_in_range(w);
    }
    let x = ((w & 0x0F00) >> 8) as u8;
    let y = ((w & 0x00F0) >> 4) as u8;
    let n = (w & 0x000F) as u8;
    let kk = (w & 0x00FF) as u8;
    let nnn = w & 0x0FFF;
    let c = (w & 0xF000) >> 12;
    if c == 0x0 {
        if w == 0x00E0 {
            Some(Instruction::Cls)
        } else if w == 0x00EE {
            Some(Instruction::Ret)
        } else {
            None
        }
    } else if c == 0x1 {
        Some(Instruction::Jump(nnn))
    } else if c == 0x2 {
        Some(Instruction::Call(nnn))
    } else if c == 0x3 {
        Some(Instruction::SkipEqByte(x, kk))
    } else if c == 0x4 {
        Some(Instruction::SkipNeByte(x, kk))
    } else if c == 0x5 {
        if n == 0 { Some(Instruction::SkipEqReg(x, y)) } else { None }
    } else if c == 0x6 {
        Some(Instruction::LoadByte(x, kk))
    } else if c == 0x7 {
        Some(Instruction::AddByte(x, kk))
    } else if c == 0x8 {
        if n == 0x0 {
            Some(Instruction::LoadReg(x, y))
        } else if n == 0x1 {
            Some(Instruction::Or(x, y))
        } else if n == 0x2 {
            Some(Instruction::And(x, y))
        } else if n == 0x3 {
            Some(Instruction::Xor(x, y))
        } else if n == 0x4 {
            Some(Instruction::AddReg(x, y))
        } else if n == 0x5 {
            Some(Instruction::Sub(x, y))
        } else if n == 0x6 {
            Some(Instruction::ShiftRight(x))
        } else if n == 0x7 {
            Some(Instruction::SubN(x, y))
        } else if n == 0xE {
            Some(Instruction::ShiftLeft(x))
        } else {
            None
        }
    } else if c == 0x9 {
        if n == 0 { Some(Instruction::SkipNeReg(x, y)) } else { None }
    } else if c == 0xA {
        Some(Instruction::LoadIndex(nnn))
    } else if c == 0xB {
        Some(Instruction::JumpV0(nnn))
    } else if c == 0xC {
        Some(Instruction::Random(x, kk))
    } else if c == 0xD {
        Some(Instruction::Draw(x, y, n))
    } else if c == 0xE {
        if kk == 0x9E {
            Some(Instruction::SkipKey(x))
        } else if kk == 0xA1 {
            Some(Instruction::SkipNotKey(x))
        } else {
            None
        }
    } else if kk == 0x07 {
        Some(Instruction::LoadDelay(x))
    } else if kk == 0x0A {
        Some(Instruction::WaitKey(x))
    } else if kk == 0x15 {
        Some(Instruction::SetDelay(x))
    } else if kk == 0x18 {
        Some(Instruction::SetSound(x))
    } else if kk == 0x1E {
        Some(Instruction::AddIndex(x))
    } else if kk == 0x29 {
        Some(Instruction::LoadFont(x))
    } else if kk == 0x33 {
        Some(Instruction::StoreBcd(x))
    } else if kk == 0x55 {
        Some(Instruction::StoreRegs(x))
    } else if kk == 0x65 {
        Some(Instruction::LoadRegs(x))
    } else {
        None
    }
}

} // verus!
