use vstd::prelude::*;

verus! {

/// The operations of the `8XY_` family.
#[derive(Clone, Copy, PartialEq, Eq, Structural, Debug)]
pub enum AluOp {
    /// `8XY0`: VX = VY.
    Assign,
    /// `8XY1`: VX |= VY.
    Or,
    /// `8XY2`: VX &= VY.
    And,
    /// `8XY3`: VX ^= VY.
    Xor,
    /// `8XY4`: VX += VY, VF = carry.
    Add,
    /// `8XY5`: VX -= VY, VF = no borrow.
    Sub,
    /// `8XY6`: VX = source >> 1, VF = bit shifted out.
    ShiftRight,
    /// `8XY7`: VX = VY - VX, VF = no borrow.
    SubReverse,
    /// `8XYE`: VX = source << 1, VF = bit shifted out.
    ShiftLeft,
}

/// One decoded instruction. `x` and `y` name registers, `n`, `nn` and `nnn`
/// are the low 4, 8 and 12 bits of the opcode.
#[derive(Clone, Copy, PartialEq, Eq, Structural, Debug)]
pub enum Instruction {
    /// `00CN`: scroll the selected planes down by N rows.
    ScrollDown { n: u8 },
    /// `00DN`: scroll the selected planes up by N rows.
    ScrollUp { n: u8 },
    /// `00E0`: clear the selected planes.
    ClearScreen,
    /// `00EE`: return from a subroutine.
    Return,
    /// `00FB`: scroll the selected planes right by 4 columns.
    ScrollRight,
    /// `00FC`: scroll the selected planes left by 4 columns.
    ScrollLeft,
    /// `00FD`: end the program.
    ExitProgram,
    /// `00FE`: switch to 64x32.
    LowResolution,
    /// `00FF`: switch to 128x64.
    HighResolution,
    /// `1NNN`: jump to NNN.
    Jump { nnn: u16 },
    /// `2NNN`: call the subroutine at NNN.
    Call { nnn: u16 },
    /// `3XNN`: skip the next instruction if VX == NN.
    SkipIfEqual { x: u8, nn: u8 },
    /// `4XNN`: skip the next instruction if VX != NN.
    SkipIfNotEqual { x: u8, nn: u8 },
    /// `5XY0`: skip the next instruction if VX == VY.
    SkipIfRegsEqual { x: u8, y: u8 },
    /// `5XY2`: store VX..=VY (in either direction) at I.
    SaveRange { x: u8, y: u8 },
    /// `5XY3`: load VX..=VY (in either direction) from I.
    LoadRange { x: u8, y: u8 },
    /// `6XNN`: VX = NN.
    SetImmediate { x: u8, nn: u8 },
    /// `7XNN`: VX += NN, wrapping, VF untouched.
    AddImmediate { x: u8, nn: u8 },
    /// `8XY_`: register arithmetic.
    Alu { op: AluOp, x: u8, y: u8 },
    /// `9XY0`: skip the next instruction if VX != VY.
    SkipIfRegsNotEqual { x: u8, y: u8 },
    /// `ANNN`: I = NNN.
    SetIndex { nnn: u16 },
    /// `BNNN`: jump to NNN + V0, or to NNN + VX with the offset-jump quirk.
    JumpWithOffset { x: u8, nnn: u16 },
    /// `CXNN`: VX = random byte & NN.
    Random { x: u8, nn: u8 },
    /// `DXYN`: draw a sprite of N rows (16x16 when N is 0) at (VX, VY).
    Draw { x: u8, y: u8, n: u8 },
    /// `EX9E`: skip the next instruction if the key VX & 0xF is pressed.
    SkipIfKeyPressed { x: u8 },
    /// `EXA1`: skip the next instruction if the key VX & 0xF is not pressed.
    SkipIfKeyNotPressed { x: u8 },
    /// `F000`: load I from the next two bytes and skip them.
    LongIndex,
    /// `FN01`: select the planes N.
    SelectPlanes { mask: u8 },
    /// `F002`: audio pattern buffer; accepted, no effect.
    AudioPattern,
    /// `FX3A`: audio pitch; accepted, no effect.
    PitchRate { x: u8 },
    /// `FX07`: VX = delay timer.
    GetDelay { x: u8 },
    /// `FX0A`: wait for a key release and store the key in VX.
    WaitKey { x: u8 },
    /// `FX15`: delay timer = VX.
    SetDelay { x: u8 },
    /// `FX18`: sound timer = VX.
    SetSound { x: u8 },
    /// `FX1E`: I += VX, within 16 bits.
    AddIndex { x: u8 },
    /// `FX29`: I = address of the small glyph for VX & 0xF.
    SmallGlyph { x: u8 },
    /// `FX30`: I = address of the large glyph for VX & 0xF.
    LargeGlyph { x: u8 },
    /// `FX33`: store the decimal digits of VX at I, I+1, I+2.
    Bcd { x: u8 },
    /// `FX55`: store V0..=VX at I.
    StoreRegisters { x: u8 },
    /// `FX65`: load V0..=VX from I.
    LoadRegisters { x: u8 },
    /// `FX75`: save V0..VX (X exclusive) to the flag registers.
    SaveFlags { x: u8 },
    /// `FX85`: load V0..VX (X exclusive) from the flag registers.
    LoadFlags { x: u8 },
}

/// Bits 8 to 11 of an opcode.
pub open spec fn op_x(op: u16) -> u8 {
    ((op & 0x0F00) >> 8) as u8
}

/// Bits 4 to 7 of an opcode.
pub open spec fn op_y(op: u16) -> u8 {
    ((op & 0x00F0) >> 4) as u8
}

/// The low 4 bits of an opcode.
pub open spec fn op_n(op: u16) -> u8 {
    (op & 0x000F) as u8
}

/// The low 8 bits of an opcode.
pub open spec fn op_nn(op: u16) -> u8 {
    (op & 0x00FF) as u8
}

/// The low 12 bits of an opcode.
pub open spec fn op_nnn(op: u16) -> u16 {
    op & 0x0FFF
}

/// The `00__` family, told apart by the low byte.
pub open spec fn decoded_0(op: u16) -> Option<Instruction> {
    let n = op_n(op);
    let group = op & 0x00F0;
    if group == 0x00C0 {
        Some(Instruction::ScrollDown { n })
    } else if group == 0x00D0 {
        Some(Instruction::ScrollUp { n })
    } else if group == 0x00E0 {
        if n == 0x0 {
            Some(Instruction::ClearScreen)
        } else if n == 0xE {
            Some(Instruction::Return)
        } else {
            None
        }
    } else if group == 0x00F0 {
        if n == 0xB {
            Some(Instruction::ScrollRight)
        } else if n == 0xC {
            Some(Instruction::ScrollLeft)
        } else if n == 0xD {
            Some(Instruction::ExitProgram)
        } else if n == 0xE {
            Some(Instruction::LowResolution)
        } else if n == 0xF {
            Some(Instruction::HighResolution)
        } else {
            None
        }
    } else {
        None
    }
}

/// The `5XY_` family, told apart by the low nibble.
pub open spec fn decoded_5(op: u16) -> Option<Instruction> {
    let (x, y, n) = (op_x(op), op_y(op), op_n(op));
    if n == 0x0 {
        Some(Instruction::SkipIfRegsEqual { x, y })
    } else if n == 0x2 {
        Some(Instruction::SaveRange { x, y })
    } else if n == 0x3 {
        Some(Instruction::LoadRange { x, y })
    } else {
        None
    }
}

/// The `8XY_` family, told apart by the low nibble.
pub open spec fn decoded_8(op: u16) -> Option<Instruction> {
    let (x, y, n) = (op_x(op), op_y(op), op_n(op));
    let alu = if n == 0x0 {
        Some(AluOp::Assign)
    } else if n == 0x1 {
        Some(AluOp::Or)
    } else if n == 0x2 {
        Some(AluOp::And)
    } else if n == 0x3 {
        Some(AluOp::Xor)
    } else if n == 0x4 {
        Some(AluOp::Add)
    } else if n == 0x5 {
        Some(AluOp::Sub)
    } else if n == 0x6 {
        Some(AluOp::ShiftRight)
    } else if n == 0x7 {
        Some(AluOp::SubReverse)
    } else if n == 0xE {
        Some(AluOp::ShiftLeft)
    } else {
        None
    };
    match alu {
        Some(op) => Some(Instruction::Alu { op, x, y }),
        None => None,
    }
}

/// The `EX__` family, told apart by the low byte.
pub open spec fn decoded_e(op: u16) -> Option<Instruction> {
    let (x, nn) = (op_x(op), op_nn(op));
    if nn == 0x9E {
        Some(Instruction::SkipIfKeyPressed { x })
    } else if nn == 0xA1 {
        Some(Instruction::SkipIfKeyNotPressed { x })
    } else {
        None
    }
}

/// The `FX__` family, told apart by the low byte.
pub open spec fn decoded_f(op: u16) -> Option<Instruction> {
    let (x, nn) = (op_x(op), op_nn(op));
    if nn == 0x00 {
        Some(Instruction::LongIndex)
    } else if nn == 0x01 {
        Some(Instruction::SelectPlanes { mask: x })
    } else if nn == 0x02 {
        Some(Instruction::AudioPattern)
    } else if nn == 0x3A {
        Some(Instruction::PitchRate { x })
    } else if nn == 0x07 {
        Some(Instruction::GetDelay { x })
    } else if nn == 0x0A {
        Some(Instruction::WaitKey { x })
    } else if nn == 0x15 {
        Some(Instruction::SetDelay { x })
    } else if nn == 0x18 {
        Some(Instruction::SetSound { x })
    } else if nn == 0x1E {
        Some(Instruction::AddIndex { x })
    } else if nn == 0x29 {
        Some(Instruction::SmallGlyph { x })
    } else if nn == 0x30 {
        Some(Instruction::LargeGlyph { x })
    } else if nn == 0x33 {
        Some(Instruction::Bcd { x })
    } else if nn == 0x55 {
        Some(Instruction::StoreRegisters { x })
    } else if nn == 0x65 {
        Some(Instruction::LoadRegisters { x })
    } else if nn == 0x75 {
        Some(Instruction::SaveFlags { x })
    } else if nn == 0x85 {
        Some(Instruction::LoadFlags { x })
    } else {
        None
    }
}

/// What an opcode means; `None` for an opcode no rule matches.
pub open spec fn decoded(op: u16) -> Option<Instruction> {
    let (x, y, n, nn, nnn) = (op_x(op), op_y(op), op_n(op), op_nn(op), op_nnn(op));
    let family = op & 0xF000;
    if family == 0x0000 {
        decoded_0(op)
    } else if family == 0x1000 {
        Some(Instruction::Jump { nnn })
    } else if family == 0x2000 {
        Some(Instruction::Call { nnn })
    } else if family == 0x3000 {
        Some(Instruction::SkipIfEqual { x, nn })
    } else if family == 0x4000 {
        Some(Instruction::SkipIfNotEqual { x, nn })
    } else if family == 0x5000 {
        decoded_5(op)
    } else if family == 0x6000 {
        Some(Instruction::SetImmediate { x, nn })
    } else if family == 0x7000 {
        Some(Instruction::AddImmediate { x, nn })
    } else if family == 0x8000 {
        decoded_8(op)
    } else if family == 0x9000 {
        Some(Instruction::SkipIfRegsNotEqual { x, y })
    } else if family == 0xA000 {
        Some(Instruction::SetIndex { nnn })
    } else if family == 0xB000 {
        Some(Instruction::JumpWithOffset { x, nnn })
    } else if family == 0xC000 {
        Some(Instruction::Random { x, nn })
    } else if family == 0xD000 {
        Some(Instruction::Draw { x, y, n })
    } else if family == 0xE000 {
        decoded_e(op)
    } else {
        decoded_f(op)
    }
}

/// Split an opcode into its fields and name the instruction; `None` for an
/// opcode no rule matches.
pub fn decode(op: u16) -> (r: Option<Instruction>)
    ensures
        r == decoded(op),
        r matches Some(i) ==> i.wf(),
{
    let x = ((op & 0x0F00) >> 8) as u8;
    let y = ((op & 0x00F0) >> 4) as u8;
    let n = (op & 0x000F) as u8;
    let nn = (op & 0x00FF) as u8;
    let nnn = op & 0x0FFF;
    proof {
        assert(x < 16 && y < 16 && n < 16 && nnn < 0x1000) by (bit_vector)
            requires
                x == ((op & 0x0F00) >> 8) as u8,
                y == ((op & 0x00F0) >> 4) as u8,
                n == (op & 0x000F) as u8,
                nnn == op & 0x0FFF,
        ;
    }
    let family = op & 0xF000;
    if family == 0x0000 {
        let group = op & 0x00F0;
        if group == 0x00C0 {
            Some(Instruction::ScrollDown { n })
        } else if group == 0x00D0 {
            Some(Instruction::ScrollUp { n })
        } else if group == 0x00E0 {
            if n == 0x0 {
                Some(Instruction::ClearScreen)
            } else if n == 0xE {
                Some(Instruction::Return)
            } else {
                None
            }
        } else if group == 0x00F0 {
            if n == 0xB {
                Some(Instruction::ScrollRight)
            } else if n == 0xC {
                Some(Instruction::ScrollLeft)
            } else if n == 0xD {
                Some(Instruction::ExitProgram)
            } else if n == 0xE {
                Some(Instruction::LowResolution)
            } else if n == 0xF {
                Some(Instruction::HighResolution)
            } else {
                None
            }
        } else {
            None
        }
    } else if family == 0x1000 {
        Some(Instruction::Jump { nnn })
    } else if family == 0x2000 {
        Some(Instruction::Call { nnn })
    } else if family == 0x3000 {
        Some(Instruction::SkipIfEqual { x, nn })
    } else if family == 0x4000 {
        Some(Instruction::SkipIfNotEqual { x, nn })
    } else if family == 0x5000 {
        if n == 0x0 {
            Some(Instruction::SkipIfRegsEqual { x, y })
        } else if n == 0x2 {
            Some(Instruction::SaveRange { x, y })
        } else if n == 0x3 {
            Some(Instruction::LoadRange { x, y })
        } else {
            None
        }
    } else if family == 0x6000 {
        Some(Instruction::SetImmediate { x, nn })
    } else if family == 0x7000 {
        Some(Instruction::AddImmediate { x, nn })
    } else if family == 0x8000 {
        let alu = if n == 0x0 {
            Some(AluOp::Assign)
        } else if n == 0x1 {
            Some(AluOp::Or)
        } else if n == 0x2 {
            Some(AluOp::And)
        } else if n == 0x3 {
            Some(AluOp::Xor)
        } else if n == 0x4 {
            Some(AluOp::Add)
        } else if n == 0x5 {
            Some(AluOp::Sub)
        } else if n == 0x6 {
            Some(AluOp::ShiftRight)
        } else if n == 0x7 {
            Some(AluOp::SubReverse)
        } else if n == 0xE {
            Some(AluOp::ShiftLeft)
        } else {
            None
        };
        match alu {
            Some(op) => Some(Instruction::Alu { op, x, y }),
            None => None,
        }
    } else if family == 0x9000 {
        Some(Instruction::SkipIfRegsNotEqual { x, y })
    } else if family == 0xA000 {
        Some(Instruction::SetIndex { nnn })
    } else if family == 0xB000 {
        Some(Instruction::JumpWithOffset { x, nnn })
    } else if family == 0xC000 {
        Some(Instruction::Random { x, nn })
    } else if family == 0xD000 {
        Some(Instruction::Draw { x, y, n })
    } else if family == 0xE000 {
        if nn == 0x9E {
            Some(Instruction::SkipIfKeyPressed { x })
        } else if nn == 0xA1 {
            Some(Instruction::SkipIfKeyNotPressed { x })
        } else {
            None
        }
    } else {
        decode_f(x, nn)
    }
}

/// The `FX__` family, from X and the low byte.
fn decode_f(x: u8, nn: u8) -> (r: Option<Instruction>)
    ensures
        forall|op: u16| op_x(op) == x && op_nn(op) == nn ==> r == #[trigger] decoded_f(op),
{
    if nn == 0x00 {
        Some(Instruction::LongIndex)
    } else if nn == 0x01 {
        Some(Instruction::SelectPlanes { mask: x })
    } else if nn == 0x02 {
        Some(Instruction::AudioPattern)
    } else if nn == 0x3A {
        Some(Instruction::PitchRate { x })
    } else if nn == 0x07 {
        Some(Instruction::GetDelay { x })
    } else if nn == 0x0A {
        Some(Instruction::WaitKey { x })
    } else if nn == 0x15 {
        Some(Instruction::SetDelay { x })
    } else if nn == 0x18 {
        Some(Instruction::SetSound { x })
    } else if nn == 0x1E {
        Some(Instruction::AddIndex { x })
    } else if nn == 0x29 {
        Some(Instruction::SmallGlyph { x })
    } else if nn == 0x30 {
        Some(Instruction::LargeGlyph { x })
    } else if nn == 0x33 {
        Some(Instruction::Bcd { x })
    } else if nn == 0x55 {
        Some(Instruction::StoreRegisters { x })
    } else if nn == 0x65 {
        Some(Instruction::LoadRegisters { x })
    } else if nn == 0x75 {
        Some(Instruction::SaveFlags { x })
    } else if nn == 0x85 {
        Some(Instruction::LoadFlags { x })
    } else {
        None
    }
}

impl Instruction {
    /// Register and nibble fields hold 4 bits, address fields 12.
    pub open spec fn wf(self) -> bool {
        match self {
            Instruction::ScrollDown { n } => n < 16,
            Instruction::ScrollUp { n } => n < 16,
            Instruction::Jump { nnn } => nnn < 0x1000,
            Instruction::Call { nnn } => nnn < 0x1000,
            Instruction::SkipIfEqual { x, nn } => x < 16,
            Instruction::SkipIfNotEqual { x, nn } => x < 16,
            Instruction::SkipIfRegsEqual { x, y } => x < 16 && y < 16,
            Instruction::SaveRange { x, y } => x < 16 && y < 16,
            Instruction::LoadRange { x, y } => x < 16 && y < 16,
            Instruction::SetImmediate { x, nn } => x < 16,
            Instruction::AddImmediate { x, nn } => x < 16,
            Instruction::Alu { op, x, y } => x < 16 && y < 16,
            Instruction::SkipIfRegsNotEqual { x, y } => x < 16 && y < 16,
            Instruction::SetIndex { nnn } => nnn < 0x1000,
            Instruction::JumpWithOffset { x, nnn } => x < 16 && nnn < 0x1000,
            Instruction::Random { x, nn } => x < 16,
            Instruction::Draw { x, y, n } => x < 16 && y < 16 && n < 16,
            Instruction::SkipIfKeyPressed { x } => x < 16,
            Instruction::SkipIfKeyNotPressed { x } => x < 16,
            Instruction::SelectPlanes { mask } => mask < 16,
            Instruction::PitchRate { x } => x < 16,
            Instruction::GetDelay { x } => x < 16,
            Instruction::WaitKey { x } => x < 16,
            Instruction::SetDelay { x } => x < 16,
            Instruction::SetSound { x } => x < 16,
            Instruction::AddIndex { x } => x < 16,
            Instruction::SmallGlyph { x } => x < 16,
            Instruction::LargeGlyph { x } => x < 16,
            Instruction::Bcd { x } => x < 16,
            Instruction::StoreRegisters { x } => x < 16,
            Instruction::LoadRegisters { x } => x < 16,
            Instruction::SaveFlags { x } => x < 16,
            Instruction::LoadFlags { x } => x < 16,
            _ => true,
        }
    }
}

} // verus!
