//! Properties that relate several steps of the machine, proved over the
//! model that the executable functions are specified by.
use vstd::prelude::*;

use crate::display::{blank, Resolution};
use crate::error::EmulatorError;
use crate::instruction::{decoded, AluOp, Instruction};
use crate::machine::{
    at_end, collides, cycle, fetched, flips, opcode_at, step,
    Machine,
};

verus! {

/// Whether an instruction leaves the program counter where the fetch put it
/// when it succeeds: everything but jumps, calls, returns, skips, exit,
/// waiting for a key and the long load of I.
pub open spec fn keeps_flow(ins: Instruction) -> bool {
    !(ins is Return || ins is ExitProgram || ins is Jump || ins is Call || ins is SkipIfEqual
        || ins is SkipIfNotEqual || ins is SkipIfRegsEqual || ins is SkipIfRegsNotEqual
        || ins is JumpWithOffset || ins is SkipIfKeyPressed || ins is SkipIfKeyNotPressed
        || ins is WaitKey || ins is LongIndex)
}

/// A cycle reads the opcode big-endian from PC and PC + 1 and runs it with
/// PC moved 2 further on. When that instruction keeps the flow and succeeds,
/// PC ends 2 further on; after `F000`, 4 further on.
pub proof fn law_fetch_advances(m: Machine, random: u8)
    requires
        m.wf(),
        !at_end(m),
    ensures
        opcode_at(m.mem, m.pc) == ((m.mem[m.pc] as u16) << 8) | (m.mem[m.pc + 1] as u16),
        fetched(m).pc == m.pc + 2,
        cycle(m, random).0 == step(fetched(m), opcode_at(m.mem, m.pc), random).0,
        cycle(m, random).1 is Ok <==> step(fetched(m), opcode_at(m.mem, m.pc), random).1 is Ok,
        ({
            let (m2, r) = cycle(m, random);
            &&& (decoded(opcode_at(m.mem, m.pc)) matches Some(ins) && keeps_flow(ins) && r is Ok)
                ==> m2.pc == m.pc + 2
            &&& (decoded(opcode_at(m.mem, m.pc)) == Some(Instruction::LongIndex) && r is Ok) ==> m2.pc
                == m.pc + 4
        }),
{
    reveal(cycle);
}

/// `7XNN` and `8XY4` add modulo 256; `8XY4` sets VF to the carry. For
/// `8FY4` the carry overwrites the sum, so that register is left out.
pub proof fn law_add_wraps(m: Machine, op: u16, random: u8, x: u8, y: u8, nn: u8)
    requires
        m.wf(),
        x < 16,
        y < 16,
    ensures
        decoded(op) == Some(Instruction::AddImmediate { x, nn }) ==> {
            let m2 = step(m, op, random).0;
            &&& m2.v[x as int] == (m.v[x as int] as int + nn as int) % 256
            &&& x != 15 ==> m2.v[15] == m.v[15]
        },
        decoded(op) == Some(Instruction::Alu { op: AluOp::Add, x, y }) && x != 15 ==> {
            let m2 = step(m, op, random).0;
            &&& m2.v[x as int] == (m.v[x as int] as int + m.v[y as int] as int) % 256
            &&& (m2.v[15] == 1) == (m.v[x as int] as int + m.v[y as int] as int > 255)
            &&& m2.v[15] <= 1
        },
{
}

/// `8XY5` sets VX to VX - VY modulo 256 and VF to 1 exactly when VX >= VY.
/// For `8FY5` the flag overwrites the difference, so that register is left out.
pub proof fn law_sub_borrow(m: Machine, op: u16, random: u8, x: u8, y: u8)
    requires
        m.wf(),
        x < 16,
        y < 16,
        x != 15,
        decoded(op) == Some(Instruction::Alu { op: AluOp::Sub, x, y }),
    ensures
        ({
            let m2 = step(m, op, random).0;
            &&& m2.v[x as int] == (m.v[x as int] as int - m.v[y as int] as int) % 256
            &&& (m2.v[15] == 1) == (m.v[x as int] >= m.v[y as int])
            &&& m2.v[15] <= 1
        }),
{
}

/// Whether the condition of a conditional skip on registers holds in `m`.
pub open spec fn skip_taken(m: Machine, ins: Instruction) -> bool {
    match ins {
        Instruction::SkipIfEqual { x, nn } => m.v[x as int] == nn,
        Instruction::SkipIfNotEqual { x, nn } => m.v[x as int] != nn,
        Instruction::SkipIfRegsEqual { x, y } => m.v[x as int] == m.v[y as int],
        Instruction::SkipIfRegsNotEqual { x, y } => m.v[x as int] != m.v[y as int],
        _ => false,
    }
}

/// A conditional skip whose condition holds passes over 4 bytes when the
/// instruction to skip is `F000`, and over 2 otherwise; one whose condition
/// fails moves nothing.
pub proof fn law_skip_long_index(m: Machine, op: u16, random: u8, ins: Instruction)
    requires
        m.wf(),
        decoded(op) == Some(ins),
        ins is SkipIfEqual || ins is SkipIfNotEqual || ins is SkipIfRegsEqual
            || ins is SkipIfRegsNotEqual,
    ensures
        step(m, op, random).1 is Ok,
        step(m, op, random).0.pc == m.pc + if !skip_taken(m, ins) {
            0int
        } else if m.pc + 1 < m.mem.len() && opcode_at(m.mem, m.pc) == 0xF000 {
            4int
        } else {
            2int
        },
{
}

/// Drawing the same sprite twice at the same place restores the planes. On
/// blank planes the first drawing reports no collision, and the second
/// reports one exactly when the first changed a pixel. Sprites placed by VF
/// are left out: the flag the first drawing sets moves the second.
pub proof fn law_draw_twice(m: Machine, op: u16, r1: u8, r2: u8, x: u8, y: u8, n: u8)
    requires
        m.wf(),
        decoded(op) == Some(Instruction::Draw { x, y, n }),
        x < 15,
        y < 15,
        n < 16,
        step(m, op, r1).1 is Ok,
    ensures
        ({
            let m1 = step(m, op, r1).0;
            let (m2, r) = step(m1, op, r2);
            &&& r is Ok
            &&& m2.planes == m.planes
            &&& m.planes == seq![
                blank(m.res.spec_width(), m.res.spec_height()),
                blank(m.res.spec_width(), m.res.spec_height()),
            ] ==> m1.v[15] == 0 && ((m2.v[15] == 1) == (m1.planes != m.planes))
        }),
{
    let w = m.res.spec_width() as int;
    let h = m.res.spec_height() as int;
    let sx = m.v[x as int] as int % w;
    let sy = m.v[y as int] as int % h;
    let m1 = step(m, op, r1).0;
    assert(m1.v[x as int] == m.v[x as int]);
    assert(m1.v[y as int] == m.v[y as int]);
    assert(forall|p: int, tx: int, ty: int|
        #[trigger] flips(m1, sx, sy, n, p, tx, ty) == flips(m, sx, sy, n, p, tx, ty));
    let m2 = step(m1, op, r2).0;
    assert(m2.planes =~~= m.planes);
    if m.planes == seq![blank(w as nat, h as nat), blank(w as nat, h as nat)] {
        if collides(m, sx, sy, n) {
            let (q, ty, tx) = choose|q: int, ty: int, tx: int|
                0 <= q < 2 && 0 <= ty < h && 0 <= tx < w && #[trigger] flips(m, sx, sy, n, q, tx, ty)
                    && m.planes[q][ty][tx];
            assert(!m.planes[q][ty][tx]);
        }
        if m1.planes != m.planes {
            assert(exists|q: int, ty: int, tx: int|
                0 <= q < 2 && 0 <= ty < h && 0 <= tx < w && m1.planes[q][ty][tx]
                    != m.planes[q][ty][tx]) by {
                if !exists|q: int, ty: int, tx: int|
                    0 <= q < 2 && 0 <= ty < h && 0 <= tx < w && m1.planes[q][ty][tx]
                        != m.planes[q][ty][tx] {
                    assert(m1.planes =~~= m.planes);
                }
            }
            let (q, ty, tx) = choose|q: int, ty: int, tx: int|
                0 <= q < 2 && 0 <= ty < h && 0 <= tx < w && m1.planes[q][ty][tx]
                    != m.planes[q][ty][tx];
            assert(flips(m1, sx, sy, n, q, tx, ty) && m1.planes[q][ty][tx]);
            assert(collides(m1, sx, sy, n));
        } else {
            if collides(m1, sx, sy, n) {
                let (q, ty, tx) = choose|q: int, ty: int, tx: int|
                    0 <= q < 2 && 0 <= ty < h && 0 <= tx < w && #[trigger] flips(
                        m1,
                        sx,
                        sy,
                        n,
                        q,
                        tx,
                        ty,
                    ) && m1.planes[q][ty][tx];
                assert(m1.planes[q][ty][tx] != m.planes[q][ty][tx]);
            }
        }
    }
}

/// Switching to another resolution leaves both planes blank at the new
/// size; switching to the current one changes nothing.
pub proof fn law_resolution_switch(m: Machine, op: u16, random: u8, res: Resolution)
    requires
        m.wf(),
        (res == Resolution::Low && decoded(op) == Some(Instruction::LowResolution)) || (res
            == Resolution::High && decoded(op) == Some(Instruction::HighResolution)),
    ensures
        ({
            let (m2, r) = step(m, op, random);
            &&& r is Ok
            &&& m2.res == res
            &&& res != m.res ==> m2.planes == seq![
                blank(res.spec_width(), res.spec_height()),
                blank(res.spec_width(), res.spec_height()),
            ]
            &&& res == m.res ==> m2 == m
        }),
{
}

/// A call followed by a return, each fetched in turn, resumes at the
/// instruction after the call with the stack as it was.
pub proof fn law_call_return(m: Machine, r1: u8, r2: u8)
    requires
        m.wf(),
        !at_end(m),
        decoded(opcode_at(m.mem, m.pc)) matches Some(ins) && ins is Call,
        !at_end(cycle(m, r1).0),
        decoded(opcode_at(cycle(m, r1).0.mem, cycle(m, r1).0.pc)) == Some(Instruction::Return),
    ensures
        ({
            let (m2, r) = cycle(cycle(m, r1).0, r2);
            &&& r is Ok
            &&& m2.pc == m.pc + 2
            &&& m2.stack == m.stack
        }),
{
    reveal(cycle);
    let m1 = cycle(m, r1).0;
    assert(m1.stack == m.stack.push((m.pc + 2) as usize));
    assert(m1.stack.drop_last() =~= m.stack);
}

/// `FX55` whose last byte would lie past the end of memory fails with
/// `MemoryOutOfBounds` and changes nothing, memory included.
pub proof fn law_store_bounds(m: Machine, op: u16, random: u8, x: u8)
    requires
        m.wf(),
        m.pc >= 2,
        decoded(op) == Some(Instruction::StoreRegisters { x }),
        m.i + x > m.mem.len() - 1,
    ensures
        step(m, op, random) == (
            m,
            Err::<(), EmulatorError>(
                EmulatorError::MemoryOutOfBounds {
                    opcode: op,
                    address: (m.pc - 2) as usize,
                    index: (m.i + x) as usize,
                },
            ),
        ),
{
}

} // verus!
