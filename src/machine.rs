use vstd::prelude::*;

use crate::beeper::Message;
use crate::config::Quirks;
use crate::display::{apply_plane_op, blank, grid_has_size, plane_selected, PlaneOp, Resolution};
use crate::error::{EmulatorError, Event};
use crate::instruction::{decoded, AluOp, Instruction};
use crate::keypad::{first_released, KeyState};
use crate::memory::{valid_memory_size, LARGE_FONT_START};

verus! {

/// The mathematical state of a machine: what instructions read and change.
pub struct Machine {
    /// Address of the next instruction.
    pub pc: int,
    /// The index register.
    pub i: int,
    /// V0 to VF.
    pub v: Seq<u8>,
    /// The SuperChip flag registers.
    pub flags: Seq<u8>,
    /// Return addresses, the most recent last.
    pub stack: Seq<usize>,
    pub mem: Seq<u8>,
    /// The two planes, each rows of pixels.
    pub planes: Seq<Seq<Seq<bool>>>,
    /// Plane selection mask.
    pub active: u8,
    pub res: Resolution,
    pub delay: u8,
    pub sound: u8,
    pub keys: Seq<KeyState>,
    pub quirks: Quirks,
    /// Whether the tone sounds.
    pub playing: bool,
    /// Audio intents not yet handed to the backend.
    pub messages: Seq<Message>,
}

impl Machine {
    /// Sixteen registers, flags and keys; two planes sized to the resolution;
    /// a memory size a machine can have; I a 16-bit address.
    pub open spec fn wf(&self) -> bool {
        &&& self.v.len() == 16
        &&& self.flags.len() == 16
        &&& self.keys.len() == 16
        &&& self.planes.len() == 2
        &&& grid_has_size(self.planes[0], self.res.spec_width(), self.res.spec_height())
        &&& grid_has_size(self.planes[1], self.res.spec_width(), self.res.spec_height())
        &&& valid_memory_size(self.mem.len() as int)
        &&& 0 <= self.i <= 0xFFFF
        &&& 0 <= self.pc
    }
}

/// What one step yields: the next state, and success or the fault.
pub type Outcome = (Machine, Result<(), EmulatorError>);

/// The opcode stored big-endian at `pc` and `pc + 1`.
pub open spec fn opcode_at(mem: Seq<u8>, pc: int) -> u16 {
    ((mem[pc] as u16) << 8) | (mem[pc + 1] as u16)
}

/// The value of `a + b` in a byte: `(a + b) mod 256`.
pub open spec fn add_mod(a: u8, b: u8) -> u8 {
    ((a as int + b as int) % 256) as u8
}

/// The value of `a - b` in a byte: `(a - b) mod 256`.
pub open spec fn sub_mod(a: u8, b: u8) -> u8 {
    ((a as int - b as int) % 256) as u8
}

/// Success with state `m`.
pub open spec fn done(m: Machine) -> Outcome {
    (m, Ok(()))
}

/// Failure, with the state as it was.
pub open spec fn failed(m: Machine, e: EmulatorError) -> Outcome {
    (m, Err(e))
}

/// The address the current instruction was fetched from.
pub open spec fn fetch_address(m: Machine) -> usize {
    (m.pc - 2) as usize
}

/// How far a skip moves: past the next instruction, which is 4 bytes long
/// when it is `F000`.
pub open spec fn skip_length(m: Machine) -> int {
    if m.pc + 1 < m.mem.len() && opcode_at(m.mem, m.pc) == 0xF000 {
        4
    } else {
        2
    }
}

/// `m` with the next instruction skipped when `cond` holds.
pub open spec fn skipped(m: Machine, cond: bool) -> Machine {
    if cond {
        Machine { pc: m.pc + skip_length(m), ..m }
    } else {
        m
    }
}

/// `m` with `op` applied to every selected plane.
pub open spec fn with_plane_op(m: Machine, op: PlaneOp) -> Machine {
    Machine {
        planes: Seq::new(
            2,
            |p: int|
                if plane_selected(m.active, p) {
                    apply_plane_op(m.planes[p], m.res, op)
                } else {
                    m.planes[p]
                },
        ),
        ..m
    }
}

/// `m` at resolution `res`: unchanged if it already is, else with both planes blank.
pub open spec fn with_resolution(m: Machine, res: Resolution) -> Machine {
    if res == m.res {
        m
    } else {
        Machine {
            res,
            planes: seq![
                blank(res.spec_width(), res.spec_height()),
                blank(res.spec_width(), res.spec_height()),
            ],
            ..m
        }
    }
}

/// The tone started, with Play queued only if it was silent.
pub open spec fn played(m: Machine) -> Machine {
    Machine {
        playing: true,
        messages: if m.playing {
            m.messages
        } else {
            m.messages.push(Message::Play)
        },
        ..m
    }
}

/// The tone silenced, with Pause queued only if it sounded.
pub open spec fn paused(m: Machine) -> Machine {
    Machine {
        playing: false,
        messages: if m.playing {
            m.messages.push(Message::Pause)
        } else {
            m.messages
        },
        ..m
    }
}

/// `m` with the sound timer set to `value`; the tone starts when the timer
/// leaves zero and stops when it reaches zero.
pub open spec fn with_sound_timer(m: Machine, value: u8) -> Machine {
    let m2 = Machine { sound: value, ..m };
    if m.sound > 0 && value == 0 {
        paused(m2)
    } else if m.sound == 0 && value > 0 {
        played(m2)
    } else {
        m2
    }
}

/// The registers after an `8XY_` instruction.
pub open spec fn alu_result(v: Seq<u8>, op: AluOp, x: int, y: int, quirks: Quirks) -> Seq<u8> {
    let logic = if quirks.vf_reset {
        v.update(15, 0)
    } else {
        v
    };
    let source = if quirks.shift_vx_directly {
        v[x]
    } else {
        v[y]
    };
    match op {
        AluOp::Assign => v.update(x, v[y]),
        AluOp::Or => logic.update(x, logic[x] | logic[y]),
        AluOp::And => logic.update(x, logic[x] & logic[y]),
        AluOp::Xor => logic.update(x, logic[x] ^ logic[y]),
        AluOp::Add => v.update(x, add_mod(v[x], v[y])).update(
            15,
            if v[x] as int + v[y] as int > 255 {
                1
            } else {
                0
            },
        ),
        AluOp::Sub => v.update(x, sub_mod(v[x], v[y])).update(
            15,
            if v[x] >= v[y] {
                1
            } else {
                0
            },
        ),
        AluOp::ShiftRight => v.update(x, source >> 1).update(15, source & 1),
        AluOp::SubReverse => v.update(x, sub_mod(v[y], v[x])).update(
            15,
            if v[y] >= v[x] {
                1
            } else {
                0
            },
        ),
        AluOp::ShiftLeft => v.update(x, ((source as int * 2) % 256) as u8).update(15, source >> 7),
    }
}

/// The register moved by the `k`-th step of a range from `x` towards `y`.
pub open spec fn range_register(x: int, y: int, k: int) -> int {
    if x <= y {
        x + k
    } else {
        x - k
    }
}

/// Number of registers in the inclusive range between `x` and `y`, less one.
pub open spec fn range_span(x: int, y: int) -> int {
    if x <= y {
        y - x
    } else {
        x - y
    }
}

/// `5XY2`: store the registers from VX to VY at I.
pub open spec fn save_range(m: Machine, x: int, y: int, op: u16) -> Outcome {
    let d = range_span(x, y);
    if m.i + d >= m.mem.len() {
        failed(
            m,
            EmulatorError::MemoryOutOfBounds {
                opcode: op,
                address: fetch_address(m),
                index: (m.i + d) as usize,
            },
        )
    } else {
        done(
            Machine {
                mem: Seq::new(
                    m.mem.len(),
                    |a: int|
                        if m.i <= a <= m.i + d {
                            m.v[range_register(x, y, a - m.i)]
                        } else {
                            m.mem[a]
                        },
                ),
                ..m
            },
        )
    }
}

/// `5XY3`: load the registers from VX to VY from I.
pub open spec fn load_range(m: Machine, x: int, y: int, op: u16) -> Outcome {
    let d = range_span(x, y);
    if m.i + d >= m.mem.len() {
        failed(
            m,
            EmulatorError::MemoryOutOfBounds {
                opcode: op,
                address: fetch_address(m),
                index: (m.i + d) as usize,
            },
        )
    } else {
        done(
            Machine {
                v: Seq::new(
                    16,
                    |r: int|
                        if range_span(x, r) <= d && range_span(r, y) <= d {
                            m.mem[m.i + range_span(x, r)]
                        } else {
                            m.v[r]
                        },
                ),
                ..m
            },
        )
    }
}

/// I after `FX55` or `FX65` moved registers V0 to VX.
pub open spec fn index_after_transfer(m: Machine, x: int) -> int {
    if m.quirks.increment_i_reg {
        (m.i + x + 1) % 0x10000
    } else {
        m.i
    }
}

/// `FX55`: store V0 to VX at I. Nothing is written unless all of it fits.
pub open spec fn store_registers(m: Machine, x: int, op: u16) -> Outcome {
    if m.i + x >= m.mem.len() {
        failed(
            m,
            EmulatorError::MemoryOutOfBounds {
                opcode: op,
                address: fetch_address(m),
                index: (m.i + x) as usize,
            },
        )
    } else {
        done(
            Machine {
                mem: Seq::new(
                    m.mem.len(),
                    |a: int|
                        if m.i <= a <= m.i + x {
                            m.v[a - m.i]
                        } else {
                            m.mem[a]
                        },
                ),
                i: index_after_transfer(m, x),
                ..m
            },
        )
    }
}

/// `FX65`: load V0 to VX from I.
pub open spec fn load_registers(m: Machine, x: int, op: u16) -> Outcome {
    if m.i + x >= m.mem.len() {
        failed(
            m,
            EmulatorError::MemoryOutOfBounds {
                opcode: op,
                address: fetch_address(m),
                index: (m.i + x) as usize,
            },
        )
    } else {
        done(
            Machine {
                v: Seq::new(
                    16,
                    |r: int|
                        if r <= x {
                            m.mem[m.i + r]
                        } else {
                            m.v[r]
                        },
                ),
                i: index_after_transfer(m, x),
                ..m
            },
        )
    }
}

/// `FX33`: the hundreds, tens and units of VX at I, I+1 and I+2.
pub open spec fn store_bcd(m: Machine, x: int, op: u16) -> Outcome {
    let value = m.v[x];
    if m.i + 2 >= m.mem.len() {
        failed(
            m,
            EmulatorError::MemoryOutOfBounds {
                opcode: op,
                address: fetch_address(m),
                index: (m.i + 2) as usize,
            },
        )
    } else {
        done(
            Machine {
                mem: m.mem.update(m.i, value / 100).update(m.i + 1, (value % 100) / 10).update(
                    m.i + 2,
                    value % 10,
                ),
                ..m
            },
        )
    }
}

/// `F000`: I from the two bytes at PC, which are then skipped.
pub open spec fn long_index(m: Machine, op: u16) -> Outcome {
    if m.pc + 1 >= m.mem.len() {
        failed(
            m,
            EmulatorError::MemoryOutOfBounds {
                opcode: op,
                address: fetch_address(m),
                index: (m.pc + 1) as usize,
            },
        )
    } else {
        done(Machine { i: m.mem[m.pc] as int * 256 + m.mem[m.pc + 1] as int, pc: m.pc + 2, ..m })
    }
}

/// Rows of a sprite drawn with height nibble `n`.
pub open spec fn sprite_rows(n: u8) -> int {
    if n == 0 {
        16
    } else {
        n as int
    }
}

/// Columns of a sprite drawn with height nibble `n`.
pub open spec fn sprite_width(n: u8) -> int {
    if n == 0 {
        16
    } else {
        8
    }
}

/// Bytes of sprite data per plane.
pub open spec fn sprite_bytes(n: u8) -> int {
    if n == 0 {
        32
    } else {
        n as int
    }
}

/// Number of planes the mask selects.
pub open spec fn selected_count(mask: u8) -> int {
    (if plane_selected(mask, 0) {
        1int
    } else {
        0
    }) + (if plane_selected(mask, 1) {
        1int
    } else {
        0
    })
}

/// Offset from I of the sprite data for plane `p`: each selected plane
/// takes its own block, in plane order.
pub open spec fn plane_data_offset(mask: u8, p: int, n: u8) -> int {
    if p == 1 && plane_selected(mask, 0) {
        sprite_bytes(n)
    } else {
        0
    }
}

/// Whether column `col` of row `row` is set in the sprite whose data starts at `base`.
pub open spec fn sprite_pixel(mem: Seq<u8>, base: int, n: u8, row: int, col: int) -> bool {
    if n == 0 {
        opcode_at(mem, base + 2 * row) & (0x8000u16 >> (col as u16)) != 0
    } else {
        mem[base + row] & (0x80u8 >> (col as u8)) != 0
    }
}

/// Distance from `start` to `target` along an axis of `size` pixels: modulo
/// `size` when sprites wrap.
pub open spec fn axis_offset(start: int, target: int, size: int, wrap: bool) -> int {
    if wrap {
        (target - start) % size
    } else {
        target - start
    }
}

/// Whether `DXYN` flips pixel (`tx`, `ty`) of plane `p`, drawing from (`sx`, `sy`).
pub open spec fn flips(m: Machine, sx: int, sy: int, n: u8, p: int, tx: int, ty: int) -> bool {
    let dx = axis_offset(sx, tx, m.res.spec_width() as int, m.quirks.wrap_sprites);
    let dy = axis_offset(sy, ty, m.res.spec_height() as int, m.quirks.wrap_sprites);
    &&& plane_selected(m.active, p)
    &&& 0 <= dx < sprite_width(n)
    &&& 0 <= dy < sprite_rows(n)
    &&& sprite_pixel(m.mem, m.i + plane_data_offset(m.active, p, n), n, dy, dx)
}

/// Whether drawing from (`sx`, `sy`) flips a pixel that was set.
pub open spec fn collides(m: Machine, sx: int, sy: int, n: u8) -> bool {
    exists|p: int, ty: int, tx: int|
        0 <= p < 2 && 0 <= ty < m.res.spec_height() && 0 <= tx < m.res.spec_width() && #[trigger] flips(
            m,
            sx,
            sy,
            n,
            p,
            tx,
            ty,
        ) && m.planes[p][ty][tx]
}

/// The planes after drawing from (`sx`, `sy`).
pub open spec fn drawn_planes(m: Machine, sx: int, sy: int, n: u8) -> Seq<Seq<Seq<bool>>> {
    Seq::new(
        2,
        |p: int|
            Seq::new(
                m.res.spec_height(),
                |ty: int|
                    Seq::new(
                        m.res.spec_width(),
                        |tx: int| m.planes[p][ty][tx] != flips(m, sx, sy, n, p, tx, ty),
                    ),
            ),
    )
}

/// `DXYN`: XOR a sprite onto every selected plane at (VX, VY), reduced modulo
/// the resolution; VF tells whether a set pixel was cleared. Nothing changes
/// unless all sprite data lies in memory.
pub open spec fn draw(m: Machine, x: int, y: int, n: u8, op: u16) -> Outcome {
    let needed = selected_count(m.active) * sprite_bytes(n);
    let sx = m.v[x] as int % m.res.spec_width() as int;
    let sy = m.v[y] as int % m.res.spec_height() as int;
    if needed > 0 && m.i + needed > m.mem.len() {
        failed(
            m,
            EmulatorError::MemoryOutOfBounds {
                opcode: op,
                address: fetch_address(m),
                index: (m.i + needed - 1) as usize,
            },
        )
    } else {
        done(
            Machine {
                planes: drawn_planes(m, sx, sy, n),
                v: m.v.update(
                    15,
                    if collides(m, sx, sy, n) {
                        1
                    } else {
                        0
                    },
                ),
                ..m
            },
        )
    }
}

/// The tone silenced and the backend told to end.
pub open spec fn stopped(m: Machine) -> Machine {
    Machine { playing: false, messages: m.messages.push(Message::Stop), ..m }
}

/// Both timers counted down by one where above zero; the tone stops when the
/// sound timer reaches zero.
pub open spec fn ticked(m: Machine) -> Machine {
    let m2 = Machine {
        delay: if m.delay > 0 {
            (m.delay - 1) as u8
        } else {
            0
        },
        sound: if m.sound > 0 {
            (m.sound - 1) as u8
        } else {
            0
        },
        ..m
    };
    if m.sound == 1 {
        paused(m2)
    } else {
        m2
    }
}

/// One decoded instruction run on `m`, whose PC is already past it.
/// `random` is the byte `CXNN` draws.
pub open spec fn step_instruction(m: Machine, ins: Instruction, op: u16, random: u8) -> Outcome {
    match ins {
        Instruction::ScrollDown { n } => done(with_plane_op(m, PlaneOp::ScrollDown(n))),
        Instruction::ScrollUp { n } => done(with_plane_op(m, PlaneOp::ScrollUp(n))),
        Instruction::ClearScreen => done(with_plane_op(m, PlaneOp::Clear)),
        Instruction::Return => if m.stack.len() == 0 {
            failed(m, EmulatorError::StackUnderflow { opcode: op, address: fetch_address(m) })
        } else {
            done(Machine { pc: m.stack.last() as int, stack: m.stack.drop_last(), ..m })
        },
        Instruction::ScrollRight => done(with_plane_op(m, PlaneOp::ScrollRight)),
        Instruction::ScrollLeft => done(with_plane_op(m, PlaneOp::ScrollLeft)),
        Instruction::ExitProgram => done(Machine { pc: m.mem.len() as int, ..m }),
        Instruction::LowResolution => done(with_resolution(m, Resolution::Low)),
        Instruction::HighResolution => done(with_resolution(m, Resolution::High)),
        Instruction::Jump { nnn } => done(Machine { pc: nnn as int, ..m }),
        Instruction::Call { nnn } => done(
            Machine { pc: nnn as int, stack: m.stack.push(m.pc as usize), ..m },
        ),
        Instruction::SkipIfEqual { x, nn } => done(skipped(m, m.v[x as int] == nn)),
        Instruction::SkipIfNotEqual { x, nn } => done(skipped(m, m.v[x as int] != nn)),
        Instruction::SkipIfRegsEqual { x, y } => done(skipped(m, m.v[x as int] == m.v[y as int])),
        Instruction::SaveRange { x, y } => save_range(m, x as int, y as int, op),
        Instruction::LoadRange { x, y } => load_range(m, x as int, y as int, op),
        Instruction::SetImmediate { x, nn } => done(Machine { v: m.v.update(x as int, nn), ..m }),
        Instruction::AddImmediate { x, nn } => done(
            Machine { v: m.v.update(x as int, add_mod(m.v[x as int], nn)), ..m },
        ),
        Instruction::Alu { op: a, x, y } => done(
            Machine { v: alu_result(m.v, a, x as int, y as int, m.quirks), ..m },
        ),
        Instruction::SkipIfRegsNotEqual { x, y } => done(
            skipped(m, m.v[x as int] != m.v[y as int]),
        ),
        Instruction::SetIndex { nnn } => done(Machine { i: nnn as int, ..m }),
        Instruction::JumpWithOffset { x, nnn } => done(
            Machine {
                pc: nnn as int + if m.quirks.vx_offset_jump {
                    m.v[x as int] as int
                } else {
                    m.v[0] as int
                },
                ..m
            },
        ),
        Instruction::Random { x, nn } => done(Machine { v: m.v.update(x as int, random & nn), ..m }),
        Instruction::Draw { x, y, n } => draw(m, x as int, y as int, n, op),
        Instruction::SkipIfKeyPressed { x } => done(
            skipped(m, m.keys[(m.v[x as int] & 0xF) as int] == KeyState::Pressed),
        ),
        Instruction::SkipIfKeyNotPressed { x } => done(
            skipped(m, m.keys[(m.v[x as int] & 0xF) as int] != KeyState::Pressed),
        ),
        Instruction::LongIndex => long_index(m, op),
        Instruction::SelectPlanes { mask } => done(Machine { active: mask, ..m }),
        Instruction::AudioPattern => done(m),
        Instruction::PitchRate { x } => done(m),
        Instruction::GetDelay { x } => done(Machine { v: m.v.update(x as int, m.delay), ..m }),
        Instruction::WaitKey { x } => match first_released(m.keys) {
            Some(k) => done(Machine { v: m.v.update(x as int, k as u8), ..m }),
            None => done(Machine { pc: m.pc - 2, ..m }),
        },
        Instruction::SetDelay { x } => done(Machine { delay: m.v[x as int], ..m }),
        Instruction::SetSound { x } => done(with_sound_timer(m, m.v[x as int])),
        Instruction::AddIndex { x } => done(
            Machine { i: (m.i + m.v[x as int] as int) % 0x10000, ..m },
        ),
        Instruction::SmallGlyph { x } => done(
            Machine { i: (m.v[x as int] & 0xF) as int * 5, ..m },
        ),
        Instruction::LargeGlyph { x } => done(
            Machine { i: LARGE_FONT_START as int + (m.v[x as int] & 0xF) as int * 10, ..m },
        ),
        Instruction::Bcd { x } => store_bcd(m, x as int, op),
        Instruction::StoreRegisters { x } => store_registers(m, x as int, op),
        Instruction::LoadRegisters { x } => load_registers(m, x as int, op),
        Instruction::SaveFlags { x } => done(
            Machine {
                flags: Seq::new(
                    16,
                    |r: int|
                        if r < x {
                            m.v[r]
                        } else {
                            m.flags[r]
                        },
                ),
                ..m
            },
        ),
        Instruction::LoadFlags { x } => done(
            Machine {
                v: Seq::new(
                    16,
                    |r: int|
                        if r < x {
                            m.flags[r]
                        } else {
                            m.v[r]
                        },
                ),
                ..m
            },
        ),
    }
}

/// The opcode `op` run on `m`, whose PC is already past it.
pub open spec fn step(m: Machine, op: u16, random: u8) -> Outcome {
    match decoded(op) {
        Some(ins) => step_instruction(m, ins, op, random),
        None => failed(m, EmulatorError::UnknownOpcode { opcode: op, address: fetch_address(m) }),
    }
}

} // verus!

verus! {

/// `m` with PC moved past the instruction it points at.
pub open spec fn fetched(m: Machine) -> Machine {
    Machine { pc: m.pc + 2, ..m }
}

/// Whether PC leaves no complete instruction to fetch.
pub open spec fn at_end(m: Machine) -> bool {
    m.pc + 1 >= m.mem.len()
}

/// One fetch-and-execute cycle. With no instruction left, the program ends
/// and the audio backend is stopped; else the opcode at PC is fetched, PC
/// moves past it, and it runs. `random` is the byte `CXNN` uses.
#[verifier::opaque]
pub open spec fn cycle(m: Machine, random: u8) -> (Machine, Result<(), Event>) {
    if at_end(m) {
        (stopped(m), Err(Event::Exit))
    } else {
        let (m2, r) = step(fetched(m), opcode_at(m.mem, m.pc), random);
        (
            m2,
            match r {
                Ok(_) => Ok(()),
                Err(e) => Err(Event::ReportError(e)),
            },
        )
    }
}

/// Up to `budget` cycles from `m`, the k-th using `randoms[k]`; they stop at
/// the first that ends the program or fails, whose event is returned.
pub open spec fn run_cycles(m: Machine, randoms: Seq<u8>, budget: nat) -> (Machine, Option<Event>)
    decreases budget,
{
    if budget == 0 {
        (m, None)
    } else {
        let (m2, r) = cycle(m, randoms[0]);
        match r {
            Ok(_) => run_cycles(m2, randoms.drop_first(), (budget - 1) as nat),
            Err(e) => (m2, Some(e)),
        }
    }
}

/// One more cycle after `k` quiet ones is the same as `k + 1` cycles from the start.
pub proof fn lemma_run_cycles_extend(m: Machine, randoms: Seq<u8>, k: nat, b: u8)
    requires
        randoms.len() == k,
        run_cycles(m, randoms, k).1 is None,
    ensures
        run_cycles(m, randoms.push(b), k + 1) == ({
            let (m2, r) = cycle(run_cycles(m, randoms, k).0, b);
            (
                m2,
                match r {
                    Ok(_) => None,
                    Err(e) => Some(e),
                },
            )
        }),
    decreases k,
{
    assert(randoms.push(b)[0] == if k > 0 {
        randoms[0]
    } else {
        b
    });
    if k > 0 {
        let (m1, r1) = cycle(m, randoms[0]);
        assert(r1 is Ok);
        let k1 = (k - 1) as nat;
        assert(run_cycles(m, randoms, k) == run_cycles(m1, randoms.drop_first(), k1));
        assert(randoms.push(b).drop_first() =~= randoms.drop_first().push(b));
        assert(run_cycles(m, randoms.push(b), k + 1) == run_cycles(
            m1,
            randoms.drop_first().push(b),
            k1 + 1,
        ));
        lemma_run_cycles_extend(m1, randoms.drop_first(), k1, b);
    } else {
        reveal_with_fuel(run_cycles, 2);
        assert(randoms.push(b).drop_first() =~= Seq::<u8>::empty());
        assert(run_cycles(m, randoms, k) == (m, None::<Event>));
    }
}

/// Once a cycle has stopped the run, later random bytes change nothing.
pub proof fn lemma_run_cycles_stop(m: Machine, randoms: Seq<u8>, rest: Seq<u8>, k: nat, budget: nat)
    requires
        randoms.len() == k,
        k <= budget,
        rest.len() == budget - k,
        run_cycles(m, randoms, k).1 is Some,
    ensures
        run_cycles(m, randoms + rest, budget) == run_cycles(m, randoms, k),
    decreases k,
{
    if k > 0 {
        let (m1, r) = cycle(m, randoms[0]);
        assert((randoms + rest)[0] == randoms[0]);
        if r is Ok {
            assert((randoms + rest).drop_first() =~= randoms.drop_first() + rest);
            lemma_run_cycles_stop(
                m1,
                randoms.drop_first(),
                rest,
                (k - 1) as nat,
                (budget - 1) as nat,
            );
        }
    }
}

} // verus!
