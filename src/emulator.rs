use vstd::prelude::*;

use crate::beeper::{Beeper, Message};
use crate::config::Config;
use crate::display::{plane_selected, Display, PlaneOp, Resolution};
use crate::error::{EmulatorError, Event};
use crate::instruction::{decode, AluOp, Instruction};
use crate::keypad::Keypad;
use crate::machine::{
    alu_result, cycle, draw, fetch_address, lemma_run_cycles_extend, lemma_run_cycles_stop,
    load_range, load_registers, long_index, paused, plane_data_offset, played, range_register,
    range_span, run_cycles, save_range, selected_count, skipped, sprite_bytes, sprite_rows,
    sprite_width, step, store_bcd, store_registers, ticked, with_plane_op, with_resolution,
    with_sound_timer, Machine,
};
use crate::memory::{
    max_rom_len, valid_memory_size, with_fonts, with_rom, LoadError, Memory, INSTRUCTIONS_START,
    LARGE_FONT_START, LARGE_GLYPH_BYTES, SMALL_GLYPH_BYTES,
};
use crate::sprite::{
    drawable, lemma_cell_drawn, lemma_cell_skipped, lemma_draw_end, lemma_draw_start,
    lemma_next_plane, lemma_next_row, partial_collision, partial_planes,
};

verus! {

/// Relies on `rand::random`: a byte from the thread-local generator. Nothing
/// is known of its value.
#[verifier::external_body]
fn random_byte() -> (r: u8) {
    rand::random::<u8>()
}

/// Upper bound on the program counter and on saved return addresses.
pub const PC_LIMIT: usize = 0x20000;

/// The whole machine: configuration, audio protocol, display, keypad,
/// memory, registers, stack and timers.
#[derive(Clone, Debug)]
pub struct Emulator {
    pub config: Config,
    pub beeper: Beeper,
    pub display: Display,
    pub keypad: Keypad,
    pub memory: Memory,
    pub rom_loaded: bool,
    /// Address of the next instruction.
    pub pc: usize,
    /// The index register, which points into memory.
    pub i_reg: usize,
    /// Return addresses of the subroutines being run.
    pub stack: Vec<usize>,
    /// V0 to VF.
    pub v_regs: [u8; 16],
    /// SuperChip flag registers; kept for the life of the emulator only.
    pub f_regs: [u8; 16],
    /// Counts down once per frame.
    pub delay_timer: u8,
    /// Counts down once per frame; the tone sounds while it is above zero.
    pub sound_timer: u8,
}

impl View for Emulator {
    type V = Machine;

    open spec fn view(&self) -> Machine {
        Machine {
            pc: self.pc as int,
            i: self.i_reg as int,
            v: self.v_regs@,
            flags: self.f_regs@,
            stack: self.stack@,
            mem: self.memory@,
            planes: self.display.grids(),
            active: self.display.active_planes,
            res: self.display.resolution,
            delay: self.delay_timer,
            sound: self.sound_timer,
            keys: self.keypad.keys@,
            quirks: self.config.quirks,
            playing: self.beeper.playing(),
            messages: self.beeper.pending(),
        }
    }
}

impl Emulator {
    /// Memory and display are well formed, I is a 16-bit address, and the
    /// program counter and return addresses are bounded.
    pub open spec fn wf(&self) -> bool {
        &&& self.memory.wf()
        &&& self.memory@.len() == self.config.memory_size
        &&& self.display.wf()
        &&& self.i_reg <= 0xFFFF
        &&& self.pc <= PC_LIMIT
        &&& forall|k: int| 0 <= k < self.stack@.len() ==> #[trigger] self.stack@[k] <= PC_LIMIT
    }

    /// The program counter stands just past a fetched instruction.
    pub open spec fn past_fetch(&self) -> bool {
        2 <= self.pc <= self.memory@.len()
    }

    /// What stays as it is when an instruction runs.
    pub open spec fn same_setup(&self, other: &Emulator) -> bool {
        &&& self.config == other.config
        &&& self.rom_loaded == other.rom_loaded
    }

    /// A machine with the fonts loaded, PC at the program start and everything else zero.
    pub fn new(config: Config) -> (r: Emulator)
        requires
            valid_memory_size(config.memory_size as int),
        ensures
            r.wf(),
            r.config == config,
            !r.rom_loaded,
            r.pc == INSTRUCTIONS_START,
            r.i_reg == 0,
            r.stack@ == Seq::<usize>::empty(),
            r.v_regs@ == Seq::new(16, |k: int| 0u8),
            r.f_regs@ == Seq::new(16, |k: int| 0u8),
            r.delay_timer == 0,
            r.sound_timer == 0,
            r.memory@ == with_fonts(Seq::new(config.memory_size as nat, |a: int| 0u8)),
            r.display.resolution == Resolution::Low,
            r.display.active_planes == 1,
            !r.beeper.playing(),
            r.beeper.pending() == Seq::<Message>::empty(),
    {
        let mut memory = Memory::new(config.memory_size);
        memory.load_fonts();
        let r = Emulator {
            config,
            beeper: Beeper::default(),
            display: Display::default(),
            keypad: Keypad::default(),
            memory,
            rom_loaded: false,
            pc: INSTRUCTIONS_START,
            i_reg: 0,
            stack: Vec::new(),
            v_regs: [0u8; 16],
            f_regs: [0u8; 16],
            delay_timer: 0,
            sound_timer: 0,
        };
        assert(r.v_regs@ =~= Seq::new(16, |k: int| 0u8));
        assert(r.f_regs@ =~= Seq::new(16, |k: int| 0u8));
        r
    }

    /// Run one `8XY_` instruction.
    #[verifier::rlimit(40)]
    fn alu(&mut self, op: AluOp, x: u8, y: u8)
        requires
            x < 16,
            y < 16,
        ensures
            final(self)@ == (Machine {
                v: alu_result(old(self)@.v, op, x as int, y as int, old(self)@.quirks),
                ..old(self)@
            }),
            final(self).memory == old(self).memory,
            final(self).display == old(self).display,
            final(self).stack == old(self).stack,
            final(self).beeper == old(self).beeper,
            final(self).keypad == old(self).keypad,
            final(self).same_setup(old(self)),
            final(self).pc == old(self).pc,
            final(self).i_reg == old(self).i_reg,
    {
        let x = x as usize;
        let y = y as usize;
        let vx = self.v_regs[x];
        let vy = self.v_regs[y];
        let source = if self.config.quirks.shift_vx_directly {
            vx
        } else {
            vy
        };
        match op {
            AluOp::Assign => {
                self.v_regs[x] = vy;
            },
            AluOp::Or => {
                if self.config.quirks.vf_reset {
                    self.v_regs[15] = 0;
                }
                self.v_regs[x] = self.v_regs[x] | self.v_regs[y];
            },
            AluOp::And => {
                if self.config.quirks.vf_reset {
                    self.v_regs[15] = 0;
                }
                self.v_regs[x] = self.v_regs[x] & self.v_regs[y];
            },
            AluOp::Xor => {
                if self.config.quirks.vf_reset {
                    self.v_regs[15] = 0;
                }
                self.v_regs[x] = self.v_regs[x] ^ self.v_regs[y];
            },
            AluOp::Add => {
                let sum: u16 = vx as u16 + vy as u16;
                if sum > 255 {
                    self.v_regs[x] = (sum - 256) as u8;
                    self.v_regs[15] = 1;
                } else {
                    self.v_regs[x] = sum as u8;
                    self.v_regs[15] = 0;
                }
            },
            AluOp::Sub => {
                if vx >= vy {
                    self.v_regs[x] = vx - vy;
                    self.v_regs[15] = 1;
                } else {
                    self.v_regs[x] = (vx as u16 + 256 - vy as u16) as u8;
                    self.v_regs[15] = 0;
                }
            },
            AluOp::ShiftRight => {
                self.v_regs[x] = source >> 1;
                self.v_regs[15] = source & 1;
            },
            AluOp::SubReverse => {
                if vy >= vx {
                    self.v_regs[x] = vy - vx;
                    self.v_regs[15] = 1;
                } else {
                    self.v_regs[x] = (vy as u16 + 256 - vx as u16) as u8;
                    self.v_regs[15] = 0;
                }
            },
            AluOp::ShiftLeft => {
                self.v_regs[x] = ((source as u16 * 2) % 256) as u8;
                self.v_regs[15] = source >> 7;
            },
        }
    }

    /// The fault of a memory access up to `index` by the current instruction.
    fn out_of_bounds(&self, opcode: u16, index: usize) -> (r: EmulatorError)
        requires
            self.pc >= 2,
        ensures
            r == (EmulatorError::MemoryOutOfBounds {
                opcode,
                address: fetch_address(self@),
                index,
            }),
    {
        EmulatorError::MemoryOutOfBounds { opcode, address: self.pc - 2, index }
    }

    /// `FX55`.
    fn store_registers(&mut self, x: u8, opcode: u16) -> (r: Result<(), EmulatorError>)
        requires
            old(self).wf(),
            old(self).pc >= 2,
            x < 16,
        ensures
            (final(self)@, r) == store_registers(old(self)@, x as int, opcode),
            final(self).wf(),
            final(self).same_setup(old(self)),
    {
        let x = x as usize;
        let start = self.i_reg;
        if start + x >= self.memory.size() {
            return Err(self.out_of_bounds(opcode, start + x));
        }
        let ghost pre = self@;
        let mut k: usize = 0;
        while k <= x
            invariant
                k <= x + 1,
                x < 16,
                start == self.i_reg,
                start + x < self.memory@.len(),
                self.memory.wf(),
                self.v_regs@ == pre.v,
                self.memory@ == Seq::new(
                    pre.mem.len(),
                    |a: int|
                        if start <= a < start + k {
                            pre.v[a - start]
                        } else {
                            pre.mem[a]
                        },
                ),
                self@ == (Machine { mem: self.memory@, ..pre }),
                self.same_setup(old(self)),
                self.display == old(self).display,
                self.stack == old(self).stack,
            decreases x + 1 - k,
        {
            self.memory.write(start + k, self.v_regs[k]);
            k = k + 1;
            assert(self.memory@ =~= Seq::new(
                pre.mem.len(),
                |a: int|
                    if start <= a < start + k {
                        pre.v[a - start]
                    } else {
                        pre.mem[a]
                    },
            ));
        }
        if self.config.quirks.increment_i_reg {
            self.i_reg = (start + x + 1) % 0x10000;
        }
        assert(self.memory@ =~= Seq::new(
            pre.mem.len(),
            |a: int|
                if start <= a <= start + x {
                    pre.v[a - start]
                } else {
                    pre.mem[a]
                },
        ));
        Ok(())
    }

    /// `FX65`.
    fn load_registers(&mut self, x: u8, opcode: u16) -> (r: Result<(), EmulatorError>)
        requires
            old(self).wf(),
            old(self).pc >= 2,
            x < 16,
        ensures
            (final(self)@, r) == load_registers(old(self)@, x as int, opcode),
            final(self).wf(),
            final(self).same_setup(old(self)),
    {
        let x = x as usize;
        let start = self.i_reg;
        if start + x >= self.memory.size() {
            return Err(self.out_of_bounds(opcode, start + x));
        }
        let ghost pre = self@;
        let mut k: usize = 0;
        while k <= x
            invariant
                k <= x + 1,
                x < 16,
                start == self.i_reg,
                start + x < self.memory@.len(),
                self.memory@ == pre.mem,
                self.v_regs@ == Seq::new(
                    16,
                    |r: int|
                        if r < k {
                            pre.mem[start + r]
                        } else {
                            pre.v[r]
                        },
                ),
                self@ == (Machine { v: self.v_regs@, ..pre }),
                self.same_setup(old(self)),
                self.display == old(self).display,
                self.stack == old(self).stack,
                self.wf(),
            decreases x + 1 - k,
        {
            self.v_regs[k] = self.memory.read(start + k);
            k = k + 1;
            assert(self.v_regs@ =~= Seq::new(
                16,
                |r: int|
                    if r < k {
                        pre.mem[start + r]
                    } else {
                        pre.v[r]
                    },
            ));
        }
        if self.config.quirks.increment_i_reg {
            self.i_reg = (start + x + 1) % 0x10000;
        }
        assert(self.v_regs@ =~= Seq::new(
            16,
            |r: int|
                if r <= x {
                    pre.mem[start + r]
                } else {
                    pre.v[r]
                },
        ));
        Ok(())
    }

    /// `5XY2`.
    fn save_range(&mut self, x: u8, y: u8, opcode: u16) -> (r: Result<(), EmulatorError>)
        requires
            old(self).wf(),
            old(self).pc >= 2,
            x < 16,
            y < 16,
        ensures
            (final(self)@, r) == save_range(old(self)@, x as int, y as int, opcode),
            final(self).wf(),
            final(self).same_setup(old(self)),
    {
        let x = x as usize;
        let y = y as usize;
        let d = if x <= y {
            y - x
        } else {
            x - y
        };
        let start = self.i_reg;
        if start + d >= self.memory.size() {
            return Err(self.out_of_bounds(opcode, start + d));
        }
        let ghost pre = self@;
        let mut k: usize = 0;
        while k <= d
            invariant
                k <= d + 1,
                x < 16,
                y < 16,
                d == range_span(x as int, y as int),
                start == self.i_reg,
                start + d < self.memory@.len(),
                self.memory.wf(),
                self.v_regs@ == pre.v,
                self.memory@ == Seq::new(
                    pre.mem.len(),
                    |a: int|
                        if start <= a < start + k {
                            pre.v[range_register(x as int, y as int, a - start)]
                        } else {
                            pre.mem[a]
                        },
                ),
                self@ == (Machine { mem: self.memory@, ..pre }),
                self.same_setup(old(self)),
                self.display == old(self).display,
                self.stack == old(self).stack,
            decreases d + 1 - k,
        {
            let reg = if x <= y {
                x + k
            } else {
                x - k
            };
            self.memory.write(start + k, self.v_regs[reg]);
            k = k + 1;
            assert(self.memory@ =~= Seq::new(
                pre.mem.len(),
                |a: int|
                    if start <= a < start + k {
                        pre.v[range_register(x as int, y as int, a - start)]
                    } else {
                        pre.mem[a]
                    },
            ));
        }
        assert(self.memory@ =~= Seq::new(
            pre.mem.len(),
            |a: int|
                if start <= a <= start + d {
                    pre.v[range_register(x as int, y as int, a - start)]
                } else {
                    pre.mem[a]
                },
        ));
        Ok(())
    }

    /// `5XY3`.
    fn load_range(&mut self, x: u8, y: u8, opcode: u16) -> (r: Result<(), EmulatorError>)
        requires
            old(self).wf(),
            old(self).pc >= 2,
            x < 16,
            y < 16,
        ensures
            (final(self)@, r) == load_range(old(self)@, x as int, y as int, opcode),
            final(self).wf(),
            final(self).same_setup(old(self)),
    {
        let x = x as usize;
        let y = y as usize;
        let d = if x <= y {
            y - x
        } else {
            x - y
        };
        let start = self.i_reg;
        if start + d >= self.memory.size() {
            return Err(self.out_of_bounds(opcode, start + d));
        }
        let ghost pre = self@;
        let ghost xi = x as int;
        let ghost yi = y as int;
        let mut k: usize = 0;
        while k <= d
            invariant
                k <= d + 1,
                x < 16,
                y < 16,
                xi == x,
                yi == y,
                d == range_span(xi, yi),
                start == self.i_reg,
                start + d < self.memory@.len(),
                self.memory@ == pre.mem,
                self.v_regs@ == Seq::new(
                    16,
                    |r: int|
                        if range_span(xi, r) < k && range_span(xi, r) <= d && range_span(r, yi)
                            <= d {
                            pre.mem[start + range_span(xi, r)]
                        } else {
                            pre.v[r]
                        },
                ),
                self@ == (Machine { v: self.v_regs@, ..pre }),
                self.same_setup(old(self)),
                self.display == old(self).display,
                self.stack == old(self).stack,
                self.wf(),
            decreases d + 1 - k,
        {
            let reg = if x <= y {
                x + k
            } else {
                x - k
            };
            self.v_regs[reg] = self.memory.read(start + k);
            k = k + 1;
            assert(self.v_regs@ =~= Seq::new(
                16,
                |r: int|
                    if range_span(xi, r) < k && range_span(xi, r) <= d && range_span(r, yi) <= d {
                        pre.mem[start + range_span(xi, r)]
                    } else {
                        pre.v[r]
                    },
            ));
        }
        assert(self.v_regs@ =~= Seq::new(
            16,
            |r: int|
                if range_span(xi, r) <= d && range_span(r, yi) <= d {
                    pre.mem[start + range_span(xi, r)]
                } else {
                    pre.v[r]
                },
        ));
        Ok(())
    }

    /// `FX33`.
    fn store_bcd(&mut self, x: u8, opcode: u16) -> (r: Result<(), EmulatorError>)
        requires
            old(self).wf(),
            old(self).pc >= 2,
            x < 16,
        ensures
            (final(self)@, r) == store_bcd(old(self)@, x as int, opcode),
            final(self).wf(),
            final(self).same_setup(old(self)),
    {
        let value = self.v_regs[x as usize];
        let start = self.i_reg;
        if start + 2 >= self.memory.size() {
            return Err(self.out_of_bounds(opcode, start + 2));
        }
        self.memory.write(start, value / 100);
        self.memory.write(start + 1, (value % 100) / 10);
        self.memory.write(start + 2, value % 10);
        Ok(())
    }

    /// `F000`.
    fn long_index(&mut self, opcode: u16) -> (r: Result<(), EmulatorError>)
        requires
            old(self).wf(),
            old(self).past_fetch(),
        ensures
            (final(self)@, r) == long_index(old(self)@, opcode),
            final(self).wf(),
            final(self).same_setup(old(self)),
    {
        if self.pc + 1 >= self.memory.size() {
            return Err(self.out_of_bounds(opcode, self.pc + 1));
        }
        self.i_reg = self.memory.read(self.pc) as usize * 256 + self.memory.read(self.pc + 1) as usize;
        self.pc = self.pc + 2;
        Ok(())
    }

    /// `FX75`: V0..VX, X exclusive, into the flag registers.
    fn save_flags(&mut self, x: u8)
        requires
            x < 16,
        ensures
            final(self)@ == (Machine {
                flags: Seq::new(
                    16,
                    |r: int|
                        if r < x {
                            old(self)@.v[r]
                        } else {
                            old(self)@.flags[r]
                        },
                ),
                ..old(self)@
            }),
            final(self).memory == old(self).memory,
            final(self).display == old(self).display,
            final(self).stack == old(self).stack,
            final(self).same_setup(old(self)),
            final(self).pc == old(self).pc,
            final(self).i_reg == old(self).i_reg,
    {
        let ghost pre = self@;
        let x = x as usize;
        let mut k: usize = 0;
        while k < x
            invariant
                k <= x,
                x < 16,
                self.f_regs@ == Seq::new(
                    16,
                    |r: int|
                        if r < k {
                            pre.v[r]
                        } else {
                            pre.flags[r]
                        },
                ),
                self@ == (Machine { flags: self.f_regs@, ..pre }),
                self.memory == old(self).memory,
                self.display == old(self).display,
                self.stack == old(self).stack,
                self.same_setup(old(self)),
                self.pc == old(self).pc,
                self.i_reg == old(self).i_reg,
            decreases x - k,
        {
            self.f_regs[k] = self.v_regs[k];
            k = k + 1;
            assert(self.f_regs@ =~= Seq::new(
                16,
                |r: int|
                    if r < k {
                        pre.v[r]
                    } else {
                        pre.flags[r]
                    },
            ));
        }
    }

    /// `FX85`: V0..VX, X exclusive, from the flag registers.
    fn load_flags(&mut self, x: u8)
        requires
            x < 16,
        ensures
            final(self)@ == (Machine {
                v: Seq::new(
                    16,
                    |r: int|
                        if r < x {
                            old(self)@.flags[r]
                        } else {
                            old(self)@.v[r]
                        },
                ),
                ..old(self)@
            }),
            final(self).memory == old(self).memory,
            final(self).display == old(self).display,
            final(self).stack == old(self).stack,
            final(self).same_setup(old(self)),
            final(self).pc == old(self).pc,
            final(self).i_reg == old(self).i_reg,
    {
        let ghost pre = self@;
        let x = x as usize;
        let mut k: usize = 0;
        while k < x
            invariant
                k <= x,
                x < 16,
                self.v_regs@ == Seq::new(
                    16,
                    |r: int|
                        if r < k {
                            pre.flags[r]
                        } else {
                            pre.v[r]
                        },
                ),
                self@ == (Machine { v: self.v_regs@, ..pre }),
                self.same_setup(old(self)),
                self.display == old(self).display,
                self.stack == old(self).stack,
                self.memory == old(self).memory,
                self.display == old(self).display,
                self.stack == old(self).stack,
                self.same_setup(old(self)),
                self.pc == old(self).pc,
                self.i_reg == old(self).i_reg,
            decreases x - k,
        {
            self.v_regs[k] = self.f_regs[k];
            k = k + 1;
            assert(self.v_regs@ =~= Seq::new(
                16,
                |r: int|
                    if r < k {
                        pre.flags[r]
                    } else {
                        pre.v[r]
                    },
            ));
        }
    }

    /// Set the sound timer; the tone starts when it leaves zero and stops
    /// when it reaches zero.
    pub fn set_sound_timer(&mut self, value: u8)
        ensures
            final(self)@ == with_sound_timer(old(self)@, value),
            final(self).memory == old(self).memory,
            final(self).display == old(self).display,
            final(self).stack == old(self).stack,
            final(self).same_setup(old(self)),
            final(self).pc == old(self).pc,
            final(self).i_reg == old(self).i_reg,
    {
        let was_sounding = self.sound_timer > 0;
        self.sound_timer = value;
        if was_sounding && value == 0 {
            self.beeper.pause();
        } else if !was_sounding && value > 0 {
            self.beeper.play();
        }
    }

    /// `DXYN`.
    fn draw(&mut self, x: u8, y: u8, n: u8, opcode: u16) -> (r: Result<(), EmulatorError>)
        requires
            old(self).wf(),
            old(self).pc >= 2,
            x < 16,
            y < 16,
            n < 16,
        ensures
            (final(self)@, r) == draw(old(self)@, x as int, y as int, n, opcode),
            final(self).wf(),
            final(self).same_setup(old(self)),
    {
        let ghost m = self@;
        let width = self.display.resolution.width();
        let height = self.display.resolution.height();
        let sx = self.v_regs[x as usize] as usize % width;
        let sy = self.v_regs[y as usize] as usize % height;
        let rows: usize = if n == 0 {
            16
        } else {
            n as usize
        };
        let cols: usize = if n == 0 {
            16
        } else {
            8
        };
        let bytes: usize = if n == 0 {
            32
        } else {
            n as usize
        };
        let mask = self.display.active_planes;
        let first = mask & 1 != 0;
        let second = mask & 2 != 0;
        let needed: usize = (if first {
            bytes
        } else {
            0
        }) + (if second {
            bytes
        } else {
            0
        });
        proof {
            let c = selected_count(mask);
            let b = sprite_bytes(n);
            assert(b == bytes);
            if first && second {
                assert(c == 2);
            } else if first || second {
                assert(c == 1);
            } else {
                assert(c == 0);
            }
            assert(needed == c * b) by (nonlinear_arith)
                requires
                    c == 2 ==> needed == b + b,
                    c == 1 ==> needed == b,
                    c == 0 ==> needed == 0,
                    0 <= c <= 2,
            ;
        }
        if needed > 0 && self.i_reg + needed > self.memory.size() {
            return Err(self.out_of_bounds(opcode, self.i_reg + needed - 1));
        }
        let wrap = self.config.quirks.wrap_sprites;
        let ghost gsx = sx as int;
        let ghost gsy = sy as int;
        proof {
            assert(self.display.planes@[0].wf());
            assert(self.display.planes@[1].wf());
            lemma_draw_start(m, gsx, gsy, n);
        }
        let mut collided = false;
        let mut base = self.i_reg;
        let mut p: usize = 0;
        while p < 2
            invariant
                p <= 2,
                n < 16,
                drawable(m, gsx, gsy),
                gsx == sx,
                gsy == sy,
                width == m.res.spec_width(),
                height == m.res.spec_height(),
                rows == sprite_rows(n),
                cols == sprite_width(n),
                bytes == sprite_bytes(n),
                mask == m.active,
                first == plane_selected(mask, 0),
                second == plane_selected(mask, 1),
                wrap == m.quirks.wrap_sprites,
                needed == (if first {
                    bytes
                } else {
                    0
                }) + (if second {
                    bytes
                } else {
                    0
                }),
                needed == 0 || m.i + needed <= m.mem.len(),
                p < 2 ==> base == m.i + plane_data_offset(mask, p as int, n),
                self.display.wf(),
                self.display.resolution == m.res,
                self.display.active_planes == mask,
                self.display.grids() == partial_planes(m, gsx, gsy, n, p as int, 0, 0),
                collided == partial_collision(m, gsx, gsy, n, p as int, 0, 0),
                self@ == (Machine { planes: self.display.grids(), ..m }),
                self.memory.wf(),
                self.i_reg <= 0xFFFF,
                self.pc <= PC_LIMIT,
                self.stack == old(self).stack,
                self.same_setup(old(self)),
            decreases 2 - p,
        {
            let selected = if p == 0 {
                first
            } else {
                second
            };
            if selected {
                let mut row: usize = 0;
                while row < rows
                    invariant
                        p < 2,
                        selected,
                        selected == plane_selected(mask, p as int),
                        row <= rows,
                        n < 16,
                        drawable(m, gsx, gsy),
                        gsx == sx,
                        gsy == sy,
                        width == m.res.spec_width(),
                        height == m.res.spec_height(),
                        rows == sprite_rows(n),
                        cols == sprite_width(n),
                        bytes == sprite_bytes(n),
                        mask == m.active,
                        wrap == m.quirks.wrap_sprites,
                        base == m.i + plane_data_offset(mask, p as int, n),
                        base + bytes <= m.mem.len(),
                        self.display.wf(),
                        self.display.resolution == m.res,
                        self.display.active_planes == mask,
                        self.display.grids() == partial_planes(m, gsx, gsy, n, p as int, row as int, 0),
                        collided == partial_collision(m, gsx, gsy, n, p as int, row as int, 0),
                        self@ == (Machine { planes: self.display.grids(), ..m }),
                        self.memory.wf(),
                        self.i_reg <= 0xFFFF,
                        self.pc <= PC_LIMIT,
                        self.stack == old(self).stack,
                        self.same_setup(old(self)),
                    decreases rows - row,
                {
                    let mut col: usize = 0;
                    while col < cols
                        invariant
                            p < 2,
                            selected == plane_selected(mask, p as int),
                            selected,
                            row < rows,
                            col <= cols,
                            n < 16,
                            drawable(m, gsx, gsy),
                            gsx == sx,
                            gsy == sy,
                            width == m.res.spec_width(),
                            height == m.res.spec_height(),
                            rows == sprite_rows(n),
                            cols == sprite_width(n),
                            bytes == sprite_bytes(n),
                            mask == m.active,
                            wrap == m.quirks.wrap_sprites,
                            base == m.i + plane_data_offset(mask, p as int, n),
                            base + bytes <= m.mem.len(),
                            self.display.wf(),
                            self.display.resolution == m.res,
                            self.display.active_planes == mask,
                            self.display.grids() == partial_planes(
                                m,
                                gsx,
                                gsy,
                                n,
                                p as int,
                                row as int,
                                col as int,
                            ),
                            collided == partial_collision(
                                m,
                                gsx,
                                gsy,
                                n,
                                p as int,
                                row as int,
                                col as int,
                            ),
                            self@ == (Machine { planes: self.display.grids(), ..m }),
                            self.memory.wf(),
                            self.i_reg <= 0xFFFF,
                            self.pc <= PC_LIMIT,
                            self.stack == old(self).stack,
                            self.same_setup(old(self)),
                        decreases cols - col,
                    {
                        let set = if n == 0 {
                            let a = base + 2 * row;
                            let word = ((self.memory.read(a) as u16) << 8) | (self.memory.read(a + 1) as u16);
                            word & (0x8000u16 >> (col as u16)) != 0
                        } else {
                            self.memory.read(base + row) & (0x80u8 >> (col as u8)) != 0
                        };
                        let tx = if wrap {
                            (sx + col) % width
                        } else {
                            sx + col
                        };
                        let ty = if wrap {
                            (sy + row) % height
                        } else {
                            sy + row
                        };
                        if set && tx < width && ty < height {
                            proof {
                                lemma_cell_drawn(
                                    m,
                                    gsx,
                                    gsy,
                                    n,
                                    p as int,
                                    row as int,
                                    col as int,
                                    tx as int,
                                    ty as int,
                                );
                            }
                            let was_set = self.display.flip(p, tx, ty);
                            collided = collided || was_set;
                        } else {
                            proof {
                                lemma_cell_skipped(m, gsx, gsy, n, p as int, row as int, col as int);
                            }
                        }
                        col = col + 1;
                    }
                    proof {
                        lemma_next_row(m, gsx, gsy, n, p as int, row as int);
                    }
                    row = row + 1;
                }
                base = base + bytes;
            }
            proof {
                lemma_next_plane(
                    m,
                    gsx,
                    gsy,
                    n,
                    p as int,
                    if selected {
                        rows as int
                    } else {
                        0
                    },
                );
            }
            p = p + 1;
        }
        proof {
            lemma_draw_end(m, gsx, gsy, n);
        }
        self.v_regs[15] = if collided {
            1
        } else {
            0
        };
        Ok(())
    }

    /// Apply `op` to the selected planes.
    fn plane_op(&mut self, op: PlaneOp)
        requires
            old(self).wf(),
            op matches PlaneOp::ScrollUp(n) ==> n < 16,
            op matches PlaneOp::ScrollDown(n) ==> n < 16,
        ensures
            final(self)@ == with_plane_op(old(self)@, op),
            final(self).wf(),
            final(self).same_setup(old(self)),
    {
        let ghost pre = self@;
        self.display.for_active_plane(op);
        assert(self.display.grids() =~= with_plane_op(pre, op).planes);
    }

    /// Switch to `resolution`, clearing the planes if it changes.
    fn set_resolution(&mut self, resolution: Resolution)
        requires
            old(self).wf(),
        ensures
            final(self)@ == with_resolution(old(self)@, resolution),
            final(self).wf(),
            final(self).same_setup(old(self)),
    {
        let ghost pre = self@;
        self.display.set_resolution(resolution);
        assert(self.display.grids() =~= with_resolution(pre, resolution).planes);
    }

    /// Run `opcode`, whose two bytes were fetched just before PC. `random` is
    /// the byte that `CXNN` uses.
    pub fn execute_opcode(&mut self, opcode: u16, random: u8) -> (r: Result<(), EmulatorError>)
        requires
            old(self).wf(),
            old(self).past_fetch(),
        ensures
            (final(self)@, r) == step(old(self)@, opcode, random),
            final(self).wf(),
            final(self).same_setup(old(self)),
    {
        let ghost pre = self@;
        let ins = match decode(opcode) {
            Some(ins) => ins,
            None => {
                return Err(EmulatorError::UnknownOpcode { opcode, address: self.pc - 2 });
            },
        };
        match ins {
            Instruction::ScrollDown { n } => self.plane_op(PlaneOp::ScrollDown(n)),
            Instruction::ScrollUp { n } => self.plane_op(PlaneOp::ScrollUp(n)),
            Instruction::ClearScreen => self.plane_op(PlaneOp::Clear),
            Instruction::Return => match self.stack.pop() {
                Some(address) => {
                    self.pc = address;
                },
                None => {
                    return Err(EmulatorError::StackUnderflow { opcode, address: self.pc - 2 });
                },
            },
            Instruction::ScrollRight => self.plane_op(PlaneOp::ScrollRight),
            Instruction::ScrollLeft => self.plane_op(PlaneOp::ScrollLeft),
            Instruction::ExitProgram => {
                self.pc = self.memory.size();
            },
            Instruction::LowResolution => self.set_resolution(Resolution::Low),
            Instruction::HighResolution => self.set_resolution(Resolution::High),
            Instruction::Jump { nnn } => {
                self.pc = nnn as usize;
            },
            Instruction::Call { nnn } => {
                self.stack.push(self.pc);
                self.pc = nnn as usize;
            },
            Instruction::SkipIfEqual { x, nn } => {
                if self.v_regs[x as usize] == nn {
                    self.skip_instruction();
                }
            },
            Instruction::SkipIfNotEqual { x, nn } => {
                if self.v_regs[x as usize] != nn {
                    self.skip_instruction();
                }
            },
            Instruction::SkipIfRegsEqual { x, y } => {
                if self.v_regs[x as usize] == self.v_regs[y as usize] {
                    self.skip_instruction();
                }
            },
            Instruction::SaveRange { x, y } => {
                return self.save_range(x, y, opcode);
            },
            Instruction::LoadRange { x, y } => {
                return self.load_range(x, y, opcode);
            },
            Instruction::SetImmediate { x, nn } => {
                self.v_regs[x as usize] = nn;
            },
            Instruction::AddImmediate { x, nn } => {
                let sum: u16 = self.v_regs[x as usize] as u16 + nn as u16;
                self.v_regs[x as usize] = (sum % 256) as u8;
            },
            Instruction::Alu { op, x, y } => self.alu(op, x, y),
            Instruction::SkipIfRegsNotEqual { x, y } => {
                if self.v_regs[x as usize] != self.v_regs[y as usize] {
                    self.skip_instruction();
                }
            },
            Instruction::SetIndex { nnn } => {
                self.i_reg = nnn as usize;
            },
            Instruction::JumpWithOffset { x, nnn } => {
                let offset = if self.config.quirks.vx_offset_jump {
                    self.v_regs[x as usize]
                } else {
                    self.v_regs[0]
                };
                self.pc = nnn as usize + offset as usize;
            },
            Instruction::Random { x, nn } => {
                self.v_regs[x as usize] = random & nn;
            },
            Instruction::Draw { x, y, n } => {
                return self.draw(x, y, n, opcode);
            },
            Instruction::SkipIfKeyPressed { x } => {
                let value = self.v_regs[x as usize];
                let key = value & 0xF;
                assert(key < 16) by (bit_vector)
                    requires
                        key == value & 0xF,
                ;
                if self.keypad.is_key_pressed(key as usize) {
                    self.skip_instruction();
                }
            },
            Instruction::SkipIfKeyNotPressed { x } => {
                let value = self.v_regs[x as usize];
                let key = value & 0xF;
                assert(key < 16) by (bit_vector)
                    requires
                        key == value & 0xF,
                ;
                if !self.keypad.is_key_pressed(key as usize) {
                    self.skip_instruction();
                }
            },
            Instruction::LongIndex => {
                return self.long_index(opcode);
            },
            Instruction::SelectPlanes { mask } => {
                self.display.active_planes = mask;
            },
            Instruction::AudioPattern => {},
            Instruction::PitchRate { x } => {},
            Instruction::GetDelay { x } => {
                self.v_regs[x as usize] = self.delay_timer;
            },
            Instruction::WaitKey { x } => match self.keypad.get_released_key() {
                Some(key) => {
                    self.v_regs[x as usize] = key;
                },
                None => {
                    self.pc = self.pc - 2;
                },
            },
            Instruction::SetDelay { x } => {
                self.delay_timer = self.v_regs[x as usize];
            },
            Instruction::SetSound { x } => {
                let value = self.v_regs[x as usize];
                self.set_sound_timer(value);
            },
            Instruction::AddIndex { x } => {
                self.i_reg = (self.i_reg + self.v_regs[x as usize] as usize) % 0x10000;
            },
            Instruction::SmallGlyph { x } => {
                let value = self.v_regs[x as usize];
                let digit = value & 0xF;
                assert(digit < 16) by (bit_vector)
                    requires
                        digit == value & 0xF,
                ;
                self.i_reg = digit as usize * SMALL_GLYPH_BYTES;
            },
            Instruction::LargeGlyph { x } => {
                let value = self.v_regs[x as usize];
                let digit = value & 0xF;
                assert(digit < 16) by (bit_vector)
                    requires
                        digit == value & 0xF,
                ;
                self.i_reg = LARGE_FONT_START + digit as usize * LARGE_GLYPH_BYTES;
            },
            Instruction::Bcd { x } => {
                return self.store_bcd(x, opcode);
            },
            Instruction::StoreRegisters { x } => {
                return self.store_registers(x, opcode);
            },
            Instruction::LoadRegisters { x } => {
                return self.load_registers(x, opcode);
            },
            Instruction::SaveFlags { x } => self.save_flags(x),
            Instruction::LoadFlags { x } => self.load_flags(x),
        }
        Ok(())
    }

    /// One cycle, with `random` as the byte `CXNN` uses.
    pub fn execute_with_random(&mut self, random: u8) -> (r: Result<(), Event>)
        requires
            old(self).wf(),
        ensures
            (final(self)@, r) == cycle(old(self)@, random),
            final(self).wf(),
            final(self).same_setup(old(self)),
    {
        proof {
            reveal(cycle);
        }
        if self.pc + 1 >= self.memory.size() {
            self.beeper.stop();
            return Err(Event::Exit);
        }
        let opcode = ((self.memory.read(self.pc) as u16) << 8) | (self.memory.read(self.pc + 1) as u16);
        self.pc = self.pc + 2;
        match self.execute_opcode(opcode, random) {
            Ok(()) => Ok(()),
            Err(error) => Err(Event::ReportError(error)),
        }
    }

    /// Fetch the instruction at PC, move past it and run it; `Exit` once no
    /// instruction is left, the fault if it fails.
    pub fn execute_instruction(&mut self) -> (r: Result<(), Event>)
        requires
            old(self).wf(),
        ensures
            exists|random: u8| (final(self)@, r) == cycle(old(self)@, random),
            final(self).wf(),
            final(self).same_setup(old(self)),
    {
        let random = if self.pc + 1 < self.memory.size() && self.memory.read(self.pc) & 0xF0 == 0xC0 {
            random_byte()
        } else {
            0
        };
        self.execute_with_random(random)
    }

    /// One frame: the timers tick once, then up to `instructions_per_frame`
    /// instructions run, stopping at the first that ends the program or
    /// fails; its event is returned.
    pub fn run_frame(&mut self) -> (r: Option<Event>)
        requires
            old(self).wf(),
        ensures
            final(self).wf(),
            final(self).same_setup(old(self)),
            exists|randoms: Seq<u8>|
                randoms.len() == old(self).config.instructions_per_frame && (final(self)@, r)
                    == run_cycles(
                    ticked(old(self)@),
                    randoms,
                    old(self).config.instructions_per_frame as nat,
                ),
    {
        self.tick_timers();
        let ghost start = self@;
        let ghost mut used: Seq<u8> = Seq::empty();
        let budget = self.config.instructions_per_frame;
        let mut k: u32 = 0;
        while k < budget
            invariant
                k <= budget,
                budget == self.config.instructions_per_frame,
                self.wf(),
                self.same_setup(old(self)),
                start == ticked(old(self)@),
                used.len() == k,
                run_cycles(start, used, k as nat) == (self@, None::<Event>),
            decreases budget - k,
        {
            let ghost before = self@;
            let result = self.execute_instruction();
            let ghost b = choose|b: u8| (self@, result) == cycle(before, b);
            proof {
                lemma_run_cycles_extend(start, used, k as nat, b);
                used = used.push(b);
            }
            k = k + 1;
            if let Err(event) = result {
                proof {
                    let rest = Seq::new((budget - k) as nat, |i: int| 0u8);
                    lemma_run_cycles_stop(start, used, rest, k as nat, budget as nat);
                    used = used + rest;
                }
                return Some(event);
            }
        }
        None
    }

    /// The host paused emulation: silence the tone.
    pub fn pause_audio(&mut self)
        ensures
            final(self)@ == paused(old(self)@),
            final(self).memory == old(self).memory,
            final(self).display == old(self).display,
            final(self).stack == old(self).stack,
            final(self).same_setup(old(self)),
            final(self).pc == old(self).pc,
            final(self).i_reg == old(self).i_reg,
    {
        self.beeper.pause();
    }

    /// The host resumed emulation: the tone sounds again if the sound timer runs.
    pub fn resume_audio(&mut self)
        ensures
            final(self)@ == if old(self).sound_timer > 0 {
                played(old(self)@)
            } else {
                old(self)@
            },
            final(self).memory == old(self).memory,
            final(self).display == old(self).display,
            final(self).stack == old(self).stack,
            final(self).same_setup(old(self)),
            final(self).pc == old(self).pc,
            final(self).i_reg == old(self).i_reg,
    {
        if self.sound_timer > 0 {
            self.beeper.play();
        }
    }

    /// Count both timers down by one where above zero; the tone stops when
    /// the sound timer reaches zero.
    pub fn tick_timers(&mut self)
        ensures
            final(self)@ == ticked(old(self)@),
            final(self).memory == old(self).memory,
            final(self).display == old(self).display,
            final(self).stack == old(self).stack,
            final(self).same_setup(old(self)),
            final(self).pc == old(self).pc,
            final(self).i_reg == old(self).i_reg,
    {
        if self.delay_timer > 0 {
            self.delay_timer = self.delay_timer - 1;
        }
        if self.sound_timer > 0 {
            self.sound_timer = self.sound_timer - 1;
            if self.sound_timer == 0 {
                self.beeper.pause();
            }
        }
    }

    /// Copy a program image to the program start and reinstall the fonts;
    /// an image too large for memory is refused and nothing changes.
    pub fn load_rom(&mut self, rom: &[u8]) -> (r: Result<(), LoadError>)
        requires
            old(self).wf(),
        ensures
            final(self).wf(),
            final(self).config == old(self).config,
            rom@.len() > max_rom_len(old(self).memory@.len() as int) ==> r == Err::<(), LoadError>(
                LoadError::RomTooLarge {
                    size: rom@.len() as usize,
                    max: max_rom_len(old(self).memory@.len() as int) as usize,
                },
            ) && final(self)@ == old(self)@ && final(self).rom_loaded == old(self).rom_loaded,
            rom@.len() <= max_rom_len(old(self).memory@.len() as int) ==> r is Ok && final(self)@
                == (Machine { mem: with_fonts(with_rom(old(self)@.mem, rom@)), ..old(self)@ })
                && final(self).rom_loaded,
    {
        let r = self.memory.load_rom(rom);
        if r.is_ok() {
            self.rom_loaded = true;
        }
        r
    }

    /// Remember the path of the program to load.
    pub fn select_rom(&mut self, filepath: String)
        ensures
            final(self).config.filepath == Some(filepath),
            final(self)@ == old(self)@,
    {
        self.config.filepath = Some(filepath);
    }

    /// The path of the selected program, if any.
    pub fn get_rom(&self) -> (r: &Option<String>)
        ensures
            *r == self.config.filepath,
    {
        &self.config.filepath
    }

    /// Change the memory size: bytes below both sizes stay, new bytes are zero.
    pub fn set_memory_size(&mut self, size: usize)
        requires
            old(self).wf(),
            valid_memory_size(size as int),
        ensures
            final(self).wf(),
            final(self).config.memory_size == size,
            final(self)@ == (Machine {
                mem: Seq::new(
                    size as nat,
                    |a: int| if a < old(self)@.mem.len() { old(self)@.mem[a] } else { 0u8 },
                ),
                ..old(self)@
            }),
    {
        self.memory.resize(size);
        self.config.memory_size = size;
    }

    /// Start over with the same configuration and keypad: the audio backend
    /// is told to end, and the machine is as `new` makes it.
    pub fn reset(&mut self)
        requires
            old(self).wf(),
        ensures
            final(self).wf(),
            final(self).config == old(self).config,
            final(self).keypad == old(self).keypad,
            !final(self).rom_loaded,
            final(self).pc == INSTRUCTIONS_START,
            final(self).i_reg == 0,
            final(self).stack@ == Seq::<usize>::empty(),
            final(self).v_regs@ == Seq::new(16, |k: int| 0u8),
            final(self).f_regs@ == Seq::new(16, |k: int| 0u8),
            final(self).delay_timer == 0,
            final(self).sound_timer == 0,
            final(self).memory@ == with_fonts(Seq::new(old(self).config.memory_size as nat, |a: int| 0u8)),
            final(self).display.resolution == Resolution::Low,
            final(self).display.active_planes == 1,
            !final(self).beeper.playing(),
            final(self).beeper.pending() == old(self).beeper.pending().push(Message::Stop),
    {
        self.beeper.stop();
        let mut config = Config::default();
        std::mem::swap(&mut config, &mut self.config);
        let mut beeper = Beeper::new();
        std::mem::swap(&mut beeper, &mut self.beeper);
        let keypad = self.keypad;
        *self = Emulator::new(config);
        self.keypad = keypad;
        self.beeper = beeper;
    }

    /// Skip the next instruction: 4 bytes when it is `F000`, else 2.
    pub fn skip_instruction(&mut self)
        requires
            old(self).wf(),
            old(self).pc <= old(self).memory@.len(),
        ensures
            final(self)@ == skipped(old(self)@, true),
            final(self).wf(),
            final(self).same_setup(old(self)),
    {
        if self.pc + 1 < self.memory.size() {
            let opcode = ((self.memory.read(self.pc) as u16) << 8) | (self.memory.read(
                self.pc + 1,
            ) as u16);
            if opcode == 0xF000 {
                self.pc = self.pc + 4;
                return;
            }
        }
        self.pc = self.pc + 2;
    }
}

} // verus!
