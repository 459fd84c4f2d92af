use vstd::prelude::*;

use crate::memory::MEMORY_SIZE;

verus! {

/// Compatibility toggles that change how existing instructions behave.
#[derive(Clone, Copy, PartialEq, Eq, Structural, Debug)]
pub struct Quirks {
    /// `8XY1`, `8XY2` and `8XY3` clear VF first.
    pub vf_reset: bool,
    /// `FX55` and `FX65` advance I past the registers they move.
    pub increment_i_reg: bool,
    /// `BXNN` jumps to `XNN + VX` instead of `NNN + V0`.
    pub vx_offset_jump: bool,
    /// `8XY6` and `8XYE` shift VX itself instead of VY.
    pub shift_vx_directly: bool,
    /// Sprite pixels past an edge wrap to the other side instead of being dropped.
    pub wrap_sprites: bool,
}

impl Default for Quirks {
    fn default() -> (r: Self)
        ensures
            !r.vf_reset && !r.increment_i_reg && !r.vx_offset_jump && !r.shift_vx_directly
                && !r.wrap_sprites,
    {
        Quirks {
            vf_reset: false,
            increment_i_reg: false,
            vx_offset_jump: false,
            shift_vx_directly: false,
            wrap_sprites: false,
        }
    }
}

/// Instructions run per frame when nothing else is configured.
pub const DEFAULT_INSTRUCTIONS_PER_FRAME: u32 = 10;

/// What the host configures before and while running a program.
#[derive(Clone, Debug)]
pub struct Config {
    /// How many instructions run between two timer ticks.
    pub instructions_per_frame: u32,
    /// The path of the selected program, if any.
    pub filepath: Option<String>,
    pub quirks: Quirks,
    /// Bytes of memory: 4096 for CHIP-8 and SuperChip, 65536 for XO-Chip.
    pub memory_size: usize,
}

impl Default for Config {
    fn default() -> (r: Self)
        ensures
            r.instructions_per_frame == DEFAULT_INSTRUCTIONS_PER_FRAME,
            r.filepath is None,
            r.memory_size == MEMORY_SIZE,
            r.quirks == (Quirks {
                vf_reset: false,
                increment_i_reg: false,
                vx_offset_jump: false,
                shift_vx_directly: false,
                wrap_sprites: false,
            }),
    {
        Config {
            instructions_per_frame: DEFAULT_INSTRUCTIONS_PER_FRAME,
            filepath: None,
            quirks: Quirks::default(),
            memory_size: MEMORY_SIZE,
        }
    }
}

} // verus!
