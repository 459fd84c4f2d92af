use vstd::prelude::*;

verus! {

/// Memory size of CHIP-8 and SuperChip.
pub const MEMORY_SIZE: usize = 4096;

/// Memory size of XO-Chip.
pub const XO_MEMORY_SIZE: usize = 65536;

/// Programs are loaded here; the bytes below are reserved for the interpreter.
pub const INSTRUCTIONS_START: usize = 0x200;

/// Address of the small font: 16 glyphs of 5 bytes.
pub const SMALL_FONT_START: usize = 0;

/// Bytes per small glyph.
pub const SMALL_GLYPH_BYTES: usize = 5;

/// Address of the large font: 16 glyphs of 10 bytes.
pub const LARGE_FONT_START: usize = 0x50;

/// Bytes per large glyph.
pub const LARGE_GLYPH_BYTES: usize = 10;

/// The memory sizes a machine can be configured with.
pub open spec fn valid_memory_size(n: int) -> bool {
    n == MEMORY_SIZE || n == XO_MEMORY_SIZE
}

/// Hex digits 0 to F, 4 pixels wide and 5 rows high.
pub open spec fn small_font() -> Seq<u8> {
    seq![
        0xF0u8, 0x90, 0x90, 0x90, 0xF0,
        0x20, 0x60, 0x20, 0x20, 0x70,
        0xF0, 0x10, 0xF0, 0x80, 0xF0,
        0xF0, 0x10, 0xF0, 0x10, 0xF0,
        0x90, 0x90, 0xF0, 0x10, 0x10,
        0xF0, 0x80, 0xF0, 0x10, 0xF0,
        0xF0, 0x80, 0xF0, 0x90, 0xF0,
        0xF0, 0x10, 0x20, 0x40, 0x40,
        0xF0, 0x90, 0xF0, 0x90, 0xF0,
        0xF0, 0x90, 0xF0, 0x10, 0xF0,
        0xF0, 0x90, 0xF0, 0x90, 0x90,
        0xE0, 0x90, 0xE0, 0x90, 0xE0,
        0xF0, 0x80, 0x80, 0x80, 0xF0,
        0xE0, 0x90, 0x90, 0x90, 0xE0,
        0xF0, 0x80, 0xF0, 0x80, 0xF0,
        0xF0, 0x80, 0xF0, 0x80, 0x80,
    ]
}

/// Hex digits 0 to F, 8 pixels wide and 10 rows high.
pub open spec fn large_font() -> Seq<u8> {
    seq![
        0xFFu8, 0xFF, 0xC3, 0xC3, 0xC3, 0xC3, 0xC3, 0xC3, 0xFF, 0xFF,
        0x18, 0x78, 0x78, 0x18, 0x18, 0x18, 0x18, 0x18, 0xFF, 0xFF,
        0xFF, 0xFF, 0x03, 0x03, 0xFF, 0xFF, 0xC0, 0xC0, 0xFF, 0xFF,
        0xFF, 0xFF, 0x03, 0x03, 0xFF, 0xFF, 0x03, 0x03, 0xFF, 0xFF,
        0xC3, 0xC3, 0xC3, 0xC3, 0xFF, 0xFF, 0x03, 0x03, 0x03, 0x03,
        0xFF, 0xFF, 0xC0, 0xC0, 0xFF, 0xFF, 0x03, 0x03, 0xFF, 0xFF,
        0xFF, 0xFF, 0xC0, 0xC0, 0xFF, 0xFF, 0xC3, 0xC3, 0xFF, 0xFF,
        0xFF, 0xFF, 0x03, 0x03, 0x06, 0x0C, 0x18, 0x18, 0x18, 0x18,
        0xFF, 0xFF, 0xC3, 0xC3, 0xFF, 0xFF, 0xC3, 0xC3, 0xFF, 0xFF,
        0xFF, 0xFF, 0xC3, 0xC3, 0xFF, 0xFF, 0x03, 0x03, 0xFF, 0xFF,
        0x7E, 0xFF, 0xC3, 0xC3, 0xC3, 0xFF, 0xFF, 0xC3, 0xC3, 0xC3,
        0xFC, 0xFC, 0xC3, 0xC3, 0xFC, 0xFC, 0xC3, 0xC3, 0xFC, 0xFC,
        0x3C, 0xFF, 0xC3, 0xC0, 0xC0, 0xC0, 0xC0, 0xC3, 0xFF, 0x3C,
        0xFC, 0xFE, 0xC3, 0xC3, 0xC3, 0xC3, 0xC3, 0xC3, 0xFE, 0xFC,
        0xFF, 0xFF, 0xC0, 0xC0, 0xFF, 0xFF, 0xC0, 0xC0, 0xFF, 0xFF,
        0xFF, 0xFF, 0xC0, 0xC0, 0xFF, 0xFF, 0xC0, 0xC0, 0xC0, 0xC0,
    ]
}

/// `mem` with both fonts written at their addresses.
pub open spec fn with_fonts(mem: Seq<u8>) -> Seq<u8> {
    Seq::new(
        mem.len(),
        |a: int|
            if SMALL_FONT_START <= a < SMALL_FONT_START + 80 {
                small_font()[a - SMALL_FONT_START]
            } else if LARGE_FONT_START <= a < LARGE_FONT_START + 160 {
                large_font()[a - LARGE_FONT_START]
            } else {
                mem[a]
            },
    )
}

/// `mem` with `rom` copied to the program start.
pub open spec fn with_rom(mem: Seq<u8>, rom: Seq<u8>) -> Seq<u8> {
    Seq::new(
        mem.len(),
        |a: int|
            if INSTRUCTIONS_START <= a < INSTRUCTIONS_START + rom.len() {
                rom[a - INSTRUCTIONS_START]
            } else {
                mem[a]
            },
    )
}

/// The largest program that fits in a memory of `size` bytes.
pub open spec fn max_rom_len(size: int) -> int {
    size - INSTRUCTIONS_START
}

/// Why a program could not be loaded.
#[derive(Clone, Copy, PartialEq, Eq, Structural, Debug)]
pub enum LoadError {
    /// The program has `size` bytes; at most `max` fit after the program start.
    RomTooLarge { size: usize, max: usize },
}

/// A byte-addressable memory of 4096 or 65536 bytes.
#[derive(Clone, Debug)]
pub struct Memory {
    bytes: Vec<u8>,
}

impl View for Memory {
    type V = Seq<u8>;

    closed spec fn view(&self) -> Seq<u8> {
        self.bytes@
    }
}

/// The bytes of the small font.
fn small_font_bytes() -> (r: Vec<u8>)
    ensures
        r@ == small_font(),
{
    let r = vec![
        0xF0u8, 0x90, 0x90, 0x90, 0xF0,
        0x20, 0x60, 0x20, 0x20, 0x70,
        0xF0, 0x10, 0xF0, 0x80, 0xF0,
        0xF0, 0x10, 0xF0, 0x10, 0xF0,
        0x90, 0x90, 0xF0, 0x10, 0x10,
        0xF0, 0x80, 0xF0, 0x10, 0xF0,
        0xF0, 0x80, 0xF0, 0x90, 0xF0,
        0xF0, 0x10, 0x20, 0x40, 0x40,
        0xF0, 0x90, 0xF0, 0x90, 0xF0,
        0xF0, 0x90, 0xF0, 0x10, 0xF0,
        0xF0, 0x90, 0xF0, 0x90, 0x90,
        0xE0, 0x90, 0xE0, 0x90, 0xE0,
        0xF0, 0x80, 0x80, 0x80, 0xF0,
        0xE0, 0x90, 0x90, 0x90, 0xE0,
        0xF0, 0x80, 0xF0, 0x80, 0xF0,
        0xF0, 0x80, 0xF0, 0x80, 0x80,
    ];
    assert(r@ =~= small_font());
    r
}

/// The bytes of the large font.
fn large_font_bytes() -> (r: Vec<u8>)
    ensures
        r@ == large_font(),
{
    let r = vec![
        0xFFu8, 0xFF, 0xC3, 0xC3, 0xC3, 0xC3, 0xC3, 0xC3, 0xFF, 0xFF,
        0x18, 0x78, 0x78, 0x18, 0x18, 0x18, 0x18, 0x18, 0xFF, 0xFF,
        0xFF, 0xFF, 0x03, 0x03, 0xFF, 0xFF, 0xC0, 0xC0, 0xFF, 0xFF,
        0xFF, 0xFF, 0x03, 0x03, 0xFF, 0xFF, 0x03, 0x03, 0xFF, 0xFF,
        0xC3, 0xC3, 0xC3, 0xC3, 0xFF, 0xFF, 0x03, 0x03, 0x03, 0x03,
        0xFF, 0xFF, 0xC0, 0xC0, 0xFF, 0xFF, 0x03, 0x03, 0xFF, 0xFF,
        0xFF, 0xFF, 0xC0, 0xC0, 0xFF, 0xFF, 0xC3, 0xC3, 0xFF, 0xFF,
        0xFF, 0xFF, 0x03, 0x03, 0x06, 0x0C, 0x18, 0x18, 0x18, 0x18,
        0xFF, 0xFF, 0xC3, 0xC3, 0xFF, 0xFF, 0xC3, 0xC3, 0xFF, 0xFF,
        0xFF, 0xFF, 0xC3, 0xC3, 0xFF, 0xFF, 0x03, 0x03, 0xFF, 0xFF,
        0x7E, 0xFF, 0xC3, 0xC3, 0xC3, 0xFF, 0xFF, 0xC3, 0xC3, 0xC3,
        0xFC, 0xFC, 0xC3, 0xC3, 0xFC, 0xFC, 0xC3, 0xC3, 0xFC, 0xFC,
        0x3C, 0xFF, 0xC3, 0xC0, 0xC0, 0xC0, 0xC0, 0xC3, 0xFF, 0x3C,
        0xFC, 0xFE, 0xC3, 0xC3, 0xC3, 0xC3, 0xC3, 0xC3, 0xFE, 0xFC,
        0xFF, 0xFF, 0xC0, 0xC0, 0xFF, 0xFF, 0xC0, 0xC0, 0xFF, 0xFF,
        0xFF, 0xFF, 0xC0, 0xC0, 0xFF, 0xFF, 0xC0, 0xC0, 0xC0, 0xC0,
    ];
    assert(r@ =~= large_font());
    r
}

impl Memory {
    /// The size is one that a machine can be configured with.
    pub open spec fn wf(&self) -> bool {
        valid_memory_size(self@.len() as int)
    }

    /// `size` zero bytes.
    pub fn new(size: usize) -> (r: Memory)
        requires
            valid_memory_size(size as int),
        ensures
            r@ == Seq::new(size as nat, |a: int| 0u8),
            r.wf(),
    {
        let mut bytes: Vec<u8> = Vec::new();
        let mut a: usize = 0;
        while a < size
            invariant
                a <= size,
                bytes@ == Seq::new(a as nat, |i: int| 0u8),
            decreases size - a,
        {
            bytes.push(0);
            a = a + 1;
            assert(bytes@ =~= Seq::new(a as nat, |i: int| 0u8));
        }
        Memory { bytes }
    }

    /// Number of bytes.
    pub fn size(&self) -> (r: usize)
        ensures
            r == self@.len(),
    {
        self.bytes.len()
    }

    /// The byte at `address`.
    pub fn read(&self, address: usize) -> (r: u8)
        requires
            address < self@.len(),
        ensures
            r == self@[address as int],
    {
        self.bytes[address]
    }

    /// Overwrite the byte at `address`.
    pub fn write(&mut self, address: usize, value: u8)
        requires
            address < old(self)@.len(),
        ensures
            final(self)@ == old(self)@.update(address as int, value),
    {
        self.bytes.set(address, value);
    }

    /// Change the size to `size`: bytes below both sizes are kept, new bytes are zero.
    pub fn resize(&mut self, size: usize)
        requires
            valid_memory_size(size as int),
        ensures
            final(self).wf(),
            final(self)@ == Seq::new(
                size as nat,
                |a: int| if a < old(self)@.len() { old(self)@[a] } else { 0u8 },
            ),
    {
        let ghost pre = self@;
        self.bytes.resize(size, 0u8);
        assert(self@ =~= Seq::new(
            size as nat,
            |a: int| if a < pre.len() { pre[a] } else { 0u8 },
        ));
    }

    /// Copy `src` to `start`.
    fn copy_in(&mut self, start: usize, src: &Vec<u8>)
        requires
            old(self).wf(),
            start + src@.len() <= old(self)@.len(),
        ensures
            final(self)@ == Seq::new(
                old(self)@.len(),
                |a: int|
                    if start <= a < start + src@.len() {
                        src@[a - start]
                    } else {
                        old(self)@[a]
                    },
            ),
    {
        let ghost pre = self@;
        let mut k: usize = 0;
        while k < src.len()
            invariant
                k <= src@.len(),
                start + src@.len() <= pre.len(),
                valid_memory_size(pre.len() as int),
                self@ == Seq::new(
                    pre.len(),
                    |a: int|
                        if start <= a < start + k {
                            src@[a - start]
                        } else {
                            pre[a]
                        },
                ),
            decreases src@.len() - k,
        {
            self.bytes.set(start + k, src[k]);
            k = k + 1;
            assert(self@ =~= Seq::new(
                pre.len(),
                |a: int|
                    if start <= a < start + k {
                        src@[a - start]
                    } else {
                        pre[a]
                    },
            ));
        }
    }

    /// Write both fonts at their fixed addresses.
    pub fn load_fonts(&mut self)
        requires
            old(self).wf(),
        ensures
            final(self).wf(),
            final(self)@ == with_fonts(old(self)@),
    {
        let ghost pre = self@;
        let small = small_font_bytes();
        self.copy_in(SMALL_FONT_START, &small);
        let large = large_font_bytes();
        self.copy_in(LARGE_FONT_START, &large);
        assert(self@ =~= with_fonts(pre));
    }

    /// Copy `rom` to the program start and write both fonts again; a program
    /// longer than the space above the program start is refused, and nothing
    /// is written.
    pub fn load_rom(&mut self, rom: &[u8]) -> (r: Result<(), LoadError>)
        requires
            old(self).wf(),
        ensures
            final(self).wf(),
            rom@.len() > max_rom_len(old(self)@.len() as int) ==> r == Err::<(), LoadError>(
                LoadError::RomTooLarge {
                    size: rom@.len() as usize,
                    max: max_rom_len(old(self)@.len() as int) as usize,
                },
            ) && final(self)@ == old(self)@,
            rom@.len() <= max_rom_len(old(self)@.len() as int) ==> r is Ok && final(self)@
                == with_fonts(with_rom(old(self)@, rom@)),
    {
        let max = self.bytes.len() - INSTRUCTIONS_START;
        if rom.len() > max {
            return Err(LoadError::RomTooLarge { size: rom.len(), max });
        }
        let ghost pre = self@;
        let mut k: usize = 0;
        while k < rom.len()
            invariant
                k <= rom@.len(),
                INSTRUCTIONS_START + rom@.len() <= pre.len(),
                self.wf(),
                self@ == Seq::new(
                    pre.len(),
                    |a: int|
                        if INSTRUCTIONS_START <= a < INSTRUCTIONS_START + k {
                            rom@[a - INSTRUCTIONS_START]
                        } else {
                            pre[a]
                        },
                ),
            decreases rom@.len() - k,
        {
            self.bytes.set(INSTRUCTIONS_START + k, rom[k]);
            k = k + 1;
            assert(self@ =~= Seq::new(
                pre.len(),
                |a: int|
                    if INSTRUCTIONS_START <= a < INSTRUCTIONS_START + k {
                        rom@[a - INSTRUCTIONS_START]
                    } else {
                        pre[a]
                    },
            ));
        }
        assert(self@ =~= with_rom(pre, rom@));
        self.load_fonts();
        Ok(())
    }
}

impl Default for Memory {
    fn default() -> (r: Self)
        ensures
            r@ == Seq::new(MEMORY_SIZE as nat, |a: int| 0u8),
            r.wf(),
    {
        Memory::new(MEMORY_SIZE)
    }
}

} // verus!
