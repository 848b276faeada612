//! The CHIP-8 / SUPER-CHIP instruction-set interpreter: register file, RAM,
//! frame buffer, timers, stack, and the fetch/decode/execute engine.
//!
//! Every opcode handler carries a contract that pins down the whole successor
//! state; the dispatch function `decode_and_execute_opcode` relates the two
//! states through the `step` relation, one case per opcode family.

use vstd::prelude::*;

use crate::{Mode, GFX_H, GFX_W, SMALL_GFX_H, SMALL_GFX_W};

verus! {

/// Bytes of RAM.
pub const RAM_SIZE: usize = 4096;

/// Offset where program/ROM data begins; the font regions lie below it.
pub const PROGRAM_START: usize = 512;

/// Largest ROM that fits between the program offset and the end of RAM.
pub const MAX_ROM_SIZE: usize = RAM_SIZE - PROGRAM_START;

/// Number of general-purpose registers.
pub const NUM_REGISTERS: usize = 16;

/// Number of return-address slots; the stack pointer wraps modulo this.
pub const STACK_SIZE: usize = 16;

/// Number of persistent RPL flag bytes.
pub const NUM_SUPER_MODE_RPL_FLAGS: usize = 8;

/// A fault that stops emulation; reported to the owning loop instead of
/// aborting the process.
#[derive(Clone, Copy, Debug, PartialEq, Eq, Structural)]
pub enum EmuFault {
    /// The fetched instruction word matches no known pattern. Carries the
    /// offending word and the address it was fetched from.
    UnknownOpcode { opcode: u16, addr: u16 },
    /// A ROM longer than `MAX_ROM_SIZE` was offered for loading.
    RomTooLarge { size: usize },
}

/// The interpreter state: everything the instruction set can observe or
/// change. Fields are public so that a host can snapshot the frame buffer,
/// feed the key map, and inspect registers.
pub struct Emu {
    /// Display/font addressing mode.
    pub mode: Mode,
    /// Frame buffer, indexed `gfx[x][y]`; `GFX_W` columns of `GFX_H` pixels.
    pub gfx: Vec<Vec<bool>>,
    /// One flag per hex keypad symbol; `true` means pressed.
    pub keys: Vec<bool>,
    /// Sticky redraw flag: set when a pixel turns on or the screen layout
    /// changes; cleared by the consumer after it emits a redraw.
    pub draw: bool,
    /// The 16-bit instruction word most recently fetched.
    pub opcode: u16,
    /// RAM: font glyphs in the low region, program data from `PROGRAM_START`.
    pub ram: Vec<u8>,
    /// The sixteen 8-bit registers `v[0]..v[15]`; `v[15]` doubles as the
    /// carry/borrow/collision flag.
    pub v: Vec<u8>,
    /// The index register: a 12-bit address into RAM.
    pub ram_idx: u16,
    /// The program counter; `pc <= 0xfff` after every instruction.
    pub pc: u16,
    /// Delay timer, decremented at the timer rate and clamped at zero.
    pub dt: u8,
    /// Sound timer, decremented at the timer rate and clamped at zero.
    pub st: u8,
    /// Return addresses; `stack[sp]` is where the next push lands.
    pub stack: Vec<u16>,
    /// Stack pointer; wraps modulo `STACK_SIZE` on push and pop.
    pub sp: usize,
    /// Persistent flag bytes addressed by the RPL store/load opcodes.
    pub super_mode_rpl_flags: Vec<u8>,
    /// The ROM bytes as loaded, kept so that reset can reload them.
    pub rom: Vec<u8>,
}

/// The frame buffer has exactly `GFX_W` columns of `GFX_H` pixels.
pub open spec fn grid_wf(g: Seq<Vec<bool>>) -> bool {
    &&& g.len() == GFX_W
    &&& forall|x: int| 0 <= x < GFX_W as int ==> (#[trigger] g[x])@.len() == GFX_H
}

impl Emu {
    /// Well-formedness: the collections have their fixed sizes and the
    /// address-valued fields stay inside their 12-bit / modulo-16 ranges.
    pub open spec fn wf(self) -> bool {
        &&& self.ram@.len() == RAM_SIZE
        &&& self.v@.len() == NUM_REGISTERS
        &&& self.stack@.len() == STACK_SIZE
        &&& forall|i: int| 0 <= i < STACK_SIZE as int ==> #[trigger] self.stack@[i] <= 0xfff
        &&& self.keys@.len() == 16
        &&& self.super_mode_rpl_flags@.len() == NUM_SUPER_MODE_RPL_FLAGS
        &&& grid_wf(self.gfx@)
        &&& self.pc <= 0xfff
        &&& self.sp < STACK_SIZE
        &&& self.ram_idx <= 0xfff
        &&& self.rom@.len() <= MAX_ROM_SIZE
    }

    /// The pixel at column `x`, row `y`.
    pub open spec fn pix(self, x: int, y: int) -> bool {
        self.gfx@[x]@[y]
    }

    /// The program counter advanced by two, masked to 12 bits.
    pub open spec fn pc2(self) -> u16 {
        wrap12(self.pc + 2)
    }

    /// The program counter advanced by four, masked to 12 bits.
    pub open spec fn pc4(self) -> u16 {
        wrap12(self.pc + 4)
    }
}

/// A 16-bit quantity reduced to a 12-bit address.
pub open spec fn wrap12(a: int) -> u16 {
    (a % 0x1000) as u16
}

/// Second nibble of an instruction word: the register index `x`.
pub open spec fn op_x(op: u16) -> int {
    (op as int / 0x100) % 16
}

/// Third nibble of an instruction word: the register index `y`.
pub open spec fn op_y(op: u16) -> int {
    (op as int / 0x10) % 16
}

/// Lowest nibble of an instruction word.
pub open spec fn op_n(op: u16) -> int {
    op as int % 16
}

/// Low byte of an instruction word.
pub open spec fn op_nn(op: u16) -> int {
    op as int % 0x100
}

/// Low twelve bits of an instruction word: an address.
pub open spec fn op_nnn(op: u16) -> int {
    op as int % 0x1000
}

/// Top nibble of an instruction word: the dispatch family.
pub open spec fn op_hi(op: u16) -> int {
    op as int / 0x1000
}

/// Bridges the executable mask-and-shift field extractions to the
/// division-based spec forms above.
proof fn lemma_op_fields(op: u16)
    by (bit_vector)
    ensures
        (op & 0xf000) == ((op as int / 0x1000) * 0x1000),
        ((op & 0x0f00) >> 8) == (op as int / 0x100) % 16,
        ((op & 0x00f0) >> 4) == (op as int / 0x10) % 16,
        (op & 0x00f0) == ((op as int / 0x10) % 16) * 0x10,
        (op & 0x000f) == op as int % 16,
        (op & 0x00ff) == op as int % 0x100,
        (op & 0x0fff) == op as int % 0x1000,
{
}

/// Masking with `0xfff` is reduction modulo `0x1000`.
proof fn lemma_mask12(a: u16)
    by (bit_vector)
    ensures
        (a & 0x0fff) == a as int % 0x1000,
{
}

/// The 4x5 font glyphs for hex digits 0-F, five bytes per glyph, loaded at
/// the bottom of RAM.
pub open spec fn font_map() -> Seq<u8> {
    seq![
        0xf0u8, 0x90, 0x90, 0x90, 0xf0, // 0
        0x20, 0x60, 0x20, 0x20, 0x70, // 1
        0xf0, 0x10, 0xf0, 0x80, 0xf0, // 2
        0xf0, 0x10, 0xf0, 0x10, 0xf0, // 3
        0x90, 0x90, 0xf0, 0x10, 0x10, // 4
        0xf0, 0x80, 0xf0, 0x10, 0xf0, // 5
        0xf0, 0x80, 0xf0, 0x90, 0xf0, // 6
        0xf0, 0x10, 0x20, 0x40, 0x40, // 7
        0xf0, 0x90, 0xf0, 0x90, 0xf0, // 8
        0xf0, 0x90, 0xf0, 0x10, 0xf0, // 9
        0xf0, 0x90, 0xf0, 0x90, 0x90, // A
        0xe0, 0x90, 0xe0, 0x90, 0xe0, // B
        0xf0, 0x80, 0x80, 0x80, 0xf0, // C
        0xe0, 0x90, 0x90, 0x90, 0xe0, // D
        0xf0, 0x80, 0xf0, 0x80, 0xf0, // E
        0xf0, 0x80, 0xf0, 0x80, 0x80, // F
    ]
}

/// The 8x10 high-resolution font glyphs for hex digits 0-F, ten bytes per
/// glyph, loaded immediately after the 4x5 font.
pub open spec fn super_font_map() -> Seq<u8> {
    seq![
        0xffu8, 0xff, 0xc3, 0xc3, 0xc3, 0xc3, 0xc3, 0xc3, 0xff, 0xff, // 0
        0x18, 0x78, 0x78, 0x18, 0x18, 0x18, 0x18, 0x18, 0xff, 0xff, // 1
        0xff, 0xff, 0x03, 0x03, 0xff, 0xff, 0xc0, 0xc0, 0xff, 0xff, // 2
        0xff, 0xff, 0x03, 0x03, 0xff, 0xff, 0x03, 0x03, 0xff, 0xff, // 3
        0xc3, 0xc3, 0xc3, 0xc3, 0xff, 0xff, 0x03, 0x03, 0x03, 0x03, // 4
        0xff, 0xff, 0xc0, 0xc0, 0xff, 0xff, 0x03, 0x03, 0xff, 0xff, // 5
        0xff, 0xff, 0xc0, 0xc0, 0xff, 0xff, 0xc3, 0xc3, 0xff, 0xff, // 6
        0xff, 0xff, 0x03, 0x03, 0x06, 0x0c, 0x18, 0x18, 0x18, 0x18, // 7
        0xff, 0xff, 0xc3, 0xc3, 0xff, 0xff, 0xc3, 0xc3, 0xff, 0xff, // 8
        0xff, 0xff, 0xc3, 0xc3, 0xff, 0xff, 0x03, 0x03, 0xff, 0xff, // 9
        0x7e, 0xff, 0xc3, 0xc3, 0xc3, 0xff, 0xff, 0xc3, 0xc3, 0xc3, // A
        0xfc, 0xfc, 0xc3, 0xc3, 0xfc, 0xfc, 0xc3, 0xc3, 0xfc, 0xfc, // B
        0x3c, 0xff, 0xc3, 0xc0, 0xc0, 0xc0, 0xc0, 0xc3, 0xff, 0x3c, // C
        0xfc, 0xfe, 0xc3, 0xc3, 0xc3, 0xc3, 0xc3, 0xc3, 0xfe, 0xfc, // D
        0xff, 0xff, 0xc0, 0xc0, 0xff, 0xff, 0xc0, 0xc0, 0xff, 0xff, // E
        0xff, 0xff, 0xc0, 0xc0, 0xff, 0xff, 0xc0, 0xc0, 0xc0, 0xc0, // F
    ]
}

/// RAM as it stands right after construction and ROM load: the two font
/// regions at the bottom, the ROM bytes from `PROGRAM_START`, zero elsewhere.
pub open spec fn initial_ram(rom: Seq<u8>) -> Seq<u8> {
    Seq::new(
        RAM_SIZE as nat,
        |i: int|
            if 0 <= i < 80 {
                font_map()[i]
            } else if i < 240 {
                super_font_map()[i - 80]
            } else if PROGRAM_START as int <= i < PROGRAM_START as int + rom.len() {
                rom[i - PROGRAM_START as int]
            } else {
                0u8
            },
    )
}

impl Emu {
    /// The state a freshly constructed interpreter has once `rom` has been
    /// copied in: fonts in place, ROM bytes at the program offset, everything
    /// else zeroed, the program counter at the program start.
    pub open spec fn is_initial_with_rom(self, rom: Seq<u8>) -> bool {
        &&& self.mode == Mode::STANDARD
        &&& grid_wf(self.gfx@)
        &&& forall|x: int, y: int|
            0 <= x < GFX_W as int && 0 <= y < GFX_H as int ==> !self.pix(x, y)
        &&& self.keys@ == Seq::new(16, |i: int| false)
        &&& !self.draw
        &&& self.opcode == 0
        &&& self.ram@ == initial_ram(rom)
        &&& self.v@ == Seq::new(NUM_REGISTERS as nat, |i: int| 0u8)
        &&& self.ram_idx == 0
        &&& self.pc == PROGRAM_START
        &&& self.dt == 0
        &&& self.st == 0
        &&& self.stack@ == Seq::new(STACK_SIZE as nat, |i: int| 0u16)
        &&& self.sp == 0
        &&& self.super_mode_rpl_flags@ == Seq::new(
            NUM_SUPER_MODE_RPL_FLAGS as nat,
            |i: int| 0u8,
        )
        &&& self.rom@ == rom
    }
}

/// The 4x5 font table as a vector.
fn font_vec() -> (f: Vec<u8>)
    ensures
        f@ == font_map(),
{
    let f: Vec<u8> = vec![
        0xf0u8, 0x90, 0x90, 0x90, 0xf0, 0x20, 0x60, 0x20, 0x20, 0x70, 0xf0, 0x10, 0xf0, 0x80,
        0xf0, 0xf0, 0x10, 0xf0, 0x10, 0xf0, 0x90, 0x90, 0xf0, 0x10, 0x10, 0xf0, 0x80, 0xf0,
        0x10, 0xf0, 0xf0, 0x80, 0xf0, 0x90, 0xf0, 0xf0, 0x10, 0x20, 0x40, 0x40, 0xf0, 0x90,
        0xf0, 0x90, 0xf0, 0xf0, 0x90, 0xf0, 0x10, 0xf0, 0xf0, 0x90, 0xf0, 0x90, 0x90, 0xe0,
        0x90, 0xe0, 0x90, 0xe0, 0xf0, 0x80, 0x80, 0x80, 0xf0, 0xe0, 0x90, 0x90, 0x90, 0xe0,
        0xf0, 0x80, 0xf0, 0x80, 0xf0, 0xf0, 0x80, 0xf0, 0x80, 0x80,
    ];
    assert(f@ =~= font_map());
    f
}

/// The 8x10 font table as a vector.
fn super_font_vec() -> (f: Vec<u8>)
    ensures
        f@ == super_font_map(),
{
    let f: Vec<u8> = vec![
        0xffu8, 0xff, 0xc3, 0xc3, 0xc3, 0xc3, 0xc3, 0xc3, 0xff, 0xff, 0x18, 0x78, 0x78, 0x18,
        0x18, 0x18, 0x18, 0x18, 0xff, 0xff, 0xff, 0xff, 0x03, 0x03, 0xff, 0xff, 0xc0, 0xc0,
        0xff, 0xff, 0xff, 0xff, 0x03, 0x03, 0xff, 0xff, 0x03, 0x03, 0xff, 0xff, 0xc3, 0xc3,
        0xc3, 0xc3, 0xff, 0xff, 0x03, 0x03, 0x03, 0x03, 0xff, 0xff, 0xc0, 0xc0, 0xff, 0xff,
        0x03, 0x03, 0xff, 0xff, 0xff, 0xff, 0xc0, 0xc0, 0xff, 0xff, 0xc3, 0xc3, 0xff, 0xff,
        0xff, 0xff, 0x03, 0x03, 0x06, 0x0c, 0x18, 0x18, 0x18, 0x18, 0xff, 0xff, 0xc3, 0xc3,
        0xff, 0xff, 0xc3, 0xc3, 0xff, 0xff, 0xff, 0xff, 0xc3, 0xc3, 0xff, 0xff, 0x03, 0x03,
        0xff, 0xff, 0x7e, 0xff, 0xc3, 0xc3, 0xc3, 0xff, 0xff, 0xc3, 0xc3, 0xc3, 0xfc, 0xfc,
        0xc3, 0xc3, 0xfc, 0xfc, 0xc3, 0xc3, 0xfc, 0xfc, 0x3c, 0xff, 0xc3, 0xc0, 0xc0, 0xc0,
        0xc0, 0xc3, 0xff, 0x3c, 0xfc, 0xfe, 0xc3, 0xc3, 0xc3, 0xc3, 0xc3, 0xc3, 0xfe, 0xfc,
        0xff, 0xff, 0xc0, 0xc0, 0xff, 0xff, 0xc0, 0xc0, 0xff, 0xff, 0xff, 0xff, 0xc0, 0xc0,
        0xff, 0xff, 0xc0, 0xc0, 0xc0, 0xc0,
    ];
    assert(f@ =~= super_font_map());
    f
}

impl Default for Emu {
    /// A fresh interpreter with no ROM loaded: fonts in RAM, everything else
    /// zeroed, program counter at the program start.
    fn default() -> (e: Emu)
        ensures
            e.wf(),
            e.is_initial_with_rom(Seq::empty()),
    {
        let mut ram: Vec<u8> = vec![0u8; RAM_SIZE];
        let f = font_vec();
        let mut j: usize = 0;
        while j < 80
            invariant
                j <= 80,
                f@ == font_map(),
                ram@.len() == RAM_SIZE,
                forall|i: int| 0 <= i < j as int ==> ram@[i] == font_map()[i],
                forall|i: int| j as int <= i < RAM_SIZE as int ==> ram@[i] == 0u8,
            decreases 80 - j,
        {
            let b = f[j];
            ram.set(j, b);
            j += 1;
        }
        let sf = super_font_vec();
        let mut k: usize = 0;
        while k < 160
            invariant
                k <= 160,
                sf@ == super_font_map(),
                ram@.len() == RAM_SIZE,
                forall|i: int| 0 <= i < 80 ==> ram@[i] == font_map()[i],
                forall|i: int| 80 <= i < 80 + k as int ==> ram@[i] == super_font_map()[i - 80],
                forall|i: int| 80 + k as int <= i < RAM_SIZE as int ==> ram@[i] == 0u8,
            decreases 160 - k,
        {
            let b = sf[k];
            ram.set(80 + k, b);
            k += 1;
        }
        let e = Emu {
            mode: Mode::STANDARD,
            gfx: blank_grid(),
            keys: vec![false; 16],
            draw: false,
            opcode: 0,
            ram,
            v: vec![0u8; NUM_REGISTERS],
            ram_idx: 0,
            pc: PROGRAM_START as u16,
            dt: 0,
            st: 0,
            stack: vec![0u16; STACK_SIZE],
            sp: 0,
            super_mode_rpl_flags: vec![0u8; NUM_SUPER_MODE_RPL_FLAGS],
            rom: Vec::new(),
        };
        assert(e.ram@ =~= initial_ram(Seq::empty()));
        assert(e.keys@ =~= Seq::new(16, |i: int| false));
        assert(e.v@ =~= Seq::new(NUM_REGISTERS as nat, |i: int| 0u8));
        assert(e.stack@ =~= Seq::new(STACK_SIZE as nat, |i: int| 0u16));
        assert(e.super_mode_rpl_flags@ =~= Seq::new(NUM_SUPER_MODE_RPL_FLAGS as nat, |i: int| 0u8));
        assert(e.rom@ =~= Seq::<u8>::empty());
        e
    }
}

/// RAM with the bytes of `rom` overlaid from `PROGRAM_START` on.
pub open spec fn ram_with_rom(ram: Seq<u8>, rom: Seq<u8>) -> Seq<u8> {
    Seq::new(
        RAM_SIZE as nat,
        |i: int|
            if PROGRAM_START as int <= i < PROGRAM_START as int + rom.len() {
                rom[i - PROGRAM_START as int]
            } else {
                ram[i]
            },
    )
}

impl Emu {
    /// Create a fresh interpreter with no ROM loaded.
    pub fn new() -> (e: Self)
        ensures
            e.wf(),
            e.is_initial_with_rom(Seq::empty()),
    {
        Default::default()
    }

    /// Copy `rom` into RAM at the program offset and cache it for reset.
    /// A ROM longer than `MAX_ROM_SIZE` is refused and nothing changes.
    pub fn load_rom(&mut self, rom: Vec<u8>) -> (r: Result<(), EmuFault>)
        requires
            old(self).wf(),
        ensures
            final(self).wf(),
            rom@.len() > MAX_ROM_SIZE as int ==> {
                &&& r == Err::<(), EmuFault>(EmuFault::RomTooLarge { size: rom@.len() as usize })
                &&& *final(self) == *old(self)
            },
            rom@.len() <= MAX_ROM_SIZE as int ==> {
                &&& r == Ok::<(), EmuFault>(())
                &&& *final(self) == (Emu {
                    ram: final(self).ram,
                    rom: final(self).rom,
                    ..*old(self)
                })
                &&& final(self).ram@ == ram_with_rom(old(self).ram@, rom@)
                &&& final(self).rom@ == rom@
            },
    {
        if rom.len() > MAX_ROM_SIZE {
            return Err(EmuFault::RomTooLarge { size: rom.len() });
        }
        let ghost pre_ram = self.ram@;
        let mut ram: Vec<u8> = Vec::new();
        core::mem::swap(&mut ram, &mut self.ram);
        let mut i: usize = 0;
        while i < rom.len()
            invariant
                i <= rom@.len(),
                rom@.len() <= MAX_ROM_SIZE as int,
                ram@.len() == RAM_SIZE,
                forall|j: int|
                    0 <= j < i as int ==> ram@[PROGRAM_START as int + j] == rom@[j],
                forall|j: int|
                    0 <= j < RAM_SIZE as int && !(PROGRAM_START as int <= j
                        < PROGRAM_START as int + i as int) ==> ram@[j] == pre_ram[j],
            decreases rom@.len() - i,
        {
            let b = rom[i];
            ram.set(PROGRAM_START + i, b);
            i += 1;
        }
        self.ram = ram;
        self.rom = rom;
        assert(self.ram@ =~= ram_with_rom(pre_ram, self.rom@));
        Ok(())
    }

    /// Discard all mutable state and rebuild the initial state with the
    /// cached ROM reloaded: byte-for-byte the same state as the first load.
    pub fn reset(&mut self)
        requires
            old(self).wf(),
        ensures
            final(self).wf(),
            final(self).is_initial_with_rom(old(self).rom@),
    {
        let mut rom: Vec<u8> = Vec::new();
        core::mem::swap(&mut rom, &mut self.rom);
        *self = Emu::new();
        let ghost mid = *self;
        let r = self.load_rom(rom);
        assert(r == Ok::<(), EmuFault>(()));
        assert(forall|x: int, y: int|
            0 <= x < GFX_W as int && 0 <= y < GFX_H as int ==> #[trigger] self.pix(x, y)
                == mid.pix(x, y));
        assert(self.ram@ =~= initial_ram(old(self).rom@));
    }

    /// Decrement each timer that is above zero; both clamp at zero.
    pub fn update_timers(&mut self)
        ensures
            *final(self) == (Emu {
                dt: if old(self).dt > 0 {
                    (old(self).dt - 1) as u8
                } else {
                    0u8
                },
                st: if old(self).st > 0 {
                    (old(self).st - 1) as u8
                } else {
                    0u8
                },
                ..*old(self)
            }),
    {
        if self.dt > 0 {
            self.dt = self.dt - 1;
        }
        if self.st > 0 {
            self.st = self.st - 1;
        }
    }

    /// Whether the state justifies a beep right now: the sound timer is
    /// running.
    pub fn beeping(&self) -> (b: bool)
        ensures
            b == (self.st > 0),
    {
        self.st > 0
    }

    /// The width of the addressable screen rectangle in the current mode.
    pub open spec fn scr_w(self) -> int {
        if self.mode == Mode::STANDARD {
            SMALL_GFX_W as int
        } else {
            GFX_W as int
        }
    }

    /// The height of the addressable screen rectangle in the current mode.
    pub open spec fn scr_h(self) -> int {
        if self.mode == Mode::STANDARD {
            SMALL_GFX_H as int
        } else {
            GFX_H as int
        }
    }

    /// The screen width in the current mode.
    fn width(&self) -> (w: usize)
        ensures
            w == self.scr_w(),
    {
        match self.mode {
            Mode::STANDARD => SMALL_GFX_W,
            Mode::SUPER => GFX_W,
        }
    }

    /// The screen height in the current mode.
    fn height(&self) -> (h: usize)
        ensures
            h == self.scr_h(),
    {
        match self.mode {
            Mode::STANDARD => SMALL_GFX_H,
            Mode::SUPER => GFX_H,
        }
    }

    /// The register index `x` drawn from the current opcode.
    fn x_reg(&self) -> (x: usize)
        ensures
            x == op_x(self.opcode),
            x < 16,
    {
        let x = ((self.opcode & 0x0f00) >> 8) as usize;
        proof {
            lemma_op_fields(self.opcode);
        }
        x
    }

    /// The register index `y` drawn from the current opcode.
    fn y_reg(&self) -> (y: usize)
        ensures
            y == op_y(self.opcode),
            y < 16,
    {
        let y = ((self.opcode & 0x00f0) >> 4) as usize;
        proof {
            lemma_op_fields(self.opcode);
        }
        y
    }

    /// The immediate nibble `n` drawn from the current opcode.
    fn n_val(&self) -> (n: usize)
        ensures
            n == op_n(self.opcode),
            n < 16,
    {
        let n = (self.opcode & 0x000f) as usize;
        proof {
            lemma_op_fields(self.opcode);
        }
        n
    }

    /// The immediate byte `nn` drawn from the current opcode.
    fn nn_val(&self) -> (nn: u8)
        ensures
            nn == op_nn(self.opcode),
    {
        proof {
            lemma_op_fields(self.opcode);
        }
        (self.opcode & 0x00ff) as u8
    }

    /// The immediate address `nnn` drawn from the current opcode.
    fn nnn_val(&self) -> (nnn: u16)
        ensures
            nnn == op_nnn(self.opcode),
            nnn <= 0xfff,
    {
        proof {
            lemma_op_fields(self.opcode);
        }
        self.opcode & 0x0fff
    }

    /// The normal per-instruction advance: two bytes on, masked to 12 bits.
    fn advance_pc(&mut self)
        requires
            old(self).pc <= 0xfff,
        ensures
            *final(self) == (Emu { pc: old(self).pc2(), ..*old(self) }),
    {
        proof {
            lemma_mask12((self.pc + 2) as u16);
        }
        self.pc = (self.pc + 2) & 0x0fff;
    }

    /// The skip-class advance: four bytes on when `cond` holds, else two,
    /// masked to 12 bits.
    fn skip_pc(&mut self, cond: bool)
        requires
            old(self).pc <= 0xfff,
        ensures
            *final(self) == (Emu {
                pc: if cond {
                    old(self).pc4()
                } else {
                    old(self).pc2()
                },
                ..*old(self)
            }),
    {
        let step: u16 = if cond {
            4
        } else {
            2
        };
        proof {
            lemma_mask12((self.pc + step) as u16);
        }
        self.pc = (self.pc + step) & 0x0fff;
    }
}

/// The low bit of a byte is its value modulo two.
proof fn lemma_u8_low_bit(b: u8)
    by (bit_vector)
    ensures
        (b & 0x01) == b as int % 2,
{
}

/// Shifting a byte right once halves it.
proof fn lemma_u8_shr1(b: u8)
    by (bit_vector)
    ensures
        (b >> 1) == b as int / 2,
{
}

/// The high bit of a byte is its value divided by 128.
proof fn lemma_u8_msb(b: u8)
    by (bit_vector)
    ensures
        ((b >> 7) & 0x01) == b as int / 128,
{
}

/// Shifting a byte left once doubles it modulo 256.
proof fn lemma_u8_shl1(b: u8)
    by (bit_vector)
    ensures
        (b << 1) == (2 * (b as int)) % 256,
{
}

/// The low nibble of a byte is its value modulo sixteen.
proof fn lemma_u8_low_nibble(b: u8)
    by (bit_vector)
    ensures
        (b & 0x0f) == b as int % 16,
{
}

/// Return from the last subroutine: the stack pointer steps back modulo
/// `STACK_SIZE`, and the popped address is advanced by two.
pub open spec fn rel_00ee(pre: Emu, post: Emu) -> bool {
    let nsp = (pre.sp + 15) % 16;
    post == (Emu {
        sp: nsp as usize,
        pc: wrap12(pre.stack@[nsp as int] + 2),
        ..pre
    })
}

/// Leave SUPER mode.
pub open spec fn rel_00fe(pre: Emu, post: Emu) -> bool {
    post == (Emu { mode: Mode::STANDARD, pc: pre.pc2(), ..pre })
}

/// Enter SUPER mode.
pub open spec fn rel_00ff(pre: Emu, post: Emu) -> bool {
    post == (Emu { mode: Mode::SUPER, pc: pre.pc2(), ..pre })
}

/// Unconditional jump to `nnn`.
pub open spec fn rel_1nnn(pre: Emu, post: Emu) -> bool {
    post == (Emu { pc: op_nnn(pre.opcode) as u16, ..pre })
}

/// Call the subroutine at `nnn`: the current program counter is pushed, the
/// stack pointer wraps modulo `STACK_SIZE`.
pub open spec fn rel_2nnn(pre: Emu, post: Emu) -> bool {
    &&& post == (Emu {
        stack: post.stack,
        sp: ((pre.sp + 1) % 16) as usize,
        pc: op_nnn(pre.opcode) as u16,
        ..pre
    })
    &&& post.stack@ == pre.stack@.update(pre.sp as int, pre.pc)
}

/// Skip the next instruction when `vx` equals `nn`.
pub open spec fn rel_3xnn(pre: Emu, post: Emu) -> bool {
    post == (Emu {
        pc: if pre.v@[op_x(pre.opcode)] == op_nn(pre.opcode) {
            pre.pc4()
        } else {
            pre.pc2()
        },
        ..pre
    })
}

/// Skip the next instruction when `vx` differs from `nn`.
pub open spec fn rel_4xnn(pre: Emu, post: Emu) -> bool {
    post == (Emu {
        pc: if pre.v@[op_x(pre.opcode)] != op_nn(pre.opcode) {
            pre.pc4()
        } else {
            pre.pc2()
        },
        ..pre
    })
}

/// Skip the next instruction when `vx` equals `vy`.
pub open spec fn rel_5xy0(pre: Emu, post: Emu) -> bool {
    post == (Emu {
        pc: if pre.v@[op_x(pre.opcode)] == pre.v@[op_y(pre.opcode)] {
            pre.pc4()
        } else {
            pre.pc2()
        },
        ..pre
    })
}

/// Load the immediate `nn` into `vx`.
pub open spec fn rel_6xnn(pre: Emu, post: Emu) -> bool {
    &&& post == (Emu { v: post.v, pc: pre.pc2(), ..pre })
    &&& post.v@ == pre.v@.update(op_x(pre.opcode), op_nn(pre.opcode) as u8)
}

/// Add the immediate `nn` to `vx`, wrapping, flags untouched.
pub open spec fn rel_7xnn(pre: Emu, post: Emu) -> bool {
    let x = op_x(pre.opcode);
    &&& post == (Emu { v: post.v, pc: pre.pc2(), ..pre })
    &&& post.v@ == pre.v@.update(x, ((pre.v@[x] + op_nn(pre.opcode)) % 256) as u8)
}

/// Copy `vy` into `vx`.
pub open spec fn rel_8xy0(pre: Emu, post: Emu) -> bool {
    &&& post == (Emu { v: post.v, pc: pre.pc2(), ..pre })
    &&& post.v@ == pre.v@.update(op_x(pre.opcode), pre.v@[op_y(pre.opcode)])
}

/// Bitwise OR of `vx` and `vy` into `vx`, flags untouched.
pub open spec fn rel_8xy1(pre: Emu, post: Emu) -> bool {
    let x = op_x(pre.opcode);
    &&& post == (Emu { v: post.v, pc: pre.pc2(), ..pre })
    &&& post.v@ == pre.v@.update(x, pre.v@[x] | pre.v@[op_y(pre.opcode)])
}

/// Bitwise AND of `vx` and `vy` into `vx`, flags untouched.
pub open spec fn rel_8xy2(pre: Emu, post: Emu) -> bool {
    let x = op_x(pre.opcode);
    &&& post == (Emu { v: post.v, pc: pre.pc2(), ..pre })
    &&& post.v@ == pre.v@.update(x, pre.v@[x] & pre.v@[op_y(pre.opcode)])
}

/// Bitwise XOR of `vx` and `vy` into `vx`, flags untouched.
pub open spec fn rel_8xy3(pre: Emu, post: Emu) -> bool {
    let x = op_x(pre.opcode);
    &&& post == (Emu { v: post.v, pc: pre.pc2(), ..pre })
    &&& post.v@ == pre.v@.update(x, pre.v@[x] ^ pre.v@[op_y(pre.opcode)])
}

/// Add with carry: `vx` takes the wrapped sum of `vx` and `vy`, and `v[15]`
/// becomes 1 exactly when the unsigned sum exceeds 255.
pub open spec fn rel_8xy4(pre: Emu, post: Emu) -> bool {
    let x = op_x(pre.opcode);
    let vx = pre.v@[x];
    let vy = pre.v@[op_y(pre.opcode)];
    &&& post == (Emu { v: post.v, pc: pre.pc2(), ..pre })
    &&& post.v@ == pre.v@.update(x, ((vx + vy) % 256) as u8).update(
        15,
        if vx + vy > 255 {
            1u8
        } else {
            0u8
        },
    )
}

/// Subtract with borrow: `vx` takes the wrapped difference `vx - vy`, and
/// `v[15]` becomes 0 exactly when a borrow occurred (`vy > vx`), else 1.
pub open spec fn rel_8xy5(pre: Emu, post: Emu) -> bool {
    let x = op_x(pre.opcode);
    let vx = pre.v@[x];
    let vy = pre.v@[op_y(pre.opcode)];
    &&& post == (Emu { v: post.v, pc: pre.pc2(), ..pre })
    &&& post.v@ == pre.v@.update(x, ((vx + 256 - vy) % 256) as u8).update(
        15,
        if vy > vx {
            0u8
        } else {
            1u8
        },
    )
}

/// In-place shift right: `v[15]` takes the least significant bit of `vx`,
/// then `vx` is halved. `vy` plays no part.
pub open spec fn rel_8xy6(pre: Emu, post: Emu) -> bool {
    let x = op_x(pre.opcode);
    let v1 = pre.v@.update(15, (pre.v@[x] as int % 2) as u8);
    &&& post == (Emu { v: post.v, pc: pre.pc2(), ..pre })
    &&& post.v@ == v1.update(x, (v1[x] as int / 2) as u8)
}

/// Legacy shift right: `v[15]` takes the least significant bit of `vy`, and
/// `vx` takes `vy` halved.
pub open spec fn rel_8xy6_orig(pre: Emu, post: Emu) -> bool {
    let x = op_x(pre.opcode);
    let y = op_y(pre.opcode);
    let v1 = pre.v@.update(15, (pre.v@[y] as int % 2) as u8);
    &&& post == (Emu { v: post.v, pc: pre.pc2(), ..pre })
    &&& post.v@ == v1.update(x, (v1[y] as int / 2) as u8)
}

/// Reverse subtract: `vx` takes the wrapped difference `vy - vx`, and
/// `v[15]` becomes 0 exactly when a borrow occurred (`vx > vy`), else 1.
pub open spec fn rel_8xy7(pre: Emu, post: Emu) -> bool {
    let x = op_x(pre.opcode);
    let vx = pre.v@[x];
    let vy = pre.v@[op_y(pre.opcode)];
    &&& post == (Emu { v: post.v, pc: pre.pc2(), ..pre })
    &&& post.v@ == pre.v@.update(x, ((vy + 256 - vx) % 256) as u8).update(
        15,
        if vx > vy {
            0u8
        } else {
            1u8
        },
    )
}

/// In-place shift left: `v[15]` takes the most significant bit of `vx`, then
/// `vx` is doubled modulo 256. `vy` plays no part.
pub open spec fn rel_8xye(pre: Emu, post: Emu) -> bool {
    let x = op_x(pre.opcode);
    let v1 = pre.v@.update(15, (pre.v@[x] as int / 128) as u8);
    &&& post == (Emu { v: post.v, pc: pre.pc2(), ..pre })
    &&& post.v@ == v1.update(x, ((2 * (v1[x] as int)) % 256) as u8)
}

/// Legacy shift left: `v[15]` takes the most significant bit of `vy`, and
/// `vx` takes `vy` doubled modulo 256.
pub open spec fn rel_8xye_orig(pre: Emu, post: Emu) -> bool {
    let x = op_x(pre.opcode);
    let y = op_y(pre.opcode);
    let v1 = pre.v@.update(15, (pre.v@[y] as int / 128) as u8);
    &&& post == (Emu { v: post.v, pc: pre.pc2(), ..pre })
    &&& post.v@ == v1.update(x, ((2 * (v1[y] as int)) % 256) as u8)
}

/// Skip the next instruction when `vx` differs from `vy`.
pub open spec fn rel_9xy0(pre: Emu, post: Emu) -> bool {
    post == (Emu {
        pc: if pre.v@[op_x(pre.opcode)] != pre.v@[op_y(pre.opcode)] {
            pre.pc4()
        } else {
            pre.pc2()
        },
        ..pre
    })
}

/// Load the address `nnn` into the index register.
pub open spec fn rel_annn(pre: Emu, post: Emu) -> bool {
    post == (Emu { ram_idx: op_nnn(pre.opcode) as u16, pc: pre.pc2(), ..pre })
}

/// Jump to `nnn` plus `v[0]`, masked to 12 bits.
pub open spec fn rel_bnnn(pre: Emu, post: Emu) -> bool {
    post == (Emu { pc: wrap12(op_nnn(pre.opcode) + pre.v@[0]), ..pre })
}

/// Load a random byte masked by `nn` into `vx`. Every byte value is a
/// possible outcome, so the relation fixes everything but the drawn byte.
pub open spec fn rel_cxnn(pre: Emu, post: Emu) -> bool {
    exists|b: u8|
        {
            &&& post == (Emu { v: post.v, pc: pre.pc2(), ..pre })
            &&& post.v@ == pre.v@.update(
                op_x(pre.opcode),
                #[trigger] (b & (op_nn(pre.opcode) as u8)),
            )
        }
}

/// Skip the next instruction when the key indexed by `vx` (reduced modulo
/// 16) is pressed.
pub open spec fn rel_ex9e(pre: Emu, post: Emu) -> bool {
    post == (Emu {
        pc: if pre.keys@[pre.v@[op_x(pre.opcode)] as int % 16] {
            pre.pc4()
        } else {
            pre.pc2()
        },
        ..pre
    })
}

/// Skip the next instruction when the key indexed by `vx` (reduced modulo
/// 16) is not pressed.
pub open spec fn rel_exa1(pre: Emu, post: Emu) -> bool {
    post == (Emu {
        pc: if !pre.keys@[pre.v@[op_x(pre.opcode)] as int % 16] {
            pre.pc4()
        } else {
            pre.pc2()
        },
        ..pre
    })
}

/// Read the delay timer into `vx`.
pub open spec fn rel_fx07(pre: Emu, post: Emu) -> bool {
    &&& post == (Emu { v: post.v, pc: pre.pc2(), ..pre })
    &&& post.v@ == pre.v@.update(op_x(pre.opcode), pre.dt)
}

/// Load `vx` into the delay timer.
pub open spec fn rel_fx15(pre: Emu, post: Emu) -> bool {
    post == (Emu { dt: pre.v@[op_x(pre.opcode)], pc: pre.pc2(), ..pre })
}

/// Load `vx` into the sound timer.
pub open spec fn rel_fx18(pre: Emu, post: Emu) -> bool {
    post == (Emu { st: pre.v@[op_x(pre.opcode)], pc: pre.pc2(), ..pre })
}

/// Add `vx` to the index register modulo `0x1000`; `v[15]` becomes 1 exactly
/// when the unmasked sum exceeds `0xfff`.
pub open spec fn rel_fx1e(pre: Emu, post: Emu) -> bool {
    let sum = pre.ram_idx + pre.v@[op_x(pre.opcode)];
    &&& post == (Emu { v: post.v, ram_idx: wrap12(sum), pc: pre.pc2(), ..pre })
    &&& post.v@ == pre.v@.update(
        15,
        if sum > 0xfff {
            1u8
        } else {
            0u8
        },
    )
}

/// Point the index register at the 4x5 font glyph for the digit in `vx`:
/// five bytes per glyph from the bottom of RAM.
pub open spec fn rel_fx29(pre: Emu, post: Emu) -> bool {
    post == (Emu {
        ram_idx: (pre.v@[op_x(pre.opcode)] * 5) as u16,
        pc: pre.pc2(),
        ..pre
    })
}

/// Point the index register at the 8x10 font glyph for the digit in `vx`:
/// ten bytes per glyph from the start of the high-resolution font region.
pub open spec fn rel_fx30(pre: Emu, post: Emu) -> bool {
    post == (Emu {
        ram_idx: (pre.v@[op_x(pre.opcode)] * 10) as u16,
        pc: pre.pc2(),
        ..pre
    })
}

impl Emu {
    /// Return from the last subroutine.
    pub fn execute_opcode_00ee(&mut self)
        requires
            old(self).wf(),
        ensures
            final(self).wf(),
            rel_00ee(*old(self), *final(self)),
    {
        self.sp = (self.sp + 15) % 16;
        let ret = self.stack[self.sp];
        proof {
            lemma_mask12((ret + 2) as u16);
        }
        self.pc = (ret + 2) & 0x0fff;
    }

    /// Disable SUPER mode.
    pub fn execute_opcode_00fe(&mut self)
        requires
            old(self).wf(),
        ensures
            final(self).wf(),
            rel_00fe(*old(self), *final(self)),
    {
        self.mode = Mode::STANDARD;
        self.advance_pc();
    }

    /// Enable SUPER mode.
    pub fn execute_opcode_00ff(&mut self)
        requires
            old(self).wf(),
        ensures
            final(self).wf(),
            rel_00ff(*old(self), *final(self)),
    {
        self.mode = Mode::SUPER;
        self.advance_pc();
    }

    /// Jump to the address `nnn`.
    pub fn execute_opcode_1nnn(&mut self)
        requires
            old(self).wf(),
        ensures
            final(self).wf(),
            rel_1nnn(*old(self), *final(self)),
    {
        self.pc = self.nnn_val();
    }

    /// Call the subroutine at `nnn`.
    pub fn execute_opcode_2nnn(&mut self)
        requires
            old(self).wf(),
        ensures
            final(self).wf(),
            rel_2nnn(*old(self), *final(self)),
    {
        let nnn = self.nnn_val();
        let pc = self.pc;
        self.stack.set(self.sp, pc);
        self.sp = (self.sp + 1) % 16;
        self.pc = nnn;
    }

    /// Skip the next instruction when `vx` equals `nn`.
    pub fn execute_opcode_3xnn(&mut self)
        requires
            old(self).wf(),
        ensures
            final(self).wf(),
            rel_3xnn(*old(self), *final(self)),
    {
        let x = self.x_reg();
        let nn = self.nn_val();
        let cond = self.v[x] == nn;
        self.skip_pc(cond);
    }

    /// Skip the next instruction when `vx` differs from `nn`.
    pub fn execute_opcode_4xnn(&mut self)
        requires
            old(self).wf(),
        ensures
            final(self).wf(),
            rel_4xnn(*old(self), *final(self)),
    {
        let x = self.x_reg();
        let nn = self.nn_val();
        let cond = self.v[x] != nn;
        self.skip_pc(cond);
    }

    /// Skip the next instruction when `vx` equals `vy`.
    pub fn execute_opcode_5xy0(&mut self)
        requires
            old(self).wf(),
        ensures
            final(self).wf(),
            rel_5xy0(*old(self), *final(self)),
    {
        let x = self.x_reg();
        let y = self.y_reg();
        let cond = self.v[x] == self.v[y];
        self.skip_pc(cond);
    }

    /// Load the immediate `nn` into `vx`.
    pub fn execute_opcode_6xnn(&mut self)
        requires
            old(self).wf(),
        ensures
            final(self).wf(),
            rel_6xnn(*old(self), *final(self)),
    {
        let x = self.x_reg();
        let nn = self.nn_val();
        self.v.set(x, nn);
        self.advance_pc();
    }

    /// Add the immediate `nn` to `vx`, wrapping.
    pub fn execute_opcode_7xnn(&mut self)
        requires
            old(self).wf(),
        ensures
            final(self).wf(),
            rel_7xnn(*old(self), *final(self)),
    {
        let x = self.x_reg();
        let nn = self.nn_val();
        let sum: u16 = self.v[x] as u16 + nn as u16;
        self.v.set(x, (sum % 256) as u8);
        self.advance_pc();
    }

    /// Copy `vy` into `vx`.
    pub fn execute_opcode_8xy0(&mut self)
        requires
            old(self).wf(),
        ensures
            final(self).wf(),
            rel_8xy0(*old(self), *final(self)),
    {
        let x = self.x_reg();
        let y = self.y_reg();
        let vy = self.v[y];
        self.v.set(x, vy);
        self.advance_pc();
    }

    /// OR `vy` into `vx`.
    pub fn execute_opcode_8xy1(&mut self)
        requires
            old(self).wf(),
        ensures
            final(self).wf(),
            rel_8xy1(*old(self), *final(self)),
    {
        let x = self.x_reg();
        let y = self.y_reg();
        let r = self.v[x] | self.v[y];
        self.v.set(x, r);
        self.advance_pc();
    }

    /// AND `vy` into `vx`.
    pub fn execute_opcode_8xy2(&mut self)
        requires
            old(self).wf(),
        ensures
            final(self).wf(),
            rel_8xy2(*old(self), *final(self)),
    {
        let x = self.x_reg();
        let y = self.y_reg();
        let r = self.v[x] & self.v[y];
        self.v.set(x, r);
        self.advance_pc();
    }

    /// XOR `vy` into `vx`.
    pub fn execute_opcode_8xy3(&mut self)
        requires
            old(self).wf(),
        ensures
            final(self).wf(),
            rel_8xy3(*old(self), *final(self)),
    {
        let x = self.x_reg();
        let y = self.y_reg();
        let r = self.v[x] ^ self.v[y];
        self.v.set(x, r);
        self.advance_pc();
    }

    /// Add `vy` to `vx` with the carry flag in `v[15]`.
    pub fn execute_opcode_8xy4(&mut self)
        requires
            old(self).wf(),
        ensures
            final(self).wf(),
            rel_8xy4(*old(self), *final(self)),
    {
        let x = self.x_reg();
        let y = self.y_reg();
        let sum: u16 = self.v[x] as u16 + self.v[y] as u16;
        self.v.set(x, (sum % 256) as u8);
        let carried = sum > 0xff;
        self.v.set(
            15,
            if carried {
                1
            } else {
                0
            },
        );
        self.advance_pc();
    }

    /// Subtract `vy` from `vx` with the borrow flag in `v[15]`.
    pub fn execute_opcode_8xy5(&mut self)
        requires
            old(self).wf(),
        ensures
            final(self).wf(),
            rel_8xy5(*old(self), *final(self)),
    {
        let x = self.x_reg();
        let y = self.y_reg();
        let vx = self.v[x];
        let vy = self.v[y];
        let diff: u16 = (vx as u16 + 256 - vy as u16) % 256;
        self.v.set(x, diff as u8);
        let borrowed = vy > vx;
        self.v.set(
            15,
            if borrowed {
                0
            } else {
                1
            },
        );
        self.advance_pc();
    }

    /// Shift `vx` right in place; this is the canonical behaviour reached
    /// through dispatch.
    pub fn execute_opcode_8xy6(&mut self)
        requires
            old(self).wf(),
        ensures
            final(self).wf(),
            rel_8xy6(*old(self), *final(self)),
    {
        let x = self.x_reg();
        let lsb = self.v[x] & 0x01;
        proof {
            lemma_u8_low_bit(self.v@[x as int]);
        }
        self.v.set(15, lsb);
        let vx = self.v[x];
        proof {
            lemma_u8_shr1(vx);
        }
        self.v.set(x, vx >> 1);
        self.advance_pc();
    }

    /// The legacy right-shift semantics: shift `vy` into `vx`. Kept as a
    /// directly invokable alternative; normal dispatch never reaches it.
    pub fn execute_opcode_8xy6_orig_not_used(&mut self)
        requires
            old(self).wf(),
        ensures
            final(self).wf(),
            rel_8xy6_orig(*old(self), *final(self)),
    {
        let x = self.x_reg();
        let y = self.y_reg();
        let lsb = self.v[y] & 0x01;
        proof {
            lemma_u8_low_bit(self.v@[y as int]);
        }
        self.v.set(15, lsb);
        let vy = self.v[y];
        proof {
            lemma_u8_shr1(vy);
        }
        self.v.set(x, vy >> 1);
        self.advance_pc();
    }

    /// Subtract `vx` from `vy` into `vx` with the borrow flag in `v[15]`.
    pub fn execute_opcode_8xy7(&mut self)
        requires
            old(self).wf(),
        ensures
            final(self).wf(),
            rel_8xy7(*old(self), *final(self)),
    {
        let x = self.x_reg();
        let y = self.y_reg();
        let vx = self.v[x];
        let vy = self.v[y];
        let diff: u16 = (vy as u16 + 256 - vx as u16) % 256;
        self.v.set(x, diff as u8);
        let borrowed = vx > vy;
        self.v.set(
            15,
            if borrowed {
                0
            } else {
                1
            },
        );
        self.advance_pc();
    }

    /// Shift `vx` left in place; this is the canonical behaviour reached
    /// through dispatch.
    pub fn execute_opcode_8xye(&mut self)
        requires
            old(self).wf(),
        ensures
            final(self).wf(),
            rel_8xye(*old(self), *final(self)),
    {
        let x = self.x_reg();
        let msb = (self.v[x] >> 7) & 0x01;
        proof {
            lemma_u8_msb(self.v@[x as int]);
        }
        self.v.set(15, msb);
        let vx = self.v[x];
        proof {
            lemma_u8_shl1(vx);
        }
        self.v.set(x, vx << 1);
        self.advance_pc();
    }

    /// The legacy left-shift semantics: shift `vy` into `vx`. Kept as a
    /// directly invokable alternative; normal dispatch never reaches it.
    pub fn execute_opcode_8xye_orig_not_used(&mut self)
        requires
            old(self).wf(),
        ensures
            final(self).wf(),
            rel_8xye_orig(*old(self), *final(self)),
    {
        let x = self.x_reg();
        let y = self.y_reg();
        let msb = (self.v[y] >> 7) & 0x01;
        proof {
            lemma_u8_msb(self.v@[y as int]);
        }
        self.v.set(15, msb);
        let vy = self.v[y];
        proof {
            lemma_u8_shl1(vy);
        }
        self.v.set(x, vy << 1);
        self.advance_pc();
    }

    /// Skip the next instruction when `vx` differs from `vy`.
    pub fn execute_opcode_9xy0(&mut self)
        requires
            old(self).wf(),
        ensures
            final(self).wf(),
            rel_9xy0(*old(self), *final(self)),
    {
        let x = self.x_reg();
        let y = self.y_reg();
        let cond = self.v[x] != self.v[y];
        self.skip_pc(cond);
    }

    /// Load the address `nnn` into the index register.
    pub fn execute_opcode_annn(&mut self)
        requires
            old(self).wf(),
        ensures
            final(self).wf(),
            rel_annn(*old(self), *final(self)),
    {
        self.ram_idx = self.nnn_val();
        self.advance_pc();
    }

    /// Jump to `nnn` plus `v[0]`.
    pub fn execute_opcode_bnnn(&mut self)
        requires
            old(self).wf(),
        ensures
            final(self).wf(),
            rel_bnnn(*old(self), *final(self)),
    {
        let nnn = self.nnn_val();
        let target: u16 = nnn + self.v[0] as u16;
        proof {
            lemma_mask12(target);
        }
        self.pc = target & 0x0fff;
    }

    /// Skip the next instruction when the key indexed by `vx` is pressed.
    pub fn execute_opcode_ex9e(&mut self)
        requires
            old(self).wf(),
        ensures
            final(self).wf(),
            rel_ex9e(*old(self), *final(self)),
    {
        let x = self.x_reg();
        let k = (self.v[x] & 0x0f) as usize;
        proof {
            lemma_u8_low_nibble(self.v@[x as int]);
        }
        let cond = self.keys[k];
        self.skip_pc(cond);
    }

    /// Skip the next instruction when the key indexed by `vx` is not
    /// pressed.
    pub fn execute_opcode_exa1(&mut self)
        requires
            old(self).wf(),
        ensures
            final(self).wf(),
            rel_exa1(*old(self), *final(self)),
    {
        let x = self.x_reg();
        let k = (self.v[x] & 0x0f) as usize;
        proof {
            lemma_u8_low_nibble(self.v@[x as int]);
        }
        let cond = !self.keys[k];
        self.skip_pc(cond);
    }

    /// Read the delay timer into `vx`.
    pub fn execute_opcode_fx07(&mut self)
        requires
            old(self).wf(),
        ensures
            final(self).wf(),
            rel_fx07(*old(self), *final(self)),
    {
        let x = self.x_reg();
        let dt = self.dt;
        self.v.set(x, dt);
        self.advance_pc();
    }

    /// Load `vx` into the delay timer.
    pub fn execute_opcode_fx15(&mut self)
        requires
            old(self).wf(),
        ensures
            final(self).wf(),
            rel_fx15(*old(self), *final(self)),
    {
        let x = self.x_reg();
        self.dt = self.v[x];
        self.advance_pc();
    }

    /// Load `vx` into the sound timer.
    pub fn execute_opcode_fx18(&mut self)
        requires
            old(self).wf(),
        ensures
            final(self).wf(),
            rel_fx18(*old(self), *final(self)),
    {
        let x = self.x_reg();
        self.st = self.v[x];
        self.advance_pc();
    }

    /// Add `vx` to the index register with 12-bit overflow detection.
    pub fn execute_opcode_fx1e(&mut self)
        requires
            old(self).wf(),
        ensures
            final(self).wf(),
            rel_fx1e(*old(self), *final(self)),
    {
        let x = self.x_reg();
        let sum: u16 = self.ram_idx + self.v[x] as u16;
        let overflowed = sum > 0x0fff;
        self.v.set(
            15,
            if overflowed {
                1
            } else {
                0
            },
        );
        self.ram_idx = sum % 0x1000;
        self.advance_pc();
    }

    /// Point the index register at the 4x5 glyph for the digit in `vx`.
    pub fn execute_opcode_fx29(&mut self)
        requires
            old(self).wf(),
        ensures
            final(self).wf(),
            rel_fx29(*old(self), *final(self)),
    {
        let x = self.x_reg();
        let fchar = self.v[x];
        self.ram_idx = fchar as u16 * 5;
        self.advance_pc();
    }

    /// Point the index register at the 8x10 glyph for the digit in `vx`.
    pub fn execute_opcode_fx30(&mut self)
        requires
            old(self).wf(),
        ensures
            final(self).wf(),
            rel_fx30(*old(self), *final(self)),
    {
        let x = self.x_reg();
        let fchar = self.v[x];
        self.ram_idx = fchar as u16 * 10;
        self.advance_pc();
    }
}

/// Relies on `rand::random`: draws a uniformly random byte from the thread
/// RNG. Nothing can be promised of the value.
#[verifier::external_body]
fn random_byte() -> u8 {
    rand::random::<u8>()
}

/// The lowest index at or after `i` whose key is pressed, or 16 when none
/// is: the scan order of the wait-for-key operation.
pub open spec fn lowest_pressed(keys: Seq<bool>, i: int) -> int
    decreases 16 - i,
{
    if i < 0 || i >= 16 {
        16
    } else if keys[i] {
        i
    } else {
        lowest_pressed(keys, i + 1)
    }
}

/// When `k` is pressed and nothing below it is, the scan finds `k`.
pub proof fn lemma_lowest_found(keys: Seq<bool>, i: int, k: int)
    requires
        0 <= i <= k < 16,
        keys[k],
        forall|j: int| i <= j < k ==> !keys[j],
    ensures
        lowest_pressed(keys, i) == k,
    decreases k - i,
{
    if i < k {
        lemma_lowest_found(keys, i + 1, k);
    }
}

/// When nothing at or after `i` is pressed, the scan comes up empty.
pub proof fn lemma_lowest_none(keys: Seq<bool>, i: int)
    requires
        0 <= i <= 16,
        forall|j: int| i <= j < 16 ==> !keys[j],
    ensures
        lowest_pressed(keys, i) == 16,
    decreases 16 - i,
{
    if i < 16 {
        lemma_lowest_none(keys, i + 1);
    }
}

/// `ram` with the first `cnt` registers of `v` stored from address `idx`
/// on, each address reduced modulo `RAM_SIZE`.
pub open spec fn block_stored(ram: Seq<u8>, idx: int, v: Seq<u8>, cnt: int) -> Seq<u8>
    decreases cnt,
{
    if cnt <= 0 {
        ram
    } else {
        block_stored(ram, idx, v, cnt - 1).update((idx + cnt - 1) % RAM_SIZE as int, v[cnt - 1])
    }
}

/// Two offsets whose distance is below the modulus land on distinct wrapped
/// positions.
proof fn lemma_mod_distinct(m: int, idx: int, a: int, b: int)
    requires
        m > 0,
        a < b,
        b - a < m,
    ensures
        (idx + a) % m != (idx + b) % m,
{
    vstd::arithmetic::div_mod::lemma_mod_equivalence(idx + b, idx + a, m);
    vstd::arithmetic::div_mod::lemma_small_mod((b - a) as nat, m as nat);
}

/// Offsets below `RAM_SIZE` land on distinct RAM addresses.
proof fn lemma_wrap_distinct(idx: int, a: int, b: int)
    requires
        0 <= idx,
        0 <= a < b,
        b - a < RAM_SIZE as int,
    ensures
        (idx + a) % RAM_SIZE as int != (idx + b) % RAM_SIZE as int,
{
    lemma_mod_distinct(RAM_SIZE as int, idx, a, b);
}

/// What a block store leaves in RAM, address by address: the stored prefix
/// at its wrapped addresses, everything else untouched.
pub proof fn lemma_block_stored_pointwise(ram: Seq<u8>, idx: int, v: Seq<u8>, cnt: int)
    requires
        ram.len() == RAM_SIZE,
        0 <= idx,
        0 <= cnt <= 16,
        v.len() == 16,
    ensures
        block_stored(ram, idx, v, cnt).len() == RAM_SIZE,
        forall|k: int|
            0 <= k < cnt ==> block_stored(ram, idx, v, cnt)[(idx + k) % RAM_SIZE as int] == v[k],
        forall|j: int|
            0 <= j < RAM_SIZE as int && (forall|k: int|
                0 <= k < cnt ==> j != #[trigger] ((idx + k) % RAM_SIZE as int)) ==> block_stored(
                ram,
                idx,
                v,
                cnt,
            )[j] == ram[j],
    decreases cnt,
{
    if cnt > 0 {
        lemma_block_stored_pointwise(ram, idx, v, cnt - 1);
        assert forall|k: int| 0 <= k < cnt implies block_stored(ram, idx, v, cnt)[(idx + k)
            % RAM_SIZE as int] == v[k] by {
            if k < cnt - 1 {
                lemma_wrap_distinct(idx, k, cnt - 1);
            }
        }
    }
}

/// Reset in place of exit: the interpreter rebuilds its initial state with
/// the cached ROM reloaded.
pub open spec fn rel_00fd(pre: Emu, post: Emu) -> bool {
    post.is_initial_with_rom(pre.rom@)
}

/// Clear the whole frame buffer and request a redraw.
pub open spec fn rel_00e0(pre: Emu, post: Emu) -> bool {
    &&& post == (Emu { gfx: post.gfx, draw: true, pc: pre.pc2(), ..pre })
    &&& grid_wf(post.gfx@)
    &&& forall|x: int, y: int|
        0 <= x < GFX_W as int && 0 <= y < GFX_H as int ==> !post.pix(x, y)
}

/// Scroll the frame buffer down by `n` rows; vacated rows are unset.
pub open spec fn rel_00cn(pre: Emu, post: Emu) -> bool {
    let n = op_n(pre.opcode);
    &&& post == (Emu { gfx: post.gfx, draw: true, pc: pre.pc2(), ..pre })
    &&& grid_wf(post.gfx@)
    &&& forall|x: int, y: int|
        0 <= x < GFX_W as int && 0 <= y < GFX_H as int ==> #[trigger] post.pix(x, y) == (if y
            >= n {
            pre.pix(x, y - n)
        } else {
            false
        })
}

/// Scroll the frame buffer right by four columns; vacated columns are
/// unset.
pub open spec fn rel_00fb(pre: Emu, post: Emu) -> bool {
    &&& post == (Emu { gfx: post.gfx, draw: true, pc: pre.pc2(), ..pre })
    &&& grid_wf(post.gfx@)
    &&& forall|x: int, y: int|
        0 <= x < GFX_W as int && 0 <= y < GFX_H as int ==> #[trigger] post.pix(x, y) == (if x
            >= 4 {
            pre.pix(x - 4, y)
        } else {
            false
        })
}

/// Scroll the frame buffer left by four columns; vacated columns are unset.
pub open spec fn rel_00fc(pre: Emu, post: Emu) -> bool {
    &&& post == (Emu { gfx: post.gfx, draw: true, pc: pre.pc2(), ..pre })
    &&& grid_wf(post.gfx@)
    &&& forall|x: int, y: int|
        0 <= x < GFX_W as int && 0 <= y < GFX_H as int ==> #[trigger] post.pix(x, y) == (if x + 4
            < GFX_W as int {
            pre.pix(x + 4, y)
        } else {
            false
        })
}

/// Wait for a keypress: with no key pressed nothing changes and the opcode
/// runs again next cycle; once one is pressed, the lowest pressed index (by
/// scan order) lands in `vx` and the program counter advances.
pub open spec fn rel_fx0a(pre: Emu, post: Emu) -> bool {
    let lp = lowest_pressed(pre.keys@, 0);
    if lp < 16 {
        &&& post == (Emu { v: post.v, pc: pre.pc2(), ..pre })
        &&& post.v@ == pre.v@.update(op_x(pre.opcode), lp as u8)
    } else {
        post == pre
    }
}

/// Store the three decimal digits of `vx` at the index register address:
/// hundreds first, each address reduced modulo `RAM_SIZE`.
pub open spec fn rel_fx33(pre: Emu, post: Emu) -> bool {
    let idx = pre.ram_idx as int;
    let vx = pre.v@[op_x(pre.opcode)] as int;
    &&& post == (Emu { ram: post.ram, pc: pre.pc2(), ..pre })
    &&& post.ram@ == pre.ram@.update(idx % RAM_SIZE as int, (vx / 100) as u8).update(
        (idx + 1) % RAM_SIZE as int,
        ((vx / 10) % 10) as u8,
    ).update((idx + 2) % RAM_SIZE as int, (vx % 10) as u8)
}

/// Store `v[0..=x]` to RAM from the index register address on; the index
/// register itself is unmodified.
pub open spec fn rel_fx55(pre: Emu, post: Emu) -> bool {
    &&& post == (Emu { ram: post.ram, pc: pre.pc2(), ..pre })
    &&& post.ram@ == block_stored(pre.ram@, pre.ram_idx as int, pre.v@, op_x(pre.opcode) + 1)
}

/// Load `v[0..=x]` from RAM from the index register address on; the index
/// register itself is unmodified.
pub open spec fn rel_fx65(pre: Emu, post: Emu) -> bool {
    let idx = pre.ram_idx as int;
    let x = op_x(pre.opcode);
    &&& post == (Emu { v: post.v, pc: pre.pc2(), ..pre })
    &&& post.v@.len() == NUM_REGISTERS
    &&& forall|i: int|
        0 <= i < NUM_REGISTERS as int ==> #[trigger] post.v@[i] == (if i <= x {
            pre.ram@[(idx + i) % RAM_SIZE as int]
        } else {
            pre.v@[i]
        })
}

/// Store `v[0..=min(x, 7)]` into the persistent RPL flags; indices above
/// seven are silently clamped.
pub open spec fn rel_fx75(pre: Emu, post: Emu) -> bool {
    let m = if op_x(pre.opcode) < 7 {
        op_x(pre.opcode)
    } else {
        7
    };
    &&& post == (Emu { super_mode_rpl_flags: post.super_mode_rpl_flags, pc: pre.pc2(), ..pre })
    &&& post.super_mode_rpl_flags@.len() == NUM_SUPER_MODE_RPL_FLAGS
    &&& forall|i: int|
        0 <= i < NUM_SUPER_MODE_RPL_FLAGS as int ==> #[trigger] post.super_mode_rpl_flags@[i] == (
        if i <= m {
            pre.v@[i]
        } else {
            pre.super_mode_rpl_flags@[i]
        })
}

/// Load `v[0..=min(x, 7)]` from the persistent RPL flags; indices above
/// seven are silently clamped.
pub open spec fn rel_fx85(pre: Emu, post: Emu) -> bool {
    let m = if op_x(pre.opcode) < 7 {
        op_x(pre.opcode)
    } else {
        7
    };
    &&& post == (Emu { v: post.v, pc: pre.pc2(), ..pre })
    &&& post.v@.len() == NUM_REGISTERS
    &&& forall|i: int|
        0 <= i < NUM_REGISTERS as int ==> #[trigger] post.v@[i] == (if i <= m {
            pre.super_mode_rpl_flags@[i]
        } else {
            pre.v@[i]
        })
}

impl Emu {
    /// The exit opcode, mapped to a full reset rather than termination.
    pub fn execute_opcode_00fd(&mut self)
        requires
            old(self).wf(),
        ensures
            final(self).wf(),
            rel_00fd(*old(self), *final(self)),
    {
        self.reset();
    }

    /// Clear the screen.
    pub fn execute_opcode_00e0(&mut self)
        requires
            old(self).wf(),
        ensures
            final(self).wf(),
            rel_00e0(*old(self), *final(self)),
    {
        self.gfx = blank_grid();
        self.draw = true;
        self.advance_pc();
    }

    /// Scroll the screen `n` rows down.
    pub fn execute_opcode_00cn(&mut self)
        requires
            old(self).wf(),
        ensures
            final(self).wf(),
            rel_00cn(*old(self), *final(self)),
    {
        let n = self.n_val();
        self.gfx = scrolled_down(&self.gfx, n);
        self.draw = true;
        self.advance_pc();
    }

    /// Scroll the screen four columns right.
    pub fn execute_opcode_00fb(&mut self)
        requires
            old(self).wf(),
        ensures
            final(self).wf(),
            rel_00fb(*old(self), *final(self)),
    {
        self.gfx = scrolled_right(&self.gfx);
        self.draw = true;
        self.advance_pc();
    }

    /// Scroll the screen four columns left.
    pub fn execute_opcode_00fc(&mut self)
        requires
            old(self).wf(),
        ensures
            final(self).wf(),
            rel_00fc(*old(self), *final(self)),
    {
        self.gfx = scrolled_left(&self.gfx);
        self.draw = true;
        self.advance_pc();
    }

    /// Load a random byte masked by `nn` into `vx`.
    pub fn execute_opcode_cxnn(&mut self)
        requires
            old(self).wf(),
        ensures
            final(self).wf(),
            rel_cxnn(*old(self), *final(self)),
    {
        let x = self.x_reg();
        let nn = self.nn_val();
        let b = random_byte();
        self.v.set(x, b & nn);
        self.advance_pc();
        proof {
            assert(self.v@ == old(self).v@.update(
                op_x(old(self).opcode),
                b & (op_nn(old(self).opcode) as u8),
            ));
        }
    }

    /// Wait for a keypress, then store the lowest pressed index in `vx`.
    pub fn execute_opcode_fx0a(&mut self)
        requires
            old(self).wf(),
        ensures
            final(self).wf(),
            rel_fx0a(*old(self), *final(self)),
    {
        let x = self.x_reg();
        let mut found = false;
        let mut key: usize = 0;
        let mut i: usize = 0;
        while i < 16
            invariant
                i <= 16,
                self.keys@.len() == 16,
                !found ==> forall|j: int| 0 <= j < i as int ==> !self.keys@[j],
                found ==> {
                    &&& key < i
                    &&& self.keys@[key as int]
                    &&& forall|j: int| 0 <= j < key as int ==> !self.keys@[j]
                },
            decreases 16 - i,
        {
            if !found && self.keys[i] {
                found = true;
                key = i;
            }
            i += 1;
        }
        if found {
            proof {
                lemma_lowest_found(self.keys@, 0, key as int);
            }
            self.v.set(x, key as u8);
            self.advance_pc();
        } else {
            proof {
                lemma_lowest_none(self.keys@, 0);
            }
        }
    }

    /// Store the decimal digits of `vx` at the index register address.
    pub fn execute_opcode_fx33(&mut self)
        requires
            old(self).wf(),
        ensures
            final(self).wf(),
            rel_fx33(*old(self), *final(self)),
    {
        let x = self.x_reg();
        let vx = self.v[x];
        let hundreds = vx / 100;
        let tens = (vx / 10) % 10;
        let ones = vx % 10;
        let idx = self.ram_idx as usize;
        self.ram.set(idx % RAM_SIZE, hundreds);
        self.ram.set((idx + 1) % RAM_SIZE, tens);
        self.ram.set((idx + 2) % RAM_SIZE, ones);
        self.advance_pc();
    }

    /// Store `v[0..=x]` to RAM from the index register address on.
    pub fn execute_opcode_fx55(&mut self)
        requires
            old(self).wf(),
        ensures
            final(self).wf(),
            rel_fx55(*old(self), *final(self)),
    {
        let x = self.x_reg();
        let idx = self.ram_idx as usize;
        let ghost pre = *self;
        let mut ram: Vec<u8> = Vec::new();
        core::mem::swap(&mut ram, &mut self.ram);
        let mut i: usize = 0;
        while i < x + 1
            invariant
                x < 16,
                i <= x + 1,
                idx == pre.ram_idx,
                self.v@ == pre.v@,
                self.v@.len() == NUM_REGISTERS,
                ram@.len() == RAM_SIZE,
                ram@ == block_stored(pre.ram@, idx as int, pre.v@, i as int),
            decreases x + 1 - i,
        {
            let b = self.v[i];
            ram.set((idx + i) % RAM_SIZE, b);
            i += 1;
        }
        self.ram = ram;
        self.advance_pc();
    }

    /// Load `v[0..=x]` from RAM from the index register address on.
    pub fn execute_opcode_fx65(&mut self)
        requires
            old(self).wf(),
        ensures
            final(self).wf(),
            rel_fx65(*old(self), *final(self)),
    {
        let x = self.x_reg();
        let idx = self.ram_idx as usize;
        let ghost pre = *self;
        let mut v: Vec<u8> = Vec::new();
        core::mem::swap(&mut v, &mut self.v);
        let mut i: usize = 0;
        while i < x + 1
            invariant
                x < 16,
                i <= x + 1,
                idx == pre.ram_idx,
                self.ram@ == pre.ram@,
                self.ram@.len() == RAM_SIZE,
                v@.len() == NUM_REGISTERS,
                forall|j: int| 0 <= j < i as int ==> #[trigger] v@[j] == pre.ram@[(idx as int + j) % RAM_SIZE as int],
                forall|j: int| i as int <= j < NUM_REGISTERS as int ==> #[trigger] v@[j] == pre.v@[j],
            decreases x + 1 - i,
        {
            let b = self.ram[(idx + i) % RAM_SIZE];
            v.set(i, b);
            i += 1;
        }
        self.v = v;
        self.advance_pc();
    }

    /// Store `v[0..=min(x, 7)]` into the persistent RPL flags.
    pub fn execute_opcode_fx75(&mut self)
        requires
            old(self).wf(),
        ensures
            final(self).wf(),
            rel_fx75(*old(self), *final(self)),
    {
        let x = self.x_reg();
        let m = if x < 7 {
            x
        } else {
            7
        };
        let ghost pre = *self;
        let mut flags: Vec<u8> = Vec::new();
        core::mem::swap(&mut flags, &mut self.super_mode_rpl_flags);
        let mut i: usize = 0;
        while i < m + 1
            invariant
                m < 8,
                i <= m + 1,
                self.v@ == pre.v@,
                self.v@.len() == NUM_REGISTERS,
                flags@.len() == NUM_SUPER_MODE_RPL_FLAGS,
                forall|j: int| 0 <= j < i as int ==> #[trigger] flags@[j] == pre.v@[j],
                forall|j: int|
                    i as int <= j < NUM_SUPER_MODE_RPL_FLAGS as int ==> #[trigger] flags@[j]
                        == pre.super_mode_rpl_flags@[j],
            decreases m + 1 - i,
        {
            let b = self.v[i];
            flags.set(i, b);
            i += 1;
        }
        self.super_mode_rpl_flags = flags;
        self.advance_pc();
    }

    /// Load `v[0..=min(x, 7)]` from the persistent RPL flags.
    pub fn execute_opcode_fx85(&mut self)
        requires
            old(self).wf(),
        ensures
            final(self).wf(),
            rel_fx85(*old(self), *final(self)),
    {
        let x = self.x_reg();
        let m = if x < 7 {
            x
        } else {
            7
        };
        let ghost pre = *self;
        let mut v: Vec<u8> = Vec::new();
        core::mem::swap(&mut v, &mut self.v);
        let mut i: usize = 0;
        while i < m + 1
            invariant
                m < 8,
                i <= m + 1,
                self.super_mode_rpl_flags@ == pre.super_mode_rpl_flags@,
                self.super_mode_rpl_flags@.len() == NUM_SUPER_MODE_RPL_FLAGS,
                v@.len() == NUM_REGISTERS,
                forall|j: int|
                    0 <= j < i as int ==> #[trigger] v@[j] == pre.super_mode_rpl_flags@[j],
                forall|j: int|
                    i as int <= j < NUM_REGISTERS as int ==> #[trigger] v@[j] == pre.v@[j],
            decreases m + 1 - i,
        {
            let b = self.super_mode_rpl_flags[i];
            v.set(i, b);
            i += 1;
        }
        self.v = v;
        self.advance_pc();
    }
}

/// The frame buffer scrolled down by `n` rows.
fn scrolled_down(g: &Vec<Vec<bool>>, n: usize) -> (r: Vec<Vec<bool>>)
    requires
        grid_wf(g@),
    ensures
        grid_wf(r@),
        forall|x: int, y: int|
            0 <= x < GFX_W as int && 0 <= y < GFX_H as int ==> #[trigger] r@[x]@[y] == (if y
                >= n as int {
                g@[x]@[y - n as int]
            } else {
                false
            }),
{
    let mut r: Vec<Vec<bool>> = Vec::new();
    let mut x: usize = 0;
    while x < GFX_W
        invariant
            x <= GFX_W,
            grid_wf(g@),
            r@.len() == x as int,
            forall|i: int| 0 <= i < x as int ==> (#[trigger] r@[i])@.len() == GFX_H,
            forall|i: int, y: int|
                0 <= i < x as int && 0 <= y < GFX_H as int ==> #[trigger] r@[i]@[y] == (if y
                    >= n as int {
                    g@[i]@[y - n as int]
                } else {
                    false
                }),
        decreases GFX_W - x,
    {
        let mut col: Vec<bool> = Vec::new();
        let mut y: usize = 0;
        while y < GFX_H
            invariant
                x < GFX_W,
                y <= GFX_H,
                grid_wf(g@),
                col@.len() == y as int,
                forall|j: int|
                    0 <= j < y as int ==> #[trigger] col@[j] == (if j >= n as int {
                        g@[x as int]@[j - n as int]
                    } else {
                        false
                    }),
            decreases GFX_H - y,
        {
            let b = if y >= n {
                g[x][y - n]
            } else {
                false
            };
            col.push(b);
            y += 1;
        }
        r.push(col);
        x += 1;
    }
    r
}

/// The frame buffer scrolled right by four columns.
fn scrolled_right(g: &Vec<Vec<bool>>) -> (r: Vec<Vec<bool>>)
    requires
        grid_wf(g@),
    ensures
        grid_wf(r@),
        forall|x: int, y: int|
            0 <= x < GFX_W as int && 0 <= y < GFX_H as int ==> #[trigger] r@[x]@[y] == (if x >= 4 {
                g@[x - 4]@[y]
            } else {
                false
            }),
{
    let mut r: Vec<Vec<bool>> = Vec::new();
    let mut x: usize = 0;
    while x < GFX_W
        invariant
            x <= GFX_W,
            grid_wf(g@),
            r@.len() == x as int,
            forall|i: int| 0 <= i < x as int ==> (#[trigger] r@[i])@.len() == GFX_H,
            forall|i: int, y: int|
                0 <= i < x as int && 0 <= y < GFX_H as int ==> #[trigger] r@[i]@[y] == (if i >= 4 {
                    g@[i - 4]@[y]
                } else {
                    false
                }),
        decreases GFX_W - x,
    {
        let mut col: Vec<bool> = Vec::new();
        let mut y: usize = 0;
        while y < GFX_H
            invariant
                x < GFX_W,
                y <= GFX_H,
                grid_wf(g@),
                col@.len() == y as int,
                forall|j: int|
                    0 <= j < y as int ==> #[trigger] col@[j] == (if x as int >= 4 {
                        g@[x as int - 4]@[j]
                    } else {
                        false
                    }),
            decreases GFX_H - y,
        {
            let b = if x >= 4 {
                g[x - 4][y]
            } else {
                false
            };
            col.push(b);
            y += 1;
        }
        r.push(col);
        x += 1;
    }
    r
}

/// The frame buffer scrolled left by four columns.
fn scrolled_left(g: &Vec<Vec<bool>>) -> (r: Vec<Vec<bool>>)
    requires
        grid_wf(g@),
    ensures
        grid_wf(r@),
        forall|x: int, y: int|
            0 <= x < GFX_W as int && 0 <= y < GFX_H as int ==> #[trigger] r@[x]@[y] == (if x + 4
                < GFX_W as int {
                g@[x + 4]@[y]
            } else {
                false
            }),
{
    let mut r: Vec<Vec<bool>> = Vec::new();
    let mut x: usize = 0;
    while x < GFX_W
        invariant
            x <= GFX_W,
            grid_wf(g@),
            r@.len() == x as int,
            forall|i: int| 0 <= i < x as int ==> (#[trigger] r@[i])@.len() == GFX_H,
            forall|i: int, y: int|
                0 <= i < x as int && 0 <= y < GFX_H as int ==> #[trigger] r@[i]@[y] == (if i + 4
                    < GFX_W as int {
                    g@[i + 4]@[y]
                } else {
                    false
                }),
        decreases GFX_W - x,
    {
        let mut col: Vec<bool> = Vec::new();
        let mut y: usize = 0;
        while y < GFX_H
            invariant
                x < GFX_W,
                y <= GFX_H,
                grid_wf(g@),
                col@.len() == y as int,
                forall|j: int|
                    0 <= j < y as int ==> #[trigger] col@[j] == (if x as int + 4 < GFX_W as int {
                        g@[x as int + 4]@[j]
                    } else {
                        false
                    }),
            decreases GFX_H - y,
        {
            let b = if x + 4 < GFX_W {
                g[x + 4][y]
            } else {
                false
            };
            col.push(b);
            y += 1;
        }
        r.push(col);
        x += 1;
    }
    r
}

/// A frame buffer of `GFX_W` by `GFX_H` unset pixels.
fn blank_grid() -> (g: Vec<Vec<bool>>)
    ensures
        grid_wf(g@),
        forall|x: int, y: int|
            0 <= x < GFX_W as int && 0 <= y < GFX_H as int ==> !g@[x]@[y],
{
    let mut g: Vec<Vec<bool>> = Vec::new();
    let mut x: usize = 0;
    while x < GFX_W
        invariant
            x <= GFX_W,
            g@.len() == x as int,
            forall|i: int| 0 <= i < x as int ==> (#[trigger] g@[i])@.len() == GFX_H,
            forall|i: int, y: int|
                0 <= i < x as int && 0 <= y < GFX_H as int ==> !g@[i]@[y],
        decreases GFX_W - x,
    {
        let col: Vec<bool> = vec![false; GFX_H];
        assert(forall|y: int| 0 <= y < GFX_H as int ==> !col@[y]);
        g.push(col);
        x += 1;
    }
    g
}


/// Whether bit `k` (0 = most significant) of sprite byte `b` is set.
pub open spec fn byte_bit(b: u8, k: int) -> bool {
    b & (0x80u8 >> (k as u8)) != 0
}

impl Emu {
    /// Sprite width for the pending draw: 16 only when `n` is zero in SUPER
    /// mode, else 8.
    pub open spec fn sprite_w(self) -> int {
        if op_n(self.opcode) == 0 && self.mode == Mode::SUPER {
            16
        } else {
            8
        }
    }

    /// Sprite height for the pending draw: 16 when `n` is zero, else `n`.
    pub open spec fn sprite_h(self) -> int {
        if op_n(self.opcode) == 0 {
            16
        } else {
            op_n(self.opcode)
        }
    }

    /// The RAM byte that byte column `col` of sprite row `row` is read
    /// from: the sprite is consumed byte-row-by-byte from the index
    /// register on, two consecutive bytes per row for a 16-wide sprite;
    /// the address wraps modulo `RAM_SIZE`.
    pub open spec fn sprite_byte(self, row: int, col: int) -> u8 {
        self.ram@[(self.ram_idx + row * (self.sprite_w() / 8) + col) % RAM_SIZE as int]
    }

    /// Whether the sprite pixel at row `row`, column offset `xo` is set.
    pub open spec fn sprite_bit(self, row: int, xo: int) -> bool {
        byte_bit(self.sprite_byte(row, xo / 8), xo % 8)
    }

    /// The screen column that sprite column offset `xo` lands on: toroidal
    /// addressing modulo the mode-appropriate width.
    pub open spec fn tgt_x(self, xo: int) -> int {
        (self.v@[op_x(self.opcode)] + xo) % self.scr_w()
    }

    /// The screen row that sprite row `row` lands on: toroidal addressing
    /// modulo the mode-appropriate height.
    pub open spec fn tgt_y(self, row: int) -> int {
        (self.v@[op_y(self.opcode)] + row) % self.scr_h()
    }
}

/// Whether some set sprite pixel strictly before row `r`, column offset `c`
/// (in row-major scan order) lands on screen position `(gx, gy)`.
pub open spec fn hit_before(e: Emu, r: int, c: int, gx: int, gy: int) -> bool {
    exists|row: int, xo: int|
        {
            &&& 0 <= row < e.sprite_h()
            &&& 0 <= xo < e.sprite_w()
            &&& row < r || (row == r && xo < c)
            &&& e.tgt_x(xo) == gx
            &&& e.tgt_y(row) == gy
            &&& #[trigger] e.sprite_bit(row, xo)
        }
}

/// Whether some set sprite pixel strictly before row `r`, column offset `c`
/// lands on a screen pixel that was set before the draw began.
pub open spec fn col_before(e: Emu, r: int, c: int) -> bool {
    exists|row: int, xo: int|
        {
            &&& 0 <= row < e.sprite_h()
            &&& 0 <= xo < e.sprite_w()
            &&& row < r || (row == r && xo < c)
            &&& e.pix(e.tgt_x(xo), e.tgt_y(row))
            &&& #[trigger] e.sprite_bit(row, xo)
        }
}

/// Whether some set sprite pixel strictly before row `r`, column offset `c`
/// lands on a screen pixel that was unset before the draw began.
pub open spec fn lit_before(e: Emu, r: int, c: int) -> bool {
    exists|row: int, xo: int|
        {
            &&& 0 <= row < e.sprite_h()
            &&& 0 <= xo < e.sprite_w()
            &&& row < r || (row == r && xo < c)
            &&& !e.pix(e.tgt_x(xo), e.tgt_y(row))
            &&& #[trigger] e.sprite_bit(row, xo)
        }
}

/// Whether some set sprite pixel lands on screen position `(gx, gy)`.
pub open spec fn draw_hit(e: Emu, gx: int, gy: int) -> bool {
    hit_before(e, e.sprite_h(), 0, gx, gy)
}

/// Whether the draw turns a previously set pixel off: the collision flag.
pub open spec fn draw_collision(e: Emu) -> bool {
    col_before(e, e.sprite_h(), 0)
}

/// Whether the draw turns a previously unset pixel on: what forces the
/// sticky redraw flag.
pub open spec fn draw_lit(e: Emu) -> bool {
    lit_before(e, e.sprite_h(), 0)
}

/// Draw the sprite addressed by the index register at `(v[x], v[y])` by
/// XOR-blitting: every hit pixel toggles, `v[15]` reports whether any set
/// pixel turned off, and the redraw flag is set when any pixel turned on.
pub open spec fn rel_dxyn(pre: Emu, post: Emu) -> bool {
    &&& post == (Emu {
        gfx: post.gfx,
        v: post.v,
        draw: post.draw,
        pc: pre.pc2(),
        ..pre
    })
    &&& grid_wf(post.gfx@)
    &&& forall|gx: int, gy: int|
        0 <= gx < GFX_W as int && 0 <= gy < GFX_H as int ==> #[trigger] post.pix(gx, gy) == (
        pre.pix(gx, gy) != draw_hit(pre, gx, gy))
    &&& post.v@ == pre.v@.update(
        15,
        if draw_collision(pre) {
            1u8
        } else {
            0u8
        },
    )
    &&& post.draw == (pre.draw || draw_lit(pre))
}

/// Before any sprite pixel is processed, nothing has been hit.
proof fn lemma_draw_start(e: Emu, gx: int, gy: int)
    ensures
        !hit_before(e, 0, 0, gx, gy),
        !col_before(e, 0, 0),
        !lit_before(e, 0, 0),
{
}

/// Processing one more sprite pixel extends the hit, collision and lit
/// predicates by exactly that pixel's contribution.
proof fn lemma_draw_step(e: Emu, r: int, c: int, gx: int, gy: int)
    requires
        0 <= r < e.sprite_h(),
        0 <= c < e.sprite_w(),
    ensures
        hit_before(e, r, c + 1, gx, gy) == (hit_before(e, r, c, gx, gy) || (e.sprite_bit(r, c)
            && e.tgt_x(c) == gx && e.tgt_y(r) == gy)),
        col_before(e, r, c + 1) == (col_before(e, r, c) || (e.sprite_bit(r, c) && e.pix(
            e.tgt_x(c),
            e.tgt_y(r),
        ))),
        lit_before(e, r, c + 1) == (lit_before(e, r, c) || (e.sprite_bit(r, c) && !e.pix(
            e.tgt_x(c),
            e.tgt_y(r),
        ))),
{
    if hit_before(e, r, c + 1, gx, gy) {
        let (row, xo) = choose|row: int, xo: int|
            {
                &&& 0 <= row < e.sprite_h()
                &&& 0 <= xo < e.sprite_w()
                &&& row < r || (row == r && xo < c + 1)
                &&& e.tgt_x(xo) == gx
                &&& e.tgt_y(row) == gy
                &&& #[trigger] e.sprite_bit(row, xo)
            };
        if !(row == r && xo == c) {
            assert(hit_before(e, r, c, gx, gy));
        }
    }
    if col_before(e, r, c + 1) {
        let (row, xo) = choose|row: int, xo: int|
            {
                &&& 0 <= row < e.sprite_h()
                &&& 0 <= xo < e.sprite_w()
                &&& row < r || (row == r && xo < c + 1)
                &&& e.pix(e.tgt_x(xo), e.tgt_y(row))
                &&& #[trigger] e.sprite_bit(row, xo)
            };
        if !(row == r && xo == c) {
            assert(col_before(e, r, c));
        }
    }
    if lit_before(e, r, c + 1) {
        let (row, xo) = choose|row: int, xo: int|
            {
                &&& 0 <= row < e.sprite_h()
                &&& 0 <= xo < e.sprite_w()
                &&& row < r || (row == r && xo < c + 1)
                &&& !e.pix(e.tgt_x(xo), e.tgt_y(row))
                &&& #[trigger] e.sprite_bit(row, xo)
            };
        if !(row == r && xo == c) {
            assert(lit_before(e, r, c));
        }
    }
}

/// Finishing a row is the same as standing at the start of the next one.
proof fn lemma_draw_row(e: Emu, r: int, gx: int, gy: int)
    requires
        0 <= r < e.sprite_h(),
    ensures
        hit_before(e, r, e.sprite_w(), gx, gy) == hit_before(e, r + 1, 0, gx, gy),
        col_before(e, r, e.sprite_w()) == col_before(e, r + 1, 0),
        lit_before(e, r, e.sprite_w()) == lit_before(e, r + 1, 0),
{
}

/// No sprite pixel that comes earlier in scan order lands on the screen
/// position of the pixel at row `r`, column offset `c`: within one draw the
/// target mapping is injective, because the sprite is smaller than the
/// screen rectangle in both directions.
proof fn lemma_no_double_hit(e: Emu, r: int, c: int)
    requires
        e.wf(),
        0 <= r < e.sprite_h(),
        0 <= c < e.sprite_w(),
        e.sprite_w() <= e.scr_w(),
    ensures
        !hit_before(e, r, c, e.tgt_x(c), e.tgt_y(r)),
{
    assert forall|row: int, xo: int|
        0 <= row < e.sprite_h() && 0 <= xo < e.sprite_w() && (row < r || (row == r && xo < c))
            implies !(e.tgt_x(xo) == e.tgt_x(c) && e.tgt_y(row) == e.tgt_y(r)) by {
        if row < r {
            lemma_mod_distinct(e.scr_h(), e.v@[op_y(e.opcode)] as int, row, r);
        } else {
            lemma_mod_distinct(e.scr_w(), e.v@[op_x(e.opcode)] as int, xo, c);
        }
    }
}

impl Emu {
    /// Draw a sprite of width 8 (or 16 in SUPER mode when `n` is zero) and
    /// height `n` (or 16 when `n` is zero) from RAM at the index register,
    /// XOR-blitted at `(v[x], v[y])` with toroidal wrapping.
    pub fn execute_opcode_dxyn(&mut self)
        requires
            old(self).wf(),
        ensures
            final(self).wf(),
            rel_dxyn(*old(self), *final(self)),
    {
        let ghost pre = *self;
        let x = self.x_reg();
        let y = self.y_reg();
        let n = self.n_val();
        let sx = self.v[x] as usize;
        let sy = self.v[y] as usize;
        let w: usize = if n == 0 && self.mode == Mode::SUPER {
            16
        } else {
            8
        };
        let h: usize = if n == 0 {
            16
        } else {
            n
        };
        let bpr: usize = w / 8;
        let width = self.width();
        let height = self.height();
        let idx = self.ram_idx as usize;
        let mut collision = false;
        let mut lit = false;
        let mut row: usize = 0;
        proof {
            assert forall|gx: int, gy: int|
                0 <= gx < GFX_W as int && 0 <= gy < GFX_H as int implies #[trigger] self.pix(
                gx,
                gy,
            ) == (pre.pix(gx, gy) != hit_before(pre, 0, 0, gx, gy)) by {
                lemma_draw_start(pre, gx, gy);
            }
            lemma_draw_start(pre, 0, 0);
        }
        while row < h
            invariant
                pre.wf(),
                *self == (Emu { gfx: self.gfx, ..pre }),
                grid_wf(self.gfx@),
                row <= h,
                h == pre.sprite_h(),
                w == pre.sprite_w(),
                bpr == w / 8,
                width == pre.scr_w(),
                height == pre.scr_h(),
                idx == pre.ram_idx,
                sx == pre.v@[op_x(pre.opcode)],
                sy == pre.v@[op_y(pre.opcode)],
                forall|gx: int, gy: int|
                    0 <= gx < GFX_W as int && 0 <= gy < GFX_H as int ==> #[trigger] self.pix(
                        gx,
                        gy,
                    ) == (pre.pix(gx, gy) != hit_before(pre, row as int, 0, gx, gy)),
                collision == col_before(pre, row as int, 0),
                lit == lit_before(pre, row as int, 0),
            decreases h - row,
        {
            proof {
                assert(row * bpr <= 32) by (nonlinear_arith)
                    requires
                        0 <= row <= 16,
                        0 <= bpr <= 2,
                ;
            }
            let row_base = (idx + row * bpr) % RAM_SIZE;
            let mut xo: usize = 0;
            while xo < w
                invariant
                    pre.wf(),
                    *self == (Emu { gfx: self.gfx, ..pre }),
                    grid_wf(self.gfx@),
                    row < h,
                    xo <= w,
                    h == pre.sprite_h(),
                    w == pre.sprite_w(),
                    width == pre.scr_w(),
                    height == pre.scr_h(),
                    sx == pre.v@[op_x(pre.opcode)],
                    sy == pre.v@[op_y(pre.opcode)],
                    idx == pre.ram_idx,
                    bpr == w / 8,
                    row_base == (idx + row * bpr) % RAM_SIZE as int,
                    forall|gx: int, gy: int|
                        0 <= gx < GFX_W as int && 0 <= gy < GFX_H as int ==> #[trigger] self.pix(
                            gx,
                            gy,
                        ) == (pre.pix(gx, gy) != hit_before(pre, row as int, xo as int, gx, gy)),
                    collision == col_before(pre, row as int, xo as int),
                    lit == lit_before(pre, row as int, xo as int),
                decreases w - xo,
            {
                let ghost at_head = *self;
                let byte = self.ram[(row_base + xo / 8) % RAM_SIZE];
                let sh: u8 = (xo % 8) as u8;
                let mask: u8 = 0x80u8 >> sh;
                let bit = byte & mask != 0;
                proof {
                    vstd::arithmetic::div_mod::lemma_add_mod_noop(
                        idx + row * bpr,
                        xo as int / 8,
                        RAM_SIZE as int,
                    );
                    vstd::arithmetic::div_mod::lemma_small_mod(
                        (xo as int / 8) as nat,
                        RAM_SIZE as nat,
                    );
                    assert((row_base + xo / 8) % RAM_SIZE as int == (idx + row * bpr
                        + xo as int / 8) % RAM_SIZE as int);
                    assert(byte == pre.sprite_byte(row as int, xo as int / 8));
                    assert(bit == pre.sprite_bit(row as int, xo as int));
                }
                if bit {
                    let gx = (sx + xo) % width;
                    let gy = (sy + row) % height;
                    proof {
                        assert(gx as int == pre.tgt_x(xo as int));
                        assert(gy as int == pre.tgt_y(row as int));
                        lemma_no_double_hit(pre, row as int, xo as int);
                    }
                    let cur = get_pix(&self.gfx, gx, gy);
                    proof {
                        assert(cur == self.pix(gx as int, gy as int));
                        assert(cur == pre.pix(gx as int, gy as int));
                    }
                    set_pix(&mut self.gfx, gx, gy, !cur);
                    proof {
                        assert(self.pix(gx as int, gy as int) == !cur);
                    }
                    if !cur {
                        lit = true;
                    } else {
                        collision = true;
                    }
                }
                proof {
                    assert forall|gx: int, gy: int|
                        0 <= gx < GFX_W as int && 0 <= gy < GFX_H as int implies #[trigger] self.pix(
                        gx,
                        gy,
                    ) == (pre.pix(gx, gy) != hit_before(pre, row as int, xo as int + 1, gx, gy)) by {
                        lemma_draw_step(pre, row as int, xo as int, gx, gy);
                        assert(at_head.pix(gx, gy) == (pre.pix(gx, gy) != hit_before(
                            pre,
                            row as int,
                            xo as int,
                            gx,
                            gy,
                        )));
                        if bit && gx == pre.tgt_x(xo as int) && gy == pre.tgt_y(row as int) {
                            assert(self.pix(gx, gy) == !at_head.pix(gx, gy));
                        } else {
                            assert(self.pix(gx, gy) == at_head.pix(gx, gy));
                        }
                    }
                    lemma_draw_step(pre, row as int, xo as int, 0, 0);
                }
                xo += 1;
            }
            proof {
                assert forall|gx: int, gy: int|
                    0 <= gx < GFX_W as int && 0 <= gy < GFX_H as int implies #[trigger] self.pix(
                    gx,
                    gy,
                ) == (pre.pix(gx, gy) != hit_before(pre, row as int + 1, 0, gx, gy)) by {
                    lemma_draw_row(pre, row as int, gx, gy);
                }
                lemma_draw_row(pre, row as int, 0, 0);
            }
            row += 1;
        }
        let ghost done = *self;
        self.v.set(
            15,
            if collision {
                1
            } else {
                0
            },
        );
        if lit {
            self.draw = true;
        }
        self.advance_pc();
        proof {
            assert forall|gx: int, gy: int|
                0 <= gx < GFX_W as int && 0 <= gy < GFX_H as int implies #[trigger] self.pix(
                gx,
                gy,
            ) == (pre.pix(gx, gy) != draw_hit(pre, gx, gy)) by {
                assert(done.pix(gx, gy) == (pre.pix(gx, gy) != hit_before(
                    pre,
                    pre.sprite_h(),
                    0,
                    gx,
                    gy,
                )));
                assert(self.pix(gx, gy) == done.pix(gx, gy));
            }
        }
    }
}

/// Read one pixel of a frame buffer.
fn get_pix(g: &Vec<Vec<bool>>, x: usize, y: usize) -> (b: bool)
    requires
        grid_wf(g@),
        x < GFX_W,
        y < GFX_H,
    ensures
        b == g@[x as int]@[y as int],
{
    g[x][y]
}

/// Write one pixel of a frame buffer, leaving every other pixel as it was.
fn set_pix(g: &mut Vec<Vec<bool>>, x: usize, y: usize, b: bool)
    requires
        grid_wf(old(g)@),
        x < GFX_W,
        y < GFX_H,
    ensures
        grid_wf(final(g)@),
        final(g)@[x as int]@[y as int] == b,
        forall|i: int, j: int|
            0 <= i < GFX_W as int && 0 <= j < GFX_H as int && !(i == x as int && j == y as int)
                ==> final(g)@[i]@[j] == old(g)@[i]@[j],
{
    let col = &mut g[x];
    col.set(y, b);
}


/// The instruction word at the program counter: two consecutive RAM bytes
/// combined big-endian, the second address wrapping modulo `RAM_SIZE`.
pub open spec fn fetched(pre: Emu) -> u16 {
    (pre.ram@[pre.pc as int] * 256 + pre.ram@[(pre.pc + 1) % RAM_SIZE as int]) as u16
}

/// Combining two bytes big-endian is multiplication and addition.
proof fn lemma_fetch_combine(h: u8, l: u8)
    by (bit_vector)
    ensures
        ((h as u16) << 8 | (l as u16)) == h as int * 256 + l as int,
{
}

/// Whether an instruction word matches some known opcode pattern, exactly
/// as the dispatch tests it.
pub open spec fn known_opcode(op: u16) -> bool {
    let hi = op_hi(op);
    let n = op_n(op);
    let nn = op_nn(op);
    if hi == 0x0 {
        ||| op_y(op) == 0xc
        ||| nn == 0xe0
        ||| nn == 0xee
        ||| nn == 0xfb
        ||| nn == 0xfc
        ||| nn == 0xfd
        ||| nn == 0xfe
        ||| nn == 0xff
    } else if hi == 0x5 {
        n == 0
    } else if hi == 0x8 {
        n <= 7 || n == 0xe
    } else if hi == 0xe {
        n == 0xe || n == 0x1
    } else if hi == 0xf {
        ||| nn == 0x07
        ||| nn == 0x0a
        ||| nn == 0x15
        ||| nn == 0x18
        ||| nn == 0x1e
        ||| nn == 0x29
        ||| nn == 0x30
        ||| nn == 0x33
        ||| nn == 0x55
        ||| nn == 0x65
        ||| nn == 0x75
        ||| nn == 0x85
    } else {
        true
    }
}

/// The one-instruction transition relation: which opcode relation connects
/// the state before decoding `pre.opcode` to the state after executing it.
/// Meaningful only when `known_opcode(pre.opcode)` holds.
pub open spec fn step(pre: Emu, post: Emu) -> bool {
    let op = pre.opcode;
    let hi = op_hi(op);
    let n = op_n(op);
    let nn = op_nn(op);
    if hi == 0x0 {
        if op_y(op) == 0xc {
            rel_00cn(pre, post)
        } else if nn == 0xe0 {
            rel_00e0(pre, post)
        } else if nn == 0xee {
            rel_00ee(pre, post)
        } else if nn == 0xfb {
            rel_00fb(pre, post)
        } else if nn == 0xfc {
            rel_00fc(pre, post)
        } else if nn == 0xfd {
            rel_00fd(pre, post)
        } else if nn == 0xfe {
            rel_00fe(pre, post)
        } else {
            rel_00ff(pre, post)
        }
    } else if hi == 0x1 {
        rel_1nnn(pre, post)
    } else if hi == 0x2 {
        rel_2nnn(pre, post)
    } else if hi == 0x3 {
        rel_3xnn(pre, post)
    } else if hi == 0x4 {
        rel_4xnn(pre, post)
    } else if hi == 0x5 {
        rel_5xy0(pre, post)
    } else if hi == 0x6 {
        rel_6xnn(pre, post)
    } else if hi == 0x7 {
        rel_7xnn(pre, post)
    } else if hi == 0x8 {
        if n == 0x0 {
            rel_8xy0(pre, post)
        } else if n == 0x1 {
            rel_8xy1(pre, post)
        } else if n == 0x2 {
            rel_8xy2(pre, post)
        } else if n == 0x3 {
            rel_8xy3(pre, post)
        } else if n == 0x4 {
            rel_8xy4(pre, post)
        } else if n == 0x5 {
            rel_8xy5(pre, post)
        } else if n == 0x6 {
            rel_8xy6(pre, post)
        } else if n == 0x7 {
            rel_8xy7(pre, post)
        } else {
            rel_8xye(pre, post)
        }
    } else if hi == 0x9 {
        rel_9xy0(pre, post)
    } else if hi == 0xa {
        rel_annn(pre, post)
    } else if hi == 0xb {
        rel_bnnn(pre, post)
    } else if hi == 0xc {
        rel_cxnn(pre, post)
    } else if hi == 0xd {
        rel_dxyn(pre, post)
    } else if hi == 0xe {
        if n == 0xe {
            rel_ex9e(pre, post)
        } else {
            rel_exa1(pre, post)
        }
    } else {
        if nn == 0x07 {
            rel_fx07(pre, post)
        } else if nn == 0x0a {
            rel_fx0a(pre, post)
        } else if nn == 0x15 {
            rel_fx15(pre, post)
        } else if nn == 0x18 {
            rel_fx18(pre, post)
        } else if nn == 0x1e {
            rel_fx1e(pre, post)
        } else if nn == 0x29 {
            rel_fx29(pre, post)
        } else if nn == 0x30 {
            rel_fx30(pre, post)
        } else if nn == 0x33 {
            rel_fx33(pre, post)
        } else if nn == 0x55 {
            rel_fx55(pre, post)
        } else if nn == 0x65 {
            rel_fx65(pre, post)
        } else if nn == 0x75 {
            rel_fx75(pre, post)
        } else {
            rel_fx85(pre, post)
        }
    }
}

impl Emu {
    /// Fetch the instruction word at the program counter: the high byte
    /// first, big-endian, as every opcode demands.
    pub fn fetch_opcode(&mut self)
        requires
            old(self).wf(),
        ensures
            final(self).wf(),
            *final(self) == (Emu { opcode: fetched(*old(self)), ..*old(self) }),
    {
        let hbyte = self.ram[self.pc as usize];
        let lbyte = self.ram[(self.pc as usize + 1) % RAM_SIZE];
        proof {
            lemma_fetch_combine(hbyte, lbyte);
        }
        self.opcode = (hbyte as u16) << 8 | (lbyte as u16);
    }

    /// The fault reported for an instruction word that matches no known
    /// pattern, identifying the word and the address it was fetched from.
    pub fn unknown_opcode(&self) -> (f: EmuFault)
        ensures
            f == (EmuFault::UnknownOpcode { opcode: self.opcode, addr: self.pc }),
    {
        EmuFault::UnknownOpcode { opcode: self.opcode, addr: self.pc }
    }

    /// Dispatch the current opcode: on a known pattern the matching opcode
    /// relation connects the old and new states; an unknown pattern leaves
    /// the state untouched and reports the fault.
    pub fn decode_and_execute_opcode(&mut self) -> (r: Result<(), EmuFault>)
        requires
            old(self).wf(),
        ensures
            final(self).wf(),
            r is Ok <==> known_opcode(old(self).opcode),
            known_opcode(old(self).opcode) ==> step(*old(self), *final(self)),
            !known_opcode(old(self).opcode) ==> {
                &&& *final(self) == *old(self)
                &&& r == Err::<(), EmuFault>(EmuFault::UnknownOpcode {
                    opcode: old(self).opcode,
                    addr: old(self).pc,
                })
            },
    {
        proof {
            lemma_op_fields(self.opcode);
        }
        match self.opcode & 0xf000 {
            0x0000 => match self.opcode & 0x00f0 {
                0x00c0 => {
                    self.execute_opcode_00cn();
                    Ok(())
                },
                _ => match self.opcode & 0x00ff {
                    0x00e0 => {
                        self.execute_opcode_00e0();
                        Ok(())
                    },
                    0x00ee => {
                        self.execute_opcode_00ee();
                        Ok(())
                    },
                    0x00fb => {
                        self.execute_opcode_00fb();
                        Ok(())
                    },
                    0x00fc => {
                        self.execute_opcode_00fc();
                        Ok(())
                    },
                    0x00fd => {
                        self.execute_opcode_00fd();
                        Ok(())
                    },
                    0x00fe => {
                        self.execute_opcode_00fe();
                        Ok(())
                    },
                    0x00ff => {
                        self.execute_opcode_00ff();
                        Ok(())
                    },
                    _ => Err(self.unknown_opcode()),
                },
            },
            0x1000 => {
                self.execute_opcode_1nnn();
                Ok(())
            },
            0x2000 => {
                self.execute_opcode_2nnn();
                Ok(())
            },
            0x3000 => {
                self.execute_opcode_3xnn();
                Ok(())
            },
            0x4000 => {
                self.execute_opcode_4xnn();
                Ok(())
            },
            0x5000 => match self.opcode & 0x000f {
                0x0000 => {
                    self.execute_opcode_5xy0();
                    Ok(())
                },
                _ => Err(self.unknown_opcode()),
            },
            0x6000 => {
                self.execute_opcode_6xnn();
                Ok(())
            },
            0x7000 => {
                self.execute_opcode_7xnn();
                Ok(())
            },
            0x8000 => match self.opcode & 0x000f {
                0x0000 => {
                    self.execute_opcode_8xy0();
                    Ok(())
                },
                0x0001 => {
                    self.execute_opcode_8xy1();
                    Ok(())
                },
                0x0002 => {
                    self.execute_opcode_8xy2();
                    Ok(())
                },
                0x0003 => {
                    self.execute_opcode_8xy3();
                    Ok(())
                },
                0x0004 => {
                    self.execute_opcode_8xy4();
                    Ok(())
                },
                0x0005 => {
                    self.execute_opcode_8xy5();
                    Ok(())
                },
                0x0006 => {
                    self.execute_opcode_8xy6();
                    Ok(())
                },
                0x0007 => {
                    self.execute_opcode_8xy7();
                    Ok(())
                },
                0x000e => {
                    self.execute_opcode_8xye();
                    Ok(())
                },
                _ => Err(self.unknown_opcode()),
            },
            0x9000 => {
                self.execute_opcode_9xy0();
                Ok(())
            },
            0xa000 => {
                self.execute_opcode_annn();
                Ok(())
            },
            0xb000 => {
                self.execute_opcode_bnnn();
                Ok(())
            },
            0xc000 => {
                self.execute_opcode_cxnn();
                Ok(())
            },
            0xd000 => {
                self.execute_opcode_dxyn();
                Ok(())
            },
            0xe000 => match self.opcode & 0x000f {
                0x000e => {
                    self.execute_opcode_ex9e();
                    Ok(())
                },
                0x0001 => {
                    self.execute_opcode_exa1();
                    Ok(())
                },
                _ => Err(self.unknown_opcode()),
            },
            0xf000 => match self.opcode & 0x00ff {
                0x0007 => {
                    self.execute_opcode_fx07();
                    Ok(())
                },
                0x000a => {
                    self.execute_opcode_fx0a();
                    Ok(())
                },
                0x0015 => {
                    self.execute_opcode_fx15();
                    Ok(())
                },
                0x0018 => {
                    self.execute_opcode_fx18();
                    Ok(())
                },
                0x001e => {
                    self.execute_opcode_fx1e();
                    Ok(())
                },
                0x0029 => {
                    self.execute_opcode_fx29();
                    Ok(())
                },
                0x0030 => {
                    self.execute_opcode_fx30();
                    Ok(())
                },
                0x0033 => {
                    self.execute_opcode_fx33();
                    Ok(())
                },
                0x0055 => {
                    self.execute_opcode_fx55();
                    Ok(())
                },
                0x0065 => {
                    self.execute_opcode_fx65();
                    Ok(())
                },
                0x0075 => {
                    self.execute_opcode_fx75();
                    Ok(())
                },
                0x0085 => {
                    self.execute_opcode_fx85();
                    Ok(())
                },
                _ => Err(self.unknown_opcode()),
            },
            _ => Err(self.unknown_opcode()),
        }
    }

    /// One fetch-decode-execute cycle. The program counter stays inside the
    /// 12-bit address space whatever instruction ran.
    pub fn execute_cycle(&mut self) -> (r: Result<(), EmuFault>)
        requires
            old(self).wf(),
        ensures
            final(self).wf(),
            final(self).pc <= 0xfff,
            r is Ok <==> known_opcode(fetched(*old(self))),
            known_opcode(fetched(*old(self))) ==> step(
                (Emu { opcode: fetched(*old(self)), ..*old(self) }),
                *final(self),
            ),
            !known_opcode(fetched(*old(self))) ==> {
                &&& *final(self) == (Emu { opcode: fetched(*old(self)), ..*old(self) })
                &&& r == Err::<(), EmuFault>(EmuFault::UnknownOpcode {
                    opcode: fetched(*old(self)),
                    addr: old(self).pc,
                })
            },
    {
        self.fetch_opcode();
        self.decode_and_execute_opcode()
    }
}

} // verus!
