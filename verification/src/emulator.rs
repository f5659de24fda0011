use vstd::prelude::*;

use crate::error::EmulatorError;
use crate::opcode::{decode, spec_decode, wf_op, OpCode};
use crate::platform::Platform;
use crate::registers::{Reg, Registers, LOAD_ADDR, REG_COUNT};
use crate::{DISPLAY_HEIGHT, DISPLAY_WIDTH};
use rand::Rng;
use std::io::Write;

verus! {

/// Bytes of addressable memory.
pub const MEM_SIZE: usize = 4096;

/// Capacity hint for the return-address stack, the original hardware
/// convention.
pub const STACK_COUNT: usize = 12;

/// First address of the built-in font region.
pub const FONT_SET_START_ADDR: u16 = 0x050;

/// One past the last address of the built-in font region.
pub const FONT_SET_END_ADDR: u16 = 0x0A0;

/// Number of pixels in the frame buffer.
pub const VRAM_SIZE: usize = DISPLAY_WIDTH * DISPLAY_HEIGHT;

/// The built-in glyph bitmaps: five bytes per hexadecimal digit, sixteen
/// glyphs, eighty bytes in all.
pub open spec fn spec_font() -> Seq<u8> {
    seq![
        0xF0u8, 0x90, 0x90, 0x90, 0xF0,
        0x20, 0x60, 0x20, 0x20, 0x70,
        0xF0, 0x10, 0xF0, 0x80, 0xF0,
        0xF0, 0x10, 0xF0, 0x10, 0xF0,
        0x90, 0x90, 0xF0, 0x10, 0x10,
        0xF0, 0x80, 0xF0, 0x10, 0xF0,
        0xF0, 0x80, 0xF0, 0x90, 0xF0,
        0xF0, 0x10, 0x20, 0x40, 0x40,
        0xF0, 0x90, 0xF0, 0x90, 0xF0,
        0xF0, 0x90, 0xF0, 0x10, 0xF0,
        0xF0, 0x90, 0xF0, 0x90, 0x90,
        0xE0, 0x90, 0xE0, 0x90, 0xE0,
        0xF0, 0x80, 0x80, 0x80, 0xF0,
        0xE0, 0x90, 0x90, 0x90, 0xE0,
        0xF0, 0x80, 0xF0, 0x80, 0xF0,
        0xF0, 0x80, 0xF0, 0x80, 0x80,
    ]
}

/// The built-in glyph bitmaps as an executable table.
fn font_table() -> (t: [u8; 80])
    ensures
        t@ == spec_font(),
{
    let t: [u8; 80] = [
        0xF0u8, 0x90, 0x90, 0x90, 0xF0, // 0
        0x20, 0x60, 0x20, 0x20, 0x70, // 1
        0xF0, 0x10, 0xF0, 0x80, 0xF0, // 2
        0xF0, 0x10, 0xF0, 0x10, 0xF0, // 3
        0x90, 0x90, 0xF0, 0x10, 0x10, // 4
        0xF0, 0x80, 0xF0, 0x10, 0xF0, // 5
        0xF0, 0x80, 0xF0, 0x90, 0xF0, // 6
        0xF0, 0x10, 0x20, 0x40, 0x40, // 7
        0xF0, 0x90, 0xF0, 0x90, 0xF0, // 8
        0xF0, 0x90, 0xF0, 0x10, 0xF0, // 9
        0xF0, 0x90, 0xF0, 0x90, 0x90, // A
        0xE0, 0x90, 0xE0, 0x90, 0xE0, // B
        0xF0, 0x80, 0x80, 0x80, 0xF0, // C
        0xE0, 0x90, 0x90, 0x90, 0xE0, // D
        0xF0, 0x80, 0xF0, 0x80, 0xF0, // E
        0xF0, 0x80, 0xF0, 0x80, 0x80, // F
    ];
    proof {
        assert(t@ =~= spec_font());
    }
    t
}

/// Mathematical content of the whole machine: memory, register file,
/// return-address stack, frame buffer, the redraw-pending flag and the two
/// behavioral switches.
#[verifier::ext_equal]
pub ghost struct MachineState {
    /// The 4096 bytes of memory.
    pub mem: Seq<u8>,
    /// The eighteen 8-bit register slots (sixteen general, delay timer,
    /// sound timer).
    pub regs: Seq<u8>,
    /// The program counter.
    pub pc: u16,
    /// The index register.
    pub i: u16,
    /// The return-address stack, oldest entry first.
    pub stack: Seq<u16>,
    /// The 64 by 32 pixel grid, row-major.
    pub vram: Seq<bool>,
    /// Whether the frame buffer changed since the last render.
    pub draw_flag: bool,
    /// Whether the block register store and load instructions advance the
    /// index register afterwards (a historical compatibility choice).
    pub advance_index_on_block: bool,
    /// Whether single-step debugging is on.
    pub debug: bool,
}

/// Memory as the execution engine first sees it: zero everywhere, except
/// the font region and the program image loaded at the load address.
pub open spec fn spec_initial_mem(rom: Seq<u8>) -> Seq<u8> {
    Seq::new(
        MEM_SIZE as nat,
        |a: int|
            if FONT_SET_START_ADDR <= a < FONT_SET_END_ADDR {
                spec_font()[a - FONT_SET_START_ADDR]
            } else if LOAD_ADDR <= a < LOAD_ADDR + rom.len() {
                rom[a - LOAD_ADDR]
            } else {
                0u8
            },
    )
}

/// The whole machine as the execution engine first sees it.
pub open spec fn spec_initial_state(rom: Seq<u8>, debug: bool) -> MachineState {
    MachineState {
        mem: spec_initial_mem(rom),
        regs: Seq::new(REG_COUNT as nat, |k: int| 0u8),
        pc: LOAD_ADDR,
        i: 0,
        stack: Seq::<u16>::empty(),
        vram: Seq::new(VRAM_SIZE as nat, |p: int| false),
        draw_flag: false,
        advance_index_on_block: true,
        debug,
    }
}

/// The execution engine: owns the register file, memory, return-address
/// stack and frame buffer, and runs the fetch-decode-execute cycle against
/// a capability port.
pub struct Emulator<P: Platform> {
    platform: P,
    memory: Vec<u8>,
    /// The register file.
    pub registers: Registers,
    stacks: Vec<u16>,
    vram: Vec<bool>,
    draw_flag: bool,
    advance_index_on_block: bool,
    debug: bool,
}

impl<P: Platform> View for Emulator<P> {
    type V = MachineState;

    closed spec fn view(&self) -> MachineState {
        MachineState {
            mem: self.memory@,
            regs: self.registers@.v,
            pc: self.registers@.pc,
            i: self.registers@.i,
            stack: self.stacks@,
            vram: self.vram@,
            draw_flag: self.draw_flag,
            advance_index_on_block: self.advance_index_on_block,
            debug: self.debug,
        }
    }
}

impl<P: Platform> Emulator<P> {
    /// Memory, register file and frame buffer have their fixed sizes.
    pub open spec fn wf(self) -> bool {
        &&& self@.mem.len() == MEM_SIZE
        &&& self@.regs.len() == REG_COUNT
        &&& self@.vram.len() == VRAM_SIZE
    }

    /// Build an engine over a loaded program image and a capability port.
    /// Fails, before any cycle runs, exactly when the image does not fit
    /// between the load address and the top of memory.
    pub fn new(rom: Vec<u8>, platform: P, debug: bool) -> (r: Result<Emulator<P>, EmulatorError>)
        ensures
            match r {
                Ok(em) => rom@.len() <= MEM_SIZE - (LOAD_ADDR as usize) && em.wf() && em@
                    == spec_initial_state(rom@, debug),
                Err(e) => rom@.len() > MEM_SIZE - (LOAD_ADDR as usize) && e
                    == EmulatorError::RomTooLarge,
            },
    {
        if rom.len() > MEM_SIZE - (LOAD_ADDR as usize) {
            return Err(EmulatorError::RomTooLarge);
        }
        let mut memory: Vec<u8> = Vec::new();
        let mut k: usize = 0;
        while k < MEM_SIZE
            invariant
                k <= MEM_SIZE,
                memory@.len() == k,
                forall|j: int| 0 <= j < k ==> memory@[j] == 0u8,
            decreases MEM_SIZE - k,
        {
            memory.push(0);
            k += 1;
        }
        let mut vram: Vec<bool> = Vec::new();
        let mut p: usize = 0;
        while p < VRAM_SIZE
            invariant
                p <= VRAM_SIZE,
                vram@.len() == p,
                forall|j: int| 0 <= j < p ==> !vram@[j],
            decreases VRAM_SIZE - p,
        {
            vram.push(false);
            p += 1;
        }
        let mut emulator = Emulator {
            platform,
            memory,
            registers: Registers::new(),
            stacks: Vec::with_capacity(STACK_COUNT),
            vram,
            draw_flag: false,
            advance_index_on_block: true,
            debug,
        };
        emulator.load_font();
        emulator.load_rom(&rom);
        proof {
            assert(emulator@.mem =~= spec_initial_mem(rom@));
            assert(emulator@.regs =~= spec_initial_state(rom@, debug).regs);
            assert(emulator@.vram =~= spec_initial_state(rom@, debug).vram);
            assert(emulator@.stack =~= Seq::<u16>::empty());
            assert(emulator@ =~= spec_initial_state(rom@, debug));
        }
        Ok(emulator)
    }

    /// Copy the built-in glyph font into its reserved memory region. The
    /// region is written here, at construction, and never mutated again.
    fn load_font(&mut self)
        requires
            old(self).wf(),
        ensures
            final(self).wf(),
            final(self)@.mem.len() == old(self)@.mem.len(),
            forall|a: int|
                FONT_SET_START_ADDR <= a < FONT_SET_END_ADDR ==> final(self)@.mem[a]
                    == spec_font()[a - FONT_SET_START_ADDR],
            forall|a: int|
                0 <= a < MEM_SIZE && !(FONT_SET_START_ADDR <= a < FONT_SET_END_ADDR)
                    ==> final(self)@.mem[a] == old(self)@.mem[a],
            (final(self)@ == MachineState { mem: final(self)@.mem, ..old(self)@ }),
    {
        let font = font_table();
        let mut k: usize = 0;
        while k < 80
            invariant
                old(self).wf(),
                self.wf(),
                k <= 80,
                font@ == spec_font(),
                forall|a: int|
                    0x50 <= a < 0x50 + k ==> self@.mem[a] == spec_font()[a - 0x50],
                forall|a: int|
                    0 <= a < MEM_SIZE && !(0x50 <= a < 0x50 + k) ==> self@.mem[a] == old(self)@.mem[a],
                (self@ == MachineState { mem: self@.mem, ..old(self)@ }),
            decreases 80 - k,
        {
            self.memory[0x50 + k] = font[k];
            k += 1;
        }
    }

    /// Copy the program image into memory, starting at the load address.
    fn load_rom(&mut self, rom: &Vec<u8>)
        requires
            old(self).wf(),
            rom@.len() <= MEM_SIZE - (LOAD_ADDR as usize),
        ensures
            final(self).wf(),
            forall|a: int|
                LOAD_ADDR <= a < LOAD_ADDR + rom@.len() ==> final(self)@.mem[a] == rom@[a
                    - LOAD_ADDR],
            forall|a: int|
                0 <= a < MEM_SIZE && !(LOAD_ADDR <= a < LOAD_ADDR + rom@.len()) ==> final(self)@.mem[a] == old(self)@.mem[a],
            (final(self)@ == MachineState { mem: final(self)@.mem, ..old(self)@ }),
    {
        let mut idx: usize = 0;
        while idx < rom.len()
            invariant
                old(self).wf(),
                self.wf(),
                idx <= rom@.len(),
                rom@.len() <= MEM_SIZE - (LOAD_ADDR as usize),
                forall|a: int|
                    LOAD_ADDR <= a < LOAD_ADDR + idx ==> self@.mem[a] == rom@[a - LOAD_ADDR],
                forall|a: int|
                    0 <= a < MEM_SIZE && !(LOAD_ADDR <= a < LOAD_ADDR + idx) ==> self@.mem[a]
                        == old(self)@.mem[a],
                (self@ == MachineState { mem: self@.mem, ..old(self)@ }),
            decreases rom@.len() - idx,
        {
            self.memory[(LOAD_ADDR as usize) + idx] = rom[idx];
            idx += 1;
        }
    }

    /// Read one byte of memory.
    pub fn mem_byte(&self, addr: u16) -> (r: u8)
        requires
            self.wf(),
            addr < MEM_SIZE,
        ensures
            r == self@.mem[addr as int],
    {
        self.memory[addr as usize]
    }

    /// Read one pixel of the frame buffer.
    pub fn pixel(&self, x: usize, y: usize) -> (r: bool)
        requires
            self.wf(),
            x < DISPLAY_WIDTH,
            y < DISPLAY_HEIGHT,
        ensures
            r == self@.vram[y * DISPLAY_WIDTH + x],
    {
        self.vram[y * DISPLAY_WIDTH + x]
    }

    /// Number of return addresses on the stack.
    pub fn stack_len(&self) -> (r: usize)
        ensures
            r == self@.stack.len(),
    {
        self.stacks.len()
    }

    /// Whether the frame buffer changed since the last render.
    pub fn needs_redraw(&self) -> (r: bool)
        ensures
            r == self@.draw_flag,
    {
        self.draw_flag
    }

    /// Choose whether the block register store and load instructions
    /// advance the index register afterwards. Historical implementations
    /// disagree, and programs exist that depend on either behavior; the
    /// engine starts with the advancing behavior.
    pub fn set_advance_index_on_block(&mut self, on: bool)
        ensures
            (final(self)@ == MachineState { advance_index_on_block: on, ..old(self)@ }),
    {
        self.advance_index_on_block = on;
    }
}


/// One register slot replaced.
pub open spec fn set_reg(s: MachineState, r: Reg, v: u8) -> MachineState {
    MachineState { regs: s.regs.update(r.idx(), v), ..s }
}

/// The program counter moved past one more instruction: the skip applied
/// by the taken branch of a skip conditional.
pub open spec fn bump_pc(s: MachineState) -> MachineState {
    MachineState { pc: ((s.pc + 2) as u16), ..s }
}

/// Screen clear: every pixel unlit and a redraw pending.
pub open spec fn spec_clear(s: MachineState) -> MachineState {
    MachineState { vram: Seq::new(VRAM_SIZE as nat, |p: int| false), draw_flag: true, ..s }
}

/// Subroutine return: the program counter taken from the newest stack
/// entry.
pub open spec fn spec_ret(s: MachineState) -> MachineState {
    MachineState { pc: s.stack.last(), stack: s.stack.drop_last(), ..s }
}

/// Unconditional jump.
pub open spec fn spec_jump(s: MachineState, nnn: u16) -> MachineState {
    MachineState { pc: nnn, ..s }
}

/// Subroutine call: the instruction-after-call address pushed, then the
/// jump.
pub open spec fn spec_call(s: MachineState, nnn: u16) -> MachineState {
    MachineState { stack: s.stack.push(s.pc), pc: nnn, ..s }
}

/// Skip when the register equals the immediate.
pub open spec fn spec_skip_eq_imm(s: MachineState, x: Reg, nn: u8) -> MachineState {
    if s.regs[x.idx()] == nn {
        bump_pc(s)
    } else {
        s
    }
}

/// Skip when the register differs from the immediate.
pub open spec fn spec_skip_ne_imm(s: MachineState, x: Reg, nn: u8) -> MachineState {
    if s.regs[x.idx()] != nn {
        bump_pc(s)
    } else {
        s
    }
}

/// Skip when the two registers are equal.
pub open spec fn spec_skip_eq_reg(s: MachineState, x: Reg, y: Reg) -> MachineState {
    if s.regs[x.idx()] == s.regs[y.idx()] {
        bump_pc(s)
    } else {
        s
    }
}

/// Skip when the two registers differ.
pub open spec fn spec_skip_ne_reg(s: MachineState, x: Reg, y: Reg) -> MachineState {
    if s.regs[x.idx()] != s.regs[y.idx()] {
        bump_pc(s)
    } else {
        s
    }
}

/// Immediate load.
pub open spec fn spec_load_imm(s: MachineState, x: Reg, nn: u8) -> MachineState {
    set_reg(s, x, nn)
}

/// Immediate wrapping add; the flag register is not touched.
pub open spec fn spec_add_imm(s: MachineState, x: Reg, nn: u8) -> MachineState {
    set_reg(s, x, s.regs[x.idx()].wrapping_add(nn))
}

/// Register copy.
pub open spec fn spec_mov(s: MachineState, x: Reg, y: Reg) -> MachineState {
    set_reg(s, x, s.regs[y.idx()])
}

/// Bitwise OR.
pub open spec fn spec_or(s: MachineState, x: Reg, y: Reg) -> MachineState {
    set_reg(s, x, s.regs[x.idx()] | s.regs[y.idx()])
}

/// Bitwise AND.
pub open spec fn spec_and(s: MachineState, x: Reg, y: Reg) -> MachineState {
    set_reg(s, x, s.regs[x.idx()] & s.regs[y.idx()])
}

/// Bitwise XOR.
pub open spec fn spec_xor(s: MachineState, x: Reg, y: Reg) -> MachineState {
    set_reg(s, x, s.regs[x.idx()] ^ s.regs[y.idx()])
}

/// Wrapping add: X takes the wrapped sum, then the flag register takes the
/// carry-out (1 exactly when the true sum does not fit a byte).
pub open spec fn spec_add_reg(s: MachineState, x: Reg, y: Reg) -> MachineState {
    let vx = s.regs[x.idx()];
    let vy = s.regs[y.idx()];
    let carry: u8 = if vx + vy > 255 {
        1
    } else {
        0
    };
    set_reg(set_reg(s, x, vx.wrapping_add(vy)), Reg::VF, carry)
}

/// Subtract with borrow: X takes X minus Y wrapped, then the flag register
/// takes the no-borrow signal (1 exactly when no borrow occurred).
pub open spec fn spec_sub_reg(s: MachineState, x: Reg, y: Reg) -> MachineState {
    let vx = s.regs[x.idx()];
    let vy = s.regs[y.idx()];
    let no_borrow: u8 = if vx >= vy {
        1
    } else {
        0
    };
    set_reg(set_reg(s, x, vx.wrapping_sub(vy)), Reg::VF, no_borrow)
}

/// Shift right: the flag register takes the shifted-out low bit first,
/// then X is overwritten with the shifted value.
pub open spec fn spec_shr(s: MachineState, x: Reg) -> MachineState {
    let vx = s.regs[x.idx()];
    set_reg(set_reg(s, Reg::VF, vx & 0x1), x, vx >> 1)
}

/// Reverse subtract: X takes Y minus X wrapped, then the flag register
/// takes the no-borrow signal.
pub open spec fn spec_subn_reg(s: MachineState, x: Reg, y: Reg) -> MachineState {
    let vx = s.regs[x.idx()];
    let vy = s.regs[y.idx()];
    let no_borrow: u8 = if vy >= vx {
        1
    } else {
        0
    };
    set_reg(set_reg(s, x, vy.wrapping_sub(vx)), Reg::VF, no_borrow)
}

/// Shift left: the flag register takes the shifted-out high bit (0 or 1)
/// first, then X is overwritten with the shifted value.
pub open spec fn spec_shl(s: MachineState, x: Reg) -> MachineState {
    let vx = s.regs[x.idx()];
    set_reg(set_reg(s, Reg::VF, vx >> 7), x, (vx << 1) as u8)
}

/// Set the index register to an absolute address.
pub open spec fn spec_set_i(s: MachineState, nnn: u16) -> MachineState {
    MachineState { i: nnn, ..s }
}

/// Indexed jump: the address plus register V0.
pub open spec fn spec_jump_v0(s: MachineState, nnn: u16) -> MachineState {
    MachineState { pc: ((nnn + s.regs[0]) as u16), ..s }
}

/// Random byte masked by the immediate, stored in X.
pub open spec fn spec_rand(s: MachineState, x: Reg, mask: u8, b: u8) -> MachineState {
    set_reg(s, x, b & mask)
}

/// Key-state skip: skip exactly when the key's pressed state matches the
/// polarity of the instruction.
pub open spec fn spec_skip_key(s: MachineState, pressed: bool, want: bool) -> MachineState {
    if pressed == want {
        bump_pc(s)
    } else {
        s
    }
}

/// Copy the delay timer into X.
pub open spec fn spec_read_delay(s: MachineState, x: Reg) -> MachineState {
    set_reg(s, x, s.regs[Reg::DelayTimer.idx()])
}

/// The key handed back by a blocking wait, stored in X.
pub open spec fn spec_wait_key(s: MachineState, x: Reg, k: u8) -> MachineState {
    set_reg(s, x, k)
}

/// Copy X into the delay timer.
pub open spec fn spec_set_delay(s: MachineState, x: Reg) -> MachineState {
    set_reg(s, Reg::DelayTimer, s.regs[x.idx()])
}

/// Copy X into the sound timer.
pub open spec fn spec_set_sound(s: MachineState, x: Reg) -> MachineState {
    set_reg(s, Reg::SoundTimer, s.regs[x.idx()])
}

/// Wrapping-add X into the index register.
pub open spec fn spec_add_i(s: MachineState, x: Reg) -> MachineState {
    MachineState { i: s.i.wrapping_add(s.regs[x.idx()] as u16), ..s }
}

/// Point the index register at the five-byte glyph for X's value.
pub open spec fn spec_font_addr(s: MachineState, x: Reg) -> MachineState {
    MachineState { i: ((FONT_SET_START_ADDR + 5 * s.regs[x.idx()]) as u16), ..s }
}

/// Write the three decimal digits of X, hundreds first, to memory at the
/// index register.
pub open spec fn spec_bcd_write(s: MachineState, x: Reg) -> MachineState {
    let v = s.regs[x.idx()];
    let i = s.i as int;
    MachineState {
        mem: s.mem.update(i, crate::utils::spec_bcd(v)[0]).update(
            i + 1,
            crate::utils::spec_bcd(v)[1],
        ).update(i + 2, crate::utils::spec_bcd(v)[2]),
        ..s
    }
}

/// Where the index register stands after a block store or load: advanced
/// past the transferred bytes, or left alone, by the configured behavior.
pub open spec fn spec_index_after_block(s: MachineState, end: int) -> u16 {
    if s.advance_index_on_block {
        ((s.i + end + 1) as u16)
    } else {
        s.i
    }
}

/// Store registers V0 through X to memory at the index register.
pub open spec fn spec_store_regs(s: MachineState, x: Reg) -> MachineState {
    let i = s.i as int;
    let end = x.idx();
    MachineState {
        mem: Seq::new(
            s.mem.len(),
            |a: int|
                if i <= a <= i + end {
                    s.regs[a - i]
                } else {
                    s.mem[a]
                },
        ),
        i: spec_index_after_block(s, end),
        ..s
    }
}

/// Load registers V0 through X from memory at the index register.
pub open spec fn spec_load_regs(s: MachineState, x: Reg) -> MachineState {
    let i = s.i as int;
    let end = x.idx();
    MachineState {
        regs: Seq::new(
            s.regs.len(),
            |r: int|
                if 0 <= r <= end {
                    s.mem[i + r]
                } else {
                    s.regs[r]
                },
        ),
        i: spec_index_after_block(s, end),
        ..s
    }
}

/// Index of a pixel in the row-major frame buffer.
pub open spec fn pix_index(py: int, px: int) -> int {
    py * (DISPLAY_WIDTH as int) + px
}

/// Whether column `c` of a sprite row byte is lit (bit 7 is the leftmost
/// pixel).
pub open spec fn sprite_pixel_on(b: u8, c: int) -> bool {
    b & (0x80u8 >> (c as u8)) != 0
}

/// Whether the sprite being drawn flips pixel `p`: some lit sprite cell
/// lands there, with horizontal and vertical wraparound applied per pixel.
pub open spec fn draw_covers(s: MachineState, vx: u8, vy: u8, h: u8, p: int) -> bool {
    exists|r: int, c: int|
        0 <= r < h && 0 <= c < 8 && #[trigger] sprite_pixel_on(s.mem[s.i + r], c) && p
            == pix_index(
            (vy + r) % (DISPLAY_HEIGHT as int),
            (vx + c) % (DISPLAY_WIDTH as int),
        )
}

/// Whether the sprite being drawn lands on some already-lit pixel.
pub open spec fn draw_collides(s: MachineState, vx: u8, vy: u8, h: u8) -> bool {
    exists|r: int, c: int|
        0 <= r < h && 0 <= c < 8 && #[trigger] sprite_pixel_on(s.mem[s.i + r], c) && s.vram[
            pix_index(
                (vy + r) % (DISPLAY_HEIGHT as int),
                (vx + c) % (DISPLAY_WIDTH as int),
            )
        ]
}

/// Sprite draw: the sprite is XORed onto the frame buffer, the flag
/// register reports whether any previously-lit pixel was unset, and a
/// redraw is pending.
pub open spec fn spec_draw(s: MachineState, x: Reg, y: Reg, h: u8) -> MachineState {
    let vx = s.regs[x.idx()];
    let vy = s.regs[y.idx()];
    MachineState {
        vram: Seq::new(
            s.vram.len(),
            |p: int| s.vram[p] != draw_covers(s, vx, vy, h, p),
        ),
        regs: s.regs.update(
            Reg::VF.idx(),
            if draw_collides(s, vx, vy, h) {
                1u8
            } else {
                0u8
            },
        ),
        draw_flag: true,
        ..s
    }
}

/// What one dispatched instruction does to the machine: the exact
/// transition for every deterministic instruction, and for the random,
/// key-state and key-wait instructions what holds of every answer the
/// random source or the capability port can give.
pub open spec fn step_rel(
    pre: MachineState,
    op: OpCode,
    post: MachineState,
    r: Result<(), EmulatorError>,
) -> bool {
    match op {
        OpCode::_00E0 => post == spec_clear(pre) && r is Ok,
        OpCode::_00EE => if pre.stack.len() == 0 {
            post == pre && r == Err::<(), EmulatorError>(EmulatorError::StackUnderflow)
        } else {
            post == spec_ret(pre) && r is Ok
        },
        OpCode::_1NNN(nnn) => post == spec_jump(pre, nnn) && r is Ok,
        OpCode::_2NNN(nnn) => post == spec_call(pre, nnn) && r is Ok,
        OpCode::_3XNN { reg, value } => post == spec_skip_eq_imm(pre, reg, value) && r is Ok,
        OpCode::_4XNN { reg, value } => post == spec_skip_ne_imm(pre, reg, value) && r is Ok,
        OpCode::_5XY0 { x, y } => post == spec_skip_eq_reg(pre, x, y) && r is Ok,
        OpCode::_6XNN { reg, value } => post == spec_load_imm(pre, reg, value) && r is Ok,
        OpCode::_7XNN { reg, value } => post == spec_add_imm(pre, reg, value) && r is Ok,
        OpCode::_8XY0 { x, y } => post == spec_mov(pre, x, y) && r is Ok,
        OpCode::_8XY1 { x, y } => post == spec_or(pre, x, y) && r is Ok,
        OpCode::_8XY2 { x, y } => post == spec_and(pre, x, y) && r is Ok,
        OpCode::_8XY3 { x, y } => post == spec_xor(pre, x, y) && r is Ok,
        OpCode::_8XY4 { x, y } => post == spec_add_reg(pre, x, y) && r is Ok,
        OpCode::_8XY5 { x, y } => post == spec_sub_reg(pre, x, y) && r is Ok,
        OpCode::_8XY6 { x, y: _ } => post == spec_shr(pre, x) && r is Ok,
        OpCode::_8XY7 { x, y } => post == spec_subn_reg(pre, x, y) && r is Ok,
        OpCode::_8XYE { x, y: _ } => post == spec_shl(pre, x) && r is Ok,
        OpCode::_9XY0 { x, y } => post == spec_skip_ne_reg(pre, x, y) && r is Ok,
        OpCode::ANNN(nnn) => post == spec_set_i(pre, nnn) && r is Ok,
        OpCode::BNNN(nnn) => post == spec_jump_v0(pre, nnn) && r is Ok,
        OpCode::CXNN { reg, value } => (exists|b: u8| post == spec_rand(pre, reg, value, b))
            && r is Ok,
        OpCode::DXYN { x, y, height } => if height > 0 && pre.i + height > MEM_SIZE {
            post == pre && r == Err::<(), EmulatorError>(
                EmulatorError::AddressOutOfRange(pre.i),
            )
        } else {
            post == spec_draw(pre, x, y, height) && r is Ok
        },
        OpCode::EX9E(reg) => (exists|p: bool| post == spec_skip_key(pre, p, true)) && r is Ok,
        OpCode::EXA1(reg) => (exists|p: bool| post == spec_skip_key(pre, p, false)) && r is Ok,
        OpCode::FX07(reg) => post == spec_read_delay(pre, reg) && r is Ok,
        OpCode::FX0A(reg) => match r {
            Ok(_) => exists|k: u8| post == spec_wait_key(pre, reg, k),
            Err(e) => post == pre,
        },
        OpCode::FX15(reg) => post == spec_set_delay(pre, reg) && r is Ok,
        OpCode::FX18(reg) => post == spec_set_sound(pre, reg) && r is Ok,
        OpCode::FX1E(reg) => post == spec_add_i(pre, reg) && r is Ok,
        OpCode::FX29(reg) => post == spec_font_addr(pre, reg) && r is Ok,
        OpCode::FX33(reg) => if pre.i + 3 > MEM_SIZE {
            post == pre && r == Err::<(), EmulatorError>(
                EmulatorError::AddressOutOfRange(pre.i),
            )
        } else {
            post == spec_bcd_write(pre, reg) && r is Ok
        },
        OpCode::FX55(reg) => if pre.i + reg.idx() + 1 > MEM_SIZE {
            post == pre && r == Err::<(), EmulatorError>(
                EmulatorError::AddressOutOfRange(pre.i),
            )
        } else {
            post == spec_store_regs(pre, reg) && r is Ok
        },
        OpCode::FX65(reg) => if pre.i + reg.idx() + 1 > MEM_SIZE {
            post == pre && r == Err::<(), EmulatorError>(
                EmulatorError::AddressOutOfRange(pre.i),
            )
        } else {
            post == spec_load_regs(pre, reg) && r is Ok
        },
    }
}


/// The 16-bit word read big-endian from two bytes of memory.
pub open spec fn word_of(hi: u8, lo: u8) -> u16 {
    ((hi as u16) << 8) | (lo as u16)
}

/// The instruction word at the program counter.
pub open spec fn spec_fetch_word(s: MachineState) -> u16 {
    word_of(s.mem[s.pc as int], s.mem[s.pc + 1])
}

/// Relies on rand::thread_rng and rand::Rng::gen: one random byte; nothing
/// is promised of the value.
#[verifier::external_body]
fn random_byte() -> u8 {
    rand::thread_rng().gen()
}

impl<P: Platform> Emulator<P> {
    /// Read the two bytes at the program counter, combine them big-endian,
    /// advance the program counter past the instruction, and decode. The
    /// counter advances even when the word does not decode; running the
    /// counter past the last instruction-sized word in memory is an error
    /// and changes nothing.
    pub fn fetch_opcode(&mut self) -> (r: Result<OpCode, EmulatorError>)
        requires
            old(self).wf(),
        ensures
            final(self).wf(),
            old(self)@.pc + 1 >= MEM_SIZE ==> final(self)@ == old(self)@ && r == Err::<
                OpCode,
                EmulatorError,
            >(EmulatorError::AddressOutOfRange(old(self)@.pc)),
            old(self)@.pc + 1 < MEM_SIZE ==> final(self)@ == bump_pc(old(self)@) && match
                spec_decode(spec_fetch_word(old(self)@)) {
                Some(op) => r == Ok::<OpCode, EmulatorError>(op) && wf_op(op),
                None => r == Err::<OpCode, EmulatorError>(
                    EmulatorError::UnknownOpCode(spec_fetch_word(old(self)@)),
                ),
            },
    {
        let pc = self.registers.pc();
        if (pc as usize) + 1 >= MEM_SIZE {
            return Err(EmulatorError::AddressOutOfRange(pc));
        }
        let first_half = self.memory[pc as usize];
        let second_half = self.memory[(pc as usize) + 1];
        let raw_opcode: u16 = ((first_half as u16) << 8) | (second_half as u16);
        let opcode = decode(raw_opcode);
        self.registers.advance_pc();
        opcode
    }

    /// Reset every pixel and mark a redraw pending.
    fn exec_clear(&mut self)
        requires
            old(self).wf(),
        ensures
            final(self).wf(),
            final(self)@ == spec_clear(old(self)@),
    {
        let mut p: usize = 0;
        while p < VRAM_SIZE
            invariant
                old(self).wf(),
                self.wf(),
                p <= VRAM_SIZE,
                forall|j: int| 0 <= j < p ==> !self@.vram[j],
                forall|j: int| p <= j < VRAM_SIZE ==> self@.vram[j] == old(self)@.vram[j],
                (self@ == MachineState { vram: self@.vram, ..old(self)@ }),
            decreases VRAM_SIZE - p,
        {
            self.vram[p] = false;
            p += 1;
        }
        self.draw_flag = true;
        proof {
            assert(self@ =~= spec_clear(old(self)@));
        }
    }

    /// The screen-clear, flow-control and index-register instructions.
    fn exec_op_sys(&mut self, op: OpCode) -> (r: Result<(), EmulatorError>)
        requires
            old(self).wf(),
            wf_op(op),
            op matches OpCode::_00E0 || op matches OpCode::_00EE || op matches OpCode::_1NNN(_)
                || op matches OpCode::_2NNN(_) || op matches OpCode::ANNN(_) || op matches
                OpCode::BNNN(_),
        ensures
            final(self).wf(),
            step_rel(old(self)@, op, final(self)@, r),
    {
        match op {
            OpCode::_00E0 => {
                self.exec_clear();
                Ok(())
            },
            OpCode::_00EE => {
                match self.stacks.pop() {
                    Some(ret_address) => {
                        self.registers.goto(ret_address);
                        proof {
                            assert(self@ =~= spec_ret(old(self)@));
                        }
                        Ok(())
                    },
                    None => Err(EmulatorError::StackUnderflow),
                }
            },
            OpCode::_1NNN(nnn) => {
                self.registers.goto(nnn);
                proof {
                    assert(self@ =~= spec_jump(old(self)@, nnn));
                }
                Ok(())
            },
            OpCode::_2NNN(nnn) => {
                let pc = self.registers.pc();
                self.stacks.push(pc);
                self.registers.goto(nnn);
                proof {
                    assert(self@ =~= spec_call(old(self)@, nnn));
                }
                Ok(())
            },
            OpCode::ANNN(nnn) => {
                self.registers.set_i(nnn);
                proof {
                    assert(self@ =~= spec_set_i(old(self)@, nnn));
                }
                Ok(())
            },
            OpCode::BNNN(nnn) => {
                let v0 = self.registers.get(Reg::V0);
                let address = nnn + (v0 as u16);
                self.registers.goto(address);
                proof {
                    assert(self@ =~= spec_jump_v0(old(self)@, nnn));
                }
                Ok(())
            },
            _ => {
                proof {
                    assert(false);
                }
                Ok(())
            },
        }
    }

    /// The immediate-operand instructions, including the random byte.
    fn exec_op_imm(&mut self, op: OpCode) -> (r: Result<(), EmulatorError>)
        requires
            old(self).wf(),
            wf_op(op),
            old(self)@.pc + 2 <= 0xFFFF,
            op matches OpCode::_3XNN { .. } || op matches OpCode::_4XNN { .. } || op matches
                OpCode::_6XNN { .. } || op matches OpCode::_7XNN { .. } || op matches
                OpCode::CXNN { .. },
        ensures
            final(self).wf(),
            step_rel(old(self)@, op, final(self)@, r),
    {
        match op {
            OpCode::_3XNN { reg, value } => {
                let x = self.registers.get(reg);
                if x == value {
                    self.registers.advance_pc();
                }
                proof {
                    assert(self@ =~= spec_skip_eq_imm(old(self)@, reg, value));
                }
                Ok(())
            },
            OpCode::_4XNN { reg, value } => {
                let x = self.registers.get(reg);
                if x != value {
                    self.registers.advance_pc();
                }
                proof {
                    assert(self@ =~= spec_skip_ne_imm(old(self)@, reg, value));
                }
                Ok(())
            },
            OpCode::_6XNN { reg, value } => {
                self.registers.set(reg, value);
                proof {
                    assert(self@ =~= spec_load_imm(old(self)@, reg, value));
                }
                Ok(())
            },
            OpCode::_7XNN { reg, value } => {
                let original = self.registers.get(reg);
                let new = original.wrapping_add(value);
                self.registers.set(reg, new);
                proof {
                    assert(self@ =~= spec_add_imm(old(self)@, reg, value));
                }
                Ok(())
            },
            OpCode::CXNN { reg, value } => {
                let random_number: u8 = random_byte();
                self.apply_random(reg, value, random_number);
                Ok(())
            },
            _ => {
                proof {
                    assert(false);
                }
                Ok(())
            },
        }
    }

    /// The register-to-register instructions.
    fn exec_op_two_reg(&mut self, op: OpCode) -> (r: Result<(), EmulatorError>)
        requires
            old(self).wf(),
            wf_op(op),
            old(self)@.pc + 2 <= 0xFFFF,
            op matches OpCode::_5XY0 { .. } || op matches OpCode::_8XY0 { .. } || op matches
                OpCode::_8XY1 { .. } || op matches OpCode::_8XY2 { .. } || op matches
                OpCode::_8XY3 { .. } || op matches OpCode::_8XY4 { .. } || op matches
                OpCode::_8XY5 { .. } || op matches OpCode::_8XY6 { .. } || op matches
                OpCode::_8XY7 { .. } || op matches OpCode::_8XYE { .. } || op matches
                OpCode::_9XY0 { .. },
        ensures
            final(self).wf(),
            step_rel(old(self)@, op, final(self)@, r),
    {
        match op {
            OpCode::_5XY0 { x, y } => {
                let val_x = self.registers.get(x);
                let val_y = self.registers.get(y);
                if val_x == val_y {
                    self.registers.advance_pc();
                }
                proof {
                    assert(self@ =~= spec_skip_eq_reg(old(self)@, x, y));
                }
                Ok(())
            },
            OpCode::_8XY0 { x, y } => {
                let val_y = self.registers.get(y);
                self.registers.set(x, val_y);
                proof {
                    assert(self@ =~= spec_mov(old(self)@, x, y));
                }
                Ok(())
            },
            OpCode::_8XY1 { x, y } => {
                let val_x = self.registers.get(x);
                let val_y = self.registers.get(y);
                self.registers.set(x, val_x | val_y);
                proof {
                    assert(self@ =~= spec_or(old(self)@, x, y));
                }
                Ok(())
            },
            OpCode::_8XY2 { x, y } => {
                let val_x = self.registers.get(x);
                let val_y = self.registers.get(y);
                self.registers.set(x, val_x & val_y);
                proof {
                    assert(self@ =~= spec_and(old(self)@, x, y));
                }
                Ok(())
            },
            OpCode::_8XY3 { x, y } => {
                let val_x = self.registers.get(x);
                let val_y = self.registers.get(y);
                self.registers.set(x, val_x ^ val_y);
                proof {
                    assert(self@ =~= spec_xor(old(self)@, x, y));
                }
                Ok(())
            },
            OpCode::_8XY4 { x, y } => {
                let val_x = self.registers.get(x);
                let val_y = self.registers.get(y);
                let value = val_x.wrapping_add(val_y);
                let carry: u8 = if (val_x as u16) + (val_y as u16) > 255 {
                    1
                } else {
                    0
                };
                self.registers.set(x, value);
                self.registers.set(Reg::VF, carry);
                proof {
                    assert(self@ =~= spec_add_reg(old(self)@, x, y));
                }
                Ok(())
            },
            OpCode::_8XY5 { x, y } => {
                let val_x = self.registers.get(x);
                let val_y = self.registers.get(y);
                let value = val_x.wrapping_sub(val_y);
                let no_borrow: u8 = if val_x >= val_y {
                    1
                } else {
                    0
                };
                self.registers.set(x, value);
                self.registers.set(Reg::VF, no_borrow);
                proof {
                    assert(self@ =~= spec_sub_reg(old(self)@, x, y));
                }
                Ok(())
            },
            OpCode::_8XY6 { x, y: _y } => {
                let val_x = self.registers.get(x);
                let lsb = 0x1 & val_x;
                self.registers.set(Reg::VF, lsb);
                self.registers.set(x, val_x >> 1);
                proof {
                    assert(0x1 & val_x == val_x & 0x1) by (bit_vector);
                    assert(self@ =~= spec_shr(old(self)@, x));
                }
                Ok(())
            },
            OpCode::_8XY7 { x, y } => {
                let val_x = self.registers.get(x);
                let val_y = self.registers.get(y);
                let value = val_y.wrapping_sub(val_x);
                let no_borrow: u8 = if val_y >= val_x {
                    1
                } else {
                    0
                };
                self.registers.set(x, value);
                self.registers.set(Reg::VF, no_borrow);
                proof {
                    assert(self@ =~= spec_subn_reg(old(self)@, x, y));
                }
                Ok(())
            },
            OpCode::_8XYE { x, y: _y } => {
                let val_x = self.registers.get(x);
                let msb = val_x >> 7;
                self.registers.set(Reg::VF, msb);
                self.registers.set(x, val_x << 1);
                proof {
                    assert(self@ =~= spec_shl(old(self)@, x));
                }
                Ok(())
            },
            OpCode::_9XY0 { x, y } => {
                let val_x = self.registers.get(x);
                let val_y = self.registers.get(y);
                if val_x != val_y {
                    self.registers.advance_pc();
                }
                proof {
                    assert(self@ =~= spec_skip_ne_reg(old(self)@, x, y));
                }
                Ok(())
            },
            _ => {
                proof {
                    assert(false);
                }
                Ok(())
            },
        }
    }

    /// The key-state, timer, key-wait, index-add and font instructions.
    fn exec_op_key_timer(&mut self, op: OpCode) -> (r: Result<(), EmulatorError>)
        requires
            old(self).wf(),
            wf_op(op),
            old(self)@.pc + 2 <= 0xFFFF,
            op matches OpCode::EX9E(_) || op matches OpCode::EXA1(_) || op matches OpCode::FX07(
                _,
            ) || op matches OpCode::FX0A(_) || op matches OpCode::FX15(_) || op matches
                OpCode::FX18(_) || op matches OpCode::FX1E(_) || op matches OpCode::FX29(_),
        ensures
            final(self).wf(),
            step_rel(old(self)@, op, final(self)@, r),
    {
        match op {
            OpCode::EX9E(reg) => {
                let expected_key = self.registers.get(reg);
                let pressed = self.platform.key_is_pressed(&expected_key);
                self.apply_key_skip(pressed, true);
                Ok(())
            },
            OpCode::EXA1(reg) => {
                let expected_key = self.registers.get(reg);
                let pressed = self.platform.key_is_pressed(&expected_key);
                self.apply_key_skip(pressed, false);
                Ok(())
            },
            OpCode::FX07(reg) => {
                let value = self.registers.get(Reg::DelayTimer);
                self.registers.set(reg, value);
                proof {
                    assert(self@ =~= spec_read_delay(old(self)@, reg));
                }
                Ok(())
            },
            OpCode::FX0A(dest_reg) => {
                match self.platform.await_keypress() {
                    Ok(val) => {
                        self.registers.set(dest_reg, val);
                        proof {
                            assert(self@ =~= spec_wait_key(old(self)@, dest_reg, val));
                        }
                        Ok(())
                    },
                    Err(e) => Err(e),
                }
            },
            OpCode::FX15(reg) => {
                let value = self.registers.get(reg);
                self.registers.set(Reg::DelayTimer, value);
                proof {
                    assert(self@ =~= spec_set_delay(old(self)@, reg));
                }
                Ok(())
            },
            OpCode::FX18(reg) => {
                let value = self.registers.get(reg);
                self.registers.set(Reg::SoundTimer, value);
                proof {
                    assert(self@ =~= spec_set_sound(old(self)@, reg));
                }
                Ok(())
            },
            OpCode::FX1E(reg) => {
                let i = self.registers.get_i();
                let val = self.registers.get(reg) as u16;
                self.registers.set_i(i.wrapping_add(val));
                proof {
                    assert(self@ =~= spec_add_i(old(self)@, reg));
                }
                Ok(())
            },
            OpCode::FX29(reg) => {
                let character = self.registers.get(reg);
                let sprite_addr: u16 = FONT_SET_START_ADDR + 5 * (character as u16);
                self.registers.set_i(sprite_addr);
                proof {
                    assert(self@ =~= spec_font_addr(old(self)@, reg));
                }
                Ok(())
            },
            _ => {
                proof {
                    assert(false);
                }
                Ok(())
            },
        }
    }

    /// Draw an 8-pixel-wide sprite read from memory at the index register,
    /// XORed onto the frame buffer with per-pixel wraparound, after
    /// checking the sprite rows exist in memory. The flag register reports
    /// whether any previously-lit pixel was unset.
    fn exec_draw(&mut self, x: Reg, y: Reg, height: u8) -> (r: Result<(), EmulatorError>)
        requires
            old(self).wf(),
            x.is_general(),
            y.is_general(),
            height < 16,
        ensures
            final(self).wf(),
            step_rel(old(self)@, OpCode::DXYN { x, y, height }, final(self)@, r),
    {
        let vx = self.registers.get(x);
        let vy = self.registers.get(y);
        let i = self.registers.get_i() as usize;
        if height > 0 && i + (height as usize) > MEM_SIZE {
            return Err(EmulatorError::AddressOutOfRange(self.registers.get_i()));
        }
        self.registers.set(Reg::VF, 0);
        proof {
            lemma_covers_empty(old(self)@, vx, vy, height);
        }
        let mut yline: u8 = 0;
        while yline < height
            invariant
                old(self).wf(),
                self.wf(),
                x.is_general(),
                y.is_general(),
                height < 16,
                yline <= height,
                vx == old(self)@.regs[x.idx()],
                vy == old(self)@.regs[y.idx()],
                i == old(self)@.i,
                height > 0 ==> i + height <= MEM_SIZE,
                (self@ == MachineState { regs: self@.regs, vram: self@.vram, ..old(self)@ }),
                (self@.regs == old(self)@.regs.update(
                    Reg::VF.idx(),
                    if collides_upto(old(self)@, vx, vy, height, yline as int, 0) {
                        1u8
                    } else {
                        0u8
                    },
                )),
                forall|p: int|
                    0 <= p < VRAM_SIZE ==> self@.vram[p] == (old(self)@.vram[p]
                        != covers_upto(old(self)@, vx, vy, height, yline as int, 0, p)),
            decreases height - yline,
        {
            let pixel = self.memory[i + (yline as usize)];
            let mut xline: u8 = 0;
            while xline < 8
                invariant
                    old(self).wf(),
                    self.wf(),
                    x.is_general(),
                    y.is_general(),
                    height < 16,
                    yline < height,
                    xline <= 8,
                    vx == old(self)@.regs[x.idx()],
                    vy == old(self)@.regs[y.idx()],
                    i == old(self)@.i,
                    i + height <= MEM_SIZE,
                    pixel == old(self)@.mem[i + yline],
                    (self@ == MachineState { regs: self@.regs, vram: self@.vram, ..old(self)@ }),
                    (self@.regs == old(self)@.regs.update(
                        Reg::VF.idx(),
                        if collides_upto(
                            old(self)@,
                            vx,
                            vy,
                            height,
                            yline as int,
                            xline as int,
                        ) {
                            1u8
                        } else {
                            0u8
                        },
                    )),
                    forall|p: int|
                        0 <= p < VRAM_SIZE ==> self@.vram[p] == (old(self)@.vram[p]
                            != covers_upto(
                            old(self)@,
                            vx,
                            vy,
                            height,
                            yline as int,
                            xline as int,
                            p,
                        )),
                decreases 8 - xline,
            {
                let ghost row = yline as int;
                let ghost col = xline as int;
                proof {
                    lemma_covers_step(old(self)@, vx, vy, height, row, col);
                    lemma_wrap_row(vy, yline);
                    lemma_wrap_col(vx, xline);
                }
                let is_on = (pixel & (0x80u8 >> xline)) != 0;
                let y_idx = ((vy.wrapping_add(yline)) as usize) % DISPLAY_HEIGHT;
                let x_idx = ((vx.wrapping_add(xline)) as usize) % DISPLAY_WIDTH;
                let p = y_idx * DISPLAY_WIDTH + x_idx;
                proof {
                    assert(y_idx == (vy + row) % (DISPLAY_HEIGHT as int));
                    assert(x_idx == (vx + col) % (DISPLAY_WIDTH as int));
                    assert(y_idx < DISPLAY_HEIGHT);
                    assert(p == pix_index(
                        (vy + row) % (DISPLAY_HEIGHT as int),
                        (vx + col) % (DISPLAY_WIDTH as int),
                    ));
                    assert(p < VRAM_SIZE);
                    assert(is_on == sprite_pixel_on(
                        old(self)@.mem[old(self)@.i + row],
                        col,
                    ));
                    assert(self@.vram[p as int] == old(self)@.vram[p as int]);
                }
                if is_on {
                    if self.vram[p] {
                        self.registers.set(Reg::VF, 1);
                        proof {
                            assert(self@.regs =~= old(self)@.regs.update(Reg::VF.idx(), 1u8));
                        }
                    }
                    let cur = self.vram[p];
                    self.vram[p] = !cur;
                }
                proof {
                    assert forall|p2: int| 0 <= p2 < VRAM_SIZE implies self@.vram[p2] == (old(
                        self,
                    )@.vram[p2] != covers_upto(
                        old(self)@,
                        vx,
                        vy,
                        height,
                        row,
                        col + 1,
                        p2,
                    )) by {
                        if p2 != p as int {
                            assert(covers_upto(old(self)@, vx, vy, height, row, col + 1, p2)
                                == covers_upto(old(self)@, vx, vy, height, row, col, p2));
                        }
                    }
                }
                xline += 1;
            }
            proof {
                lemma_covers_row_wrap(old(self)@, vx, vy, height, yline as int);
            }
            yline += 1;
        }
        proof {
            lemma_covers_full(old(self)@, vx, vy, height);
        }
        self.draw_flag = true;
        proof {
            assert(self@.vram =~= spec_draw(old(self)@, x, y, height).vram);
            assert(self@.regs =~= spec_draw(old(self)@, x, y, height).regs);
            assert(self@ =~= spec_draw(old(self)@, x, y, height));
        }
        Ok(())
    }

    /// The decision of a key-state skip, for a given answer of the
    /// capability port: skip one instruction exactly when the key's
    /// pressed state matches the polarity the instruction asks for.
    pub fn apply_key_skip(&mut self, pressed: bool, want: bool)
        requires
            old(self).wf(),
            old(self)@.pc + 2 <= 0xFFFF,
        ensures
            final(self).wf(),
            final(self)@ == spec_skip_key(old(self)@, pressed, want),
    {
        if pressed == want {
            self.registers.advance_pc();
        }
        proof {
            assert(self@ =~= spec_skip_key(old(self)@, pressed, want));
        }
    }

    /// The store of the random instruction, for a given drawn byte: the
    /// byte is masked by the immediate and written to the register.
    pub fn apply_random(&mut self, reg: Reg, mask: u8, b: u8)
        requires
            old(self).wf(),
        ensures
            final(self).wf(),
            final(self)@ == spec_rand(old(self)@, reg, mask, b),
    {
        let masked = b & mask;
        self.registers.set(reg, masked);
        proof {
            assert(self@ =~= spec_rand(old(self)@, reg, mask, b));
        }
    }

    /// Write the decimal digits of X to memory at the index register,
    /// hundreds digit first, after checking the three addresses exist.
    fn exec_bcd_write(&mut self, reg: Reg) -> (r: Result<(), EmulatorError>)
        requires
            old(self).wf(),
            reg.is_general(),
        ensures
            final(self).wf(),
            step_rel(old(self)@, OpCode::FX33(reg), final(self)@, r),
    {
        let i = self.registers.get_i();
        if (i as usize) + 3 > MEM_SIZE {
            return Err(EmulatorError::AddressOutOfRange(i));
        }
        let val = self.registers.get(reg);
        let digits = crate::utils::bcd(val);
        self.memory[i as usize] = digits[0];
        self.memory[(i as usize) + 1] = digits[1];
        self.memory[(i as usize) + 2] = digits[2];
        proof {
            assert(self@ =~= spec_bcd_write(old(self)@, reg));
        }
        Ok(())
    }

    /// Store registers V0 through X to memory at the index register, after
    /// checking the addresses exist; the index register then advances or
    /// stays by the configured behavior.
    fn exec_store_regs(&mut self, reg: Reg) -> (r: Result<(), EmulatorError>)
        requires
            old(self).wf(),
            reg.is_general(),
        ensures
            final(self).wf(),
            step_rel(old(self)@, OpCode::FX55(reg), final(self)@, r),
    {
        let i = self.registers.get_i() as usize;
        let end = reg.index();
        if i + end + 1 > MEM_SIZE {
            return Err(EmulatorError::AddressOutOfRange(self.registers.get_i()));
        }
        let mut idx: usize = 0;
        while idx < end + 1
            invariant
                old(self).wf(),
                self.wf(),
                reg.is_general(),
                end == reg.idx(),
                i == old(self)@.i,
                i + end + 1 <= MEM_SIZE,
                idx <= end + 1,
                forall|a: int| i <= a < i + idx ==> self@.mem[a] == old(self)@.regs[a - i],
                forall|a: int|
                    0 <= a < MEM_SIZE && !(i <= a < i + idx) ==> self@.mem[a] == old(
                        self,
                    )@.mem[a],
                (self@ == MachineState { mem: self@.mem, ..old(self)@ }),
            decreases end + 1 - idx,
        {
            let r = Reg::from_nibble(idx as u8);
            let val = self.registers.get(r);
            self.memory[i + idx] = val;
            idx += 1;
        }
        if self.advance_index_on_block {
            self.registers.set_i((i + end + 1) as u16);
        }
        proof {
            assert(self@.mem =~= spec_store_regs(old(self)@, reg).mem);
            assert(self@ =~= spec_store_regs(old(self)@, reg));
        }
        Ok(())
    }

    /// Load registers V0 through X from memory at the index register,
    /// after checking the addresses exist; the index register then
    /// advances or stays by the configured behavior.
    fn exec_load_regs(&mut self, reg: Reg) -> (r: Result<(), EmulatorError>)
        requires
            old(self).wf(),
            reg.is_general(),
        ensures
            final(self).wf(),
            step_rel(old(self)@, OpCode::FX65(reg), final(self)@, r),
    {
        let i = self.registers.get_i() as usize;
        let end = reg.index();
        if i + end + 1 > MEM_SIZE {
            return Err(EmulatorError::AddressOutOfRange(self.registers.get_i()));
        }
        let mut idx: usize = 0;
        while idx < end + 1
            invariant
                old(self).wf(),
                self.wf(),
                reg.is_general(),
                end == reg.idx(),
                i == old(self)@.i,
                i + end + 1 <= MEM_SIZE,
                idx <= end + 1,
                forall|k: int| 0 <= k < idx ==> self@.regs[k] == old(self)@.mem[i + k],
                forall|k: int|
                    0 <= k < REG_COUNT && !(0 <= k < idx) ==> self@.regs[k] == old(
                        self,
                    )@.regs[k],
                (self@ == MachineState { regs: self@.regs, ..old(self)@ }),
            decreases end + 1 - idx,
        {
            let r = Reg::from_nibble(idx as u8);
            let val = self.memory[i + idx];
            self.registers.set(r, val);
            idx += 1;
        }
        if self.advance_index_on_block {
            self.registers.set_i((i + end + 1) as u16);
        }
        proof {
            assert(self@.regs =~= spec_load_regs(old(self)@, reg).regs);
            assert(self@ =~= spec_load_regs(old(self)@, reg));
        }
        Ok(())
    }
}


/// The pixels a sprite draw has flipped after processing the rows before
/// `row` and, on `row` itself, the columns before `col`.
spec fn covers_upto(
    s: MachineState,
    vx: u8,
    vy: u8,
    h: u8,
    row: int,
    col: int,
    p: int,
) -> bool {
    exists|r: int, c: int|
        0 <= r < h && 0 <= c < 8 && (r < row || (r == row && c < col)) && #[trigger]
        sprite_pixel_on(s.mem[s.i + r], c) && p == pix_index(
            (vy + r) % (DISPLAY_HEIGHT as int),
            (vx + c) % (DISPLAY_WIDTH as int),
        )
}

/// Whether a sprite draw has hit a previously-lit pixel within the same
/// prefix of cells.
spec fn collides_upto(s: MachineState, vx: u8, vy: u8, h: u8, row: int, col: int) -> bool {
    exists|r: int, c: int|
        0 <= r < h && 0 <= c < 8 && (r < row || (r == row && c < col)) && #[trigger]
        sprite_pixel_on(s.mem[s.i + r], c) && s.vram[
            pix_index(
                (vy + r) % (DISPLAY_HEIGHT as int),
                (vx + c) % (DISPLAY_WIDTH as int),
            )
        ]
}

/// Distinct row offsets below 16 land on distinct display rows, even with
/// wraparound.
proof fn lemma_row_mod_distinct(vy: u8, r1: u8, r2: u8)
    by (bit_vector)
    requires
        r1 < 16,
        r2 < 16,
        r1 != r2,
    ensures
        ((vy as u16) + (r1 as u16)) % 32 != ((vy as u16) + (r2 as u16)) % 32,
{
}

/// Distinct column offsets below 8 land on distinct display columns, even
/// with wraparound.
proof fn lemma_col_mod_distinct(vx: u8, c1: u8, c2: u8)
    by (bit_vector)
    requires
        c1 < 8,
        c2 < 8,
        c1 != c2,
    ensures
        ((vx as u16) + (c1 as u16)) % 64 != ((vx as u16) + (c2 as u16)) % 64,
{
}

/// Row-major pixel indexing separates distinct coordinates.
proof fn lemma_pix_index_injective(py1: int, px1: int, py2: int, px2: int)
    by (nonlinear_arith)
    requires
        0 <= px1 < 64,
        0 <= px2 < 64,
        py1 != py2 || px1 != px2,
    ensures
        py1 * 64 + px1 != py2 * 64 + px2,
{
}

/// Byte-wrapped row addition agrees with plain addition modulo the display
/// height.
proof fn lemma_wrap_row(vy: u8, r: u8)
    by (bit_vector)
    requires
        r < 16,
    ensures
        ((vy.wrapping_add(r)) as u16) % 32 == ((vy as u16) + (r as u16)) % 32,
{
}

/// Byte-wrapped column addition agrees with plain addition modulo the
/// display width.
proof fn lemma_wrap_col(vx: u8, c: u8)
    by (bit_vector)
    requires
        c < 8,
    ensures
        ((vx.wrapping_add(c)) as u16) % 64 == ((vx as u16) + (c as u16)) % 64,
{
}

/// Distinct sprite cells land on distinct frame-buffer indices.
proof fn lemma_draw_cell_distinct(vx: u8, vy: u8, r1: int, c1: int, r2: int, c2: int)
    requires
        0 <= r1 < 16,
        0 <= c1 < 8,
        0 <= r2 < 16,
        0 <= c2 < 8,
        !(r1 == r2 && c1 == c2),
    ensures
        pix_index((vy + r1) % (DISPLAY_HEIGHT as int), (vx + c1) % (DISPLAY_WIDTH as int))
            != pix_index((vy + r2) % (DISPLAY_HEIGHT as int), (vx + c2) % (DISPLAY_WIDTH as int)),
{
    if r1 != r2 {
        lemma_row_mod_distinct(vy, r1 as u8, r2 as u8);
    } else {
        lemma_col_mod_distinct(vx, c1 as u8, c2 as u8);
    }
    lemma_pix_index_injective(
        (vy + r1) % (DISPLAY_HEIGHT as int),
        (vx + c1) % (DISPLAY_WIDTH as int),
        (vy + r2) % (DISPLAY_HEIGHT as int),
        (vx + c2) % (DISPLAY_WIDTH as int),
    );
}

/// Before any cell is processed, nothing is flipped and nothing has
/// collided.
proof fn lemma_covers_empty(s: MachineState, vx: u8, vy: u8, h: u8)
    ensures
        forall|p: int| !covers_upto(s, vx, vy, h, 0, 0, p),
        !collides_upto(s, vx, vy, h, 0, 0),
        h == 0 ==> forall|p: int| !draw_covers(s, vx, vy, h, p),
        h == 0 ==> !draw_collides(s, vx, vy, h),
{
}

/// After the last column of a row, the prefix is the same as before the
/// first column of the next row.
proof fn lemma_covers_row_wrap(s: MachineState, vx: u8, vy: u8, h: u8, row: int)
    ensures
        forall|p: int|
            covers_upto(s, vx, vy, h, row, 8, p) == covers_upto(s, vx, vy, h, row + 1, 0, p),
        collides_upto(s, vx, vy, h, row, 8) == collides_upto(s, vx, vy, h, row + 1, 0),
{
    assert forall|p: int|
        covers_upto(s, vx, vy, h, row, 8, p) == covers_upto(s, vx, vy, h, row + 1, 0, p) by {
        if covers_upto(s, vx, vy, h, row, 8, p) {
            let (r, c): (int, int) = choose|r: int, c: int|
                0 <= r < h && 0 <= c < 8 && (r < row || (r == row && c < 8)) && #[trigger]
                sprite_pixel_on(s.mem[s.i + r], c) && p == pix_index(
                    (vy + r) % (DISPLAY_HEIGHT as int),
                    (vx + c) % (DISPLAY_WIDTH as int),
                );
            assert(r < row + 1);
            assert(covers_upto(s, vx, vy, h, row + 1, 0, p));
        }
        if covers_upto(s, vx, vy, h, row + 1, 0, p) {
            let (r, c): (int, int) = choose|r: int, c: int|
                0 <= r < h && 0 <= c < 8 && (r < row + 1 || (r == row + 1 && c < 0)) && #[trigger]
                sprite_pixel_on(s.mem[s.i + r], c) && p == pix_index(
                    (vy + r) % (DISPLAY_HEIGHT as int),
                    (vx + c) % (DISPLAY_WIDTH as int),
                );
            assert(r < row || (r == row && c < 8));
            assert(covers_upto(s, vx, vy, h, row, 8, p));
        }
    }
    if collides_upto(s, vx, vy, h, row, 8) {
        let (r, c): (int, int) = choose|r: int, c: int|
            0 <= r < h && 0 <= c < 8 && (r < row || (r == row && c < 8)) && #[trigger]
            sprite_pixel_on(s.mem[s.i + r], c) && s.vram[
                pix_index(
                    (vy + r) % (DISPLAY_HEIGHT as int),
                    (vx + c) % (DISPLAY_WIDTH as int),
                )
            ];
        assert(r < row + 1);
        assert(collides_upto(s, vx, vy, h, row + 1, 0));
    }
    if collides_upto(s, vx, vy, h, row + 1, 0) {
        let (r, c): (int, int) = choose|r: int, c: int|
            0 <= r < h && 0 <= c < 8 && (r < row + 1 || (r == row + 1 && c < 0)) && #[trigger]
            sprite_pixel_on(s.mem[s.i + r], c) && s.vram[
                pix_index(
                    (vy + r) % (DISPLAY_HEIGHT as int),
                    (vx + c) % (DISPLAY_WIDTH as int),
                )
            ];
        assert(r < row || (r == row && c < 8));
        assert(collides_upto(s, vx, vy, h, row, 8));
    }
}

/// After the last row, the prefix is the whole sprite.
proof fn lemma_covers_full(s: MachineState, vx: u8, vy: u8, h: u8)
    ensures
        forall|p: int|
            covers_upto(s, vx, vy, h, h as int, 0, p) == draw_covers(s, vx, vy, h, p),
        collides_upto(s, vx, vy, h, h as int, 0) == draw_collides(s, vx, vy, h),
{
    assert forall|p: int|
        covers_upto(s, vx, vy, h, h as int, 0, p) == draw_covers(s, vx, vy, h, p) by {
        if covers_upto(s, vx, vy, h, h as int, 0, p) {
            assert(draw_covers(s, vx, vy, h, p));
        }
        if draw_covers(s, vx, vy, h, p) {
            let (r, c): (int, int) = choose|r: int, c: int|
                0 <= r < h && 0 <= c < 8 && #[trigger] sprite_pixel_on(s.mem[s.i + r], c) && p
                    == pix_index(
                    (vy + r) % (DISPLAY_HEIGHT as int),
                    (vx + c) % (DISPLAY_WIDTH as int),
                );
            assert(r < h as int || (r == h as int && c < 0));
            assert(covers_upto(s, vx, vy, h, h as int, 0, p));
        }
    }
    if collides_upto(s, vx, vy, h, h as int, 0) {
        assert(draw_collides(s, vx, vy, h));
    }
    if draw_collides(s, vx, vy, h) {
        let (r, c): (int, int) = choose|r: int, c: int|
            0 <= r < h && 0 <= c < 8 && #[trigger] sprite_pixel_on(s.mem[s.i + r], c) && s.vram[
                pix_index(
                    (vy + r) % (DISPLAY_HEIGHT as int),
                    (vx + c) % (DISPLAY_WIDTH as int),
                )
            ];
        assert(r < h as int || (r == h as int && c < 0));
        assert(collides_upto(s, vx, vy, h, h as int, 0));
    }
}

/// Processing one more cell extends the prefix by exactly that cell: away
/// from the cell's own pixel nothing changes, the cell's pixel was not
/// flipped by any earlier cell, and the collision prefix grows by exactly
/// the cell's own hit.
proof fn lemma_covers_step(s: MachineState, vx: u8, vy: u8, h: u8, row: int, col: int)
    requires
        0 <= row < h,
        0 <= col < 8,
        h < 16,
    ensures
        forall|p: int|
            p != pix_index(
                (vy + row) % (DISPLAY_HEIGHT as int),
                (vx + col) % (DISPLAY_WIDTH as int),
            ) ==> covers_upto(s, vx, vy, h, row, col + 1, p) == covers_upto(
                s,
                vx,
                vy,
                h,
                row,
                col,
                p,
            ),
        !covers_upto(
            s,
            vx,
            vy,
            h,
            row,
            col,
            pix_index((vy + row) % (DISPLAY_HEIGHT as int), (vx + col) % (DISPLAY_WIDTH as int)),
        ),
        covers_upto(
            s,
            vx,
            vy,
            h,
            row,
            col + 1,
            pix_index((vy + row) % (DISPLAY_HEIGHT as int), (vx + col) % (DISPLAY_WIDTH as int)),
        ) == sprite_pixel_on(s.mem[s.i + row], col),
        collides_upto(s, vx, vy, h, row, col + 1) == (collides_upto(s, vx, vy, h, row, col) || (
        sprite_pixel_on(s.mem[s.i + row], col) && s.vram[
            pix_index((vy + row) % (DISPLAY_HEIGHT as int), (vx + col) % (DISPLAY_WIDTH as int))
        ])),
{
    let pcur = pix_index(
        (vy + row) % (DISPLAY_HEIGHT as int),
        (vx + col) % (DISPLAY_WIDTH as int),
    );
    assert forall|p: int|
        p != pcur implies covers_upto(s, vx, vy, h, row, col + 1, p) == covers_upto(
            s,
            vx,
            vy,
            h,
            row,
            col,
            p,
        ) by {
        if p != pcur {
            if covers_upto(s, vx, vy, h, row, col + 1, p) {
                let (r, c): (int, int) = choose|r: int, c: int|
                    0 <= r < h && 0 <= c < 8 && (r < row || (r == row && c < col + 1))
                        && #[trigger] sprite_pixel_on(s.mem[s.i + r], c) && p == pix_index(
                        (vy + r) % (DISPLAY_HEIGHT as int),
                        (vx + c) % (DISPLAY_WIDTH as int),
                    );
                assert(!(r == row && c == col));
                assert(r < row || (r == row && c < col));
                assert(covers_upto(s, vx, vy, h, row, col, p));
            }
            if covers_upto(s, vx, vy, h, row, col, p) {
                let (r, c): (int, int) = choose|r: int, c: int|
                    0 <= r < h && 0 <= c < 8 && (r < row || (r == row && c < col)) && #[trigger]
                    sprite_pixel_on(s.mem[s.i + r], c) && p == pix_index(
                        (vy + r) % (DISPLAY_HEIGHT as int),
                        (vx + c) % (DISPLAY_WIDTH as int),
                    );
                assert(r < row || (r == row && c < col + 1));
                assert(covers_upto(s, vx, vy, h, row, col + 1, p));
            }
        }
    }
    if covers_upto(s, vx, vy, h, row, col, pcur) {
        let (r, c): (int, int) = choose|r: int, c: int|
            0 <= r < h && 0 <= c < 8 && (r < row || (r == row && c < col)) && #[trigger]
            sprite_pixel_on(s.mem[s.i + r], c) && pcur == pix_index(
                (vy + r) % (DISPLAY_HEIGHT as int),
                (vx + c) % (DISPLAY_WIDTH as int),
            );
        lemma_draw_cell_distinct(vx, vy, r, c, row, col);
        assert(false);
    }
    if sprite_pixel_on(s.mem[s.i + row], col) {
        assert(covers_upto(s, vx, vy, h, row, col + 1, pcur)) by {
            assert(0 <= row < h && 0 <= col < 8 && (row < row || (row == row && col < col + 1))
                && sprite_pixel_on(s.mem[s.i + row], col) && pcur == pix_index(
                (vy + row) % (DISPLAY_HEIGHT as int),
                (vx + col) % (DISPLAY_WIDTH as int),
            ));
        }
    }
    if covers_upto(s, vx, vy, h, row, col + 1, pcur) && !sprite_pixel_on(s.mem[s.i + row], col) {
        let (r, c): (int, int) = choose|r: int, c: int|
            0 <= r < h && 0 <= c < 8 && (r < row || (r == row && c < col + 1)) && #[trigger]
            sprite_pixel_on(s.mem[s.i + r], c) && pcur == pix_index(
                (vy + r) % (DISPLAY_HEIGHT as int),
                (vx + c) % (DISPLAY_WIDTH as int),
            );
        if r == row && c == col {
            assert(false);
        } else {
            lemma_draw_cell_distinct(vx, vy, r, c, row, col);
            assert(false);
        }
    }
    if collides_upto(s, vx, vy, h, row, col + 1) {
        let (r, c): (int, int) = choose|r: int, c: int|
            0 <= r < h && 0 <= c < 8 && (r < row || (r == row && c < col + 1)) && #[trigger]
            sprite_pixel_on(s.mem[s.i + r], c) && s.vram[
                pix_index(
                    (vy + r) % (DISPLAY_HEIGHT as int),
                    (vx + c) % (DISPLAY_WIDTH as int),
                )
            ];
        if r == row && c == col {
            assert(sprite_pixel_on(s.mem[s.i + row], col) && s.vram[pcur]);
        } else {
            assert(r < row || (r == row && c < col));
            assert(collides_upto(s, vx, vy, h, row, col));
        }
    }
    if collides_upto(s, vx, vy, h, row, col) {
        let (r, c): (int, int) = choose|r: int, c: int|
            0 <= r < h && 0 <= c < 8 && (r < row || (r == row && c < col)) && #[trigger]
            sprite_pixel_on(s.mem[s.i + r], c) && s.vram[
                pix_index(
                    (vy + r) % (DISPLAY_HEIGHT as int),
                    (vx + c) % (DISPLAY_WIDTH as int),
                )
            ];
        assert(r < row || (r == row && c < col + 1));
        assert(collides_upto(s, vx, vy, h, row, col + 1));
    }
    if sprite_pixel_on(s.mem[s.i + row], col) && s.vram[pcur] {
        assert(collides_upto(s, vx, vy, h, row, col + 1)) by {
            assert(0 <= row < h && 0 <= col < 8 && (row < row || (row == row && col < col + 1))
                && sprite_pixel_on(s.mem[s.i + row], col) && s.vram[
                pix_index(
                    (vy + row) % (DISPLAY_HEIGHT as int),
                    (vx + col) % (DISPLAY_WIDTH as int),
                )
            ]);
        }
    }
}


/// Whether a key is the designated continue key (F) of the single-step
/// debug mode.
pub fn is_continue_key(key: u8) -> (r: bool)
    ensures
        r == (key == 0xF),
{
    key == 0xF
}

/// Relies on std::io::Stdout::write_fmt through the writeln macro: prints
/// the register state for the single-step debug mode; the machine itself
/// is not touched.
#[verifier::external_body]
fn print_registers(regs: &Registers) {
    let _ = writeln!(std::io::stdout(), "{:?}", regs);
}

/// What one whole cycle does to the machine: a fetch past the end of
/// memory fails and changes nothing; otherwise the program counter first
/// advances past the fetched word, an unrecognized word then fails the
/// cycle, and a recognized instruction is dispatched as `step_rel` says.
pub open spec fn cycle_rel(
    pre: MachineState,
    post: MachineState,
    r: Result<(), EmulatorError>,
) -> bool {
    if pre.pc + 1 >= MEM_SIZE {
        post == pre && r == Err::<(), EmulatorError>(EmulatorError::AddressOutOfRange(pre.pc))
    } else {
        let w = spec_fetch_word(pre);
        let s1 = bump_pc(pre);
        match spec_decode(w) {
            None => post == s1 && r == Err::<(), EmulatorError>(EmulatorError::UnknownOpCode(w)),
            Some(op) => step_rel(s1, op, post, r),
        }
    }
}

impl<P: Platform> Emulator<P> {
    /// Dispatch one decoded instruction to its state mutation.
    pub fn exec_opcode(&mut self, op: OpCode) -> (r: Result<(), EmulatorError>)
        requires
            old(self).wf(),
            wf_op(op),
            old(self)@.pc + 2 <= 0xFFFF,
        ensures
            final(self).wf(),
            step_rel(old(self)@, op, final(self)@, r),
    {
        match op {
            OpCode::_00E0 | OpCode::_00EE | OpCode::_1NNN(_) | OpCode::_2NNN(_)
            | OpCode::ANNN(_) | OpCode::BNNN(_) => self.exec_op_sys(op),
            OpCode::_3XNN { .. } | OpCode::_4XNN { .. } | OpCode::_6XNN { .. } | OpCode::_7XNN {
                ..
            } | OpCode::CXNN { .. } => self.exec_op_imm(op),
            OpCode::_5XY0 { .. } | OpCode::_8XY0 { .. } | OpCode::_8XY1 { .. } | OpCode::_8XY2 {
                ..
            } | OpCode::_8XY3 { .. } | OpCode::_8XY4 { .. } | OpCode::_8XY5 { .. }
            | OpCode::_8XY6 { .. } | OpCode::_8XY7 { .. } | OpCode::_8XYE { .. }
            | OpCode::_9XY0 { .. } => self.exec_op_two_reg(op),
            OpCode::EX9E(_) | OpCode::EXA1(_) | OpCode::FX07(_) | OpCode::FX0A(_)
            | OpCode::FX15(_) | OpCode::FX18(_) | OpCode::FX1E(_) | OpCode::FX29(_) => self
                .exec_op_key_timer(op),
            OpCode::DXYN { x, y, height } => self.exec_draw(x, y, height),
            OpCode::FX33(reg) => self.exec_bcd_write(reg),
            OpCode::FX55(reg) => self.exec_store_regs(reg),
            OpCode::FX65(reg) => self.exec_load_regs(reg),
        }
    }

    /// One cycle: fetch the word at the program counter, advance the
    /// counter past the instruction before dispatch, decode, and execute.
    pub fn cycle(&mut self) -> (r: Result<(), EmulatorError>)
        requires
            old(self).wf(),
        ensures
            final(self).wf(),
            cycle_rel(old(self)@, final(self)@, r),
    {
        let op = match self.fetch_opcode() {
            Ok(op) => op,
            Err(e) => {
                return Err(e);
            },
        };
        self.exec_opcode(op)
    }

    /// Whether single-step debugging is on.
    pub fn debug_enabled(&self) -> (r: bool)
        ensures
            r == self@.debug,
    {
        self.debug
    }

    /// One step of the single-step debug wait: block for the next key and
    /// decide, through `is_continue_key`, whether it is the continue key.
    /// The machine itself is not touched; an error from the wait (a quit,
    /// in particular) is handed back as is.
    pub fn debug_wait_step(&mut self) -> (r: Result<bool, EmulatorError>)
        requires
            old(self).wf(),
        ensures
            final(self).wf(),
            final(self)@ == old(self)@,
    {
        match self.platform.await_keypress() {
            Ok(key) => Ok(is_continue_key(key)),
            Err(e) => Err(e),
        }
    }

    /// Print the full register state, a single-step debug aid.
    pub fn print_state(&self) {
        print_registers(&self.registers);
    }

    /// Ask the port to sample the current key state; called once per
    /// run-loop iteration. The machine itself is not touched.
    pub fn scan_input(&mut self)
        ensures
            final(self)@ == old(self)@,
    {
        self.platform.scan_keys();
    }

    /// Ask the port whether a user-level quit has been requested. The
    /// machine itself is not touched.
    pub fn quit_requested(&mut self) -> (r: bool)
        ensures
            final(self)@ == old(self)@,
    {
        self.platform.should_quit()
    }

    /// One fixed pacing delay, delegated to the port; called once per
    /// run-loop iteration. The machine itself is not touched.
    pub fn pace(&mut self)
        ensures
            final(self)@ == old(self)@,
    {
        self.platform.pace();
    }

    /// Silence the tone; called before the run ends on a fatal error, so
    /// that no tone is left stuck on. The machine itself is not touched.
    pub fn silence(&mut self)
        ensures
            final(self)@ == old(self)@,
    {
        self.platform.stop_beep();
    }

    /// Decrement the sound timer if it is running, sounding the tone at
    /// the transition from one to zero and silencing it while the timer
    /// rests.
    pub fn check_sound(&mut self)
        requires
            old(self).wf(),
        ensures
            final(self).wf(),
            (final(self)@ == MachineState { regs: final(self)@.regs, ..old(self)@ }),
            old(self)@.regs[Reg::SoundTimer.idx()] > 0 ==> final(self)@.regs == old(
                self,
            )@.regs.update(
                Reg::SoundTimer.idx(),
                (old(self)@.regs[Reg::SoundTimer.idx()] - 1) as u8,
            ),
            old(self)@.regs[Reg::SoundTimer.idx()] == 0 ==> final(self)@.regs == old(self)@.regs,
    {
        let sound_timer = self.registers.get(Reg::SoundTimer);
        if sound_timer > 0 {
            if sound_timer == 1 {
                self.platform.start_beep();
            }
            self.registers.set(Reg::SoundTimer, sound_timer - 1);
        } else {
            self.platform.stop_beep();
        }
    }

    /// Decrement the delay timer if it is running.
    pub fn check_delay(&mut self)
        requires
            old(self).wf(),
        ensures
            final(self).wf(),
            (final(self)@ == MachineState { regs: final(self)@.regs, ..old(self)@ }),
            old(self)@.regs[Reg::DelayTimer.idx()] > 0 ==> final(self)@.regs == old(
                self,
            )@.regs.update(
                Reg::DelayTimer.idx(),
                (old(self)@.regs[Reg::DelayTimer.idx()] - 1) as u8,
            ),
            old(self)@.regs[Reg::DelayTimer.idx()] == 0 ==> final(self)@.regs == old(self)@.regs,
    {
        let delay_timer = self.registers.get(Reg::DelayTimer);
        if delay_timer > 0 {
            self.registers.set(Reg::DelayTimer, delay_timer - 1);
        }
    }

    /// Ask the port to render, and clear the redraw-pending flag, exactly
    /// when a draw or clear executed since the last render; called once
    /// per run-loop iteration.
    pub fn render_if_needed(&mut self)
        requires
            old(self).wf(),
        ensures
            final(self).wf(),
            (final(self)@ == MachineState { draw_flag: false, ..old(self)@ }),
    {
        if self.draw_flag {
            self.platform.draw(&self.vram);
            self.draw_flag = false;
        }
    }

}


/// Decoding is a pure function: its result depends on the 16-bit word
/// alone, so two machines that fetch the same word decode it identically,
/// whatever else their state holds; and decoding mutates nothing — up to
/// dispatch, a cycle changes only the program counter (the fetch advance),
/// never the register file, memory, the return-address stack or the frame
/// buffer.
pub proof fn lemma_decode_is_pure(s1: MachineState, s2: MachineState)
    requires
        spec_fetch_word(s1) == spec_fetch_word(s2),
    ensures
        spec_decode(spec_fetch_word(s1)) == spec_decode(spec_fetch_word(s2)),
        bump_pc(s1).regs == s1.regs,
        bump_pc(s1).mem == s1.mem,
        bump_pc(s1).stack == s1.stack,
        bump_pc(s1).vram == s1.vram,
{
}

/// Stack balance: a subroutine call followed immediately by a return puts
/// the program counter exactly where it stood when the call dispatched
/// (the instruction after the call) and restores the stack, the registers,
/// memory and the frame buffer; in particular, a stack that was empty is
/// empty again. The middle state is the one the next cycle's fetch
/// produces before the return dispatches.
pub proof fn lemma_call_then_return(s: MachineState, nnn: u16)
    ensures
        spec_ret(bump_pc(spec_call(s, nnn))) == s,
{
    assert(s.stack.push(s.pc).drop_last() =~= s.stack);
    assert(spec_ret(bump_pc(spec_call(s, nnn))) =~= s);
}

/// Skip conditionals advance the program counter by exactly one extra
/// instruction width if and only if their condition holds, and touch
/// nothing else: the equal-skip and not-equal-skip instructions against an
/// immediate, and the register-equals and register-differs skips.
pub proof fn lemma_skip_conditionals(s: MachineState, x: Reg, y: Reg, nn: u8)
    requires
        s.pc + 2 <= 0xFFFF,
    ensures
        spec_skip_eq_imm(s, x, nn).pc == if s.regs[x.idx()] == nn {
            (s.pc + 2) as u16
        } else {
            s.pc
        },
        spec_skip_ne_imm(s, x, nn).pc == if s.regs[x.idx()] != nn {
            (s.pc + 2) as u16
        } else {
            s.pc
        },
        spec_skip_eq_reg(s, x, y).pc == if s.regs[x.idx()] == s.regs[y.idx()] {
            (s.pc + 2) as u16
        } else {
            s.pc
        },
        spec_skip_ne_reg(s, x, y).pc == if s.regs[x.idx()] != s.regs[y.idx()] {
            (s.pc + 2) as u16
        } else {
            s.pc
        },
        (spec_skip_eq_imm(s, x, nn) == MachineState { pc: spec_skip_eq_imm(s, x, nn).pc, ..s }),
        (spec_skip_ne_imm(s, x, nn) == MachineState { pc: spec_skip_ne_imm(s, x, nn).pc, ..s }),
        (spec_skip_eq_reg(s, x, y) == MachineState { pc: spec_skip_eq_reg(s, x, y).pc, ..s }),
        (spec_skip_ne_reg(s, x, y) == MachineState { pc: spec_skip_ne_reg(s, x, y).pc, ..s }),
{
}

}
