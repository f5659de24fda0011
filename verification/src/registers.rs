use vstd::prelude::*;

verus! {

/// Names of the sixteen general-purpose registers and the two countdown
/// timers. `VF` is the flag register: arithmetic, shift and draw
/// instructions write carry, borrow and collision signals into it.
#[derive(Copy, Clone, Debug, PartialEq, Eq, Structural)]
pub enum Reg {
    V0,
    V1,
    V2,
    V3,
    V4,
    V5,
    V6,
    V7,
    V8,
    V9,
    VA,
    VB,
    VC,
    VD,
    VE,
    VF,
    DelayTimer,
    SoundTimer,
}

/// The general register named by a nibble value (V0 for 0 up to VF for 15).
pub open spec fn reg_of(v: u8) -> Reg {
    if v == 0x0 {
        Reg::V0
    } else if v == 0x1 {
        Reg::V1
    } else if v == 0x2 {
        Reg::V2
    } else if v == 0x3 {
        Reg::V3
    } else if v == 0x4 {
        Reg::V4
    } else if v == 0x5 {
        Reg::V5
    } else if v == 0x6 {
        Reg::V6
    } else if v == 0x7 {
        Reg::V7
    } else if v == 0x8 {
        Reg::V8
    } else if v == 0x9 {
        Reg::V9
    } else if v == 0xA {
        Reg::VA
    } else if v == 0xB {
        Reg::VB
    } else if v == 0xC {
        Reg::VC
    } else if v == 0xD {
        Reg::VD
    } else if v == 0xE {
        Reg::VE
    } else {
        Reg::VF
    }
}

impl Reg {
    /// Position of this register in the register file.
    pub open spec fn idx(self) -> int {
        match self {
            Reg::V0 => 0,
            Reg::V1 => 1,
            Reg::V2 => 2,
            Reg::V3 => 3,
            Reg::V4 => 4,
            Reg::V5 => 5,
            Reg::V6 => 6,
            Reg::V7 => 7,
            Reg::V8 => 8,
            Reg::V9 => 9,
            Reg::VA => 10,
            Reg::VB => 11,
            Reg::VC => 12,
            Reg::VD => 13,
            Reg::VE => 14,
            Reg::VF => 15,
            Reg::DelayTimer => 16,
            Reg::SoundTimer => 17,
        }
    }

    /// True of the registers that an instruction operand can name.
    pub open spec fn is_general(self) -> bool {
        self.idx() < 16
    }

    /// Position of this register in the register file, as an executable
    /// index.
    pub fn index(self) -> (r: usize)
        ensures
            r == self.idx(),
    {
        match self {
            Reg::V0 => 0,
            Reg::V1 => 1,
            Reg::V2 => 2,
            Reg::V3 => 3,
            Reg::V4 => 4,
            Reg::V5 => 5,
            Reg::V6 => 6,
            Reg::V7 => 7,
            Reg::V8 => 8,
            Reg::V9 => 9,
            Reg::VA => 10,
            Reg::VB => 11,
            Reg::VC => 12,
            Reg::VD => 13,
            Reg::VE => 14,
            Reg::VF => 15,
            Reg::DelayTimer => 16,
            Reg::SoundTimer => 17,
        }
    }

    /// The general register named by a nibble taken from an instruction
    /// word.
    pub fn from_nibble(v: u8) -> (r: Reg)
        requires
            v < 0x10,
        ensures
            r == reg_of(v),
            r.idx() == v as int,
            r.is_general(),
    {
        match v {
            0x0 => Reg::V0,
            0x1 => Reg::V1,
            0x2 => Reg::V2,
            0x3 => Reg::V3,
            0x4 => Reg::V4,
            0x5 => Reg::V5,
            0x6 => Reg::V6,
            0x7 => Reg::V7,
            0x8 => Reg::V8,
            0x9 => Reg::V9,
            0xA => Reg::VA,
            0xB => Reg::VB,
            0xC => Reg::VC,
            0xD => Reg::VD,
            0xE => Reg::VE,
            _ => Reg::VF,
        }
    }
}

/// A general register round-trips through its position.
pub proof fn lemma_reg_roundtrip(r: Reg)
    requires
        r.is_general(),
    ensures
        reg_of(r.idx() as u8) == r,
{
}

/// Mathematical content of a register file: the eighteen 8-bit register
/// slots, the program counter and the index register.
#[verifier::ext_equal]
pub ghost struct RegView {
    pub v: Seq<u8>,
    pub pc: u16,
    pub i: u16,
}

/// Number of 8-bit slots: sixteen general registers and the two timers.
pub const REG_COUNT: usize = 18;

/// Address at which a program image is loaded, and so the initial value of
/// the program counter.
pub const LOAD_ADDR: u16 = 0x200;

/// The register file: general registers, timers, program counter and the
/// 12-bit index register.
#[derive(Debug)]
pub struct Registers {
    inner: Vec<u8>,
    pc: u16,
    i: u16,
}

impl View for Registers {
    type V = RegView;

    closed spec fn view(&self) -> RegView {
        RegView { v: self.inner@, pc: self.pc, i: self.i }
    }
}

impl Registers {
    /// The register file holds exactly one slot per register name.
    pub open spec fn wf(self) -> bool {
        self@.v.len() == REG_COUNT
    }

    /// A fresh register file: every register zero, the program counter at
    /// the program load address.
    pub fn new() -> (r: Registers)
        ensures
            r.wf(),
            r@.pc == LOAD_ADDR,
            r@.i == 0,
            forall|k: int| 0 <= k < REG_COUNT ==> r@.v[k] == 0u8,
    {
        let mut inner: Vec<u8> = Vec::new();
        let mut k: usize = 0;
        while k < REG_COUNT
            invariant
                k <= REG_COUNT,
                inner@.len() == k,
                forall|j: int| 0 <= j < k ==> inner@[j] == 0u8,
            decreases REG_COUNT - k,
        {
            inner.push(0);
            k += 1;
        }
        Registers { inner, pc: LOAD_ADDR, i: 0 }
    }

    /// Current program counter.
    pub fn pc(&self) -> (r: u16)
        ensures
            r == self@.pc,
    {
        self.pc
    }

    /// Move the program counter forward by one instruction width (2 bytes).
    pub fn advance_pc(&mut self)
        requires
            old(self)@.pc + 2 <= 0xFFFF,
        ensures
            final(self)@.pc == old(self)@.pc + 2,
            final(self)@.v == old(self)@.v,
            final(self)@.i == old(self)@.i,
    {
        self.pc = self.pc + 0x2;
    }

    /// Set the program counter to an absolute address.
    pub fn goto(&mut self, address: u16)
        ensures
            final(self)@.pc == address,
            final(self)@.v == old(self)@.v,
            final(self)@.i == old(self)@.i,
    {
        self.pc = address;
    }

    /// Current value of the index register.
    pub fn get_i(&self) -> (r: u16)
        ensures
            r == self@.i,
    {
        self.i
    }

    /// Set the index register.
    pub fn set_i(&mut self, value: u16)
        ensures
            final(self)@.i == value,
            final(self)@.v == old(self)@.v,
            final(self)@.pc == old(self)@.pc,
    {
        self.i = value;
    }

    /// Read one register.
    pub fn get(&self, reg: Reg) -> (r: u8)
        requires
            self.wf(),
        ensures
            r == self@.v[reg.idx()],
    {
        let i = reg.index();
        self.inner[i]
    }

    /// Write one register.
    pub fn set(&mut self, reg: Reg, value: u8)
        requires
            old(self).wf(),
        ensures
            final(self).wf(),
            final(self)@.v == old(self)@.v.update(reg.idx(), value),
            final(self)@.pc == old(self)@.pc,
            final(self)@.i == old(self)@.i,
    {
        let i = reg.index();
        self.inner.set(i, value);
    }
}

}
