//! The execution engine.
//!
//! A [`Machine`] owns the whole emulation state: the sixteen 8-bit
//! registers, the index register, the program counter, 4096 bytes of
//! memory, the bounded call stack, the delay and sound timers, the frame
//! buffer and the input latch. [`Machine::step`] runs one
//! fetch-decode-execute cycle; [`Machine::tick_timers`] decrements the two
//! timers toward zero at the host's 60 Hz cadence, independently of the
//! instruction rate.
//!
//! Every step is pinned to the mathematical transition function
//! [`spec_step`]: the post-state of `step` equals `spec_step` of the
//! pre-state for some random byte. An error — an unknown opcode, stack
//! overflow or underflow, or an out-of-bounds memory access — halts the
//! machine: the error is recorded and every later `step` returns it
//! unchanged until a fresh machine is loaded.

use crate::decoder::DecodeError;
use crate::decoder::Op;
use crate::decoder::decode;
use crate::decoder::op_wf;
use crate::decoder::spec_decode;
use crate::framebuffer::FbModel;
use crate::framebuffer::FrameBuffer;
use crate::framebuffer::draw_cells;
use crate::framebuffer::draw_collision;
use crate::keypad::Keypad;
use crate::keypad::NUM_KEYS;
use crate::keypad::first_pressed_spec;
use vstd::prelude::*;

verus! {

/// Bytes of addressable memory.
pub const MEM_SIZE: usize = 4096;

/// First address of the program region; the bytes below it are reserved
/// for the interpreter and the font, and program stores may not touch them.
pub const PROGRAM_START: usize = 512;

/// First address of the built-in font; each of the 16 glyphs is 5 bytes.
pub const FONT_START: usize = 80;

/// Depth of the call stack.
pub const STACK_CAPACITY: usize = 16;

/// Number of general-purpose registers.
pub const NUM_REGS: usize = 16;

/// Frame buffer width in cells.
pub const DISPLAY_WIDTH: usize = 64;

/// Frame buffer height in cells.
pub const DISPLAY_HEIGHT: usize = 32;

/// Everything that can go wrong while loading or running a program.
///
/// A decode or execution error halts the machine; `RomTooLarge` is
/// returned at load time, before any state exists.
#[derive(Clone, Copy, Debug, PartialEq, Eq, Structural)]
pub enum VmError {
    /// The fetched word belongs to no recognized encoding; carries the word.
    UnknownOpcode(u16),
    /// A call was executed with the stack already at capacity.
    StackOverflow,
    /// A return was executed with the stack empty.
    StackUnderflow,
    /// A fetch, sprite read or memory store addressed past the end of
    /// memory, or a store addressed the reserved region below the program.
    OutOfBoundsMemoryAccess,
    /// The ROM does not fit in the program region.
    RomTooLarge,
}

/// The mathematical value of a machine: every piece of emulation state.
#[verifier::ext_equal]
pub struct MachineModel {
    /// The sixteen general-purpose registers `v[0]..v[15]`.
    pub v: Seq<u8>,
    /// The index register.
    pub i: u16,
    /// The program counter.
    pub pc: u16,
    /// The call stack of return addresses, most recent last.
    pub stack: Seq<u16>,
    /// The delay timer.
    pub delay: u8,
    /// The sound timer.
    pub sound: u8,
    /// The 4096 memory bytes.
    pub mem: Seq<u8>,
    /// The frame buffer.
    pub fb: FbModel,
    /// The input latch, one flag per key.
    pub keys: Seq<bool>,
    /// The recorded error, if the machine has halted.
    pub halted: Option<VmError>,
}

impl MachineModel {
    /// Well-formedness: every component has its fixed size, the stack is
    /// within capacity, and the index register is a valid address.
    pub open spec fn wf(&self) -> bool {
        &&& self.v.len() == 16
        &&& self.mem.len() == 4096
        &&& self.stack.len() <= 16
        &&& self.i < 4096
        &&& self.fb.wf()
        &&& self.fb.width == 64
        &&& self.fb.height == 32
        &&& self.keys.len() == 16
    }
}

/// 8-bit wrapping addition.
pub open spec fn wrap_add8(a: u8, b: u8) -> u8 {
    ((a + b) % 256) as u8
}

/// 8-bit wrapping subtraction.
pub open spec fn wrap_sub8(a: u8, b: u8) -> u8 {
    ((a + 256 - b) % 256) as u8
}

/// One timer tick: decrement toward zero, never below it.
pub open spec fn tick(t: u8) -> u8 {
    if t > 0 {
        (t - 1) as u8
    } else {
        0
    }
}

/// The instruction word at the program counter: two big-endian bytes.
pub open spec fn fetch_word(m: MachineModel) -> u16 {
    ((m.mem[m.pc as int] as u16) << 8) | (m.mem[m.pc as int + 1] as u16)
}

/// A machine halted with the given error, otherwise unchanged.
pub open spec fn halt_with(m: MachineModel, e: VmError) -> MachineModel {
    MachineModel { halted: Some(e), ..m }
}

/// The effect of one decoded operation on a machine whose program counter
/// has already been advanced past the instruction. `rb` is the random byte
/// a `RandomMask` operation consumes; every other operation ignores it.
pub open spec fn spec_exec_op(m: MachineModel, op: Op, rb: u8) -> MachineModel {
    match op {
        Op::Clear => MachineModel {
            fb: FbModel {
                width: m.fb.width,
                height: m.fb.height,
                cells: Seq::new(m.fb.cells.len(), |i: int| false),
            },
            ..m
        },
        Op::Ret => if m.stack.len() == 0 {
            halt_with(m, VmError::StackUnderflow)
        } else {
            MachineModel { pc: m.stack.last(), stack: m.stack.drop_last(), ..m }
        },
        Op::Jump(nnn) => MachineModel { pc: nnn, ..m },
        Op::Call(nnn) => if m.stack.len() >= 16 {
            halt_with(m, VmError::StackOverflow)
        } else {
            MachineModel { stack: m.stack.push(m.pc), pc: nnn, ..m }
        },
        Op::SkipEqImm(x, kk) => if m.v[x as int] == kk {
            MachineModel { pc: (m.pc + 2) as u16, ..m }
        } else {
            m
        },
        Op::SkipNeImm(x, kk) => if m.v[x as int] != kk {
            MachineModel { pc: (m.pc + 2) as u16, ..m }
        } else {
            m
        },
        Op::SkipEqReg(x, y) => if m.v[x as int] == m.v[y as int] {
            MachineModel { pc: (m.pc + 2) as u16, ..m }
        } else {
            m
        },
        Op::SetImm(x, kk) => MachineModel { v: m.v.update(x as int, kk), ..m },
        Op::AddImm(x, kk) => MachineModel {
            v: m.v.update(x as int, wrap_add8(m.v[x as int], kk)),
            ..m
        },
        Op::CopyReg(x, y) => MachineModel { v: m.v.update(x as int, m.v[y as int]), ..m },
        Op::OrReg(x, y) => MachineModel {
            v: m.v.update(x as int, m.v[x as int] | m.v[y as int]),
            ..m
        },
        Op::AndReg(x, y) => MachineModel {
            v: m.v.update(x as int, m.v[x as int] & m.v[y as int]),
            ..m
        },
        Op::XorReg(x, y) => MachineModel {
            v: m.v.update(x as int, m.v[x as int] ^ m.v[y as int]),
            ..m
        },
        Op::AddReg(x, y) => {
            let a = m.v[x as int];
            let b = m.v[y as int];
            let carry: u8 = if a + b > 255 {
                1
            } else {
                0
            };
            MachineModel { v: m.v.update(x as int, wrap_add8(a, b)).update(15, carry), ..m }
        },
        Op::SubReg(x, y) => {
            let a = m.v[x as int];
            let b = m.v[y as int];
            let no_borrow: u8 = if a >= b {
                1
            } else {
                0
            };
            MachineModel { v: m.v.update(x as int, wrap_sub8(a, b)).update(15, no_borrow), ..m }
        },
        Op::ShrReg(x, _y) => {
            let a = m.v[x as int];
            MachineModel { v: m.v.update(x as int, a / 2).update(15, a % 2), ..m }
        },
        Op::SubnReg(x, y) => {
            let a = m.v[x as int];
            let b = m.v[y as int];
            let no_borrow: u8 = if b >= a {
                1
            } else {
                0
            };
            MachineModel { v: m.v.update(x as int, wrap_sub8(b, a)).update(15, no_borrow), ..m }
        },
        Op::ShlReg(x, _y) => {
            let a = m.v[x as int];
            MachineModel {
                v: m.v.update(x as int, ((a * 2) % 256) as u8).update(15, a / 128),
                ..m
            }
        },
        Op::SkipNeReg(x, y) => if m.v[x as int] != m.v[y as int] {
            MachineModel { pc: (m.pc + 2) as u16, ..m }
        } else {
            m
        },
        Op::SetIndex(nnn) => MachineModel { i: nnn, ..m },
        Op::JumpV0(nnn) => MachineModel { pc: (nnn + m.v[0]) as u16, ..m },
        Op::RandomMask(x, kk) => MachineModel { v: m.v.update(x as int, rb & kk), ..m },
        Op::DrawSprite(x, y, n) => if m.i + n > 4096 {
            halt_with(m, VmError::OutOfBoundsMemoryAccess)
        } else {
            let sprite = m.mem.subrange(m.i as int, m.i as int + n as int);
            let col = draw_collision(m.fb, m.v[x as int] as int, m.v[y as int] as int, sprite);
            MachineModel {
                fb: FbModel {
                    width: m.fb.width,
                    height: m.fb.height,
                    cells: draw_cells(m.fb, m.v[x as int] as int, m.v[y as int] as int, sprite),
                },
                v: m.v.update(
                    15,
                    if col {
                        1u8
                    } else {
                        0u8
                    },
                ),
                ..m
            }
        },
        Op::SkipKeyPressed(x) => if m.keys[(m.v[x as int] & 0xF) as int] {
            MachineModel { pc: (m.pc + 2) as u16, ..m }
        } else {
            m
        },
        Op::SkipKeyNotPressed(x) => if !m.keys[(m.v[x as int] & 0xF) as int] {
            MachineModel { pc: (m.pc + 2) as u16, ..m }
        } else {
            m
        },
        Op::ReadDelay(x) => MachineModel { v: m.v.update(x as int, m.delay), ..m },
        Op::WaitKey(x) => match first_pressed_spec(m.keys) {
            Some(k) => MachineModel { v: m.v.update(x as int, k as u8), ..m },
            None => MachineModel { pc: (m.pc - 2) as u16, ..m },
        },
        Op::SetDelay(x) => MachineModel { delay: m.v[x as int], ..m },
        Op::SetSound(x) => MachineModel { sound: m.v[x as int], ..m },
        Op::AddIndex(x) => MachineModel {
            i: ((m.i + m.v[x as int]) as u16) & 0x0FFF,
            ..m
        },
        Op::FontChar(x) => MachineModel { i: (80 + (m.v[x as int] & 0xF) * 5) as u16, ..m },
        Op::StoreBcd(x) => if m.i < 512 || m.i + 3 > 4096 {
            halt_with(m, VmError::OutOfBoundsMemoryAccess)
        } else {
            let a = m.v[x as int];
            MachineModel {
                mem: m.mem.update(m.i as int, (a / 100) as u8).update(
                    m.i as int + 1,
                    ((a / 10) % 10) as u8,
                ).update(m.i as int + 2, (a % 10) as u8),
                ..m
            }
        },
        Op::StoreRegs(x) => if m.i < 512 || m.i + x + 1 > 4096 {
            halt_with(m, VmError::OutOfBoundsMemoryAccess)
        } else {
            MachineModel {
                mem: Seq::new(
                    m.mem.len(),
                    |j: int|
                        if m.i <= j <= m.i + x {
                            m.v[j - m.i]
                        } else {
                            m.mem[j]
                        },
                ),
                ..m
            }
        },
        Op::LoadRegs(x) => if m.i + x + 1 > 4096 {
            halt_with(m, VmError::OutOfBoundsMemoryAccess)
        } else {
            MachineModel {
                v: Seq::new(
                    m.v.len(),
                    |j: int|
                        if 0 <= j <= x {
                            m.mem[m.i + j]
                        } else {
                            m.v[j]
                        },
                ),
                ..m
            }
        },
    }
}

/// One whole fetch-decode-execute cycle on a machine model.
///
/// A halted machine is a fixed point. Otherwise: if even the two
/// instruction bytes are not addressable the machine halts with
/// `OutOfBoundsMemoryAccess`; otherwise the word at the program counter is
/// fetched, the counter advances by two, and the word is decoded — an
/// unrecognized word halts the machine with `UnknownOpcode`, a recognized
/// one is executed by [`spec_exec_op`].
pub open spec fn spec_step(m: MachineModel, rb: u8) -> MachineModel {
    if m.halted is Some {
        m
    } else if m.pc + 1 >= 4096 {
        halt_with(m, VmError::OutOfBoundsMemoryAccess)
    } else {
        let w = fetch_word(m);
        let m2 = MachineModel { pc: (m.pc + 2) as u16, ..m };
        match spec_decode(w) {
            Ok(op) => spec_exec_op(m2, op, rb),
            Err(DecodeError::UnknownOpcode(ww)) => halt_with(m2, VmError::UnknownOpcode(ww)),
        }
    }
}

/// The value a step reports: the recorded error of a halted machine,
/// `Ok` otherwise.
pub open spec fn halted_result(m: MachineModel) -> Result<(), VmError> {
    match m.halted {
        Some(e) => Err(e),
        None => Ok(()),
    }
}

/// The built-in font: sixteen 5-byte glyphs for the hexadecimal digits,
/// placed at [`FONT_START`] when a program is loaded.
pub open spec fn font() -> Seq<u8> {
    seq![
        0xF0u8, 0x90, 0x90, 0x90, 0xF0,
        0x20, 0x60, 0x20, 0x20, 0x70,
        0xF0, 0x10, 0xF0, 0x80, 0xF0,
        0xF0, 0x10, 0xF0, 0x10, 0xF0,
        0x90, 0x90, 0xF0, 0x10, 0x10,
        0xF0, 0x80, 0xF0, 0x10, 0xF0,
        0xF0, 0x80, 0xF0, 0x90, 0xF0,
        0xF0, 0x10, 0x20, 0x40, 0x40,
        0xF0, 0x90, 0xF0, 0x90, 0xF0,
        0xF0, 0x90, 0xF0, 0x10, 0xF0,
        0xF0, 0x90, 0xF0, 0x90, 0x90,
        0xE0, 0x90, 0xE0, 0x90, 0xE0,
        0xF0, 0x80, 0x80, 0x80, 0xF0,
        0xE0, 0x90, 0x90, 0x90, 0xE0,
        0xF0, 0x80, 0xF0, 0x80, 0xF0,
        0xF0, 0x80, 0xF0, 0x80, 0x80,
    ]
}

/// The machine a freshly loaded ROM yields: registers, timers and stack
/// cleared, the font at [`FONT_START`], the ROM at [`PROGRAM_START`], the
/// rest of memory zero, the program counter at [`PROGRAM_START`], the
/// frame buffer blank and every key released.
pub open spec fn spec_loaded(rom: Seq<u8>) -> MachineModel {
    MachineModel {
        v: Seq::new(16, |j: int| 0u8),
        i: 0,
        pc: 512,
        stack: Seq::empty(),
        delay: 0,
        sound: 0,
        mem: Seq::new(
            4096,
            |j: int|
                if 80 <= j < 160 {
                    font()[j - 80]
                } else if 512 <= j < 512 + rom.len() {
                    rom[j - 512]
                } else {
                    0u8
                },
        ),
        fb: FbModel { width: 64, height: 32, cells: Seq::new(64 * 32, |j: int| false) },
        keys: Seq::new(16, |j: int| false),
        halted: None,
    }
}

/// The execution engine with all its state.
pub struct Machine {
    v: Vec<u8>,
    i: u16,
    pc: u16,
    stack: Vec<u16>,
    delay: u8,
    sound: u8,
    mem: Vec<u8>,
    fb: FrameBuffer,
    keys: Keypad,
    halted: Option<VmError>,
}

impl View for Machine {
    type V = MachineModel;

    closed spec fn view(&self) -> MachineModel {
        MachineModel {
            v: self.v@,
            i: self.i,
            pc: self.pc,
            stack: self.stack@,
            delay: self.delay,
            sound: self.sound,
            mem: self.mem@,
            fb: self.fb@,
            keys: self.keys@,
            halted: self.halted,
        }
    }
}

/// Relies on `rand::random`: a byte from the thread-local generator.
/// Nothing can be promised of a random value.
#[verifier::external_body]
fn random_byte() -> (r: u8) {
    rand::random::<u8>()
}

impl Machine {
    /// Well-formedness of the machine; equals well-formedness of its model.
    pub open spec fn wf(&self) -> bool {
        self@.wf()
    }

    /// Load a program.
    ///
    /// Fails with `RomTooLarge` — and only with it — exactly when the ROM
    /// does not fit between [`PROGRAM_START`] and the end of memory; a ROM
    /// that fits always loads, yielding precisely the fresh machine
    /// [`spec_loaded`] describes, with no step yet executed.
    pub fn load_rom(rom: &Vec<u8>) -> (r: Result<Machine, VmError>)
        ensures
            rom@.len() <= 3584 ==> r is Ok,
            rom@.len() > 3584 <==> (r matches Err(e) && e == VmError::RomTooLarge),
            r matches Ok(m) ==> m.wf() && m@ == spec_loaded(rom@),
    {
        if rom.len() > MEM_SIZE - PROGRAM_START {
            return Err(VmError::RomTooLarge);
        }
        let fontvec = font_bytes();
        let mut mem: Vec<u8> = Vec::new();
        let mut j: usize = 0;
        while j < MEM_SIZE
            invariant
                j <= 4096,
                mem@.len() == j,
                forall|t: int| 0 <= t < j ==> mem@[t] == 0u8,
            decreases 4096 - j,
        {
            mem.push(0);
            j = j + 1;
        }
        let mut j: usize = 0;
        while j < 80
            invariant
                j <= 80,
                fontvec@ == font(),
                mem@.len() == 4096,
                forall|t: int| 80 <= t < 80 + j ==> mem@[t] == font()[t - 80],
                forall|t: int| 0 <= t < 4096 && !(80 <= t < 80 + j) ==> mem@[t] == 0u8,
            decreases 80 - j,
        {
            mem.set(FONT_START + j, fontvec[j]);
            j = j + 1;
        }
        let mut j: usize = 0;
        while j < rom.len()
            invariant
                j <= rom@.len() <= 3584,
                mem@.len() == 4096,
                forall|t: int| 80 <= t < 160 ==> mem@[t] == font()[t - 80],
                forall|t: int| 512 <= t < 512 + j ==> mem@[t] == rom@[t - 512],
                forall|t: int|
                    0 <= t < 4096 && !(80 <= t < 160) && !(512 <= t < 512 + j) ==> mem@[t] == 0u8,
            decreases rom@.len() - j,
        {
            mem.set(PROGRAM_START + j, rom[j]);
            j = j + 1;
        }
        let machine = Machine {
            v: zero_regs(),
            i: 0,
            pc: PROGRAM_START as u16,
            stack: Vec::new(),
            delay: 0,
            sound: 0,
            mem,
            fb: FrameBuffer::new(DISPLAY_WIDTH, DISPLAY_HEIGHT),
            keys: Keypad::new(),
            halted: None,
        };
        proof {
            assert(machine@ =~~= spec_loaded(rom@));
        }
        Ok(machine)
    }

    /// Decrement the delay and sound timers toward zero.
    ///
    /// A timer at zero stays at zero — the tick never wraps — and nothing
    /// else of the machine changes. The host calls this at its fixed
    /// 60 Hz cadence, independently of how often it steps the machine.
    pub fn tick_timers(&mut self)
        requires
            old(self).wf(),
        ensures
            final(self).wf(),
            final(self)@ == (MachineModel {
                delay: tick(old(self)@.delay),
                sound: tick(old(self)@.sound),
                ..old(self)@
            }),
    {
        if self.delay > 0 {
            self.delay = self.delay - 1;
        }
        if self.sound > 0 {
            self.sound = self.sound - 1;
        }
        proof {
            assert(self@ =~~= (MachineModel {
                delay: tick(old(self)@.delay),
                sound: tick(old(self)@.sound),
                ..old(self)@
            }));
        }
    }

    /// Record the state of one key in the input latch.
    pub fn set_key(&mut self, key: usize, pressed: bool)
        requires
            old(self).wf(),
            key < NUM_KEYS,
        ensures
            final(self).wf(),
            final(self)@ == (MachineModel {
                keys: old(self)@.keys.update(key as int, pressed),
                ..old(self)@
            }),
    {
        self.keys.set_key(key, pressed);
        proof {
            assert(self@ =~~= (MachineModel {
                keys: old(self)@.keys.update(key as int, pressed),
                ..old(self)@
            }));
        }
    }

    /// One general-purpose register.
    pub fn register(&self, x: usize) -> (r: u8)
        requires
            self.wf(),
            x < NUM_REGS,
        ensures
            r == self@.v[x as int],
    {
        self.v[x]
    }

    /// The index register.
    pub fn index(&self) -> (r: u16)
        ensures
            r == self@.i,
    {
        self.i
    }

    /// The program counter.
    pub fn pc(&self) -> (r: u16)
        ensures
            r == self@.pc,
    {
        self.pc
    }

    /// The delay timer.
    pub fn delay_timer(&self) -> (r: u8)
        ensures
            r == self@.delay,
    {
        self.delay
    }

    /// The sound timer; nonzero means the host should emit a tone.
    pub fn sound_timer(&self) -> (r: u8)
        ensures
            r == self@.sound,
    {
        self.sound
    }

    /// The current call stack depth.
    pub fn stack_depth(&self) -> (r: usize)
        ensures
            r == self@.stack.len(),
    {
        self.stack.len()
    }

    /// The error the machine halted with, if it has halted.
    pub fn halted(&self) -> (r: Option<VmError>)
        ensures
            r == self@.halted,
    {
        self.halted
    }

    /// One memory byte.
    pub fn mem_byte(&self, addr: usize) -> (r: u8)
        requires
            self.wf(),
            addr < MEM_SIZE,
        ensures
            r == self@.mem[addr as int],
    {
        self.mem[addr]
    }

    /// The read-only view of the frame buffer for the host to paint.
    pub fn display(&self) -> (r: &FrameBuffer)
        ensures
            r@ == self@.fb,
    {
        &self.fb
    }

    /// Run one fetch-decode-execute cycle with the given random byte.
    ///
    /// The post-state is exactly `spec_step` of the pre-state: a halted
    /// machine is left untouched and its error returned again; otherwise
    /// the word at the program counter is fetched and executed, and any
    /// error that arises halts the machine and is returned. Only a
    /// `RandomMask` instruction reads `rb`; every other outcome is
    /// independent of it.
    pub fn step_with_random(&mut self, rb: u8) -> (r: Result<(), VmError>)
        requires
            old(self).wf(),
        ensures
            final(self).wf(),
            final(self)@ == spec_step(old(self)@, rb),
            r == halted_result(final(self)@),
    {
        if let Some(e) = self.halted {
            return Err(e);
        }
        if self.pc >= 4095 {
            self.halted = Some(VmError::OutOfBoundsMemoryAccess);
            proof {
                assert(self@ =~~= spec_step(old(self)@, rb));
            }
            return Err(VmError::OutOfBoundsMemoryAccess);
        }
        let pc = self.pc as usize;
        let hb = self.mem[pc];
        let lb = self.mem[pc + 1];
        let word: u16 = ((hb as u16) << 8) | (lb as u16);
        self.pc = self.pc + 2;
        proof {
            assert(word == fetch_word(old(self)@));
            assert(self@ =~~= (MachineModel { pc: (old(self)@.pc + 2) as u16, ..old(self)@ }));
        }
        match decode(word) {
            Ok(op) => self.exec_op(op, rb),
            Err(DecodeError::UnknownOpcode(w)) => {
                self.halted = Some(VmError::UnknownOpcode(w));
                proof {
                    assert(self@ =~~= spec_step(old(self)@, rb));
                }
                Err(VmError::UnknownOpcode(w))
            },
        }
    }

    /// Run one fetch-decode-execute cycle.
    ///
    /// The machine draws the random byte itself, so the post-state is
    /// `spec_step` of the pre-state for some byte; all state change goes
    /// through [`Machine::step_with_random`], which pins it exactly.
    pub fn step(&mut self) -> (r: Result<(), VmError>)
        requires
            old(self).wf(),
        ensures
            final(self).wf(),
            exists|b: u8| final(self)@ == spec_step(old(self)@, b),
            r == halted_result(final(self)@),
    {
        let b = random_byte();
        let r = self.step_with_random(b);
        proof {
            assert(self@ == spec_step(old(self)@, b));
        }
        r
    }

    /// Execute one decoded operation; the program counter has already been
    /// advanced past the instruction word.
    fn exec_op(&mut self, op: Op, rb: u8) -> (r: Result<(), VmError>)
        requires
            old(self).wf(),
            op_wf(op),
            old(self)@.halted is None,
            2 <= old(self)@.pc <= 4096,
        ensures
            final(self).wf(),
            final(self)@ == spec_exec_op(old(self)@, op, rb),
            r == halted_result(final(self)@),
    {
        match op {
            Op::Clear => {
                self.fb.clear();
                proof {
                    assert(self@ =~~= spec_exec_op(old(self)@, op, rb));
                }
                Ok(())
            },
            Op::Ret => {
                let depth = self.stack.len();
                if depth == 0 {
                    self.halted = Some(VmError::StackUnderflow);
                    proof {
                        assert(self@ =~~= spec_exec_op(old(self)@, op, rb));
                    }
                    Err(VmError::StackUnderflow)
                } else {
                    let ret = self.stack[depth - 1];
                    self.stack.pop();
                    self.pc = ret;
                    proof {
                        assert(self@ =~~= spec_exec_op(old(self)@, op, rb));
                    }
                    Ok(())
                }
            },
            Op::Jump(nnn) => {
                self.pc = nnn;
                proof {
                    assert(self@ =~~= spec_exec_op(old(self)@, op, rb));
                }
                Ok(())
            },
            Op::Call(nnn) => {
                if self.stack.len() >= STACK_CAPACITY {
                    self.halted = Some(VmError::StackOverflow);
                    proof {
                        assert(self@ =~~= spec_exec_op(old(self)@, op, rb));
                    }
                    Err(VmError::StackOverflow)
                } else {
                    let ret = self.pc;
                    self.stack.push(ret);
                    self.pc = nnn;
                    proof {
                        assert(self@ =~~= spec_exec_op(old(self)@, op, rb));
                    }
                    Ok(())
                }
            },
            Op::SkipEqImm(x, kk) => {
                if self.v[x as usize] == kk {
                    self.pc = self.pc + 2;
                }
                proof {
                    assert(self@ =~~= spec_exec_op(old(self)@, op, rb));
                }
                Ok(())
            },
            Op::SkipNeImm(x, kk) => {
                if self.v[x as usize] != kk {
                    self.pc = self.pc + 2;
                }
                proof {
                    assert(self@ =~~= spec_exec_op(old(self)@, op, rb));
                }
                Ok(())
            },
            Op::SkipEqReg(x, y) => {
                if self.v[x as usize] == self.v[y as usize] {
                    self.pc = self.pc + 2;
                }
                proof {
                    assert(self@ =~~= spec_exec_op(old(self)@, op, rb));
                }
                Ok(())
            },
            Op::SetImm(x, kk) => {
                self.v.set(x as usize, kk);
                proof {
                    assert(self@ =~~= spec_exec_op(old(self)@, op, rb));
                }
                Ok(())
            },
            Op::AddImm(x, kk) => {
                let a = self.v[x as usize];
                let s = a as u16 + kk as u16;
                self.v.set(x as usize, (s % 256) as u8);
                proof {
                    assert(self@ =~~= spec_exec_op(old(self)@, op, rb));
                }
                Ok(())
            },
            Op::CopyReg(x, y) => {
                let b = self.v[y as usize];
                self.v.set(x as usize, b);
                proof {
                    assert(self@ =~~= spec_exec_op(old(self)@, op, rb));
                }
                Ok(())
            },
            Op::OrReg(x, y) => {
                let a = self.v[x as usize];
                let b = self.v[y as usize];
                self.v.set(x as usize, a | b);
                proof {
                    assert(self@ =~~= spec_exec_op(old(self)@, op, rb));
                }
                Ok(())
            },
            Op::AndReg(x, y) => {
                let a = self.v[x as usize];
                let b = self.v[y as usize];
                self.v.set(x as usize, a & b);
                proof {
                    assert(self@ =~~= spec_exec_op(old(self)@, op, rb));
                }
                Ok(())
            },
            Op::XorReg(x, y) => {
                let a = self.v[x as usize];
                let b = self.v[y as usize];
                self.v.set(x as usize, a ^ b);
                proof {
                    assert(self@ =~~= spec_exec_op(old(self)@, op, rb));
                }
                Ok(())
            },
            Op::AddReg(x, y) => {
                let a = self.v[x as usize];
                let b = self.v[y as usize];
                let s = a as u16 + b as u16;
                let carry: u8 = if s > 255 {
                    1
                } else {
                    0
                };
                self.v.set(x as usize, (s % 256) as u8);
                self.v.set(15, carry);
                proof {
                    assert(self@ =~~= spec_exec_op(old(self)@, op, rb));
                }
                Ok(())
            },
            Op::SubReg(x, y) => {
                let a = self.v[x as usize];
                let b = self.v[y as usize];
                let s = a as u16 + 256 - b as u16;
                let no_borrow: u8 = if a >= b {
                    1
                } else {
                    0
                };
                self.v.set(x as usize, (s % 256) as u8);
                self.v.set(15, no_borrow);
                proof {
                    assert(self@ =~~= spec_exec_op(old(self)@, op, rb));
                }
                Ok(())
            },
            Op::ShrReg(x, _y) => {
                let a = self.v[x as usize];
                self.v.set(x as usize, a / 2);
                self.v.set(15, a % 2);
                proof {
                    assert(self@ =~~= spec_exec_op(old(self)@, op, rb));
                }
                Ok(())
            },
            Op::SubnReg(x, y) => {
                let a = self.v[x as usize];
                let b = self.v[y as usize];
                let s = b as u16 + 256 - a as u16;
                let no_borrow: u8 = if b >= a {
                    1
                } else {
                    0
                };
                self.v.set(x as usize, (s % 256) as u8);
                self.v.set(15, no_borrow);
                proof {
                    assert(self@ =~~= spec_exec_op(old(self)@, op, rb));
                }
                Ok(())
            },
            Op::ShlReg(x, _y) => {
                let a = self.v[x as usize];
                let s = (a as u16) * 2;
                self.v.set(x as usize, (s % 256) as u8);
                self.v.set(15, a / 128);
                proof {
                    assert(self@ =~~= spec_exec_op(old(self)@, op, rb));
                }
                Ok(())
            },
            Op::SkipNeReg(x, y) => {
                if self.v[x as usize] != self.v[y as usize] {
                    self.pc = self.pc + 2;
                }
                proof {
                    assert(self@ =~~= spec_exec_op(old(self)@, op, rb));
                }
                Ok(())
            },
            Op::SetIndex(nnn) => {
                self.i = nnn;
                proof {
                    assert(self@ =~~= spec_exec_op(old(self)@, op, rb));
                }
                Ok(())
            },
            Op::JumpV0(nnn) => {
                self.pc = nnn + (self.v[0] as u16);
                proof {
                    assert(self@ =~~= spec_exec_op(old(self)@, op, rb));
                }
                Ok(())
            },
            Op::RandomMask(x, kk) => {
                self.v.set(x as usize, rb & kk);
                proof {
                    assert(self@ =~~= spec_exec_op(old(self)@, op, rb));
                }
                Ok(())
            },
            Op::DrawSprite(x, y, n) => {
                let i0 = self.i as usize;
                let nn = n as usize;
                if i0 + nn > MEM_SIZE {
                    self.halted = Some(VmError::OutOfBoundsMemoryAccess);
                    proof {
                        assert(self@ =~~= spec_exec_op(old(self)@, op, rb));
                    }
                    Err(VmError::OutOfBoundsMemoryAccess)
                } else {
                    let mut sprite: Vec<u8> = Vec::new();
                    let mut j: usize = 0;
                    while j < nn
                        invariant
                            j <= nn,
                            i0 + nn <= 4096,
                            self@ == old(self)@,
                            self@.mem.len() == 4096,
                            sprite@ == old(self)@.mem.subrange(i0 as int, i0 as int + j as int),
                        decreases nn - j,
                    {
                        sprite.push(self.mem[i0 + j]);
                        proof {
                            assert(sprite@ =~= old(self)@.mem.subrange(
                                i0 as int,
                                i0 as int + j as int + 1,
                            ));
                        }
                        j = j + 1;
                    }
                    let xv = self.v[x as usize];
                    let yv = self.v[y as usize];
                    let col = self.fb.draw(xv as usize, yv as usize, &sprite);
                    self.v.set(
                        15,
                        if col {
                            1
                        } else {
                            0
                        },
                    );
                    proof {
                        assert(self@ =~~= spec_exec_op(old(self)@, op, rb));
                    }
                    Ok(())
                }
            },
            Op::SkipKeyPressed(x) => {
                let key = self.v[x as usize] & 0xF;
                proof {
                    lemma_low_nibble(self.v@[x as int]);
                }
                if self.keys.is_pressed(key as usize) {
                    self.pc = self.pc + 2;
                }
                proof {
                    assert(self@ =~~= spec_exec_op(old(self)@, op, rb));
                }
                Ok(())
            },
            Op::SkipKeyNotPressed(x) => {
                let key = self.v[x as usize] & 0xF;
                proof {
                    lemma_low_nibble(self.v@[x as int]);
                }
                if !self.keys.is_pressed(key as usize) {
                    self.pc = self.pc + 2;
                }
                proof {
                    assert(self@ =~~= spec_exec_op(old(self)@, op, rb));
                }
                Ok(())
            },
            Op::ReadDelay(x) => {
                let d = self.delay;
                self.v.set(x as usize, d);
                proof {
                    assert(self@ =~~= spec_exec_op(old(self)@, op, rb));
                }
                Ok(())
            },
            Op::WaitKey(x) => {
                match self.keys.first_pressed() {
                    Some(k) => {
                        self.v.set(x as usize, k as u8);
                    },
                    None => {
                        self.pc = self.pc - 2;
                    },
                }
                proof {
                    assert(self@ =~~= spec_exec_op(old(self)@, op, rb));
                }
                Ok(())
            },
            Op::SetDelay(x) => {
                self.delay = self.v[x as usize];
                proof {
                    assert(self@ =~~= spec_exec_op(old(self)@, op, rb));
                }
                Ok(())
            },
            Op::SetSound(x) => {
                self.sound = self.v[x as usize];
                proof {
                    assert(self@ =~~= spec_exec_op(old(self)@, op, rb));
                }
                Ok(())
            },
            Op::AddIndex(x) => {
                let s = self.i + (self.v[x as usize] as u16);
                self.i = s & 0x0FFF;
                proof {
                    assert(s & 0x0FFF < 4096) by (bit_vector);
                    assert(self@ =~~= spec_exec_op(old(self)@, op, rb));
                }
                Ok(())
            },
            Op::FontChar(x) => {
                let d = self.v[x as usize] & 0xF;
                proof {
                    lemma_low_nibble(self.v@[x as int]);
                }
                self.i = 80 + (d as u16) * 5;
                proof {
                    assert(self@ =~~= spec_exec_op(old(self)@, op, rb));
                }
                Ok(())
            },
            Op::StoreBcd(x) => {
                let i0 = self.i as usize;
                if self.i < 512 || i0 + 3 > MEM_SIZE {
                    self.halted = Some(VmError::OutOfBoundsMemoryAccess);
                    proof {
                        assert(self@ =~~= spec_exec_op(old(self)@, op, rb));
                    }
                    Err(VmError::OutOfBoundsMemoryAccess)
                } else {
                    let a = self.v[x as usize];
                    self.mem.set(i0, a / 100);
                    self.mem.set(i0 + 1, (a / 10) % 10);
                    self.mem.set(i0 + 2, a % 10);
                    proof {
                        assert(self@ =~~= spec_exec_op(old(self)@, op, rb));
                    }
                    Ok(())
                }
            },
            Op::StoreRegs(x) => {
                let i0 = self.i as usize;
                let xx = x as usize;
                if self.i < 512 || i0 + xx + 1 > MEM_SIZE {
                    self.halted = Some(VmError::OutOfBoundsMemoryAccess);
                    proof {
                        assert(self@ =~~= spec_exec_op(old(self)@, op, rb));
                    }
                    Err(VmError::OutOfBoundsMemoryAccess)
                } else {
                    let mut j: usize = 0;
                    while j <= xx
                        invariant
                            j <= xx + 1,
                            xx < 16,
                            512 <= i0,
                            i0 + xx + 1 <= 4096,
                            self@ == (MachineModel { mem: self@.mem, ..old(self)@ }),
                            self@.mem.len() == 4096,
                            self@.v.len() == 16,
                            forall|t: int|
                                i0 <= t < i0 + j ==> self@.mem[t] == old(self)@.v[t - i0],
                            forall|t: int|
                                0 <= t < 4096 && !(i0 <= t < i0 + j) ==> self@.mem[t] == old(
                                    self,
                                )@.mem[t],
                        decreases xx + 1 - j,
                    {
                        let b = self.v[j];
                        self.mem.set(i0 + j, b);
                        j = j + 1;
                    }
                    proof {
                        assert(self@ =~~= spec_exec_op(old(self)@, op, rb));
                    }
                    Ok(())
                }
            },
            Op::LoadRegs(x) => {
                let i0 = self.i as usize;
                let xx = x as usize;
                if i0 + xx + 1 > MEM_SIZE {
                    self.halted = Some(VmError::OutOfBoundsMemoryAccess);
                    proof {
                        assert(self@ =~~= spec_exec_op(old(self)@, op, rb));
                    }
                    Err(VmError::OutOfBoundsMemoryAccess)
                } else {
                    let mut j: usize = 0;
                    while j <= xx
                        invariant
                            j <= xx + 1,
                            xx < 16,
                            i0 + xx + 1 <= 4096,
                            self@ == (MachineModel { v: self@.v, ..old(self)@ }),
                            self@.mem.len() == 4096,
                            self@.v.len() == 16,
                            forall|t: int| 0 <= t < j ==> self@.v[t] == old(self)@.mem[i0 + t],
                            forall|t: int| j <= t < 16 ==> self@.v[t] == old(self)@.v[t],
                        decreases xx + 1 - j,
                    {
                        let b = self.mem[i0 + j];
                        self.v.set(j, b);
                        j = j + 1;
                    }
                    proof {
                        assert(self@ =~~= spec_exec_op(old(self)@, op, rb));
                    }
                    Ok(())
                }
            },
        }
    }
}

/// The low nibble of a byte is below 16.
proof fn lemma_low_nibble(b: u8)
    ensures
        b & 0xF < 16,
{
    assert(b & 0xF < 16) by (bit_vector);
}

/// Call-stack depth discipline.
///
/// When the next instruction is a call, the call succeeds exactly when the
/// stack is below capacity, pushing the return address and growing the
/// depth by one; with the stack at capacity it halts the machine with
/// `StackOverflow` and leaves the stack unchanged. A return pops one
/// address when the stack is non-empty and halts with `StackUnderflow`
/// when it is empty. Since every successful call grows the depth by
/// exactly one, from an empty stack exactly `STACK_CAPACITY` consecutive
/// calls succeed and the next one fails.
pub proof fn lemma_stack_discipline(m: MachineModel, rb: u8)
    requires
        m.wf(),
        m.halted is None,
        m.pc + 1 < 4096,
    ensures
        spec_decode(fetch_word(m)) matches Ok(Op::Call(nnn)) ==> (if m.stack.len() < 16 {
            &&& spec_step(m, rb).halted is None
            &&& spec_step(m, rb).stack == m.stack.push((m.pc + 2) as u16)
            &&& spec_step(m, rb).stack.len() == m.stack.len() + 1
            &&& spec_step(m, rb).pc == nnn
        } else {
            &&& spec_step(m, rb).halted == Some(VmError::StackOverflow)
            &&& spec_step(m, rb).stack == m.stack
        }),
        spec_decode(fetch_word(m)) matches Ok(Op::Ret) ==> (if m.stack.len() > 0 {
            &&& spec_step(m, rb).halted is None
            &&& spec_step(m, rb).stack == m.stack.drop_last()
            &&& spec_step(m, rb).stack.len() == m.stack.len() - 1
            &&& spec_step(m, rb).pc == m.stack.last()
        } else {
            &&& spec_step(m, rb).halted == Some(VmError::StackUnderflow)
            &&& spec_step(m, rb).stack == m.stack
        }),
{
}

/// Sixteen zeroed registers.
fn zero_regs() -> (v: Vec<u8>)
    ensures
        v@ == Seq::new(16, |j: int| 0u8),
{
    let mut v: Vec<u8> = Vec::new();
    let mut j: usize = 0;
    while j < 16
        invariant
            j <= 16,
            v@.len() == j,
            forall|t: int| 0 <= t < j ==> v@[t] == 0u8,
        decreases 16 - j,
    {
        v.push(0);
        j = j + 1;
    }
    proof {
        assert(v@ =~= Seq::new(16, |j: int| 0u8));
    }
    v
}

/// The font table as bytes, equal to the [`font`] sequence.
fn font_bytes() -> (v: Vec<u8>)
    ensures
        v@ == font(),
{
    let mut v: Vec<u8> = Vec::new();
    v.push(0xF0); v.push(0x90); v.push(0x90); v.push(0x90); v.push(0xF0);
    v.push(0x20); v.push(0x60); v.push(0x20); v.push(0x20); v.push(0x70);
    v.push(0xF0); v.push(0x10); v.push(0xF0); v.push(0x80); v.push(0xF0);
    v.push(0xF0); v.push(0x10); v.push(0xF0); v.push(0x10); v.push(0xF0);
    v.push(0x90); v.push(0x90); v.push(0xF0); v.push(0x10); v.push(0x10);
    v.push(0xF0); v.push(0x80); v.push(0xF0); v.push(0x10); v.push(0xF0);
    v.push(0xF0); v.push(0x80); v.push(0xF0); v.push(0x90); v.push(0xF0);
    v.push(0xF0); v.push(0x10); v.push(0x20); v.push(0x40); v.push(0x40);
    v.push(0xF0); v.push(0x90); v.push(0xF0); v.push(0x90); v.push(0xF0);
    v.push(0xF0); v.push(0x90); v.push(0xF0); v.push(0x10); v.push(0xF0);
    v.push(0xF0); v.push(0x90); v.push(0xF0); v.push(0x90); v.push(0x90);
    v.push(0xE0); v.push(0x90); v.push(0xE0); v.push(0x90); v.push(0xE0);
    v.push(0xF0); v.push(0x80); v.push(0x80); v.push(0x80); v.push(0xF0);
    v.push(0xE0); v.push(0x90); v.push(0x90); v.push(0x90); v.push(0xE0);
    v.push(0xF0); v.push(0x80); v.push(0xF0); v.push(0x80); v.push(0xF0);
    v.push(0xF0); v.push(0x80); v.push(0xF0); v.push(0x80); v.push(0x80);
    proof {
        assert(v@ =~= font());
    }
    v
}

} // verus!

