//! The machine core: memory, registers, call stack, program counter, and
//! the fetch-decode-execute engine over the CHIP-8 instruction set.
//!
//! Decoding turns a 16-bit opcode into a structured [`Instr`]; execution
//! gives every instruction its historical bit-exact semantics, stated by
//! [`instr_post`]. Conditions the original architecture left undefined are
//! surfaced as [`Fault`]s instead of corrupting state: an unrecognized
//! opcode, call-stack overflow and underflow, a memory operand running past
//! the end of memory, and a key operand outside the 16-key pad.

use crate::audio::{spec_tick, Audio};
use crate::input::Keypad;
use crate::video::{
    cell_of, collided_before, draw_grid, lemma_cell_untouched, lemma_collided_step,
    lemma_touched_step, sprite_bit, sprite_collides, touched_before,
};
use crate::video::{font_seq, font_set, spec_clear, Display, GRID_LEN};
use rand::Rng;
use vstd::prelude::*;

verus! {

/// Bytes per instruction.
pub const OPCODE_LENGTH: usize = 2;

/// Bytes per font glyph, the stride of the font table.
pub const SPRITE_LENGTH: u16 = 5;

/// Size of memory.
pub const RAM_SIZE: usize = 4096;

/// Largest loadable program image: the space from the entry point to the
/// top of memory.
pub const ROM_SIZE: usize = 3584;

/// Where the program image is placed and where execution starts.
pub const PROGRAM_START: usize = 0x200;

/// Number of general-purpose registers.
pub const REGISTER_COUNT: usize = 16;

/// Call-stack capacity in return addresses.
pub const STACK_SIZE: usize = 16;

/// A condition that ends the run: the program is malformed or stepped
/// outside the machine's fixed limits. The original architecture leaves
/// all but the first undefined; they are reported rather than wrapped
/// silently.
#[derive(Clone, Copy, Debug, PartialEq, Eq, Structural)]
pub enum Fault {
    /// The fetched word matches no instruction; carries the address it
    /// was fetched from and its raw value.
    UnknownOpcode { addr: usize, opcode: u16 },
    /// A call was made with all 16 stack slots in use.
    StackOverflow,
    /// A return was executed with an empty call stack.
    StackUnderflow,
    /// A memory operand (sprite read, register store/load, digit store)
    /// runs past the end of memory.
    MemoryOutOfBounds,
    /// A key test named a key index above 0xF.
    KeyOutOfRange,
}

/// A decoded instruction. Operand names follow the historical convention:
/// `x`, `y` are register indices (always below 16), `kk` an 8-bit
/// immediate, `nnn` a 12-bit address, `n` a 4-bit sprite height.
#[derive(Clone, Copy, Debug, PartialEq, Eq, Structural)]
pub enum Instr {
    /// 0nnn: machine routine call, ignored.
    Sys(u16),
    /// 00E0: clear the framebuffer.
    Cls,
    /// 00EE: return from a subroutine.
    Ret,
    /// 1nnn: jump.
    Jp(u16),
    /// 2nnn: call a subroutine.
    Call(u16),
    /// 3xkk: skip next instruction if Vx == kk.
    SeByte(u8, u8),
    /// 4xkk: skip if Vx != kk.
    SneByte(u8, u8),
    /// 5xy0: skip if Vx == Vy.
    SeReg(u8, u8),
    /// 6xkk: Vx = kk.
    LdByte(u8, u8),
    /// 7xkk: Vx += kk, wrapping, no flag.
    AddByte(u8, u8),
    /// 8xy0: Vx = Vy.
    LdReg(u8, u8),
    /// 8xy1: Vx |= Vy.
    OrReg(u8, u8),
    /// 8xy2: Vx &= Vy.
    AndReg(u8, u8),
    /// 8xy3: Vx ^= Vy.
    XorReg(u8, u8),
    /// 8xy4: Vx += Vy, VF = carry.
    AddReg(u8, u8),
    /// 8xy5: Vx -= Vy, VF = not borrow.
    SubReg(u8, u8),
    /// 8xy6: VF = lowest bit of Vx, Vx >>= 1.
    ShrReg(u8, u8),
    /// 8xy7: Vx = Vy - Vx, VF = not borrow.
    SubnReg(u8, u8),
    /// 8xyE: VF = highest bit of Vx, Vx <<= 1.
    ShlReg(u8, u8),
    /// 9xy0: skip if Vx != Vy.
    SneReg(u8, u8),
    /// Annn: I = nnn.
    LdI(u16),
    /// Bnnn: jump to nnn + V0.
    JpV0(u16),
    /// Cxkk: Vx = random byte AND kk.
    Rnd(u8, u8),
    /// Dxyn: draw an n-row sprite from memory at I to (Vx, Vy).
    Drw(u8, u8, u8),
    /// Ex9E: skip if key Vx is pressed.
    Skp(u8),
    /// ExA1: skip if key Vx is not pressed.
    Sknp(u8),
    /// Fx07: Vx = delay timer.
    LdDelay(u8),
    /// Fx0A: block until a key release lands in Vx.
    WaitKey(u8),
    /// Fx15: delay timer = Vx.
    SetDelay(u8),
    /// Fx18: sound timer = Vx.
    SetSound(u8),
    /// Fx1E: I += Vx, wrapping 16-bit, no flag.
    AddI(u8),
    /// Fx29: I = font glyph address of digit Vx.
    LdFont(u8),
    /// Fx33: decimal digits of Vx to memory at I, I+1, I+2.
    Bcd(u8),
    /// Fx55: V0..=Vx to memory starting at I.
    StoreRegs(u8),
    /// Fx65: V0..=Vx from memory starting at I.
    LoadRegs(u8),
}

/// Register operands of a decoded instruction are genuine register
/// indices, and a sprite height fits in a nibble.
pub open spec fn instr_wf(instr: Instr) -> bool {
    match instr {
        Instr::Sys(_) => true,
        Instr::Cls => true,
        Instr::Ret => true,
        Instr::Jp(_) => true,
        Instr::Call(_) => true,
        Instr::SeByte(x, _) => x < 16,
        Instr::SneByte(x, _) => x < 16,
        Instr::SeReg(x, y) => x < 16 && y < 16,
        Instr::LdByte(x, _) => x < 16,
        Instr::AddByte(x, _) => x < 16,
        Instr::LdReg(x, y) => x < 16 && y < 16,
        Instr::OrReg(x, y) => x < 16 && y < 16,
        Instr::AndReg(x, y) => x < 16 && y < 16,
        Instr::XorReg(x, y) => x < 16 && y < 16,
        Instr::AddReg(x, y) => x < 16 && y < 16,
        Instr::SubReg(x, y) => x < 16 && y < 16,
        Instr::ShrReg(x, y) => x < 16 && y < 16,
        Instr::SubnReg(x, y) => x < 16 && y < 16,
        Instr::ShlReg(x, y) => x < 16 && y < 16,
        Instr::SneReg(x, y) => x < 16 && y < 16,
        Instr::LdI(_) => true,
        Instr::JpV0(_) => true,
        Instr::Rnd(x, _) => x < 16,
        Instr::Drw(x, y, n) => x < 16 && y < 16 && n < 16,
        Instr::Skp(x) => x < 16,
        Instr::Sknp(x) => x < 16,
        Instr::LdDelay(x) => x < 16,
        Instr::WaitKey(x) => x < 16,
        Instr::SetDelay(x) => x < 16,
        Instr::SetSound(x) => x < 16,
        Instr::AddI(x) => x < 16,
        Instr::LdFont(x) => x < 16,
        Instr::Bcd(x) => x < 16,
        Instr::StoreRegs(x) => x < 16,
        Instr::LoadRegs(x) => x < 16,
    }
}

/// The instruction a 16-bit word decodes to, if any. Dispatch is on the
/// top nibble, with the bottom nibble or byte distinguishing subcodes.
pub open spec fn spec_decode(op: u16) -> Option<Instr> {
    let n0 = op >> 12;
    let x = ((op >> 8) & 0xF) as u8;
    let y = ((op >> 4) & 0xF) as u8;
    let n = (op & 0xF) as u8;
    let kk = (op & 0xFF) as u8;
    let nnn = op & 0xFFF;
    if op == 0x00E0 {
        Some(Instr::Cls)
    } else if op == 0x00EE {
        Some(Instr::Ret)
    } else if n0 == 0x0 {
        Some(Instr::Sys(nnn))
    } else if n0 == 0x1 {
        Some(Instr::Jp(nnn))
    } else if n0 == 0x2 {
        Some(Instr::Call(nnn))
    } else if n0 == 0x3 {
        Some(Instr::SeByte(x, kk))
    } else if n0 == 0x4 {
        Some(Instr::SneByte(x, kk))
    } else if n0 == 0x5 && n == 0x0 {
        Some(Instr::SeReg(x, y))
    } else if n0 == 0x6 {
        Some(Instr::LdByte(x, kk))
    } else if n0 == 0x7 {
        Some(Instr::AddByte(x, kk))
    } else if n0 == 0x8 && n == 0x0 {
        Some(Instr::LdReg(x, y))
    } else if n0 == 0x8 && n == 0x1 {
        Some(Instr::OrReg(x, y))
    } else if n0 == 0x8 && n == 0x2 {
        Some(Instr::AndReg(x, y))
    } else if n0 == 0x8 && n == 0x3 {
        Some(Instr::XorReg(x, y))
    } else if n0 == 0x8 && n == 0x4 {
        Some(Instr::AddReg(x, y))
    } else if n0 == 0x8 && n == 0x5 {
        Some(Instr::SubReg(x, y))
    } else if n0 == 0x8 && n == 0x6 {
        Some(Instr::ShrReg(x, y))
    } else if n0 == 0x8 && n == 0x7 {
        Some(Instr::SubnReg(x, y))
    } else if n0 == 0x8 && n == 0xE {
        Some(Instr::ShlReg(x, y))
    } else if n0 == 0x9 && n == 0x0 {
        Some(Instr::SneReg(x, y))
    } else if n0 == 0xA {
        Some(Instr::LdI(nnn))
    } else if n0 == 0xB {
        Some(Instr::JpV0(nnn))
    } else if n0 == 0xC {
        Some(Instr::Rnd(x, kk))
    } else if n0 == 0xD {
        Some(Instr::Drw(x, y, n))
    } else if n0 == 0xE && kk == 0x9E {
        Some(Instr::Skp(x))
    } else if n0 == 0xE && kk == 0xA1 {
        Some(Instr::Sknp(x))
    } else if n0 == 0xF && kk == 0x07 {
        Some(Instr::LdDelay(x))
    } else if n0 == 0xF && kk == 0x0A {
        Some(Instr::WaitKey(x))
    } else if n0 == 0xF && kk == 0x15 {
        Some(Instr::SetDelay(x))
    } else if n0 == 0xF && kk == 0x18 {
        Some(Instr::SetSound(x))
    } else if n0 == 0xF && kk == 0x1E {
        Some(Instr::AddI(x))
    } else if n0 == 0xF && kk == 0x29 {
        Some(Instr::LdFont(x))
    } else if n0 == 0xF && kk == 0x33 {
        Some(Instr::Bcd(x))
    } else if n0 == 0xF && kk == 0x55 {
        Some(Instr::StoreRegs(x))
    } else if n0 == 0xF && kk == 0x65 {
        Some(Instr::LoadRegs(x))
    } else {
        None
    }
}

/// Decode a 16-bit word into a structured instruction, or nothing when
/// the word matches no instruction.
pub fn decode(op: u16) -> (r: Option<Instr>)
    ensures
        r == spec_decode(op),
        r matches Some(instr) ==> instr_wf(instr),
{
    proof {
        assert(((op >> 8) & 0xF) < 16 && ((op >> 4) & 0xF) < 16 && (op & 0xF) < 16)
            by (bit_vector);
    }
    let n0 = op >> 12;
    let x = ((op >> 8) & 0xF) as u8;
    let y = ((op >> 4) & 0xF) as u8;
    let n = (op & 0xF) as u8;
    let kk = (op & 0xFF) as u8;
    let nnn = op & 0xFFF;
    if op == 0x00E0 {
        Some(Instr::Cls)
    } else if op == 0x00EE {
        Some(Instr::Ret)
    } else if n0 == 0x0 {
        Some(Instr::Sys(nnn))
    } else if n0 == 0x1 {
        Some(Instr::Jp(nnn))
    } else if n0 == 0x2 {
        Some(Instr::Call(nnn))
    } else if n0 == 0x3 {
        Some(Instr::SeByte(x, kk))
    } else if n0 == 0x4 {
        Some(Instr::SneByte(x, kk))
    } else if n0 == 0x5 && n == 0x0 {
        Some(Instr::SeReg(x, y))
    } else if n0 == 0x6 {
        Some(Instr::LdByte(x, kk))
    } else if n0 == 0x7 {
        Some(Instr::AddByte(x, kk))
    } else if n0 == 0x8 && n == 0x0 {
        Some(Instr::LdReg(x, y))
    } else if n0 == 0x8 && n == 0x1 {
        Some(Instr::OrReg(x, y))
    } else if n0 == 0x8 && n == 0x2 {
        Some(Instr::AndReg(x, y))
    } else if n0 == 0x8 && n == 0x3 {
        Some(Instr::XorReg(x, y))
    } else if n0 == 0x8 && n == 0x4 {
        Some(Instr::AddReg(x, y))
    } else if n0 == 0x8 && n == 0x5 {
        Some(Instr::SubReg(x, y))
    } else if n0 == 0x8 && n == 0x6 {
        Some(Instr::ShrReg(x, y))
    } else if n0 == 0x8 && n == 0x7 {
        Some(Instr::SubnReg(x, y))
    } else if n0 == 0x8 && n == 0xE {
        Some(Instr::ShlReg(x, y))
    } else if n0 == 0x9 && n == 0x0 {
        Some(Instr::SneReg(x, y))
    } else if n0 == 0xA {
        Some(Instr::LdI(nnn))
    } else if n0 == 0xB {
        Some(Instr::JpV0(nnn))
    } else if n0 == 0xC {
        Some(Instr::Rnd(x, kk))
    } else if n0 == 0xD {
        Some(Instr::Drw(x, y, n))
    } else if n0 == 0xE && kk == 0x9E {
        Some(Instr::Skp(x))
    } else if n0 == 0xE && kk == 0xA1 {
        Some(Instr::Sknp(x))
    } else if n0 == 0xF && kk == 0x07 {
        Some(Instr::LdDelay(x))
    } else if n0 == 0xF && kk == 0x0A {
        Some(Instr::WaitKey(x))
    } else if n0 == 0xF && kk == 0x15 {
        Some(Instr::SetDelay(x))
    } else if n0 == 0xF && kk == 0x18 {
        Some(Instr::SetSound(x))
    } else if n0 == 0xF && kk == 0x1E {
        Some(Instr::AddI(x))
    } else if n0 == 0xF && kk == 0x29 {
        Some(Instr::LdFont(x))
    } else if n0 == 0xF && kk == 0x33 {
        Some(Instr::Bcd(x))
    } else if n0 == 0xF && kk == 0x55 {
        Some(Instr::StoreRegs(x))
    } else if n0 == 0xF && kk == 0x65 {
        Some(Instr::LoadRegs(x))
    } else {
        None
    }
}

/// The machine: memory, sixteen registers, the address register I, the
/// program counter, the call stack, and the three owned devices.
pub struct CPU {
    pub ram: Vec<u8>,
    pub pc: usize,
    pub v: Vec<u8>,
    pub i: u16,
    pub stack: Vec<usize>,
    pub sp: usize,
    pub keypad: Keypad,
    pub key_register: Option<usize>,
    pub audio: Audio,
    pub display: Display,
}

// ---------------------------------------------------------------------------
// Arithmetic helpers of the instruction semantics.
// ---------------------------------------------------------------------------

/// 8-bit wrapping sum.
pub open spec fn wrap_add(a: u8, b: u8) -> u8 {
    (((a + b) % 256) as u8)
}

/// 8-bit wrapping difference.
pub open spec fn wrap_sub(a: u8, b: u8) -> u8 {
    (((a - b) % 256) as u8)
}

/// Flag value: 1 when the condition holds, else 0.
pub open spec fn flag(cond: bool) -> u8 {
    if cond {
        1u8
    } else {
        0u8
    }
}

/// Where the program counter lands after a conditional skip: past two
/// instructions when the condition holds, past one otherwise.
pub open spec fn skip_target(pc: int, cond: bool) -> int {
    if cond {
        pc + 4
    } else {
        pc + 2
    }
}

/// The instruction word at the program counter: two bytes, big-endian.
pub open spec fn fetched(m: CPU) -> u16 {
    ((m.ram@[m.pc as int] as u16) << 8) | (m.ram@[m.pc + 1] as u16)
}

impl CPU {
    /// The fixed shapes of the machine: memory, register file and stack
    /// have their architectural sizes, the stack pointer stays within the
    /// stack, the devices are well formed, and a pending key-wait names a
    /// real register.
    pub open spec fn wf(&self) -> bool {
        &&& self.ram@.len() == RAM_SIZE
        &&& self.v@.len() == REGISTER_COUNT
        &&& self.stack@.len() == STACK_SIZE
        &&& self.sp <= STACK_SIZE
        &&& self.keypad.wf()
        &&& self.display.wf()
        &&& match self.key_register {
            Some(k) => k < REGISTER_COUNT,
            None => true,
        }
    }
}

// ---------------------------------------------------------------------------
// The semantic table. `pre` is the state the instruction sees (timers
// already counted down for this step), `aud` the timer state it sees and
// leaves unless it writes a timer, `post` the state it leaves.
// ---------------------------------------------------------------------------

/// Common case: registers, I and the program counter take the given
/// values; memory, stack, keypad, framebuffer and the key-wait state are
/// untouched; the timers stand at `aud`.
pub open spec fn post_core(pre: CPU, aud: Audio, post: CPU, v: Seq<u8>, i: u16, pc: int) -> bool {
    &&& post.v@ == v
    &&& post.i == i
    &&& post.pc == pc
    &&& post.audio == aud
    &&& post.ram@ == pre.ram@
    &&& post.stack@ == pre.stack@
    &&& post.sp == pre.sp
    &&& post.key_register == pre.key_register
    &&& post.keypad.pressed@ == pre.keypad.pressed@
    &&& post.keypad.last_released == pre.keypad.last_released
    &&& post.display@ == pre.display@
}

/// What executing one decoded instruction does, exactly: how `post`
/// relates to `pre` and which result comes back. Flag writes use the
/// operand values read before any register is written, so `x == 0xF`
/// resolves the way the write order of the original semantics does.
pub open spec fn instr_post(pre: CPU, aud: Audio, post: CPU, instr: Instr, r: Result<
    (),
    Fault,
>) -> bool {
    match instr {
        Instr::Sys(_) => r == Ok::<(), Fault>(()) && post_core(
            pre,
            aud,
            post,
            pre.v@,
            pre.i,
            pre.pc + 2,
        ),
        Instr::Cls => {
            &&& r == Ok::<(), Fault>(())
            &&& post.display@ == spec_clear(pre.display@)
            &&& post.v@ == pre.v@
            &&& post.i == pre.i
            &&& post.pc == pre.pc + 2
            &&& post.audio == aud
            &&& post.ram@ == pre.ram@
            &&& post.stack@ == pre.stack@
            &&& post.sp == pre.sp
            &&& post.key_register == pre.key_register
            &&& post.keypad.pressed@ == pre.keypad.pressed@
            &&& post.keypad.last_released == pre.keypad.last_released
        },
        Instr::Ret => if pre.sp > 0 {
            &&& r == Ok::<(), Fault>(())
            &&& post.pc == pre.stack@[pre.sp - 1]
            &&& post.sp == pre.sp - 1
            &&& post.v@ == pre.v@
            &&& post.i == pre.i
            &&& post.audio == aud
            &&& post.ram@ == pre.ram@
            &&& post.stack@ == pre.stack@
            &&& post.key_register == pre.key_register
            &&& post.keypad.pressed@ == pre.keypad.pressed@
            &&& post.keypad.last_released == pre.keypad.last_released
            &&& post.display@ == pre.display@
        } else {
            r == Err::<(), Fault>(Fault::StackUnderflow) && post_core(
                pre,
                aud,
                post,
                pre.v@,
                pre.i,
                pre.pc as int,
            )
        },
        Instr::Jp(nnn) => r == Ok::<(), Fault>(()) && post_core(
            pre,
            aud,
            post,
            pre.v@,
            pre.i,
            nnn as int,
        ),
        Instr::Call(nnn) => if pre.sp < STACK_SIZE {
            &&& r == Ok::<(), Fault>(())
            &&& post.pc == nnn
            &&& post.sp == pre.sp + 1
            &&& post.stack@ == pre.stack@.update(pre.sp as int, (pre.pc + 2) as usize)
            &&& post.v@ == pre.v@
            &&& post.i == pre.i
            &&& post.audio == aud
            &&& post.ram@ == pre.ram@
            &&& post.key_register == pre.key_register
            &&& post.keypad.pressed@ == pre.keypad.pressed@
            &&& post.keypad.last_released == pre.keypad.last_released
            &&& post.display@ == pre.display@
        } else {
            r == Err::<(), Fault>(Fault::StackOverflow) && post_core(
                pre,
                aud,
                post,
                pre.v@,
                pre.i,
                pre.pc as int,
            )
        },
        Instr::SeByte(x, kk) => r == Ok::<(), Fault>(()) && post_core(
            pre,
            aud,
            post,
            pre.v@,
            pre.i,
            skip_target(pre.pc as int, pre.v@[x as int] == kk),
        ),
        Instr::SneByte(x, kk) => r == Ok::<(), Fault>(()) && post_core(
            pre,
            aud,
            post,
            pre.v@,
            pre.i,
            skip_target(pre.pc as int, pre.v@[x as int] != kk),
        ),
        Instr::SeReg(x, y) => r == Ok::<(), Fault>(()) && post_core(
            pre,
            aud,
            post,
            pre.v@,
            pre.i,
            skip_target(pre.pc as int, pre.v@[x as int] == pre.v@[y as int]),
        ),
        Instr::LdByte(x, kk) => r == Ok::<(), Fault>(()) && post_core(
            pre,
            aud,
            post,
            pre.v@.update(x as int, kk),
            pre.i,
            pre.pc + 2,
        ),
        Instr::AddByte(x, kk) => r == Ok::<(), Fault>(()) && post_core(
            pre,
            aud,
            post,
            pre.v@.update(x as int, wrap_add(pre.v@[x as int], kk)),
            pre.i,
            pre.pc + 2,
        ),
        Instr::LdReg(x, y) => r == Ok::<(), Fault>(()) && post_core(
            pre,
            aud,
            post,
            pre.v@.update(x as int, pre.v@[y as int]),
            pre.i,
            pre.pc + 2,
        ),
        Instr::OrReg(x, y) => r == Ok::<(), Fault>(()) && post_core(
            pre,
            aud,
            post,
            pre.v@.update(x as int, pre.v@[x as int] | pre.v@[y as int]),
            pre.i,
            pre.pc + 2,
        ),
        Instr::AndReg(x, y) => r == Ok::<(), Fault>(()) && post_core(
            pre,
            aud,
            post,
            pre.v@.update(x as int, pre.v@[x as int] & pre.v@[y as int]),
            pre.i,
            pre.pc + 2,
        ),
        Instr::XorReg(x, y) => r == Ok::<(), Fault>(()) && post_core(
            pre,
            aud,
            post,
            pre.v@.update(x as int, pre.v@[x as int] ^ pre.v@[y as int]),
            pre.i,
            pre.pc + 2,
        ),
        Instr::AddReg(x, y) => r == Ok::<(), Fault>(()) && post_core(
            pre,
            aud,
            post,
            pre.v@.update(x as int, wrap_add(pre.v@[x as int], pre.v@[y as int])).update(
                0xF,
                flag(pre.v@[x as int] + pre.v@[y as int] > 255),
            ),
            pre.i,
            pre.pc + 2,
        ),
        Instr::SubReg(x, y) => r == Ok::<(), Fault>(()) && post_core(
            pre,
            aud,
            post,
            pre.v@.update(0xF, flag(pre.v@[x as int] > pre.v@[y as int])).update(
                x as int,
                wrap_sub(pre.v@[x as int], pre.v@[y as int]),
            ),
            pre.i,
            pre.pc + 2,
        ),
        Instr::ShrReg(x, _) => r == Ok::<(), Fault>(()) && post_core(
            pre,
            aud,
            post,
            pre.v@.update(0xF, (pre.v@[x as int] % 2) as u8).update(
                x as int,
                pre.v@[x as int] / 2,
            ),
            pre.i,
            pre.pc + 2,
        ),
        Instr::SubnReg(x, y) => r == Ok::<(), Fault>(()) && post_core(
            pre,
            aud,
            post,
            pre.v@.update(0xF, flag(pre.v@[y as int] > pre.v@[x as int])).update(
                x as int,
                wrap_sub(pre.v@[y as int], pre.v@[x as int]),
            ),
            pre.i,
            pre.pc + 2,
        ),
        Instr::ShlReg(x, _) => r == Ok::<(), Fault>(()) && post_core(
            pre,
            aud,
            post,
            pre.v@.update(0xF, pre.v@[x as int] / 128).update(
                x as int,
                wrap_add(pre.v@[x as int], pre.v@[x as int]),
            ),
            pre.i,
            pre.pc + 2,
        ),
        Instr::SneReg(x, y) => r == Ok::<(), Fault>(()) && post_core(
            pre,
            aud,
            post,
            pre.v@,
            pre.i,
            skip_target(pre.pc as int, pre.v@[x as int] != pre.v@[y as int]),
        ),
        Instr::LdI(nnn) => r == Ok::<(), Fault>(()) && post_core(
            pre,
            aud,
            post,
            pre.v@,
            nnn,
            pre.pc + 2,
        ),
        Instr::JpV0(nnn) => r == Ok::<(), Fault>(()) && post_core(
            pre,
            aud,
            post,
            pre.v@,
            pre.i,
            nnn + pre.v@[0],
        ),
        Instr::Rnd(x, kk) => r == Ok::<(), Fault>(()) && (exists|b: u8|
            post_core(pre, aud, post, pre.v@.update(x as int, b & kk), pre.i, pre.pc + 2)),
        Instr::Drw(x, y, n) => if pre.i + n <= RAM_SIZE {
            let sprite = pre.ram@.subrange(pre.i as int, pre.i + n);
            let vx = pre.v@[x as int] as int;
            let vy = pre.v@[y as int] as int;
            let g = pre.display@.grid;
            &&& r == Ok::<(), Fault>(())
            &&& post.display@.grid == draw_grid(g, sprite, vx, vy)
            &&& post.display@.dirty == (pre.display@.dirty || n > 0)
            &&& post.v@ == pre.v@.update(0xF, flag(sprite_collides(g, sprite, vx, vy)))
            &&& post.i == pre.i
            &&& post.pc == pre.pc + 2
            &&& post.audio == aud
            &&& post.ram@ == pre.ram@
            &&& post.stack@ == pre.stack@
            &&& post.sp == pre.sp
            &&& post.key_register == pre.key_register
            &&& post.keypad.pressed@ == pre.keypad.pressed@
            &&& post.keypad.last_released == pre.keypad.last_released
        } else {
            r == Err::<(), Fault>(Fault::MemoryOutOfBounds) && post_core(
                pre,
                aud,
                post,
                pre.v@,
                pre.i,
                pre.pc as int,
            )
        },
        Instr::Skp(x) => if pre.v@[x as int] < 16 {
            r == Ok::<(), Fault>(()) && post_core(
                pre,
                aud,
                post,
                pre.v@,
                pre.i,
                skip_target(pre.pc as int, pre.keypad.pressed@[pre.v@[x as int] as int]),
            )
        } else {
            r == Err::<(), Fault>(Fault::KeyOutOfRange) && post_core(
                pre,
                aud,
                post,
                pre.v@,
                pre.i,
                pre.pc as int,
            )
        },
        Instr::Sknp(x) => if pre.v@[x as int] < 16 {
            r == Ok::<(), Fault>(()) && post_core(
                pre,
                aud,
                post,
                pre.v@,
                pre.i,
                skip_target(pre.pc as int, !pre.keypad.pressed@[pre.v@[x as int] as int]),
            )
        } else {
            r == Err::<(), Fault>(Fault::KeyOutOfRange) && post_core(
                pre,
                aud,
                post,
                pre.v@,
                pre.i,
                pre.pc as int,
            )
        },
        Instr::LdDelay(x) => r == Ok::<(), Fault>(()) && post_core(
            pre,
            aud,
            post,
            pre.v@.update(x as int, aud.delay),
            pre.i,
            pre.pc + 2,
        ),
        Instr::WaitKey(x) => {
            &&& r == Ok::<(), Fault>(())
            &&& post.key_register == Some(x as usize)
            &&& post.v@ == pre.v@
            &&& post.i == pre.i
            &&& post.pc == pre.pc + 2
            &&& post.audio == aud
            &&& post.ram@ == pre.ram@
            &&& post.stack@ == pre.stack@
            &&& post.sp == pre.sp
            &&& post.keypad.pressed@ == pre.keypad.pressed@
            &&& post.keypad.last_released == pre.keypad.last_released
            &&& post.display@ == pre.display@
        },
        Instr::SetDelay(x) => {
            &&& r == Ok::<(), Fault>(())
            &&& post.audio == Audio { delay: pre.v@[x as int], sound: aud.sound }
            &&& post.v@ == pre.v@
            &&& post.i == pre.i
            &&& post.pc == pre.pc + 2
            &&& post.ram@ == pre.ram@
            &&& post.stack@ == pre.stack@
            &&& post.sp == pre.sp
            &&& post.key_register == pre.key_register
            &&& post.keypad.pressed@ == pre.keypad.pressed@
            &&& post.keypad.last_released == pre.keypad.last_released
            &&& post.display@ == pre.display@
        },
        Instr::SetSound(x) => {
            &&& r == Ok::<(), Fault>(())
            &&& post.audio == Audio { delay: aud.delay, sound: pre.v@[x as int] }
            &&& post.v@ == pre.v@
            &&& post.i == pre.i
            &&& post.pc == pre.pc + 2
            &&& post.ram@ == pre.ram@
            &&& post.stack@ == pre.stack@
            &&& post.sp == pre.sp
            &&& post.key_register == pre.key_register
            &&& post.keypad.pressed@ == pre.keypad.pressed@
            &&& post.keypad.last_released == pre.keypad.last_released
            &&& post.display@ == pre.display@
        },
        Instr::AddI(x) => r == Ok::<(), Fault>(()) && post_core(
            pre,
            aud,
            post,
            pre.v@,
            (((pre.i + pre.v@[x as int]) % 0x10000) as u16),
            pre.pc + 2,
        ),
        Instr::LdFont(x) => r == Ok::<(), Fault>(()) && post_core(
            pre,
            aud,
            post,
            pre.v@,
            ((pre.v@[x as int] * SPRITE_LENGTH) as u16),
            pre.pc + 2,
        ),
        Instr::Bcd(x) => if pre.i + 3 <= RAM_SIZE {
            let vx = pre.v@[x as int];
            &&& r == Ok::<(), Fault>(())
            &&& post.ram@ == pre.ram@.update(pre.i as int, vx / 100).update(
                pre.i + 1,
                ((vx % 100) / 10) as u8,
            ).update(pre.i + 2, (vx % 10) as u8)
            &&& post.v@ == pre.v@
            &&& post.i == pre.i
            &&& post.pc == pre.pc + 2
            &&& post.audio == aud
            &&& post.stack@ == pre.stack@
            &&& post.sp == pre.sp
            &&& post.key_register == pre.key_register
            &&& post.keypad.pressed@ == pre.keypad.pressed@
            &&& post.keypad.last_released == pre.keypad.last_released
            &&& post.display@ == pre.display@
        } else {
            r == Err::<(), Fault>(Fault::MemoryOutOfBounds) && post_core(
                pre,
                aud,
                post,
                pre.v@,
                pre.i,
                pre.pc as int,
            )
        },
        Instr::StoreRegs(x) => if pre.i + x + 1 <= RAM_SIZE {
            &&& r == Ok::<(), Fault>(())
            &&& post.ram@ == regs_to_ram(pre.ram@, pre.v@, pre.i as int, x as int)
            &&& post.v@ == pre.v@
            &&& post.i == pre.i
            &&& post.pc == pre.pc + 2
            &&& post.audio == aud
            &&& post.stack@ == pre.stack@
            &&& post.sp == pre.sp
            &&& post.key_register == pre.key_register
            &&& post.keypad.pressed@ == pre.keypad.pressed@
            &&& post.keypad.last_released == pre.keypad.last_released
            &&& post.display@ == pre.display@
        } else {
            r == Err::<(), Fault>(Fault::MemoryOutOfBounds) && post_core(
                pre,
                aud,
                post,
                pre.v@,
                pre.i,
                pre.pc as int,
            )
        },
        Instr::LoadRegs(x) => if pre.i + x + 1 <= RAM_SIZE {
            r == Ok::<(), Fault>(()) && post_core(
                pre,
                aud,
                post,
                ram_to_regs(pre.v@, pre.ram@, pre.i as int, x as int),
                pre.i,
                pre.pc + 2,
            )
        } else {
            r == Err::<(), Fault>(Fault::MemoryOutOfBounds) && post_core(
                pre,
                aud,
                post,
                pre.v@,
                pre.i,
                pre.pc as int,
            )
        },
    }
}

/// Memory after storing registers V0..=Vx at address `i`: the covered
/// span holds the registers, everything else keeps its bytes.
pub open spec fn regs_to_ram(ram: Seq<u8>, v: Seq<u8>, i: int, x: int) -> Seq<u8> {
    Seq::new(
        ram.len(),
        |j: int|
            if i <= j <= i + x {
                v[j - i]
            } else {
                ram[j]
            },
    )
}

/// The register file after loading V0..=Vx from address `i`: the low
/// registers take the bytes at `i`, the rest keep their values.
pub open spec fn ram_to_regs(v: Seq<u8>, ram: Seq<u8>, i: int, x: int) -> Seq<u8> {
    Seq::new(
        v.len(),
        |j: int|
            if 0 <= j <= x {
                ram[i + j]
            } else {
                v[j]
            },
    )
}

/// How long a prefix of the program image actually fits between the entry
/// point and the top of memory; anything longer is truncated silently, a
/// loader policy rather than a machine fault.
pub open spec fn rom_span(rom: Seq<u8>) -> int {
    if rom.len() < ROM_SIZE {
        rom.len() as int
    } else {
        ROM_SIZE as int
    }
}

/// Memory as a freshly built machine holds it: the font table at the
/// bottom, the program image at the entry point, zero elsewhere.
pub open spec fn loaded_ram(rom: Seq<u8>) -> Seq<u8> {
    Seq::new(
        RAM_SIZE as nat,
        |j: int|
            if j < crate::video::FONT_LEN {
                font_seq()[j]
            } else if PROGRAM_START <= j < PROGRAM_START + rom_span(rom) {
                rom[j - PROGRAM_START]
            } else {
                0u8
            },
    )
}

/// Relies on rand::thread_rng and rand::Rng::gen: one byte from the
/// thread-local generator. Nothing is assumed about its value; callers
/// state what holds of every byte.
#[verifier::external_body]
fn random_byte() -> u8 {
    rand::thread_rng().gen::<u8>()
}

impl CPU {
    /// Build a machine around a program image: font at the bottom of
    /// memory, the image (truncated to the available space) at the entry
    /// point, everything else zeroed, and all devices in their initial
    /// state.
    pub fn new(rom: &Vec<u8>) -> (c: CPU)
        ensures
            c.wf(),
            c.pc == PROGRAM_START,
            c.i == 0,
            c.sp == 0,
            c.v@ == Seq::new(REGISTER_COUNT as nat, |j: int| 0u8),
            c.stack@ == Seq::new(STACK_SIZE as nat, |j: int| 0usize),
            c.key_register is None,
            c.audio.delay == 0 && c.audio.sound == 0,
            c.keypad.pressed@ == Seq::new(crate::input::KEY_COUNT as nat, |j: int| false),
            c.keypad.last_released is None,
            c.display@.grid == Seq::new(GRID_LEN as nat, |j: int| false),
            c.display@.dirty == false,
            c.ram@ == loaded_ram(rom@),
    {
        let mut ram = font_set();
        proof {
            assert(font_seq().len() == crate::video::FONT_LEN);
        }
        while ram.len() < PROGRAM_START
            invariant
                crate::video::FONT_LEN <= ram@.len() <= PROGRAM_START,
                forall|j: int| 0 <= j < crate::video::FONT_LEN ==> ram@[j] == font_seq()[j],
                forall|j: int| crate::video::FONT_LEN <= j < ram@.len() ==> ram@[j] == 0u8,
            decreases PROGRAM_START - ram.len(),
        {
            ram.push(0);
        }
        let limit = if rom.len() < ROM_SIZE {
            rom.len()
        } else {
            ROM_SIZE
        };
        let mut k: usize = 0;
        while k < limit
            invariant
                k <= limit,
                limit == rom_span(rom@),
                ram@.len() == PROGRAM_START + k,
                forall|j: int| 0 <= j < crate::video::FONT_LEN ==> ram@[j] == font_seq()[j],
                forall|j: int| crate::video::FONT_LEN <= j < PROGRAM_START ==> ram@[j] == 0u8,
                forall|j: int| 0 <= j < k ==> ram@[PROGRAM_START + j] == rom@[j],
            decreases limit - k,
        {
            ram.push(rom[k]);
            k = k + 1;
        }
        while ram.len() < RAM_SIZE
            invariant
                PROGRAM_START + rom_span(rom@) <= ram@.len() <= RAM_SIZE,
                forall|j: int| 0 <= j < crate::video::FONT_LEN ==> ram@[j] == font_seq()[j],
                forall|j: int| crate::video::FONT_LEN <= j < PROGRAM_START ==> ram@[j] == 0u8,
                forall|j: int|
                    0 <= j < rom_span(rom@) ==> ram@[PROGRAM_START + j] == rom@[j],
                forall|j: int|
                    PROGRAM_START + rom_span(rom@) <= j < ram@.len() ==> ram@[j] == 0u8,
            decreases RAM_SIZE - ram.len(),
        {
            ram.push(0);
        }
        let mut v: Vec<u8> = Vec::new();
        let mut j: usize = 0;
        while j < REGISTER_COUNT
            invariant
                j <= REGISTER_COUNT,
                v@ == Seq::new(j as nat, |m: int| 0u8),
            decreases REGISTER_COUNT - j,
        {
            v.push(0);
            proof {
                assert(v@ =~= Seq::new((j + 1) as nat, |m: int| 0u8));
            }
            j = j + 1;
        }
        let mut stack: Vec<usize> = Vec::new();
        let mut s: usize = 0;
        while s < STACK_SIZE
            invariant
                s <= STACK_SIZE,
                stack@ == Seq::new(s as nat, |m: int| 0usize),
            decreases STACK_SIZE - s,
        {
            stack.push(0);
            proof {
                assert(stack@ =~= Seq::new((s + 1) as nat, |m: int| 0usize));
            }
            s = s + 1;
        }
        let c = CPU {
            ram,
            pc: PROGRAM_START,
            v,
            i: 0,
            stack,
            sp: 0,
            keypad: Keypad::new(),
            key_register: None,
            audio: Audio::new(),
            display: Display::new(),
        };
        proof {
            assert(c.ram@ =~= loaded_ram(rom@));
        }
        c
    }

    /// Advance the program counter past the current instruction.
    fn next(&mut self)
        requires
            old(self).pc + 2 <= RAM_SIZE,
        ensures
            *final(self) == (CPU { pc: (old(self).pc + 2) as usize, ..*old(self) }),
    {
        self.pc = self.pc + OPCODE_LENGTH;
    }

    /// Advance the program counter past the next instruction too when the
    /// condition holds, else just past the current one.
    fn skip_if(&mut self, condition: bool)
        requires
            old(self).pc + 2 <= RAM_SIZE,
        ensures
            *final(self) == (CPU {
                pc: if condition {
                    (old(self).pc + 4) as usize
                } else {
                    (old(self).pc + 2) as usize
                },
                ..*old(self)
            }),
    {
        if condition {
            self.pc = self.pc + OPCODE_LENGTH * 2;
        } else {
            self.pc = self.pc + OPCODE_LENGTH;
        }
    }

    /// 0nnn: historical machine-routine call, ignored.
    pub fn op_0nnn(&mut self, _nnn: u16)
        requires
            old(self).wf(),
            old(self).pc + 2 <= RAM_SIZE,
        ensures
            final(self).wf(),
            post_core(*old(self), old(self).audio, *final(self), old(self).v@, old(self).i, old(self).pc + 2),
    {
        self.next();
    }

    /// 00E0: clear the framebuffer.
    pub fn op_00e0(&mut self)
        requires
            old(self).wf(),
            old(self).pc + 2 <= RAM_SIZE,
        ensures
            final(self).wf(),
            instr_post(*old(self), old(self).audio, *final(self), Instr::Cls, Ok(())),
    {
        self.display.clear();
        self.next();
    }

    /// 00EE: return from a subroutine by popping the stack into the
    /// program counter; an empty stack is reported, not wrapped.
    pub fn op_00ee(&mut self) -> (r: Result<(), Fault>)
        requires
            old(self).wf(),
        ensures
            final(self).wf(),
            instr_post(*old(self), old(self).audio, *final(self), Instr::Ret, r),
    {
        if self.sp == 0 {
            return Err(Fault::StackUnderflow);
        }
        self.sp = self.sp - 1;
        self.pc = self.stack[self.sp];
        Ok(())
    }

    /// 1nnn: absolute jump, no +2 advance.
    pub fn op_1nnn(&mut self, nnn: u16)
        requires
            old(self).wf(),
        ensures
            final(self).wf(),
            post_core(*old(self), old(self).audio, *final(self), old(self).v@, old(self).i, nnn as int),
    {
        self.pc = nnn as usize;
    }

    /// 2nnn: call a subroutine: push the address after the call site,
    /// jump to nnn; a full stack is reported, not wrapped.
    pub fn op_2nnn(&mut self, nnn: u16) -> (r: Result<(), Fault>)
        requires
            old(self).wf(),
            old(self).pc + 2 <= RAM_SIZE,
        ensures
            final(self).wf(),
            instr_post(*old(self), old(self).audio, *final(self), Instr::Call(nnn), r),
    {
        if self.sp >= STACK_SIZE {
            return Err(Fault::StackOverflow);
        }
        self.stack[self.sp] = self.pc + OPCODE_LENGTH;
        self.sp = self.sp + 1;
        self.pc = nnn as usize;
        Ok(())
    }

    /// 3xkk: skip the next instruction if Vx == kk.
    pub fn op_3xkk(&mut self, x: usize, kk: u8)
        requires
            old(self).wf(),
            x < REGISTER_COUNT,
            old(self).pc + 2 <= RAM_SIZE,
        ensures
            final(self).wf(),
            post_core(
                *old(self),
                old(self).audio,
                *final(self),
                old(self).v@,
                old(self).i,
                skip_target(old(self).pc as int, old(self).v@[x as int] == kk),
            ),
    {
        let cond = self.v[x] == kk;
        self.skip_if(cond);
    }

    /// 4xkk: skip if Vx != kk.
    pub fn op_4xkk(&mut self, x: usize, kk: u8)
        requires
            old(self).wf(),
            x < REGISTER_COUNT,
            old(self).pc + 2 <= RAM_SIZE,
        ensures
            final(self).wf(),
            post_core(
                *old(self),
                old(self).audio,
                *final(self),
                old(self).v@,
                old(self).i,
                skip_target(old(self).pc as int, old(self).v@[x as int] != kk),
            ),
    {
        let cond = self.v[x] != kk;
        self.skip_if(cond);
    }

    /// 5xy0: skip if Vx == Vy.
    pub fn op_5xy0(&mut self, x: usize, y: usize)
        requires
            old(self).wf(),
            x < REGISTER_COUNT,
            y < REGISTER_COUNT,
            old(self).pc + 2 <= RAM_SIZE,
        ensures
            final(self).wf(),
            post_core(
                *old(self),
                old(self).audio,
                *final(self),
                old(self).v@,
                old(self).i,
                skip_target(old(self).pc as int, old(self).v@[x as int] == old(self).v@[y as int]),
            ),
    {
        let cond = self.v[x] == self.v[y];
        self.skip_if(cond);
    }

    /// 6xkk: Vx = kk.
    pub fn op_6xkk(&mut self, x: usize, kk: u8)
        requires
            old(self).wf(),
            x < REGISTER_COUNT,
            old(self).pc + 2 <= RAM_SIZE,
        ensures
            final(self).wf(),
            post_core(
                *old(self),
                old(self).audio,
                *final(self),
                old(self).v@.update(x as int, kk),
                old(self).i,
                old(self).pc + 2,
            ),
    {
        self.v[x] = kk;
        self.next();
    }

    /// 7xkk: Vx += kk, wrapping modulo 256, no flag.
    pub fn op_7xkk(&mut self, x: usize, kk: u8)
        requires
            old(self).wf(),
            x < REGISTER_COUNT,
            old(self).pc + 2 <= RAM_SIZE,
        ensures
            final(self).wf(),
            post_core(
                *old(self),
                old(self).audio,
                *final(self),
                old(self).v@.update(x as int, wrap_add(old(self).v@[x as int], kk)),
                old(self).i,
                old(self).pc + 2,
            ),
    {
        let vx = self.v[x];
        let sum: u16 = vx as u16 + kk as u16;
        let val: u8 = #[verifier::truncate] (sum as u8);
        proof {
            assert(val == sum % 256) by (bit_vector)
                requires val == #[verifier::truncate] (sum as u8);
        }
        self.v[x] = val;
        self.next();
    }

    /// 8xy0: Vx = Vy.
    pub fn op_8xy0(&mut self, x: usize, y: usize)
        requires
            old(self).wf(),
            x < REGISTER_COUNT,
            y < REGISTER_COUNT,
            old(self).pc + 2 <= RAM_SIZE,
        ensures
            final(self).wf(),
            post_core(
                *old(self),
                old(self).audio,
                *final(self),
                old(self).v@.update(x as int, old(self).v@[y as int]),
                old(self).i,
                old(self).pc + 2,
            ),
    {
        self.v[x] = self.v[y];
        self.next();
    }

    /// 8xy1: Vx |= Vy.
    pub fn op_8xy1(&mut self, x: usize, y: usize)
        requires
            old(self).wf(),
            x < REGISTER_COUNT,
            y < REGISTER_COUNT,
            old(self).pc + 2 <= RAM_SIZE,
        ensures
            final(self).wf(),
            post_core(
                *old(self),
                old(self).audio,
                *final(self),
                old(self).v@.update(x as int, old(self).v@[x as int] | old(self).v@[y as int]),
                old(self).i,
                old(self).pc + 2,
            ),
    {
        let vy = self.v[y];
        self.v[x] = self.v[x] | vy;
        self.next();
    }

    /// 8xy2: Vx &= Vy.
    pub fn op_8xy2(&mut self, x: usize, y: usize)
        requires
            old(self).wf(),
            x < REGISTER_COUNT,
            y < REGISTER_COUNT,
            old(self).pc + 2 <= RAM_SIZE,
        ensures
            final(self).wf(),
            post_core(
                *old(self),
                old(self).audio,
                *final(self),
                old(self).v@.update(x as int, old(self).v@[x as int] & old(self).v@[y as int]),
                old(self).i,
                old(self).pc + 2,
            ),
    {
        let vy = self.v[y];
        self.v[x] = self.v[x] & vy;
        self.next();
    }

    /// 8xy3: Vx ^= Vy.
    pub fn op_8xy3(&mut self, x: usize, y: usize)
        requires
            old(self).wf(),
            x < REGISTER_COUNT,
            y < REGISTER_COUNT,
            old(self).pc + 2 <= RAM_SIZE,
        ensures
            final(self).wf(),
            post_core(
                *old(self),
                old(self).audio,
                *final(self),
                old(self).v@.update(x as int, old(self).v@[x as int] ^ old(self).v@[y as int]),
                old(self).i,
                old(self).pc + 2,
            ),
    {
        let vy = self.v[y];
        self.v[x] = self.v[x] ^ vy;
        self.next();
    }

    /// 8xy4: Vx += Vy; VF = 1 exactly when the unwrapped sum exceeds 255.
    /// Both operands are read before either register is written.
    pub fn op_8xy4(&mut self, x: usize, y: usize)
        requires
            old(self).wf(),
            x < REGISTER_COUNT,
            y < REGISTER_COUNT,
            old(self).pc + 2 <= RAM_SIZE,
        ensures
            final(self).wf(),
            post_core(
                *old(self),
                old(self).audio,
                *final(self),
                old(self).v@.update(
                    x as int,
                    wrap_add(old(self).v@[x as int], old(self).v@[y as int]),
                ).update(0xF, flag(old(self).v@[x as int] + old(self).v@[y as int] > 255)),
                old(self).i,
                old(self).pc + 2,
            ),
    {
        let sum = self.v[x] as u16 + self.v[y] as u16;
        let val: u8 = #[verifier::truncate] (sum as u8);
        proof {
            assert(val == sum % 256) by (bit_vector)
                requires val == #[verifier::truncate] (sum as u8);
        }
        self.v[x] = val;
        self.v[0xF] = if sum > 0xFF {
            1
        } else {
            0
        };
        self.next();
    }

    /// 8xy5: VF = 1 exactly when Vx > Vy before the subtraction (the
    /// "not borrow" flag), then Vx -= Vy wrapping.
    pub fn op_8xy5(&mut self, x: usize, y: usize)
        requires
            old(self).wf(),
            x < REGISTER_COUNT,
            y < REGISTER_COUNT,
            old(self).pc + 2 <= RAM_SIZE,
        ensures
            final(self).wf(),
            post_core(
                *old(self),
                old(self).audio,
                *final(self),
                old(self).v@.update(0xF, flag(old(self).v@[x as int] > old(self).v@[y as int]))
                    .update(
                    x as int,
                    wrap_sub(old(self).v@[x as int], old(self).v@[y as int]),
                ),
                old(self).i,
                old(self).pc + 2,
            ),
    {
        let vx = self.v[x];
        let vy = self.v[y];
        self.v[0xF] = if vx > vy {
            1
        } else {
            0
        };
        self.v[x] = if vx >= vy {
            vx - vy
        } else {
            ((vx as u16 + 256 - vy as u16) as u8)
        };
        self.next();
    }

    /// 8xy6: VF = lowest bit of Vx, then Vx is halved.
    pub fn op_8xy6(&mut self, x: usize, _y: usize)
        requires
            old(self).wf(),
            x < REGISTER_COUNT,
            old(self).pc + 2 <= RAM_SIZE,
        ensures
            final(self).wf(),
            post_core(
                *old(self),
                old(self).audio,
                *final(self),
                old(self).v@.update(0xF, (old(self).v@[x as int] % 2) as u8).update(
                    x as int,
                    old(self).v@[x as int] / 2,
                ),
                old(self).i,
                old(self).pc + 2,
            ),
    {
        let vx = self.v[x];
        self.v[0xF] = vx % 2;
        self.v[x] = vx / 2;
        self.next();
    }

    /// 8xy7: VF = 1 exactly when Vy > Vx, then Vx = Vy - Vx wrapping.
    pub fn op_8xy7(&mut self, x: usize, y: usize)
        requires
            old(self).wf(),
            x < REGISTER_COUNT,
            y < REGISTER_COUNT,
            old(self).pc + 2 <= RAM_SIZE,
        ensures
            final(self).wf(),
            post_core(
                *old(self),
                old(self).audio,
                *final(self),
                old(self).v@.update(0xF, flag(old(self).v@[y as int] > old(self).v@[x as int]))
                    .update(
                    x as int,
                    wrap_sub(old(self).v@[y as int], old(self).v@[x as int]),
                ),
                old(self).i,
                old(self).pc + 2,
            ),
    {
        let vx = self.v[x];
        let vy = self.v[y];
        self.v[0xF] = if vy > vx {
            1
        } else {
            0
        };
        self.v[x] = if vy >= vx {
            vy - vx
        } else {
            ((vy as u16 + 256 - vx as u16) as u8)
        };
        self.next();
    }

    /// 8xyE: VF = highest bit of Vx, then Vx is doubled, truncated to
    /// eight bits.
    pub fn op_8xye(&mut self, x: usize, _y: usize)
        requires
            old(self).wf(),
            x < REGISTER_COUNT,
            old(self).pc + 2 <= RAM_SIZE,
        ensures
            final(self).wf(),
            post_core(
                *old(self),
                old(self).audio,
                *final(self),
                old(self).v@.update(0xF, old(self).v@[x as int] / 128).update(
                    x as int,
                    wrap_add(old(self).v@[x as int], old(self).v@[x as int]),
                ),
                old(self).i,
                old(self).pc + 2,
            ),
    {
        let vx = self.v[x];
        let sum: u16 = vx as u16 + vx as u16;
        let val: u8 = #[verifier::truncate] (sum as u8);
        proof {
            assert(val == sum % 256) by (bit_vector)
                requires val == #[verifier::truncate] (sum as u8);
        }
        self.v[0xF] = vx / 128;
        self.v[x] = val;
        self.next();
    }

    /// 9xy0: skip if Vx != Vy.
    pub fn op_9xy0(&mut self, x: usize, y: usize)
        requires
            old(self).wf(),
            x < REGISTER_COUNT,
            y < REGISTER_COUNT,
            old(self).pc + 2 <= RAM_SIZE,
        ensures
            final(self).wf(),
            post_core(
                *old(self),
                old(self).audio,
                *final(self),
                old(self).v@,
                old(self).i,
                skip_target(old(self).pc as int, old(self).v@[x as int] != old(self).v@[y as int]),
            ),
    {
        let cond = self.v[x] != self.v[y];
        self.skip_if(cond);
    }

    /// Annn: I = nnn.
    pub fn op_annn(&mut self, nnn: u16)
        requires
            old(self).wf(),
            old(self).pc + 2 <= RAM_SIZE,
        ensures
            final(self).wf(),
            post_core(
                *old(self),
                old(self).audio,
                *final(self),
                old(self).v@,
                nnn,
                old(self).pc + 2,
            ),
    {
        self.i = nnn;
        self.next();
    }

    /// Bnnn: jump to nnn + V0, no +2 advance.
    pub fn op_bnnn(&mut self, nnn: u16)
        requires
            old(self).wf(),
        ensures
            final(self).wf(),
            post_core(
                *old(self),
                old(self).audio,
                *final(self),
                old(self).v@,
                old(self).i,
                nnn + old(self).v@[0],
            ),
    {
        self.pc = nnn as usize + self.v[0x0] as usize;
    }

    /// Cxkk: Vx = random byte AND kk. The byte comes from the host's
    /// generator; every outcome satisfies the masking contract.
    pub fn op_cxkk(&mut self, x: usize, kk: u8)
        requires
            old(self).wf(),
            x < REGISTER_COUNT,
            old(self).pc + 2 <= RAM_SIZE,
        ensures
            final(self).wf(),
            exists|b: u8|
                post_core(
                    *old(self),
                    old(self).audio,
                    *final(self),
                    old(self).v@.update(x as int, b & kk),
                    old(self).i,
                    old(self).pc + 2,
                ),
    {
        let b = random_byte();
        self.op_cxkk_with(x, kk, b);
        proof {
            assert(post_core(
                *old(self),
                old(self).audio,
                *self,
                old(self).v@.update(x as int, b & kk),
                old(self).i,
                old(self).pc + 2,
            ));
        }
    }

    /// The deterministic rest of Cxkk, for a given byte: Vx = b AND kk.
    pub fn op_cxkk_with(&mut self, x: usize, kk: u8, b: u8)
        requires
            old(self).wf(),
            x < REGISTER_COUNT,
            old(self).pc + 2 <= RAM_SIZE,
        ensures
            final(self).wf(),
            post_core(
                *old(self),
                old(self).audio,
                *final(self),
                old(self).v@.update(x as int, b & kk),
                old(self).i,
                old(self).pc + 2,
            ),
    {
        self.v[x] = b & kk;
        self.next();
    }

    /// Dxyn: XOR an n-row sprite read from memory at I onto the grid at
    /// (Vx, Vy), wrapping coordinates; VF reports whether any set sprite
    /// bit landed on an already set pixel. A sprite running past the end
    /// of memory is reported.
    pub fn op_dxyn(&mut self, x: usize, y: usize, n: u8) -> (r: Result<(), Fault>)
        requires
            old(self).wf(),
            x < REGISTER_COUNT,
            y < REGISTER_COUNT,
            n < 16,
            old(self).pc + 2 <= RAM_SIZE,
        ensures
            final(self).wf(),
            instr_post(
                *old(self),
                old(self).audio,
                *final(self),
                Instr::Drw(x as u8, y as u8, n),
                r,
            ),
    {
        let i = self.i as usize;
        if i + n as usize > RAM_SIZE {
            return Err(Fault::MemoryOutOfBounds);
        }
        let vx = self.v[x] as usize;
        let vy = self.v[y] as usize;
        let ghost sprite = self.ram@.subrange(self.i as int, self.i + n as int);
        let ghost g0 = self.display@.grid;
        let ghost pre = *self;
        let mut vf = false;
        let mut yline: usize = 0;
        while yline < n as usize
            invariant
                self.wf(),
                x < REGISTER_COUNT,
                y < REGISTER_COUNT,
                n < 16,
                yline <= n,
                i == self.i as usize,
                i + n <= RAM_SIZE,
                vx == self.v@[x as int] as int,
                vy == self.v@[y as int] as int,
                sprite == self.ram@.subrange(self.i as int, self.i + n as int),
                sprite.len() == n as int,
                g0.len() == GRID_LEN,
                self.ram@ == pre.ram@,
                self.v@ == pre.v@,
                self.pc == pre.pc,
                self.i == pre.i,
                self.stack@ == pre.stack@,
                self.sp == pre.sp,
                self.key_register == pre.key_register,
                self.keypad.pressed@ == pre.keypad.pressed@,
                self.keypad.last_released == pre.keypad.last_released,
                self.audio == pre.audio,
                g0 == pre.display@.grid,
                self.display@.dirty == (pre.display@.dirty || yline > 0),
                forall|idx: int|
                    0 <= idx < GRID_LEN ==> self.display@.grid[idx] == (if touched_before(
                        sprite,
                        vx as int,
                        vy as int,
                        8 * (yline as int),
                        idx,
                    ) {
                        !g0[idx]
                    } else {
                        g0[idx]
                    }),
                vf == collided_before(g0, sprite, vx as int, vy as int, 8 * (yline as int)),
            decreases n - yline,
        {
            let pixels = self.ram[i + yline];
            proof {
                assert(pixels == sprite[yline as int]);
            }
            let mut xline: usize = 0;
            while xline < 8
                invariant
                    self.wf(),
                    x < REGISTER_COUNT,
                    y < REGISTER_COUNT,
                    n < 16,
                    yline < n,
                    xline <= 8,
                    i == self.i as usize,
                    i + n <= RAM_SIZE,
                    vx == self.v@[x as int] as int,
                    vy == self.v@[y as int] as int,
                    sprite == self.ram@.subrange(self.i as int, self.i + n as int),
                    sprite.len() == n as int,
                    g0.len() == GRID_LEN,
                    pixels == sprite[yline as int],
                    self.ram@ == pre.ram@,
                    self.v@ == pre.v@,
                    self.pc == pre.pc,
                    self.i == pre.i,
                    self.stack@ == pre.stack@,
                    self.sp == pre.sp,
                    self.key_register == pre.key_register,
                    self.keypad.pressed@ == pre.keypad.pressed@,
                    self.keypad.last_released == pre.keypad.last_released,
                    self.audio == pre.audio,
                    g0 == pre.display@.grid,
                    self.display@.dirty == (pre.display@.dirty || yline > 0 || xline > 0),
                    forall|idx: int|
                        0 <= idx < GRID_LEN ==> self.display@.grid[idx] == (if touched_before(
                            sprite,
                            vx as int,
                            vy as int,
                            8 * (yline as int) + xline as int,
                            idx,
                        ) {
                            !g0[idx]
                        } else {
                            g0[idx]
                        }),
                    vf == collided_before(
                        g0,
                        sprite,
                        vx as int,
                        vy as int,
                        8 * (yline as int) + xline as int,
                    ),
                decreases 8 - xline,
            {
                let sx = vx + xline;
                let sy = vy + yline;
                let shift: u8 = (7 - xline) as u8;
                let fill = ((pixels >> shift) & 1) == 1;
                proof {
                    assert(fill == sprite_bit(sprite[yline as int], xline as int));
                    lemma_cell_untouched(
                        sprite,
                        vx as int,
                        vy as int,
                        yline as int,
                        xline as int,
                    );
                }
                let ghost gcur = self.display@.grid;
                let collision = self.display.set(sx, sy, fill);
                vf = vf || collision;
                xline = xline + 1;
                proof {
                    let vxi = vx as int;
                    let vyi = vy as int;
                    let row = yline as int;
                    let col = (xline - 1) as int;
                    let cell = cell_of(vxi, vyi, row, col);
                    assert(cell == (sy as int % 32) * 64 + (sx as int % 64));
                    assert(self.display@.grid == gcur.update(
                        cell,
                        if fill {
                            !gcur[cell]
                        } else {
                            gcur[cell]
                        },
                    ));
                    lemma_collided_step(g0, sprite, vxi, vyi, row, col);
                    assert forall|idx: int| 0 <= idx < GRID_LEN implies self.display@.grid[idx]
                        == (if touched_before(sprite, vxi, vyi, 8 * row + col + 1, idx) {
                        !g0[idx]
                    } else {
                        g0[idx]
                    }) by {
                        lemma_touched_step(sprite, vxi, vyi, row, col, idx);
                    }
                }
            }
            yline = yline + 1;
        }
        self.v[0xF] = if vf {
            1
        } else {
            0
        };
        self.next();
        proof {
            assert(self.display@.grid =~= draw_grid(g0, sprite, vx as int, vy as int));
        }
        Ok(())
    }

    /// Ex9E: skip if the key named by Vx is pressed; a value above 0xF
    /// names no key and is reported.
    pub fn op_ex9e(&mut self, x: usize) -> (r: Result<(), Fault>)
        requires
            old(self).wf(),
            x < REGISTER_COUNT,
            old(self).pc + 2 <= RAM_SIZE,
        ensures
            final(self).wf(),
            instr_post(*old(self), old(self).audio, *final(self), Instr::Skp(x as u8), r),
    {
        let key = self.v[x];
        if key >= 16 {
            return Err(Fault::KeyOutOfRange);
        }
        let pressed = self.keypad.pressed[key as usize];
        self.skip_if(pressed);
        Ok(())
    }

    /// ExA1: skip if the key named by Vx is not pressed; a value above
    /// 0xF names no key and is reported.
    pub fn op_exa1(&mut self, x: usize) -> (r: Result<(), Fault>)
        requires
            old(self).wf(),
            x < REGISTER_COUNT,
            old(self).pc + 2 <= RAM_SIZE,
        ensures
            final(self).wf(),
            instr_post(*old(self), old(self).audio, *final(self), Instr::Sknp(x as u8), r),
    {
        let key = self.v[x];
        if key >= 16 {
            return Err(Fault::KeyOutOfRange);
        }
        let pressed = self.keypad.pressed[key as usize];
        self.skip_if(!pressed);
        Ok(())
    }

    /// Fx07: Vx = delay timer.
    pub fn op_fx07(&mut self, x: usize)
        requires
            old(self).wf(),
            x < REGISTER_COUNT,
            old(self).pc + 2 <= RAM_SIZE,
        ensures
            final(self).wf(),
            post_core(
                *old(self),
                old(self).audio,
                *final(self),
                old(self).v@.update(x as int, old(self).audio.delay),
                old(self).i,
                old(self).pc + 2,
            ),
    {
        self.v[x] = self.audio.delay;
        self.next();
    }

    /// Fx0A: enter the key-wait state targeting register x; instruction
    /// execution pauses until a key release is delivered there.
    pub fn op_fx0a(&mut self, x: usize)
        requires
            old(self).wf(),
            x < REGISTER_COUNT,
            old(self).pc + 2 <= RAM_SIZE,
        ensures
            final(self).wf(),
            instr_post(*old(self), old(self).audio, *final(self), Instr::WaitKey(x as u8), Ok(())),
    {
        self.key_register = Some(x);
        self.next();
    }

    /// Fx15: delay timer = Vx.
    pub fn op_fx15(&mut self, x: usize)
        requires
            old(self).wf(),
            x < REGISTER_COUNT,
            old(self).pc + 2 <= RAM_SIZE,
        ensures
            final(self).wf(),
            instr_post(*old(self), old(self).audio, *final(self), Instr::SetDelay(x as u8), Ok(())),
    {
        self.audio.delay = self.v[x];
        self.next();
    }

    /// Fx18: sound timer = Vx.
    pub fn op_fx18(&mut self, x: usize)
        requires
            old(self).wf(),
            x < REGISTER_COUNT,
            old(self).pc + 2 <= RAM_SIZE,
        ensures
            final(self).wf(),
            instr_post(*old(self), old(self).audio, *final(self), Instr::SetSound(x as u8), Ok(())),
    {
        self.audio.sound = self.v[x];
        self.next();
    }

    /// Fx1E: I += Vx as a wrapping 16-bit add; this design sets no
    /// overflow flag here.
    pub fn op_fx1e(&mut self, x: usize)
        requires
            old(self).wf(),
            x < REGISTER_COUNT,
            old(self).pc + 2 <= RAM_SIZE,
        ensures
            final(self).wf(),
            post_core(
                *old(self),
                old(self).audio,
                *final(self),
                old(self).v@,
                (((old(self).i + old(self).v@[x as int]) % 0x10000) as u16),
                old(self).pc + 2,
            ),
    {
        let vx = self.v[x] as u16;
        self.i = if self.i <= 0xFFFF - vx {
            self.i + vx
        } else {
            vx - (0xFFFF - self.i) - 1
        };
        self.next();
    }

    /// Fx29: I = address of the font glyph for digit Vx, at stride 5.
    pub fn op_fx29(&mut self, x: usize)
        requires
            old(self).wf(),
            x < REGISTER_COUNT,
            old(self).pc + 2 <= RAM_SIZE,
        ensures
            final(self).wf(),
            post_core(
                *old(self),
                old(self).audio,
                *final(self),
                old(self).v@,
                ((old(self).v@[x as int] * 5) as u16),
                old(self).pc + 2,
            ),
    {
        self.i = self.v[x] as u16 * SPRITE_LENGTH;
        self.next();
    }

    /// Fx33: the decimal digits of Vx (hundreds, tens, ones) go to
    /// memory at I, I+1, I+2; running past the end of memory is reported.
    pub fn op_fx33(&mut self, x: usize) -> (r: Result<(), Fault>)
        requires
            old(self).wf(),
            x < REGISTER_COUNT,
            old(self).pc + 2 <= RAM_SIZE,
        ensures
            final(self).wf(),
            instr_post(*old(self), old(self).audio, *final(self), Instr::Bcd(x as u8), r),
    {
        let i = self.i as usize;
        if i + 3 > RAM_SIZE {
            return Err(Fault::MemoryOutOfBounds);
        }
        let vx = self.v[x];
        self.ram[i] = vx / 100;
        self.ram[i + 1] = (vx % 100) / 10;
        self.ram[i + 2] = vx % 10;
        self.next();
        Ok(())
    }

    /// Fx55: registers V0..=Vx go to memory starting at I; running past
    /// the end of memory is reported.
    pub fn op_fx55(&mut self, x: usize) -> (r: Result<(), Fault>)
        requires
            old(self).wf(),
            x < REGISTER_COUNT,
            old(self).pc + 2 <= RAM_SIZE,
        ensures
            final(self).wf(),
            instr_post(*old(self), old(self).audio, *final(self), Instr::StoreRegs(x as u8), r),
    {
        let i = self.i as usize;
        if i + x + 1 > RAM_SIZE {
            return Err(Fault::MemoryOutOfBounds);
        }
        let ghost pre = *self;
        let mut vi: usize = 0;
        while vi <= x
            invariant
                self.wf(),
                x < REGISTER_COUNT,
                vi <= x + 1,
                i == self.i as usize,
                i + x + 1 <= RAM_SIZE,
                self.v@ == pre.v@,
                self.pc == pre.pc,
                self.i == pre.i,
                self.stack@ == pre.stack@,
                self.sp == pre.sp,
                self.key_register == pre.key_register,
                self.keypad.pressed@ == pre.keypad.pressed@,
                self.keypad.last_released == pre.keypad.last_released,
                self.audio == pre.audio,
                self.display@ == pre.display@,
                forall|j: int|
                    0 <= j < RAM_SIZE ==> self.ram@[j] == (if i <= j < i + vi {
                        pre.v@[j - i]
                    } else {
                        pre.ram@[j]
                    }),
            decreases x + 1 - vi,
        {
            self.ram[i + vi] = self.v[vi];
            vi = vi + 1;
        }
        self.next();
        proof {
            assert(self.ram@ =~= regs_to_ram(pre.ram@, pre.v@, i as int, x as int));
        }
        Ok(())
    }

    /// Fx65: registers V0..=Vx are loaded from memory starting at I;
    /// running past the end of memory is reported.
    pub fn op_fx65(&mut self, x: usize) -> (r: Result<(), Fault>)
        requires
            old(self).wf(),
            x < REGISTER_COUNT,
            old(self).pc + 2 <= RAM_SIZE,
        ensures
            final(self).wf(),
            instr_post(*old(self), old(self).audio, *final(self), Instr::LoadRegs(x as u8), r),
    {
        let i = self.i as usize;
        if i + x + 1 > RAM_SIZE {
            return Err(Fault::MemoryOutOfBounds);
        }
        let ghost pre = *self;
        let mut vi: usize = 0;
        while vi <= x
            invariant
                self.wf(),
                x < REGISTER_COUNT,
                vi <= x + 1,
                i == self.i as usize,
                i + x + 1 <= RAM_SIZE,
                self.ram@ == pre.ram@,
                self.pc == pre.pc,
                self.i == pre.i,
                self.stack@ == pre.stack@,
                self.sp == pre.sp,
                self.key_register == pre.key_register,
                self.keypad.pressed@ == pre.keypad.pressed@,
                self.keypad.last_released == pre.keypad.last_released,
                self.audio == pre.audio,
                self.display@ == pre.display@,
                forall|j: int|
                    0 <= j < REGISTER_COUNT ==> self.v@[j] == (if 0 <= j < vi {
                        pre.ram@[i + j]
                    } else {
                        pre.v@[j]
                    }),
            decreases x + 1 - vi,
        {
            self.v[vi] = self.ram[i + vi];
            vi = vi + 1;
        }
        self.next();
        proof {
            assert(self.v@ =~= ram_to_regs(pre.v@, pre.ram@, i as int, x as int));
        }
        Ok(())
    }

    /// Execute one decoded instruction against the machine state. The
    /// exact effect of every instruction, and when each fault comes back,
    /// is [`instr_post`].
    pub fn execute(&mut self, instr: Instr) -> (r: Result<(), Fault>)
        requires
            old(self).wf(),
            instr_wf(instr),
            old(self).pc + 2 <= RAM_SIZE,
        ensures
            final(self).wf(),
            instr_post(*old(self), old(self).audio, *final(self), instr, r),
    {
        match instr {
            Instr::Sys(nnn) => {
                self.op_0nnn(nnn);
                Ok(())
            },
            Instr::Cls => {
                self.op_00e0();
                Ok(())
            },
            Instr::Ret => self.op_00ee(),
            Instr::Jp(nnn) => {
                self.op_1nnn(nnn);
                Ok(())
            },
            Instr::Call(nnn) => self.op_2nnn(nnn),
            Instr::SeByte(x, kk) => {
                self.op_3xkk(x as usize, kk);
                Ok(())
            },
            Instr::SneByte(x, kk) => {
                self.op_4xkk(x as usize, kk);
                Ok(())
            },
            Instr::SeReg(x, y) => {
                self.op_5xy0(x as usize, y as usize);
                Ok(())
            },
            Instr::LdByte(x, kk) => {
                self.op_6xkk(x as usize, kk);
                Ok(())
            },
            Instr::AddByte(x, kk) => {
                self.op_7xkk(x as usize, kk);
                Ok(())
            },
            Instr::LdReg(x, y) => {
                self.op_8xy0(x as usize, y as usize);
                Ok(())
            },
            Instr::OrReg(x, y) => {
                self.op_8xy1(x as usize, y as usize);
                Ok(())
            },
            Instr::AndReg(x, y) => {
                self.op_8xy2(x as usize, y as usize);
                Ok(())
            },
            Instr::XorReg(x, y) => {
                self.op_8xy3(x as usize, y as usize);
                Ok(())
            },
            Instr::AddReg(x, y) => {
                self.op_8xy4(x as usize, y as usize);
                Ok(())
            },
            Instr::SubReg(x, y) => {
                self.op_8xy5(x as usize, y as usize);
                Ok(())
            },
            Instr::ShrReg(x, y) => {
                self.op_8xy6(x as usize, y as usize);
                Ok(())
            },
            Instr::SubnReg(x, y) => {
                self.op_8xy7(x as usize, y as usize);
                Ok(())
            },
            Instr::ShlReg(x, y) => {
                self.op_8xye(x as usize, y as usize);
                Ok(())
            },
            Instr::SneReg(x, y) => {
                self.op_9xy0(x as usize, y as usize);
                Ok(())
            },
            Instr::LdI(nnn) => {
                self.op_annn(nnn);
                Ok(())
            },
            Instr::JpV0(nnn) => {
                self.op_bnnn(nnn);
                Ok(())
            },
            Instr::Rnd(x, kk) => {
                self.op_cxkk(x as usize, kk);
                Ok(())
            },
            Instr::Drw(x, y, n) => self.op_dxyn(x as usize, y as usize, n),
            Instr::Skp(x) => self.op_ex9e(x as usize),
            Instr::Sknp(x) => self.op_exa1(x as usize),
            Instr::LdDelay(x) => {
                self.op_fx07(x as usize);
                Ok(())
            },
            Instr::WaitKey(x) => {
                self.op_fx0a(x as usize);
                Ok(())
            },
            Instr::SetDelay(x) => {
                self.op_fx15(x as usize);
                Ok(())
            },
            Instr::SetSound(x) => {
                self.op_fx18(x as usize);
                Ok(())
            },
            Instr::AddI(x) => {
                self.op_fx1e(x as usize);
                Ok(())
            },
            Instr::LdFont(x) => {
                self.op_fx29(x as usize);
                Ok(())
            },
            Instr::Bcd(x) => self.op_fx33(x as usize),
            Instr::StoreRegs(x) => self.op_fx55(x as usize),
            Instr::LoadRegs(x) => self.op_fx65(x as usize),
        }
    }

    /// One machine step, the protocol of the driver loop. A pending
    /// key-wait only checks the keypad latch; otherwise, past-the-end
    /// program counters stall harmlessly, and a normal step counts the
    /// timers down, fetches, decodes and executes. Faults end the run;
    /// the machine itself never asks to stop.
    pub fn tick(&mut self) -> (r: Result<bool, Fault>)
        requires
            old(self).wf(),
        ensures
            final(self).wf(),
            step_post(*old(self), *final(self), r),
    {
        if let Some(kreg) = self.key_register {
            if let Some(key) = self.keypad.consume_last_released() {
                self.v[kreg] = key;
                self.key_register = None;
            }
            return Ok(true);
        }
        if self.pc >= RAM_SIZE - 1 {
            return Ok(true);
        }
        self.audio.tick();
        let ghost mid = *self;
        let hi = self.ram[self.pc];
        let lo = self.ram[self.pc + 1];
        let opcode = ((hi as u16) << 8) | (lo as u16);
        match decode(opcode) {
            None => Err(Fault::UnknownOpcode { addr: self.pc, opcode }),
            Some(instr) => {
                let res = self.execute(instr);
                proof {
                    lemma_instr_post_stable(
                        mid,
                        *old(self),
                        spec_tick(old(self).audio),
                        *self,
                        instr,
                        res,
                    );
                }
                match res {
                    Ok(_) => Ok(true),
                    Err(f) => Err(f),
                }
            },
        }
    }
}

/// Everything the machine owns is as it was.
pub open spec fn machine_unchanged(pre: CPU, post: CPU) -> bool {
    &&& post.ram@ == pre.ram@
    &&& post.pc == pre.pc
    &&& post.v@ == pre.v@
    &&& post.i == pre.i
    &&& post.stack@ == pre.stack@
    &&& post.sp == pre.sp
    &&& post.key_register == pre.key_register
    &&& post.keypad.pressed@ == pre.keypad.pressed@
    &&& post.keypad.last_released == pre.keypad.last_released
    &&& post.audio == pre.audio
    &&& post.display@ == pre.display@
}

/// What one step of the machine does. In the key-wait state only the
/// latch is checked: a latched release lands in the waiting register and
/// both the latch and the wait are cleared, and no timer counts down. A
/// program counter too close to the end of memory stalls the step. Any
/// other step counts both timers down once, then fetches, decodes and
/// executes the instruction at the program counter; an undecodable word
/// reports the address and raw opcode.
pub open spec fn step_post(pre: CPU, post: CPU, r: Result<bool, Fault>) -> bool {
    match pre.key_register {
        Some(kreg) => {
            &&& r == Ok::<bool, Fault>(true)
            &&& match pre.keypad.last_released {
                Some(key) => {
                    &&& post.v@ == pre.v@.update(kreg as int, key)
                    &&& post.key_register is None
                    &&& post.keypad.pressed@ == pre.keypad.pressed@
                    &&& post.keypad.last_released is None
                    &&& post.ram@ == pre.ram@
                    &&& post.pc == pre.pc
                    &&& post.i == pre.i
                    &&& post.stack@ == pre.stack@
                    &&& post.sp == pre.sp
                    &&& post.audio == pre.audio
                    &&& post.display@ == pre.display@
                },
                None => machine_unchanged(pre, post),
            }
        },
        None => {
            if pre.pc + 2 > RAM_SIZE {
                r == Ok::<bool, Fault>(true) && machine_unchanged(pre, post)
            } else {
                let aud = spec_tick(pre.audio);
                let op = fetched(pre);
                match spec_decode(op) {
                    None => {
                        &&& r == Err::<bool, Fault>(
                            Fault::UnknownOpcode { addr: pre.pc, opcode: op },
                        )
                        &&& post_core(pre, aud, post, pre.v@, pre.i, pre.pc as int)
                    },
                    Some(instr) => match r {
                        Ok(cont) => cont == true && instr_post(pre, aud, post, instr, Ok(())),
                        Err(f) => instr_post(pre, aud, post, instr, Err(f)),
                    },
                }
            }
        },
    }
}

/// The semantic table never reads the timer field of `pre`: any state
/// that agrees with `pre` elsewhere satisfies the same table entry.
proof fn lemma_instr_post_stable(
    pre1: CPU,
    pre2: CPU,
    aud: Audio,
    post: CPU,
    instr: Instr,
    r: Result<(), Fault>,
)
    requires
        instr_post(pre1, aud, post, instr, r),
        pre2.ram@ == pre1.ram@,
        pre2.pc == pre1.pc,
        pre2.v@ == pre1.v@,
        pre2.i == pre1.i,
        pre2.stack@ == pre1.stack@,
        pre2.sp == pre1.sp,
        pre2.key_register == pre1.key_register,
        pre2.keypad.pressed@ == pre1.keypad.pressed@,
        pre2.keypad.last_released == pre1.keypad.last_released,
        pre2.display@ == pre1.display@,
    ensures
        instr_post(pre2, aud, post, instr, r),
{
}

/// A call followed by a return comes home: 2nnn pushes the address of the
/// instruction after the call site and 00EE pops it, so the program
/// counter lands two bytes past the call site and the stack depth is back
/// where it was.
pub proof fn lemma_call_then_ret(stack: Seq<usize>, sp: int, pc: usize, nnn: u16)
    requires
        0 <= sp < stack.len(),
        pc + 2 <= usize::MAX,
    ensures
        ({
            let pushed = stack.update(sp, (pc + 2) as usize);
            let sp_after_call = sp + 1;
            let pc_after_ret = pushed[sp_after_call - 1];
            let sp_after_ret = sp_after_call - 1;
            pc_after_ret == pc + 2 && sp_after_ret == sp
        }),
{
}

} // verus!

