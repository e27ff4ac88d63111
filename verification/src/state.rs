//! The mathematical model of the machine: its state, the transition each
//! opcode makes, the fetch and cycle steps, and the laws that hold of them.

use vstd::prelude::*;
use crate::decode::{op_family, op_x, op_y, op_n, op_nn, op_nnn};
use crate::draw::{spec_draw_gfx, spec_draw_collision, gfx_bytes_binary};

verus! {

/// A fatal machine fault: the machine halts and reports the faulting
/// context so a malformed program can be diagnosed.
#[derive(Clone, Copy, Debug, PartialEq, Eq, Structural)]
pub enum Fault {
    /// A seventeenth nested subroutine call: the call stack is bounded.
    StackOverflow { pc: u16, opcode: u16 },
    /// A return with no call pending.
    StackUnderflow { pc: u16, opcode: u16 },
    /// A fetch whose second byte would lie past the end of memory.
    FetchOutOfBounds { pc: u16 },
}

/// Rejection of a program image that does not fit in memory.
#[derive(Clone, Copy, Debug, PartialEq, Eq, Structural)]
pub enum LoadError {
    TooLarge { size: usize },
}

/// The machine as mathematics: every component as a plain sequence or
/// number.
#[verifier::ext_equal]
pub ghost struct Chip8State {
    /// 4096 bytes of memory.
    pub memory: Seq<u8>,
    /// The sixteen 8-bit registers V0-VF.
    pub v: Seq<u8>,
    /// The 12-bit index register.
    pub i: u16,
    /// The program counter.
    pub pc: u16,
    /// 64x32 pixels, row-major, one byte per pixel, each 0 or 1.
    pub gfx: Seq<u8>,
    pub delay_timer: u8,
    pub sound_timer: u8,
    /// Return addresses of pending subroutine calls, at most 16.
    pub stack: Seq<u16>,
    /// Pressed state of the sixteen keys.
    pub key: Seq<bool>,
    /// The register that a pending key wait will fill, if one is pending.
    pub waiting: Option<u8>,
    /// The last fetched opcode.
    pub opcode: u16,
    /// State of the pseudo-random byte generator.
    pub rng: u16,
    /// Milliseconds per cycle, as configured by the host.
    pub clock: u64,
}

/// One step of the machine: the state it leaves and the fault it raises,
/// if any. A faulting step leaves the state as it found it.
#[verifier::ext_equal]
pub ghost struct StepOut {
    pub state: Chip8State,
    pub fault: Option<Fault>,
}

impl Chip8State {
    /// Well-formedness: the shape every reachable state keeps.
    pub open spec fn wf(self) -> bool {
        &&& self.memory.len() == 4096
        &&& self.v.len() == 16
        &&& self.gfx.len() == 2048
        &&& self.key.len() == 16
        &&& self.stack.len() <= 16
        &&& (forall|j: int| 0 <= j < self.stack.len() ==> self.stack[j] <= 0xFFFD)
        &&& self.i <= 0xFFF
        &&& gfx_bytes_binary(self.gfx)
        &&& match self.waiting {
            Option::Some(x) => x < 16,
            Option::None => true,
        }
    }
}

/// A step that raises no fault.
pub open spec fn step_ok(s: Chip8State) -> StepOut {
    StepOut { state: s, fault: Option::None }
}

/// The five-byte font sprites for the digits 0-F, in order.
pub open spec fn font_seq() -> Seq<u8> {
    seq![
        0xF0u8, 0x90, 0x90, 0x90, 0xF0,  // 0
        0x20, 0x60, 0x20, 0x20, 0x70,  // 1
        0xF0, 0x10, 0xF0, 0x80, 0xF0,  // 2
        0xF0, 0x10, 0xF0, 0x10, 0xF0,  // 3
        0x90, 0x90, 0xF0, 0x10, 0x10,  // 4
        0xF0, 0x80, 0xF0, 0x10, 0xF0,  // 5
        0xF0, 0x80, 0xF0, 0x90, 0xF0,  // 6
        0xF0, 0x10, 0x20, 0x40, 0x40,  // 7
        0xF0, 0x90, 0xF0, 0x90, 0xF0,  // 8
        0xF0, 0x90, 0xF0, 0x10, 0xF0,  // 9
        0xF0, 0x90, 0xF0, 0x90, 0x90,  // A
        0xE0, 0x90, 0xE0, 0x90, 0xE0,  // B
        0xF0, 0x80, 0x80, 0x80, 0xF0,  // C
        0xE0, 0x90, 0x90, 0x90, 0xE0,  // D
        0xF0, 0x80, 0xF0, 0x80, 0xF0,  // E
        0xF0, 0x80, 0xF0, 0x80, 0x80,  // F
    ]
}

/// Where the font sprites start in memory.
pub open spec fn font_base() -> int {
    0x50
}

/// The memory of a freshly initialised machine: all zero but for the font.
pub open spec fn init_memory() -> Seq<u8> {
    Seq::new(
        4096,
        |k: int|
            if font_base() <= k < font_base() + 80 {
                font_seq()[k - font_base()]
            } else {
                0u8
            },
    )
}

/// The seed of the pseudo-random byte generator.
pub open spec fn rng_seed() -> u16 {
    0x13B7
}

/// The state of a freshly built machine: everything zero, nothing loaded,
/// no clock configured yet.
pub open spec fn new_state() -> Chip8State {
    Chip8State {
        memory: Seq::new(4096, |k: int| 0u8),
        v: Seq::new(16, |k: int| 0u8),
        i: 0,
        pc: 0,
        gfx: Seq::new(2048, |k: int| 0u8),
        delay_timer: 0,
        sound_timer: 0,
        stack: Seq::empty(),
        key: Seq::new(16, |k: int| false),
        waiting: Option::None,
        opcode: 0,
        rng: rng_seed(),
        clock: 0,
    }
}

/// The state after a full reset: cleared components, the font loaded, the
/// program counter at the program start. The configured clock is kept.
pub open spec fn init_state(clock: u64) -> Chip8State {
    Chip8State {
        memory: init_memory(),
        v: Seq::new(16, |k: int| 0u8),
        i: 0,
        pc: 0x200,
        gfx: Seq::new(2048, |k: int| 0u8),
        delay_timer: 0,
        sound_timer: 0,
        stack: Seq::empty(),
        key: Seq::new(16, |k: int| false),
        waiting: Option::None,
        opcode: 0,
        rng: rng_seed(),
        clock,
    }
}

/// The big-endian opcode at the program counter.
pub open spec fn spec_fetched(s: Chip8State) -> u16 {
    (((s.memory[s.pc as int] as u16) << 8) | (s.memory[s.pc + 1] as u16)) as u16
}

/// Advancing past the current instruction, or past the next one too when
/// `skip` holds.
pub open spec fn spec_skip(s: Chip8State, skip: bool) -> Chip8State {
    Chip8State { pc: if skip { (s.pc + 4) as u16 } else { (s.pc + 2) as u16 }, ..s }
}

/// The plain advance by one instruction; unknown opcodes do exactly this.
pub open spec fn spec_exec_noop(s: Chip8State) -> Chip8State {
    spec_skip(s, false)
}

/// 00E0: clear the framebuffer.
pub open spec fn spec_exec_cls(s: Chip8State) -> Chip8State {
    Chip8State { gfx: Seq::new(2048, |k: int| 0u8), pc: (s.pc + 2) as u16, ..s }
}

/// 00EE: return from a subroutine; fatal when no call is pending. The
/// stored address is that of the call instruction, so control resumes just
/// past it.
pub open spec fn spec_exec_ret(s: Chip8State) -> StepOut {
    if s.stack.len() == 0 {
        StepOut {
            state: s,
            fault: Option::Some(Fault::StackUnderflow { pc: s.pc, opcode: s.opcode }),
        }
    } else {
        step_ok(
            Chip8State { pc: (s.stack.last() + 2) as u16, stack: s.stack.drop_last(), ..s },
        )
    }
}

/// 1NNN: jump.
pub open spec fn spec_exec_jump(s: Chip8State, nnn: u16) -> Chip8State {
    Chip8State { pc: nnn, ..s }
}

/// 2NNN: call a subroutine; fatal when sixteen calls are already pending.
pub open spec fn spec_exec_call(s: Chip8State, nnn: u16) -> StepOut {
    if s.stack.len() >= 16 {
        StepOut {
            state: s,
            fault: Option::Some(Fault::StackOverflow { pc: s.pc, opcode: s.opcode }),
        }
    } else {
        step_ok(Chip8State { stack: s.stack.push(s.pc), pc: nnn, ..s })
    }
}

/// 6XNN: load an immediate into VX.
pub open spec fn spec_exec_6xnn(s: Chip8State, x: int, nn: u8) -> Chip8State {
    Chip8State { v: s.v.update(x, nn), pc: (s.pc + 2) as u16, ..s }
}

/// 7XNN: add an immediate to VX with 8-bit wraparound; VF is untouched.
pub open spec fn spec_exec_7xnn(s: Chip8State, x: int, nn: u8) -> Chip8State {
    Chip8State { v: s.v.update(x, ((s.v[x] + nn) % 256) as u8), pc: (s.pc + 2) as u16, ..s }
}

/// 8XY0: copy VY into VX.
pub open spec fn spec_exec_8xy0(s: Chip8State, x: int, y: int) -> Chip8State {
    Chip8State { v: s.v.update(x, s.v[y]), pc: (s.pc + 2) as u16, ..s }
}

/// 8XY1: bitwise OR.
pub open spec fn spec_exec_8xy1(s: Chip8State, x: int, y: int) -> Chip8State {
    Chip8State { v: s.v.update(x, s.v[x] | s.v[y]), pc: (s.pc + 2) as u16, ..s }
}

/// 8XY2: bitwise AND.
pub open spec fn spec_exec_8xy2(s: Chip8State, x: int, y: int) -> Chip8State {
    Chip8State { v: s.v.update(x, s.v[x] & s.v[y]), pc: (s.pc + 2) as u16, ..s }
}

/// 8XY3: bitwise XOR.
pub open spec fn spec_exec_8xy3(s: Chip8State, x: int, y: int) -> Chip8State {
    Chip8State { v: s.v.update(x, s.v[x] ^ s.v[y]), pc: (s.pc + 2) as u16, ..s }
}

/// 8XY4: add with carry flag. Both effects are computed from the
/// pre-state; the flag write lands last, so it wins when X is F.
pub open spec fn spec_exec_8xy4(s: Chip8State, x: int, y: int) -> Chip8State {
    Chip8State {
        v: s.v.update(x, ((s.v[x] + s.v[y]) % 256) as u8).update(
            15,
            if s.v[x] + s.v[y] > 255 {
                1u8
            } else {
                0u8
            },
        ),
        pc: (s.pc + 2) as u16,
        ..s
    }
}

/// 8XY5: VX minus VY with borrow flag: VF is 0 exactly when VY exceeded VX.
pub open spec fn spec_exec_8xy5(s: Chip8State, x: int, y: int) -> Chip8State {
    Chip8State {
        v: s.v.update(x, ((s.v[x] - s.v[y] + 256) % 256) as u8).update(
            15,
            if s.v[y] > s.v[x] {
                0u8
            } else {
                1u8
            },
        ),
        pc: (s.pc + 2) as u16,
        ..s
    }
}

/// 8XY6: shift VX right; VF takes the shifted-out low bit. The effects are
/// computed from the pre-state and applied in that order, so the shifted
/// value wins when X is F.
pub open spec fn spec_exec_8xy6(s: Chip8State, x: int, y: int) -> Chip8State {
    Chip8State {
        v: s.v.update(15, (s.v[x] & 1) as u8).update(x, (s.v[x] >> 1) as u8),
        pc: (s.pc + 2) as u16,
        ..s
    }
}

/// 8XY7: VY minus VX with borrow flag: VF is 0 exactly when VX exceeded VY.
pub open spec fn spec_exec_8xy7(s: Chip8State, x: int, y: int) -> Chip8State {
    Chip8State {
        v: s.v.update(x, ((s.v[y] - s.v[x] + 256) % 256) as u8).update(
            15,
            if s.v[x] > s.v[y] {
                0u8
            } else {
                1u8
            },
        ),
        pc: (s.pc + 2) as u16,
        ..s
    }
}

/// 8XYE: shift VX left with wraparound; VF takes the shifted-out high bit.
/// As for the right shift, the shifted value is applied last.
pub open spec fn spec_exec_8xye(s: Chip8State, x: int, y: int) -> Chip8State {
    Chip8State {
        v: s.v.update(15, (s.v[x] >> 7) as u8).update(x, ((s.v[x] * 2) % 256) as u8),
        pc: (s.pc + 2) as u16,
        ..s
    }
}

/// ANNN: load the index register.
pub open spec fn spec_exec_annn(s: Chip8State, nnn: u16) -> Chip8State {
    Chip8State { i: nnn, pc: (s.pc + 2) as u16, ..s }
}

/// BNNN: jump to NNN displaced by V0.
pub open spec fn spec_exec_bnnn(s: Chip8State, nnn: u16) -> Chip8State {
    Chip8State { pc: (nnn + s.v[0]) as u16, ..s }
}

/// The next state of the pseudo-random generator: a 16-bit linear
/// congruence, taken modulo 2^16.
pub open spec fn next_rng(r: u16) -> u16 {
    ((r * 25173 + 13849) % 65536) as u16
}

/// The byte a generator state yields.
pub open spec fn rng_byte(r: u16) -> u8 {
    (r >> 8) as u8
}

/// CXNN: a fresh pseudo-random byte, masked by NN, into VX.
pub open spec fn spec_exec_cxnn(s: Chip8State, x: int, nn: u8) -> Chip8State {
    Chip8State {
        rng: next_rng(s.rng),
        v: s.v.update(x, rng_byte(next_rng(s.rng)) & nn),
        pc: (s.pc + 2) as u16,
        ..s
    }
}

/// The N sprite rows at the index register. I-relative addresses are taken
/// modulo the 4096-byte memory, so every read lands in bounds.
pub open spec fn spec_sprite(s: Chip8State, n: int) -> Seq<u8> {
    Seq::new(n as nat, |r: int| s.memory[(s.i + r) % 4096])
}

/// DXYN: XOR-draw the sprite at (VX mod 64, VY mod 32), clipping at the
/// screen edges; VF reports whether a set pixel was cleared.
pub open spec fn spec_exec_dxyn(s: Chip8State, x: int, y: int, n: int) -> Chip8State {
    let x0 = s.v[x] % 64;
    let y0 = s.v[y] % 32;
    let sprite = spec_sprite(s, n);
    Chip8State {
        gfx: spec_draw_gfx(s.gfx, sprite, x0 as int, y0 as int),
        v: s.v.update(
            15,
            if spec_draw_collision(s.gfx, sprite, x0 as int, y0 as int) {
                1u8
            } else {
                0u8
            },
        ),
        pc: (s.pc + 2) as u16,
        ..s
    }
}

/// Whether the key named by VX is down; key numbers are taken modulo 16.
pub open spec fn spec_key_of_vx(s: Chip8State, x: int) -> bool {
    s.key[(s.v[x] % 16) as int]
}

/// FX07: read the delay timer into VX.
pub open spec fn spec_exec_fx07(s: Chip8State, x: int) -> Chip8State {
    Chip8State { v: s.v.update(x, s.delay_timer), pc: (s.pc + 2) as u16, ..s }
}

/// FX0A: suspend until a key press; the program counter stays on this
/// instruction until the press arrives.
pub open spec fn spec_exec_fx0a(s: Chip8State, x: int) -> Chip8State {
    Chip8State { waiting: Option::Some(x as u8), ..s }
}

/// FX15: load the delay timer from VX.
pub open spec fn spec_exec_fx15(s: Chip8State, x: int) -> Chip8State {
    Chip8State { delay_timer: s.v[x], pc: (s.pc + 2) as u16, ..s }
}

/// FX18: load the sound timer from VX.
pub open spec fn spec_exec_fx18(s: Chip8State, x: int) -> Chip8State {
    Chip8State { sound_timer: s.v[x], pc: (s.pc + 2) as u16, ..s }
}

/// FX1E: add VX to the index register, which stays masked to 12 bits; VF
/// reports whether the sum overflowed them.
pub open spec fn spec_exec_fx1e(s: Chip8State, x: int) -> Chip8State {
    Chip8State {
        i: ((s.i + s.v[x]) % 4096) as u16,
        v: s.v.update(
            15,
            if s.i + s.v[x] > 0xFFF {
                1u8
            } else {
                0u8
            },
        ),
        pc: (s.pc + 2) as u16,
        ..s
    }
}

/// FX29: point the index register at the font sprite of the digit in VX;
/// only the low nibble of VX names a digit.
pub open spec fn spec_exec_fx29(s: Chip8State, x: int) -> Chip8State {
    Chip8State { i: (font_base() + 5 * (s.v[x] % 16)) as u16, pc: (s.pc + 2) as u16, ..s }
}

/// FX33: the three decimal digits of VX into memory at I, I+1, I+2.
pub open spec fn spec_exec_fx33(s: Chip8State, x: int) -> Chip8State {
    Chip8State {
        memory: s.memory.update(s.i as int, (s.v[x] / 100) as u8).update(
            ((s.i + 1) % 4096) as int,
            ((s.v[x] / 10) % 10) as u8,
        ).update(((s.i + 2) % 4096) as int, (s.v[x] % 10) as u8),
        pc: (s.pc + 2) as u16,
        ..s
    }
}

/// Memory after storing V0..Vx inclusive at I-relative addresses.
pub open spec fn spec_store_regs(mem: Seq<u8>, v: Seq<u8>, i: int, x: int) -> Seq<u8>
    decreases x + 1,
{
    if x < 0 {
        mem
    } else {
        spec_store_regs(mem, v, i, x - 1).update((i + x) % 4096, v[x])
    }
}

/// Registers after loading V0..Vx inclusive from I-relative addresses.
pub open spec fn spec_load_regs(v: Seq<u8>, mem: Seq<u8>, i: int, x: int) -> Seq<u8>
    decreases x + 1,
{
    if x < 0 {
        v
    } else {
        spec_load_regs(v, mem, i, x - 1).update(x, mem[(i + x) % 4096])
    }
}

/// FX55: dump V0..VX into memory at I.
pub open spec fn spec_exec_fx55(s: Chip8State, x: int) -> Chip8State {
    Chip8State {
        memory: spec_store_regs(s.memory, s.v, s.i as int, x),
        pc: (s.pc + 2) as u16,
        ..s
    }
}

/// FX65: fill V0..VX from memory at I.
pub open spec fn spec_exec_fx65(s: Chip8State, x: int) -> Chip8State {
    Chip8State { v: spec_load_regs(s.v, s.memory, s.i as int, x), pc: (s.pc + 2) as u16, ..s }
}

/// Dispatch within the 0 family.
pub open spec fn spec_step_0(s: Chip8State, op: u16) -> StepOut {
    if op_nn(op) == 0xE0 {
        step_ok(spec_exec_cls(s))
    } else if op_nn(op) == 0xEE {
        spec_exec_ret(s)
    } else {
        // 0NNN, the legacy machine-code call: tolerated as a no-op
        step_ok(spec_exec_noop(s))
    }
}

/// Dispatch within the 8 family.
pub open spec fn spec_step_8(s: Chip8State, op: u16) -> Chip8State {
    let x = op_x(op) as int;
    let y = op_y(op) as int;
    if op_n(op) == 0x0 {
        spec_exec_8xy0(s, x, y)
    } else if op_n(op) == 0x1 {
        spec_exec_8xy1(s, x, y)
    } else if op_n(op) == 0x2 {
        spec_exec_8xy2(s, x, y)
    } else if op_n(op) == 0x3 {
        spec_exec_8xy3(s, x, y)
    } else if op_n(op) == 0x4 {
        spec_exec_8xy4(s, x, y)
    } else if op_n(op) == 0x5 {
        spec_exec_8xy5(s, x, y)
    } else if op_n(op) == 0x6 {
        spec_exec_8xy6(s, x, y)
    } else if op_n(op) == 0x7 {
        spec_exec_8xy7(s, x, y)
    } else if op_n(op) == 0xE {
        spec_exec_8xye(s, x, y)
    } else {
        spec_exec_noop(s)
    }
}

/// Dispatch within the E family.
pub open spec fn spec_step_e(s: Chip8State, op: u16) -> Chip8State {
    let x = op_x(op) as int;
    if op_nn(op) == 0x9E {
        spec_skip(s, spec_key_of_vx(s, x))
    } else if op_nn(op) == 0xA1 {
        spec_skip(s, !spec_key_of_vx(s, x))
    } else {
        spec_exec_noop(s)
    }
}

/// Dispatch within the F family.
pub open spec fn spec_step_f(s: Chip8State, op: u16) -> Chip8State {
    let x = op_x(op) as int;
    if op_nn(op) == 0x07 {
        spec_exec_fx07(s, x)
    } else if op_nn(op) == 0x0A {
        spec_exec_fx0a(s, x)
    } else if op_nn(op) == 0x15 {
        spec_exec_fx15(s, x)
    } else if op_nn(op) == 0x18 {
        spec_exec_fx18(s, x)
    } else if op_nn(op) == 0x1E {
        spec_exec_fx1e(s, x)
    } else if op_nn(op) == 0x29 {
        spec_exec_fx29(s, x)
    } else if op_nn(op) == 0x33 {
        spec_exec_fx33(s, x)
    } else if op_nn(op) == 0x55 {
        spec_exec_fx55(s, x)
    } else if op_nn(op) == 0x65 {
        spec_exec_fx65(s, x)
    } else {
        spec_exec_noop(s)
    }
}

/// One decoded-and-executed instruction: the whole opcode table. The
/// opcode is the one already fetched into the state.
pub open spec fn spec_step(s: Chip8State, op: u16) -> StepOut {
    let x = op_x(op) as int;
    let y = op_y(op) as int;
    let fam = op_family(op);
    if fam == 0x0 {
        spec_step_0(s, op)
    } else if fam == 0x1 {
        step_ok(spec_exec_jump(s, op_nnn(op)))
    } else if fam == 0x2 {
        spec_exec_call(s, op_nnn(op))
    } else if fam == 0x3 {
        step_ok(spec_skip(s, s.v[x] == op_nn(op)))
    } else if fam == 0x4 {
        step_ok(spec_skip(s, s.v[x] != op_nn(op)))
    } else if fam == 0x5 {
        if op_n(op) == 0 {
            step_ok(spec_skip(s, s.v[x] == s.v[y]))
        } else {
            step_ok(spec_exec_noop(s))
        }
    } else if fam == 0x6 {
        step_ok(spec_exec_6xnn(s, x, op_nn(op) as u8))
    } else if fam == 0x7 {
        step_ok(spec_exec_7xnn(s, x, op_nn(op) as u8))
    } else if fam == 0x8 {
        step_ok(spec_step_8(s, op))
    } else if fam == 0x9 {
        if op_n(op) == 0 {
            step_ok(spec_skip(s, s.v[x] != s.v[y]))
        } else {
            step_ok(spec_exec_noop(s))
        }
    } else if fam == 0xA {
        step_ok(spec_exec_annn(s, op_nnn(op)))
    } else if fam == 0xB {
        step_ok(spec_exec_bnnn(s, op_nnn(op)))
    } else if fam == 0xC {
        step_ok(spec_exec_cxnn(s, x, op_nn(op) as u8))
    } else if fam == 0xD {
        step_ok(spec_exec_dxyn(s, x, y, op_n(op) as int))
    } else if fam == 0xE {
        step_ok(spec_step_e(s, op))
    } else {
        step_ok(spec_step_f(s, op))
    }
}

/// One cycle: nothing while a key wait is pending; otherwise fetch the
/// opcode at the program counter — fatal past the end of memory — then
/// decode and execute it.
pub open spec fn spec_cycle(s: Chip8State) -> StepOut {
    if s.waiting is Some {
        step_ok(s)
    } else if s.pc + 1 >= 4096 {
        StepOut { state: s, fault: Option::Some(Fault::FetchOutOfBounds { pc: s.pc }) }
    } else {
        let op = spec_fetched(s);
        spec_step(Chip8State { opcode: op, ..s }, op)
    }
}

/// A key-state change from the input collaborator. A press that lands
/// while a key wait is pending completes the wait: the key's index goes to
/// the waiting register and the program counter finally advances.
pub open spec fn spec_set_key(s: Chip8State, k: int, pressed: bool) -> Chip8State {
    let s1 = Chip8State { key: s.key.update(k, pressed), ..s };
    match s.waiting {
        Option::Some(x) => if pressed {
            Chip8State {
                v: s1.v.update(x as int, k as u8),
                pc: (s1.pc + 2) as u16,
                waiting: Option::None,
                ..s1
            }
        } else {
            s1
        },
        Option::None => s1,
    }
}

/// One decrement of a countdown timer: it stops at zero, never wrapping.
pub open spec fn tick_down(t: u8) -> u8 {
    if t > 0 {
        (t - 1) as u8
    } else {
        0
    }
}

/// One tick of the 60 Hz timer domain, independent of the cycle domain.
pub open spec fn spec_tick(s: Chip8State) -> Chip8State {
    Chip8State {
        delay_timer: tick_down(s.delay_timer),
        sound_timer: tick_down(s.sound_timer),
        ..s
    }
}

/// A timer's value after `n` ticks.
pub open spec fn spec_ticks(t: u8, n: nat) -> u8
    decreases n,
{
    if n == 0 {
        t
    } else {
        tick_down(spec_ticks(t, (n - 1) as nat))
    }
}

/// Memory after a program image is copied in at the program start.
pub open spec fn spec_loaded_memory(mem: Seq<u8>, rom: Seq<u8>) -> Seq<u8> {
    Seq::new(
        4096,
        |k: int|
            if 0x200 <= k < 0x200 + rom.len() {
                rom[k - 0x200]
            } else {
                mem[k]
            },
    )
}

// ---------------------------------------------------------------------
// Laws
// ---------------------------------------------------------------------

/// Loading an immediate into a register is read back unchanged: after
/// 6XNN, VX holds NN.
pub proof fn lemma_register_set_get(s: Chip8State, x: int, nn: u8)
    requires
        s.wf(),
        0 <= x < 16,
        s.pc + 2 <= 0xFFFF,
    ensures
        spec_exec_6xnn(s, x, nn).v[x] == nn,
        spec_exec_6xnn(s, x, nn).pc == s.pc + 2,
{
}

/// A subroutine call followed by a return resumes just past the call:
/// the program counter lands on the call's address plus two, and the
/// stack is exactly as it was.
pub proof fn lemma_call_return_roundtrip(s: Chip8State, nnn: u16)
    requires
        s.wf(),
        s.stack.len() < 16,
        s.pc + 2 <= 0xFFFF,
    ensures
        spec_exec_call(s, nnn).fault is None,
        spec_exec_ret(spec_exec_call(s, nnn).state).fault is None,
        spec_exec_ret(spec_exec_call(s, nnn).state).state.pc == s.pc + 2,
        spec_exec_ret(spec_exec_call(s, nnn).state).state.stack == s.stack,
{
    let pushed = s.stack.push(s.pc);
    assert(pushed.last() == s.pc);
    assert(pushed.drop_last() =~= s.stack);
}

/// The machine after `n` consecutive subroutine calls, stopping at the
/// first fault.
pub open spec fn spec_calls(s: Chip8State, nnn: u16, n: nat) -> StepOut
    decreases n,
{
    if n == 0 {
        step_ok(s)
    } else {
        let prev = spec_calls(s, nnn, (n - 1) as nat);
        if prev.fault is Some {
            prev
        } else {
            spec_exec_call(prev.state, nnn)
        }
    }
}

/// While room remains, consecutive calls succeed and each deepens the
/// stack by one; nothing else of the machine distinguishes overflow early.
pub proof fn lemma_calls_extend(s: Chip8State, nnn: u16, n: nat)
    requires
        s.wf(),
        s.stack.len() + n <= 16,
        s.pc <= 0xFFFD,
        nnn <= 0xFFFD,
    ensures
        spec_calls(s, nnn, n).fault is None,
        spec_calls(s, nnn, n).state.wf(),
        spec_calls(s, nnn, n).state.stack.len() == s.stack.len() + n,
    decreases n,
{
    if n > 0 {
        lemma_calls_extend(s, nnn, (n - 1) as nat);
    }
}

/// The call stack holds sixteen pending calls and no more: from an empty
/// stack, sixteen consecutive calls succeed, and a seventeenth raises the
/// fatal stack-overflow fault instead of wrapping.
pub proof fn lemma_stack_bound(s: Chip8State, nnn: u16)
    requires
        s.wf(),
        s.stack.len() == 0,
        s.pc <= 0xFFFD,
        nnn <= 0xFFFD,
    ensures
        spec_calls(s, nnn, 16).fault is None,
        spec_calls(s, nnn, 16).state.stack.len() == 16,
        spec_calls(s, nnn, 17).fault matches Some(Fault::StackOverflow { .. }),
        spec_calls(s, nnn, 17).state == spec_calls(s, nnn, 16).state,
{
    lemma_calls_extend(s, nnn, 16);
    assert(spec_calls(s, nnn, 17) == spec_exec_call(spec_calls(s, nnn, 16).state, nnn));
}

/// After `n` ticks a timer holds its old value less `n`, stopped at zero:
/// in particular a timer set to `t` reaches exactly zero after `t` ticks
/// and never goes below it.
pub proof fn lemma_ticks_value(t: u8, n: nat)
    ensures
        spec_ticks(t, n) == if t > n {
            (t - n) as u8
        } else {
            0u8
        },
    decreases n,
{
    if n > 0 {
        lemma_ticks_value(t, (n - 1) as nat);
    }
}

/// Timer decay: a delay timer set to `t` is exactly zero after `t` ticks
/// of the timer domain, and stays at zero from then on.
pub proof fn lemma_timer_decay(t: u8)
    ensures
        spec_ticks(t, t as nat) == 0,
        forall|n: nat| n >= t ==> spec_ticks(t, n) == 0,
{
    lemma_ticks_value(t, t as nat);
    assert forall|n: nat| n >= t implies spec_ticks(t, n) == 0 by {
        lemma_ticks_value(t, n);
    }
}

/// The blocking key wait: FX0A leaves the program counter on the waiting
/// instruction and cycles pass the machine through unchanged, until a key
/// press lands; that press puts the key's index in VX, clears the wait,
/// and advances the program counter by exactly two.
pub proof fn lemma_key_wait(s: Chip8State, x: int, k: int)
    requires
        s.wf(),
        0 <= x < 16,
        0 <= k < 16,
        s.waiting is None,
        s.pc + 2 <= 0xFFFF,
    ensures
        spec_exec_fx0a(s, x).pc == s.pc,
        spec_exec_fx0a(s, x).waiting == Option::Some(x as u8),
        spec_cycle(spec_exec_fx0a(s, x)) == step_ok(spec_exec_fx0a(s, x)),
        spec_set_key(spec_exec_fx0a(s, x), k, true).v[x] == k as u8,
        spec_set_key(spec_exec_fx0a(s, x), k, true).pc == s.pc + 2,
        spec_set_key(spec_exec_fx0a(s, x), k, true).waiting is None,
{
}

} // verus!
