//! The executable CHIP-8 machine. Every method's effect is stated against
//! the mathematical model in `state` and proved; fatal machine faults are
//! surfaced as values, never as panics.

use vstd::prelude::*;
use crate::decode;
use crate::decode::{op_x, op_y, op_n, op_nn, op_nnn};
use crate::draw;
use crate::state::{
    Chip8State, Fault, LoadError, font_seq, init_memory, init_state, new_state,
    spec_cycle, spec_exec_6xnn, spec_exec_7xnn, spec_exec_8xy0, spec_exec_8xy1,
    spec_exec_8xy2, spec_exec_8xy3, spec_exec_8xy4, spec_exec_8xy5, spec_exec_8xy6,
    spec_exec_8xy7, spec_exec_8xye, spec_exec_annn, spec_exec_bnnn, spec_exec_call,
    spec_exec_cls, spec_exec_cxnn, spec_exec_dxyn, spec_exec_fx07, spec_exec_fx0a,
    spec_exec_fx15, spec_exec_fx18, spec_exec_fx1e, spec_exec_fx29, spec_exec_fx33,
    spec_exec_fx55, spec_exec_fx65, spec_exec_jump, spec_exec_noop, spec_exec_ret,
    spec_fetched, spec_key_of_vx, spec_load_regs, spec_loaded_memory, spec_set_key,
    spec_skip, spec_sprite, spec_step, spec_step_0, spec_step_8, spec_step_e, spec_step_f,
    spec_store_regs, spec_tick,
};

verus! {

/// The machine: memory, registers, call stack, framebuffer, keypad,
/// timers and the pseudo-random generator, exactly the components of the
/// model.
pub struct Chipate {
    /// The last fetched opcode.
    pub opcode: u16,
    /// 4096 bytes: interpreter area with the font, then the program.
    pub memory: Vec<u8>,
    /// The sixteen 8-bit registers V0-VF.
    pub v: Vec<u8>,
    /// The 12-bit index register.
    pub i: u16,
    /// The program counter.
    pub pc: u16,
    /// 64x32 pixels, row-major, one byte per pixel, each 0 or 1.
    pub gfx: Vec<u8>,
    pub delay_timer: u8,
    pub sound_timer: u8,
    /// Return addresses of pending subroutine calls, at most 16.
    pub stack: Vec<u16>,
    /// Pressed state of the sixteen keys.
    pub key: Vec<bool>,
    /// The register a pending key wait will fill, if one is pending.
    pub waiting_for_key: Option<u8>,
    /// State of the pseudo-random byte generator.
    pub rng: u16,
    /// Milliseconds per cycle, as configured by the host.
    pub clock_speed: u64,
}

impl View for Chipate {
    type V = Chip8State;

    open spec fn view(&self) -> Chip8State {
        Chip8State {
            memory: self.memory@,
            v: self.v@,
            i: self.i,
            pc: self.pc,
            gfx: self.gfx@,
            delay_timer: self.delay_timer,
            sound_timer: self.sound_timer,
            stack: self.stack@,
            key: self.key@,
            waiting: self.waiting_for_key,
            opcode: self.opcode,
            rng: self.rng,
            clock: self.clock_speed,
        }
    }
}

/// A vector of `n` zero bytes.
fn zero_bytes(n: usize) -> (r: Vec<u8>)
    ensures
        r@ == Seq::new(n as nat, |k: int| 0u8),
{
    let mut r: Vec<u8> = Vec::new();
    let mut j: usize = 0;
    proof {
        assert(r@ =~= Seq::new(0, |k: int| 0u8));
    }
    while j < n
        invariant
            j <= n,
            r@ == Seq::new(j as nat, |k: int| 0u8),
        decreases n - j,
    {
        r.push(0);
        j = j + 1;
        proof {
            assert(r@ =~= Seq::new(j as nat, |k: int| 0u8));
        }
    }
    r
}

/// A vector of sixteen released keys.
fn all_keys_up() -> (r: Vec<bool>)
    ensures
        r@ == Seq::new(16, |k: int| false),
{
    let mut r: Vec<bool> = Vec::new();
    let mut j: usize = 0;
    proof {
        assert(r@ =~= Seq::new(0, |k: int| false));
    }
    while j < 16
        invariant
            j <= 16,
            r@ == Seq::new(j as nat, |k: int| false),
        decreases 16 - j,
    {
        r.push(false);
        j = j + 1;
        proof {
            assert(r@ =~= Seq::new(j as nat, |k: int| false));
        }
    }
    r
}

/// The eighty bytes of the built-in font, digit by digit.
#[verifier::rlimit(100)]
fn font_bytes() -> (r: Vec<u8>)
    ensures
        r@ == font_seq(),
{
    let mut f: Vec<u8> = Vec::new();
    f.push(0xF0); f.push(0x90); f.push(0x90); f.push(0x90); f.push(0xF0);
    f.push(0x20); f.push(0x60); f.push(0x20); f.push(0x20); f.push(0x70);
    f.push(0xF0); f.push(0x10); f.push(0xF0); f.push(0x80); f.push(0xF0);
    f.push(0xF0); f.push(0x10); f.push(0xF0); f.push(0x10); f.push(0xF0);
    f.push(0x90); f.push(0x90); f.push(0xF0); f.push(0x10); f.push(0x10);
    f.push(0xF0); f.push(0x80); f.push(0xF0); f.push(0x10); f.push(0xF0);
    f.push(0xF0); f.push(0x80); f.push(0xF0); f.push(0x90); f.push(0xF0);
    f.push(0xF0); f.push(0x10); f.push(0x20); f.push(0x40); f.push(0x40);
    f.push(0xF0); f.push(0x90); f.push(0xF0); f.push(0x90); f.push(0xF0);
    f.push(0xF0); f.push(0x90); f.push(0xF0); f.push(0x10); f.push(0xF0);
    f.push(0xF0); f.push(0x90); f.push(0xF0); f.push(0x90); f.push(0x90);
    f.push(0xE0); f.push(0x90); f.push(0xE0); f.push(0x90); f.push(0xE0);
    f.push(0xF0); f.push(0x80); f.push(0x80); f.push(0x80); f.push(0xF0);
    f.push(0xE0); f.push(0x90); f.push(0x90); f.push(0x90); f.push(0xE0);
    f.push(0xF0); f.push(0x80); f.push(0xF0); f.push(0x80); f.push(0xF0);
    f.push(0xF0); f.push(0x80); f.push(0xF0); f.push(0x80); f.push(0x80);
    proof {
        assert(f@ =~= font_seq());
    }
    f
}

impl Chipate {
    /// A freshly built machine: everything zero, nothing loaded.
    pub fn new() -> (r: Chipate)
        ensures
            r@ == new_state(),
            r@.wf(),
    {
        let chip = Chipate {
            opcode: 0,
            memory: zero_bytes(4096),
            v: zero_bytes(16),
            i: 0,
            pc: 0,
            gfx: zero_bytes(2048),
            delay_timer: 0,
            sound_timer: 0,
            stack: Vec::new(),
            key: all_keys_up(),
            waiting_for_key: Option::None,
            rng: 0x13B7,
            clock_speed: 0,
        };
        proof {
            assert(chip@ =~= new_state());
        }
        chip
    }

    /// Full reset: clear memory, registers, stack, framebuffer, keypad and
    /// timers, load the font, and point the program counter at the program
    /// start. The configured clock is kept.
    pub fn init(&mut self)
        ensures
            final(self)@ == init_state(old(self).clock_speed),
            final(self)@.wf(),
    {
        let mut mem = zero_bytes(4096);
        let font = font_bytes();
        let mut j: usize = 0;
        proof {
            assert(mem@ =~= Seq::new(
                4096,
                |k: int|
                    if 0x50 <= k < 0x50 + 0 {
                        font_seq()[k - 0x50]
                    } else {
                        0u8
                    },
            ));
        }
        while j < 80
            invariant
                j <= 80,
                font@ == font_seq(),
                mem@ == Seq::new(
                    4096,
                    |k: int|
                        if 0x50 <= k < 0x50 + j {
                            font_seq()[k - 0x50]
                        } else {
                            0u8
                        },
                ),
            decreases 80 - j,
        {
            mem.set(0x50 + j, font[j]);
            j = j + 1;
            proof {
                assert(mem@ =~= Seq::new(
                    4096,
                    |k: int|
                        if 0x50 <= k < 0x50 + j {
                            font_seq()[k - 0x50]
                        } else {
                            0u8
                        },
                ));
            }
        }
        self.memory = mem;
        self.v = zero_bytes(16);
        self.i = 0;
        self.pc = 0x200;
        self.gfx = zero_bytes(2048);
        self.delay_timer = 0;
        self.sound_timer = 0;
        self.stack = Vec::new();
        self.key = all_keys_up();
        self.waiting_for_key = Option::None;
        self.opcode = 0;
        self.rng = 0x13B7;
        proof {
            assert(self@.memory =~= init_memory());
            assert(self@ =~= init_state(old(self).clock_speed));
        }
    }

    /// Clock configuration: milliseconds per cycle for the host's driver
    /// loop. A zero rate is rejected and changes nothing.
    pub fn set_clock_speed(&mut self, ms_per_cycle: u64) -> (ok: bool)
        requires
            old(self)@.wf(),
        ensures
            final(self)@.wf(),
            ok <==> ms_per_cycle > 0,
            ok ==> final(self)@ == (Chip8State { clock: ms_per_cycle, ..old(self)@ }),
            !ok ==> final(self)@ == old(self)@,
    {
        if ms_per_cycle == 0 {
            return false;
        }
        self.clock_speed = ms_per_cycle;
        proof {
            assert(self@ =~= (Chip8State { clock: ms_per_cycle, ..old(self)@ }));
        }
        true
    }

    /// Program loader: copies a program image into memory at the program
    /// start. An image larger than the 3584 bytes that remain is rejected
    /// before anything is written.
    pub fn load_program(&mut self, rom: &[u8]) -> (r: Result<(), LoadError>)
        requires
            old(self)@.wf(),
        ensures
            final(self)@.wf(),
            rom@.len() <= 3584 ==> r is Ok && final(self)@ == (Chip8State {
                memory: spec_loaded_memory(old(self)@.memory, rom@),
                ..old(self)@
            }),
            rom@.len() > 3584 ==> r == Err::<(), LoadError>(
                LoadError::TooLarge { size: rom@.len() as usize },
            ) && final(self)@ == old(self)@,
    {
        if rom.len() > 3584 {
            return Err(LoadError::TooLarge { size: rom.len() });
        }
        let mut j: usize = 0;
        proof {
            assert(rom@.take(0) =~= Seq::<u8>::empty());
            assert(self.memory@ =~= spec_loaded_memory(old(self)@.memory, rom@.take(0)));
        }
        while j < rom.len()
            invariant
                j <= rom@.len(),
                rom@.len() <= 3584,
                self.memory@ == spec_loaded_memory(old(self)@.memory, rom@.take(j as int)),
                self.v == old(self).v,
                self.i == old(self).i,
                self.pc == old(self).pc,
                self.gfx == old(self).gfx,
                self.delay_timer == old(self).delay_timer,
                self.sound_timer == old(self).sound_timer,
                self.stack == old(self).stack,
                self.key == old(self).key,
                self.waiting_for_key == old(self).waiting_for_key,
                self.opcode == old(self).opcode,
                self.rng == old(self).rng,
                self.clock_speed == old(self).clock_speed,
            decreases rom@.len() - j,
        {
            self.memory.set(0x200 + j, rom[j]);
            j = j + 1;
            proof {
                assert(self.memory@ =~= spec_loaded_memory(old(self)@.memory, rom@.take(j as int)));
            }
        }
        proof {
            assert(rom@.take(rom@.len() as int) =~= rom@);
            assert(self@ =~= (Chip8State {
                memory: spec_loaded_memory(old(self)@.memory, rom@),
                ..old(self)@
            }));
        }
        Ok(())
    }

    /// Advance the program counter past the current instruction.
    pub fn increase_pc(&mut self)
        requires
            old(self)@.wf(),
            old(self).pc + 2 <= 0xFFFF,
        ensures
            final(self)@.wf(),
            final(self)@ == spec_exec_noop(old(self)@),
    {
        self.pc = self.pc + 2;
        proof {
            assert(self@ =~= spec_exec_noop(old(self)@));
        }
    }

    /// Advance past the current instruction, or past the next one too when
    /// `skip` holds: the conditional-skip opcodes.
    fn skip_if(&mut self, skip: bool)
        requires
            old(self)@.wf(),
            old(self).pc + 4 <= 0xFFFF,
        ensures
            final(self)@.wf(),
            final(self)@ == spec_skip(old(self)@, skip),
    {
        if skip {
            self.pc = self.pc + 4;
        } else {
            self.pc = self.pc + 2;
        }
        proof {
            assert(self@ =~= spec_skip(old(self)@, skip));
        }
    }

    /// Fetch: read the big-endian opcode at the program counter. A fetch
    /// whose second byte lies past the end of memory is a fatal fault and
    /// changes nothing.
    pub fn fetch_opcode(&mut self) -> (r: Result<(), Fault>)
        requires
            old(self)@.wf(),
        ensures
            final(self)@.wf(),
            old(self).pc + 1 < 4096 ==> r is Ok && final(self)@ == (Chip8State {
                opcode: spec_fetched(old(self)@),
                ..old(self)@
            }),
            old(self).pc + 1 >= 4096 ==> r == Err::<(), Fault>(
                Fault::FetchOutOfBounds { pc: old(self).pc },
            ) && final(self)@ == old(self)@,
    {
        if self.pc >= 4095 {
            return Err(Fault::FetchOutOfBounds { pc: self.pc });
        }
        let hi = self.memory[self.pc as usize];
        let lo = self.memory[self.pc as usize + 1];
        self.opcode = ((hi as u16) << 8) | (lo as u16);
        proof {
            assert(self@ =~= (Chip8State { opcode: spec_fetched(old(self)@), ..old(self)@ }));
        }
        Ok(())
    }

    /// 00E0: clear the framebuffer.
    pub fn _00e0_opcode(&mut self)
        requires
            old(self)@.wf(),
            old(self).pc + 2 <= 0xFFFF,
        ensures
            final(self)@.wf(),
            final(self)@ == spec_exec_cls(old(self)@),
    {
        self.gfx = zero_bytes(2048);
        self.increase_pc();
        proof {
            assert(self@ =~= spec_exec_cls(old(self)@));
        }
    }

    /// 1NNN: jump.
    pub fn _1nnn_opcode(&mut self)
        requires
            old(self)@.wf(),
        ensures
            final(self)@.wf(),
            final(self)@ == spec_exec_jump(old(self)@, op_nnn(old(self).opcode)),
    {
        let addr = decode::imm_nnn(self.opcode);
        self.pc = addr;
        proof {
            assert(self@ =~= spec_exec_jump(old(self)@, op_nnn(old(self).opcode)));
        }
    }

    /// 6XNN: load an immediate into VX.
    pub fn _6xnn_opcode(&mut self)
        requires
            old(self)@.wf(),
            old(self).pc + 2 <= 0xFFFF,
        ensures
            final(self)@.wf(),
            final(self)@ == spec_exec_6xnn(
                old(self)@,
                op_x(old(self).opcode) as int,
                op_nn(old(self).opcode) as u8,
            ),
    {
        let x = decode::reg_x(self.opcode);
        let nn = decode::imm_nn(self.opcode);
        self.v.set(x, nn);
        self.increase_pc();
        proof {
            assert(self@ =~= spec_exec_6xnn(
                old(self)@,
                op_x(old(self).opcode) as int,
                op_nn(old(self).opcode) as u8,
            ));
        }
    }

    /// 7XNN: add an immediate to VX with wraparound; VF is untouched.
    pub fn _7xnn_opcode(&mut self)
        requires
            old(self)@.wf(),
            old(self).pc + 2 <= 0xFFFF,
        ensures
            final(self)@.wf(),
            final(self)@ == spec_exec_7xnn(
                old(self)@,
                op_x(old(self).opcode) as int,
                op_nn(old(self).opcode) as u8,
            ),
    {
        let x = decode::reg_x(self.opcode);
        let nn = decode::imm_nn(self.opcode);
        let sum: u16 = self.v[x] as u16 + nn as u16;
        self.v.set(x, (sum % 256) as u8);
        self.increase_pc();
        proof {
            assert(self@ =~= spec_exec_7xnn(
                old(self)@,
                op_x(old(self).opcode) as int,
                op_nn(old(self).opcode) as u8,
            ));
        }
    }

    /// ANNN: load the index register.
    pub fn _annn_opcode(&mut self)
        requires
            old(self)@.wf(),
            old(self).pc + 2 <= 0xFFFF,
        ensures
            final(self)@.wf(),
            final(self)@ == spec_exec_annn(old(self)@, op_nnn(old(self).opcode)),
    {
        let addr = decode::imm_nnn(self.opcode);
        self.i = addr;
        self.increase_pc();
        proof {
            assert(self@ =~= spec_exec_annn(old(self)@, op_nnn(old(self).opcode)));
        }
    }

    /// BNNN: jump to NNN displaced by V0.
    pub fn _bnnn_opcode(&mut self)
        requires
            old(self)@.wf(),
        ensures
            final(self)@.wf(),
            final(self)@ == spec_exec_bnnn(old(self)@, op_nnn(old(self).opcode)),
    {
        let addr = decode::imm_nnn(self.opcode);
        self.pc = addr + self.v[0] as u16;
        proof {
            assert(self@ =~= spec_exec_bnnn(old(self)@, op_nnn(old(self).opcode)));
        }
    }

    /// FX07: read the delay timer into VX.
    pub fn _fx07_opcode(&mut self)
        requires
            old(self)@.wf(),
            old(self).pc + 2 <= 0xFFFF,
        ensures
            final(self)@.wf(),
            final(self)@ == spec_exec_fx07(old(self)@, op_x(old(self).opcode) as int),
    {
        let x = decode::reg_x(self.opcode);
        let t = self.delay_timer;
        self.v.set(x, t);
        self.increase_pc();
        proof {
            assert(self@ =~= spec_exec_fx07(old(self)@, op_x(old(self).opcode) as int));
        }
    }

    /// FX0A: block until a key press; the program counter stays on this
    /// instruction, so no further opcode is dispatched until the press
    /// arrives through the input interface.
    pub fn _fx0a_opcode(&mut self)
        requires
            old(self)@.wf(),
            old(self).pc + 2 <= 0xFFFF,
        ensures
            final(self)@.wf(),
            final(self)@ == spec_exec_fx0a(old(self)@, op_x(old(self).opcode) as int),
    {
        let x = decode::reg_x(self.opcode);
        self.waiting_for_key = Option::Some(x as u8);
        proof {
            assert(self@ =~= spec_exec_fx0a(old(self)@, op_x(old(self).opcode) as int));
        }
    }

    /// FX15: load the delay timer from VX.
    pub fn _fx15_opcode(&mut self)
        requires
            old(self)@.wf(),
            old(self).pc + 2 <= 0xFFFF,
        ensures
            final(self)@.wf(),
            final(self)@ == spec_exec_fx15(old(self)@, op_x(old(self).opcode) as int),
    {
        let x = decode::reg_x(self.opcode);
        self.delay_timer = self.v[x];
        self.increase_pc();
        proof {
            assert(self@ =~= spec_exec_fx15(old(self)@, op_x(old(self).opcode) as int));
        }
    }

    /// FX18: load the sound timer from VX.
    pub fn _fx18_opcode(&mut self)
        requires
            old(self)@.wf(),
            old(self).pc + 2 <= 0xFFFF,
        ensures
            final(self)@.wf(),
            final(self)@ == spec_exec_fx18(old(self)@, op_x(old(self).opcode) as int),
    {
        let x = decode::reg_x(self.opcode);
        self.sound_timer = self.v[x];
        self.increase_pc();
        proof {
            assert(self@ =~= spec_exec_fx18(old(self)@, op_x(old(self).opcode) as int));
        }
    }

    /// FX1E: add VX to the index register, masked to 12 bits; VF reports
    /// overflow of those 12 bits.
    pub fn _fx1e_opcode(&mut self)
        requires
            old(self)@.wf(),
            old(self).pc + 2 <= 0xFFFF,
        ensures
            final(self)@.wf(),
            final(self)@ == spec_exec_fx1e(old(self)@, op_x(old(self).opcode) as int),
    {
        let x = decode::reg_x(self.opcode);
        let sum: u16 = self.i + self.v[x] as u16;
        let flag: u8 = if sum > 0xFFF {
            1
        } else {
            0
        };
        self.i = sum % 4096;
        self.v.set(15, flag);
        self.increase_pc();
        proof {
            assert(self@ =~= spec_exec_fx1e(old(self)@, op_x(old(self).opcode) as int));
        }
    }

    /// FX29: point the index register at the font sprite of the digit in
    /// VX; only the low nibble names a digit.
    pub fn _fx29_opcode(&mut self)
        requires
            old(self)@.wf(),
            old(self).pc + 2 <= 0xFFFF,
        ensures
            final(self)@.wf(),
            final(self)@ == spec_exec_fx29(old(self)@, op_x(old(self).opcode) as int),
    {
        let x = decode::reg_x(self.opcode);
        let digit = self.v[x] % 16;
        self.i = 0x50 + 5 * digit as u16;
        self.increase_pc();
        proof {
            assert(self@ =~= spec_exec_fx29(old(self)@, op_x(old(self).opcode) as int));
        }
    }
}

impl Chipate {
    /// 00EE: return from a subroutine: pop the call's address and resume
    /// just past it. Fatal when no call is pending; nothing changes then.
    pub fn _00ee_opcode(&mut self) -> (r: Result<(), Fault>)
        requires
            old(self)@.wf(),
        ensures
            final(self)@.wf(),
            final(self)@ == spec_exec_ret(old(self)@).state,
            r is Ok <==> spec_exec_ret(old(self)@).fault is None,
            r matches Err(f) ==> spec_exec_ret(old(self)@).fault == Option::Some(f),
    {
        match self.stack.pop() {
            Option::Some(addr) => {
                proof {
                    assert(addr == old(self).stack@.last());
                    assert(old(self).stack@[old(self).stack@.len() - 1] <= 0xFFFD);
                }
                self.pc = addr + 2;
                proof {
                    assert(self@ =~= spec_exec_ret(old(self)@).state);
                }
                Ok(())
            },
            Option::None => Err(Fault::StackUnderflow { pc: self.pc, opcode: self.opcode }),
        }
    }

    /// 2NNN: push the call's own address and jump to the subroutine.
    /// Fatal when sixteen calls are already pending; nothing changes then.
    pub fn _2nnn_opcode(&mut self) -> (r: Result<(), Fault>)
        requires
            old(self)@.wf(),
            old(self).pc + 2 <= 0xFFFF,
        ensures
            final(self)@.wf(),
            final(self)@ == spec_exec_call(old(self)@, op_nnn(old(self).opcode)).state,
            r is Ok <==> spec_exec_call(old(self)@, op_nnn(old(self).opcode)).fault is None,
            r matches Err(f) ==> spec_exec_call(old(self)@, op_nnn(old(self).opcode)).fault
                == Option::Some(f),
    {
        if self.stack.len() >= 16 {
            return Err(Fault::StackOverflow { pc: self.pc, opcode: self.opcode });
        }
        let pc = self.pc;
        self.stack.push(pc);
        let addr = decode::imm_nnn(self.opcode);
        self.pc = addr;
        proof {
            assert(self@ =~= spec_exec_call(old(self)@, op_nnn(old(self).opcode)).state);
        }
        Ok(())
    }

    /// 3XNN: skip the next instruction when VX equals NN.
    pub fn _3xnn_opcode(&mut self)
        requires
            old(self)@.wf(),
            old(self).pc + 4 <= 0xFFFF,
        ensures
            final(self)@.wf(),
            final(self)@ == spec_skip(
                old(self)@,
                old(self)@.v[op_x(old(self).opcode) as int] == op_nn(old(self).opcode),
            ),
    {
        let x = decode::reg_x(self.opcode);
        let nn = decode::imm_nn(self.opcode);
        let cond = self.v[x] == nn;
        self.skip_if(cond);
    }

    /// 4XNN: skip the next instruction when VX differs from NN.
    pub fn _4xnn_opcode(&mut self)
        requires
            old(self)@.wf(),
            old(self).pc + 4 <= 0xFFFF,
        ensures
            final(self)@.wf(),
            final(self)@ == spec_skip(
                old(self)@,
                old(self)@.v[op_x(old(self).opcode) as int] != op_nn(old(self).opcode),
            ),
    {
        let x = decode::reg_x(self.opcode);
        let nn = decode::imm_nn(self.opcode);
        let cond = self.v[x] != nn;
        self.skip_if(cond);
    }

    /// 5XY0: skip the next instruction when VX equals VY.
    pub fn _5xy0_opcode(&mut self)
        requires
            old(self)@.wf(),
            old(self).pc + 4 <= 0xFFFF,
        ensures
            final(self)@.wf(),
            final(self)@ == spec_skip(
                old(self)@,
                old(self)@.v[op_x(old(self).opcode) as int] == old(self)@.v[op_y(
                    old(self).opcode,
                ) as int],
            ),
    {
        let x = decode::reg_x(self.opcode);
        let y = decode::reg_y(self.opcode);
        let cond = self.v[x] == self.v[y];
        self.skip_if(cond);
    }

    /// 9XY0: skip the next instruction when VX differs from VY.
    pub fn _9xy0_opcode(&mut self)
        requires
            old(self)@.wf(),
            old(self).pc + 4 <= 0xFFFF,
        ensures
            final(self)@.wf(),
            final(self)@ == spec_skip(
                old(self)@,
                old(self)@.v[op_x(old(self).opcode) as int] != old(self)@.v[op_y(
                    old(self).opcode,
                ) as int],
            ),
    {
        let x = decode::reg_x(self.opcode);
        let y = decode::reg_y(self.opcode);
        let cond = self.v[x] != self.v[y];
        self.skip_if(cond);
    }

    /// 8XY0: copy VY into VX.
    pub fn _8xy0_opcode(&mut self)
        requires
            old(self)@.wf(),
            old(self).pc + 2 <= 0xFFFF,
        ensures
            final(self)@.wf(),
            final(self)@ == spec_exec_8xy0(
                old(self)@,
                op_x(old(self).opcode) as int,
                op_y(old(self).opcode) as int,
            ),
    {
        let x = decode::reg_x(self.opcode);
        let y = decode::reg_y(self.opcode);
        let vy = self.v[y];
        self.v.set(x, vy);
        self.increase_pc();
        proof {
            assert(self@ =~= spec_exec_8xy0(
                old(self)@,
                op_x(old(self).opcode) as int,
                op_y(old(self).opcode) as int,
            ));
        }
    }

    /// 8XY1: VX becomes VX OR VY.
    pub fn _8xy1_opcode(&mut self)
        requires
            old(self)@.wf(),
            old(self).pc + 2 <= 0xFFFF,
        ensures
            final(self)@.wf(),
            final(self)@ == spec_exec_8xy1(
                old(self)@,
                op_x(old(self).opcode) as int,
                op_y(old(self).opcode) as int,
            ),
    {
        let x = decode::reg_x(self.opcode);
        let y = decode::reg_y(self.opcode);
        let r = self.v[x] | self.v[y];
        self.v.set(x, r);
        self.increase_pc();
        proof {
            assert(self@ =~= spec_exec_8xy1(
                old(self)@,
                op_x(old(self).opcode) as int,
                op_y(old(self).opcode) as int,
            ));
        }
    }

    /// 8XY2: VX becomes VX AND VY.
    pub fn _8xy2_opcode(&mut self)
        requires
            old(self)@.wf(),
            old(self).pc + 2 <= 0xFFFF,
        ensures
            final(self)@.wf(),
            final(self)@ == spec_exec_8xy2(
                old(self)@,
                op_x(old(self).opcode) as int,
                op_y(old(self).opcode) as int,
            ),
    {
        let x = decode::reg_x(self.opcode);
        let y = decode::reg_y(self.opcode);
        let r = self.v[x] & self.v[y];
        self.v.set(x, r);
        self.increase_pc();
        proof {
            assert(self@ =~= spec_exec_8xy2(
                old(self)@,
                op_x(old(self).opcode) as int,
                op_y(old(self).opcode) as int,
            ));
        }
    }

    /// 8XY3: VX becomes VX XOR VY.
    pub fn _8xy3_opcode(&mut self)
        requires
            old(self)@.wf(),
            old(self).pc + 2 <= 0xFFFF,
        ensures
            final(self)@.wf(),
            final(self)@ == spec_exec_8xy3(
                old(self)@,
                op_x(old(self).opcode) as int,
                op_y(old(self).opcode) as int,
            ),
    {
        let x = decode::reg_x(self.opcode);
        let y = decode::reg_y(self.opcode);
        let r = self.v[x] ^ self.v[y];
        self.v.set(x, r);
        self.increase_pc();
        proof {
            assert(self@ =~= spec_exec_8xy3(
                old(self)@,
                op_x(old(self).opcode) as int,
                op_y(old(self).opcode) as int,
            ));
        }
    }

    /// 8XY4: add VY to VX with wraparound; VF reports the carry and its
    /// write lands last.
    pub fn _8xy4_opcode(&mut self)
        requires
            old(self)@.wf(),
            old(self).pc + 2 <= 0xFFFF,
        ensures
            final(self)@.wf(),
            final(self)@ == spec_exec_8xy4(
                old(self)@,
                op_x(old(self).opcode) as int,
                op_y(old(self).opcode) as int,
            ),
    {
        let x = decode::reg_x(self.opcode);
        let y = decode::reg_y(self.opcode);
        let sum: u16 = self.v[x] as u16 + self.v[y] as u16;
        let flag: u8 = if sum > 255 {
            1
        } else {
            0
        };
        self.v.set(x, (sum % 256) as u8);
        self.v.set(15, flag);
        self.increase_pc();
        proof {
            assert(self@ =~= spec_exec_8xy4(
                old(self)@,
                op_x(old(self).opcode) as int,
                op_y(old(self).opcode) as int,
            ));
        }
    }

    /// 8XY5: subtract VY from VX with wraparound; VF is 0 exactly on
    /// borrow.
    pub fn _8xy5_opcode(&mut self)
        requires
            old(self)@.wf(),
            old(self).pc + 2 <= 0xFFFF,
        ensures
            final(self)@.wf(),
            final(self)@ == spec_exec_8xy5(
                old(self)@,
                op_x(old(self).opcode) as int,
                op_y(old(self).opcode) as int,
            ),
    {
        let x = decode::reg_x(self.opcode);
        let y = decode::reg_y(self.opcode);
        let vx = self.v[x];
        let vy = self.v[y];
        let flag: u8 = if vy > vx {
            0
        } else {
            1
        };
        let diff: u16 = (vx as u16 + 256 - vy as u16) % 256;
        self.v.set(x, diff as u8);
        self.v.set(15, flag);
        self.increase_pc();
        proof {
            assert(self@ =~= spec_exec_8xy5(
                old(self)@,
                op_x(old(self).opcode) as int,
                op_y(old(self).opcode) as int,
            ));
        }
    }

    /// 8XY6: shift VX right; VF takes the shifted-out low bit, and the
    /// shifted value is written last.
    pub fn _8xy6_opcode(&mut self)
        requires
            old(self)@.wf(),
            old(self).pc + 2 <= 0xFFFF,
        ensures
            final(self)@.wf(),
            final(self)@ == spec_exec_8xy6(
                old(self)@,
                op_x(old(self).opcode) as int,
                op_y(old(self).opcode) as int,
            ),
    {
        let x = decode::reg_x(self.opcode);
        let vx = self.v[x];
        self.v.set(15, vx & 1);
        self.v.set(x, vx >> 1);
        self.increase_pc();
        proof {
            assert(self@ =~= spec_exec_8xy6(
                old(self)@,
                op_x(old(self).opcode) as int,
                op_y(old(self).opcode) as int,
            ));
        }
    }

    /// 8XY7: VX becomes VY minus VX with wraparound; VF is 0 exactly on
    /// borrow.
    pub fn _8xy7_opcode(&mut self)
        requires
            old(self)@.wf(),
            old(self).pc + 2 <= 0xFFFF,
        ensures
            final(self)@.wf(),
            final(self)@ == spec_exec_8xy7(
                old(self)@,
                op_x(old(self).opcode) as int,
                op_y(old(self).opcode) as int,
            ),
    {
        let x = decode::reg_x(self.opcode);
        let y = decode::reg_y(self.opcode);
        let vx = self.v[x];
        let vy = self.v[y];
        let flag: u8 = if vx > vy {
            0
        } else {
            1
        };
        let diff: u16 = (vy as u16 + 256 - vx as u16) % 256;
        self.v.set(x, diff as u8);
        self.v.set(15, flag);
        self.increase_pc();
        proof {
            assert(self@ =~= spec_exec_8xy7(
                old(self)@,
                op_x(old(self).opcode) as int,
                op_y(old(self).opcode) as int,
            ));
        }
    }

    /// 8XYE: shift VX left with wraparound; VF takes the shifted-out high
    /// bit, and the shifted value is written last.
    pub fn _8xye_opcode(&mut self)
        requires
            old(self)@.wf(),
            old(self).pc + 2 <= 0xFFFF,
        ensures
            final(self)@.wf(),
            final(self)@ == spec_exec_8xye(
                old(self)@,
                op_x(old(self).opcode) as int,
                op_y(old(self).opcode) as int,
            ),
    {
        let x = decode::reg_x(self.opcode);
        let vx = self.v[x];
        self.v.set(15, vx >> 7);
        let doubled: u16 = (vx as u16 * 2) % 256;
        self.v.set(x, doubled as u8);
        self.increase_pc();
        proof {
            assert(self@ =~= spec_exec_8xye(
                old(self)@,
                op_x(old(self).opcode) as int,
                op_y(old(self).opcode) as int,
            ));
        }
    }

    /// CXNN: a fresh pseudo-random byte, masked by NN, into VX. The
    /// generator is a 16-bit linear congruence seeded at reset, so runs
    /// replay deterministically.
    pub fn _cxnn_opcode(&mut self)
        requires
            old(self)@.wf(),
            old(self).pc + 2 <= 0xFFFF,
        ensures
            final(self)@.wf(),
            final(self)@ == spec_exec_cxnn(
                old(self)@,
                op_x(old(self).opcode) as int,
                op_nn(old(self).opcode) as u8,
            ),
    {
        let x = decode::reg_x(self.opcode);
        let nn = decode::imm_nn(self.opcode);
        let next: u32 = ((self.rng as u32) * 25173 + 13849) % 65536;
        self.rng = next as u16;
        let fresh = self.rng;
        proof {
            assert(fresh >> 8 < 256) by (bit_vector);
        }
        let byte: u8 = (fresh >> 8) as u8;
        self.v.set(x, byte & nn);
        self.increase_pc();
        proof {
            assert(self@ =~= spec_exec_cxnn(
                old(self)@,
                op_x(old(self).opcode) as int,
                op_nn(old(self).opcode) as u8,
            ));
        }
    }

    /// EX9E: skip the next instruction when the key named by VX is down.
    pub fn _ex9e_opcode(&mut self)
        requires
            old(self)@.wf(),
            old(self).pc + 4 <= 0xFFFF,
        ensures
            final(self)@.wf(),
            final(self)@ == spec_skip(
                old(self)@,
                spec_key_of_vx(old(self)@, op_x(old(self).opcode) as int),
            ),
    {
        let x = decode::reg_x(self.opcode);
        let kidx = (self.v[x] % 16) as usize;
        let pressed = self.key[kidx];
        self.skip_if(pressed);
    }

    /// EXA1: skip the next instruction when the key named by VX is up.
    pub fn _exa1_opcode(&mut self)
        requires
            old(self)@.wf(),
            old(self).pc + 4 <= 0xFFFF,
        ensures
            final(self)@.wf(),
            final(self)@ == spec_skip(
                old(self)@,
                !spec_key_of_vx(old(self)@, op_x(old(self).opcode) as int),
            ),
    {
        let x = decode::reg_x(self.opcode);
        let kidx = (self.v[x] % 16) as usize;
        let pressed = self.key[kidx];
        self.skip_if(!pressed);
    }

    /// Secondary dispatch for the E family, on the trailing byte.
    pub fn _e_opcodes(&mut self)
        requires
            old(self)@.wf(),
            old(self).pc + 4 <= 0xFFFF,
        ensures
            final(self)@.wf(),
            final(self)@ == spec_step_e(old(self)@, old(self).opcode),
    {
        let sub_op = self.opcode & 0x00FF;
        match sub_op {
            0x009E => self._ex9e_opcode(),
            0x00A1 => self._exa1_opcode(),
            _ => {
                // an unrecognised E-family pattern is tolerated as a no-op
                self.increase_pc();
            },
        }
    }

    /// FX33: store the decimal digits of VX at I, I+1 and I+2, hundreds
    /// first. I-relative addresses are taken modulo the memory size.
    pub fn _fx33_opcode(&mut self)
        requires
            old(self)@.wf(),
            old(self).pc + 2 <= 0xFFFF,
        ensures
            final(self)@.wf(),
            final(self)@ == spec_exec_fx33(old(self)@, op_x(old(self).opcode) as int),
    {
        let x = decode::reg_x(self.opcode);
        let vx = self.v[x];
        let i0 = self.i as usize;
        self.memory.set(i0, vx / 100);
        self.memory.set((i0 + 1) % 4096, (vx / 10) % 10);
        self.memory.set((i0 + 2) % 4096, vx % 10);
        self.increase_pc();
        proof {
            assert(self@ =~= spec_exec_fx33(old(self)@, op_x(old(self).opcode) as int));
        }
    }

    /// FX55: dump V0..VX inclusive into memory at I.
    pub fn _fx55_opcode(&mut self)
        requires
            old(self)@.wf(),
            old(self).pc + 2 <= 0xFFFF,
        ensures
            final(self)@.wf(),
            final(self)@ == spec_exec_fx55(old(self)@, op_x(old(self).opcode) as int),
    {
        let x = decode::reg_x(self.opcode);
        let mut j: usize = 0;
        while j <= x
            invariant
                old(self)@.wf(),
                x == op_x(old(self).opcode),
                x < 16,
                j <= x + 1,
                self.memory@.len() == 4096,
                self.memory@ == spec_store_regs(
                    old(self).memory@,
                    old(self).v@,
                    old(self).i as int,
                    j as int - 1,
                ),
                self.v@ == old(self).v@,
                self.i == old(self).i,
                self.pc == old(self).pc,
                self.opcode == old(self).opcode,
                self.gfx@ == old(self).gfx@,
                self.delay_timer == old(self).delay_timer,
                self.sound_timer == old(self).sound_timer,
                self.stack@ == old(self).stack@,
                self.key@ == old(self).key@,
                self.waiting_for_key == old(self).waiting_for_key,
                self.rng == old(self).rng,
                self.clock_speed == old(self).clock_speed,
            decreases x + 1 - j,
        {
            let addr = (self.i as usize + j) % 4096;
            let vj = self.v[j];
            self.memory.set(addr, vj);
            j = j + 1;
            proof {
                assert(self.memory@ =~= spec_store_regs(
                    old(self).memory@,
                    old(self).v@,
                    old(self).i as int,
                    j as int - 1,
                ));
            }
        }
        self.increase_pc();
        proof {
            assert(self@ =~= spec_exec_fx55(old(self)@, op_x(old(self).opcode) as int));
        }
    }

    /// FX65: fill V0..VX inclusive from memory at I.
    pub fn _fx65_opcode(&mut self)
        requires
            old(self)@.wf(),
            old(self).pc + 2 <= 0xFFFF,
        ensures
            final(self)@.wf(),
            final(self)@ == spec_exec_fx65(old(self)@, op_x(old(self).opcode) as int),
    {
        let x = decode::reg_x(self.opcode);
        let mut j: usize = 0;
        while j <= x
            invariant
                old(self)@.wf(),
                x == op_x(old(self).opcode),
                x < 16,
                j <= x + 1,
                self.v@.len() == 16,
                self.v@ == spec_load_regs(
                    old(self).v@,
                    old(self).memory@,
                    old(self).i as int,
                    j as int - 1,
                ),
                self.memory@ == old(self).memory@,
                self.i == old(self).i,
                self.pc == old(self).pc,
                self.opcode == old(self).opcode,
                self.gfx@ == old(self).gfx@,
                self.delay_timer == old(self).delay_timer,
                self.sound_timer == old(self).sound_timer,
                self.stack@ == old(self).stack@,
                self.key@ == old(self).key@,
                self.waiting_for_key == old(self).waiting_for_key,
                self.rng == old(self).rng,
                self.clock_speed == old(self).clock_speed,
            decreases x + 1 - j,
        {
            let addr = (self.i as usize + j) % 4096;
            let m = self.memory[addr];
            self.v.set(j, m);
            j = j + 1;
            proof {
                assert(self.v@ =~= spec_load_regs(
                    old(self).v@,
                    old(self).memory@,
                    old(self).i as int,
                    j as int - 1,
                ));
            }
        }
        self.increase_pc();
        proof {
            assert(self@ =~= spec_exec_fx65(old(self)@, op_x(old(self).opcode) as int));
        }
    }

    /// Secondary dispatch for the F family, on the trailing byte.
    pub fn _f_opcodes(&mut self)
        requires
            old(self)@.wf(),
            old(self).pc + 2 <= 0xFFFF,
        ensures
            final(self)@.wf(),
            final(self)@ == spec_step_f(old(self)@, old(self).opcode),
    {
        let sub_op = self.opcode & 0x00FF;
        match sub_op {
            0x0007 => self._fx07_opcode(),
            0x000A => self._fx0a_opcode(),
            0x0015 => self._fx15_opcode(),
            0x0018 => self._fx18_opcode(),
            0x001E => self._fx1e_opcode(),
            0x0029 => self._fx29_opcode(),
            0x0033 => self._fx33_opcode(),
            0x0055 => self._fx55_opcode(),
            0x0065 => self._fx65_opcode(),
            _ => {
                // an unrecognised F-family pattern is tolerated as a no-op
                self.increase_pc();
            },
        }
    }

    /// Secondary dispatch for the 8 family, on the trailing nibble.
    pub fn _8_opcodes(&mut self)
        requires
            old(self)@.wf(),
            old(self).pc + 2 <= 0xFFFF,
        ensures
            final(self)@.wf(),
            final(self)@ == spec_step_8(old(self)@, old(self).opcode),
    {
        let sub_op = self.opcode & 0x000F;
        match sub_op {
            0x0000 => self._8xy0_opcode(),
            0x0001 => self._8xy1_opcode(),
            0x0002 => self._8xy2_opcode(),
            0x0003 => self._8xy3_opcode(),
            0x0004 => self._8xy4_opcode(),
            0x0005 => self._8xy5_opcode(),
            0x0006 => self._8xy6_opcode(),
            0x0007 => self._8xy7_opcode(),
            0x000E => self._8xye_opcode(),
            _ => {
                // an unrecognised 8-family pattern is tolerated as a no-op
                self.increase_pc();
            },
        }
    }
}

impl Chipate {
    /// DXYN: XOR-draw the N-row sprite at the index register onto the
    /// screen at (VX mod 64, VY mod 32), clipping at the right and bottom
    /// edges; VF reports whether a set pixel was cleared.
    pub fn _dxyn_opcode(&mut self)
        requires
            old(self)@.wf(),
            old(self).pc + 2 <= 0xFFFF,
        ensures
            final(self)@.wf(),
            final(self)@ == spec_exec_dxyn(
                old(self)@,
                op_x(old(self).opcode) as int,
                op_y(old(self).opcode) as int,
                op_n(old(self).opcode) as int,
            ),
    {
        let x = decode::reg_x(self.opcode);
        let y = decode::reg_y(self.opcode);
        let n = decode::imm_n(self.opcode);
        let n_us = n as usize;
        let x0 = (self.v[x] % 64) as usize;
        let y0 = (self.v[y] % 32) as usize;
        let ghost g0 = self.gfx@;
        let ghost sp = spec_sprite(self@, n as int);
        let mut col = false;
        let mut r: usize = 0;
        proof {
            draw::lemma_draw_init(g0, sp, x0 as int, y0 as int);
        }
        while r < n_us
            invariant
                old(self)@.wf(),
                n_us < 16,
                r <= n_us,
                x0 < 64,
                y0 < 32,
                sp == spec_sprite(old(self)@, n_us as int),
                sp.len() == n_us,
                g0 == old(self).gfx@,
                self.memory@ == old(self).memory@,
                self.v@ == old(self).v@,
                self.i == old(self).i,
                self.pc == old(self).pc,
                self.opcode == old(self).opcode,
                self.delay_timer == old(self).delay_timer,
                self.sound_timer == old(self).sound_timer,
                self.stack@ == old(self).stack@,
                self.key@ == old(self).key@,
                self.waiting_for_key == old(self).waiting_for_key,
                self.rng == old(self).rng,
                self.clock_speed == old(self).clock_speed,
                self.gfx@.len() == 2048,
                self.gfx@ == draw::spec_draw_gfx_prefix(g0, sp, x0 as int, y0 as int, r as int, 0),
                col == draw::spec_draw_collision_prefix(
                    g0,
                    sp,
                    x0 as int,
                    y0 as int,
                    r as int,
                    0,
                ),
            decreases n_us - r,
        {
            if y0 + r < 32 {
                let addr = (self.i as usize + r) % 4096;
                let row = self.memory[addr];
                proof {
                    assert(row == sp[r as int]);
                }
                let mut c: usize = 0;
                while c < 8
                    invariant
                        old(self)@.wf(),
                        n_us < 16,
                        r < n_us,
                        c <= 8,
                        x0 < 64,
                        y0 < 32,
                        y0 + r < 32,
                        sp == spec_sprite(old(self)@, n_us as int),
                        sp.len() == n_us,
                        g0 == old(self).gfx@,
                        row == sp[r as int],
                        self.memory@ == old(self).memory@,
                        self.v@ == old(self).v@,
                        self.i == old(self).i,
                        self.pc == old(self).pc,
                        self.opcode == old(self).opcode,
                        self.delay_timer == old(self).delay_timer,
                        self.sound_timer == old(self).sound_timer,
                        self.stack@ == old(self).stack@,
                        self.key@ == old(self).key@,
                        self.waiting_for_key == old(self).waiting_for_key,
                        self.rng == old(self).rng,
                        self.clock_speed == old(self).clock_speed,
                        self.gfx@.len() == 2048,
                        self.gfx@ == draw::spec_draw_gfx_prefix(
                            g0,
                            sp,
                            x0 as int,
                            y0 as int,
                            r as int,
                            c as int,
                        ),
                        col == draw::spec_draw_collision_prefix(
                            g0,
                            sp,
                            x0 as int,
                            y0 as int,
                            r as int,
                            c as int,
                        ),
                    decreases 8 - c,
                {
                    if x0 + c < 64 {
                        let bit = draw::row_bit(row, c);
                        let idx = (y0 + r) * 64 + (x0 + c);
                        proof {
                            draw::lemma_pixel_index((x0 + c) as int, (y0 + r) as int);
                            draw::lemma_draw_step(
                                g0,
                                sp,
                                x0 as int,
                                y0 as int,
                                r as int,
                                c as int,
                                self.gfx@,
                            );
                        }
                        if bit == 1 {
                            let oldpx = self.gfx[idx];
                            if oldpx == 1 {
                                col = true;
                            }
                            self.gfx.set(idx, oldpx ^ 1);
                        }
                        proof {
                            assert(self.gfx@ =~= draw::spec_draw_gfx_prefix(
                                g0,
                                sp,
                                x0 as int,
                                y0 as int,
                                r as int,
                                c as int + 1,
                            ));
                        }
                    } else {
                        proof {
                            draw::lemma_draw_col_skip(
                                g0,
                                sp,
                                x0 as int,
                                y0 as int,
                                r as int,
                                c as int,
                            );
                        }
                    }
                    c = c + 1;
                }
                proof {
                    draw::lemma_draw_row_end(g0, sp, x0 as int, y0 as int, r as int);
                }
            } else {
                proof {
                    draw::lemma_draw_row_skip(g0, sp, x0 as int, y0 as int, r as int);
                }
            }
            r = r + 1;
        }
        proof {
            draw::lemma_draw_full(g0, sp, x0 as int, y0 as int);
            draw::lemma_draw_binary(g0, sp, x0 as int, y0 as int);
        }
        let flag: u8 = if col {
            1
        } else {
            0
        };
        self.v.set(15, flag);
        self.increase_pc();
        proof {
            assert(self@ =~= spec_exec_dxyn(
                old(self)@,
                op_x(old(self).opcode) as int,
                op_y(old(self).opcode) as int,
                op_n(old(self).opcode) as int,
            ));
        }
    }

    /// Secondary dispatch for the 0 family: clear-screen, return, and the
    /// tolerated legacy machine-code call.
    pub fn _0_opcodes(&mut self) -> (r: Result<(), Fault>)
        requires
            old(self)@.wf(),
            old(self).pc + 2 <= 0xFFFF,
        ensures
            final(self)@.wf(),
            final(self)@ == spec_step_0(old(self)@, old(self).opcode).state,
            r is Ok <==> spec_step_0(old(self)@, old(self).opcode).fault is None,
            r matches Err(f) ==> spec_step_0(old(self)@, old(self).opcode).fault
                == Option::Some(f),
    {
        let sub_op = self.opcode & 0x00FF;
        match sub_op {
            0x00E0 => {
                self._00e0_opcode();
                Ok(())
            },
            0x00EE => self._00ee_opcode(),
            _ => {
                // 0NNN, the legacy machine-code call: tolerated as a no-op
                self.increase_pc();
                Ok(())
            },
        }
    }

    /// Decode and execute the fetched opcode: primary dispatch on the top
    /// nibble, with secondary dispatch inside the 0, 8, E and F families.
    /// Unrecognised patterns advance past themselves; only the call stack
    /// can fault here.
    pub fn decode_opcode(&mut self) -> (r: Result<(), Fault>)
        requires
            old(self)@.wf(),
            old(self).pc + 4 <= 0xFFFF,
        ensures
            final(self)@.wf(),
            final(self)@ == spec_step(old(self)@, old(self).opcode).state,
            r is Ok <==> spec_step(old(self)@, old(self).opcode).fault is None,
            r matches Err(f) ==> spec_step(old(self)@, old(self).opcode).fault
                == Option::Some(f),
    {
        proof {
            decode::lemma_field_bounds(self.opcode);
        }
        let fam = self.opcode >> 12;
        match fam {
            0x0 => self._0_opcodes(),
            0x1 => {
                self._1nnn_opcode();
                Ok(())
            },
            0x2 => self._2nnn_opcode(),
            0x3 => {
                self._3xnn_opcode();
                Ok(())
            },
            0x4 => {
                self._4xnn_opcode();
                Ok(())
            },
            0x5 => {
                if self.opcode & 0x000F == 0 {
                    self._5xy0_opcode();
                } else {
                    self.increase_pc();
                }
                Ok(())
            },
            0x6 => {
                self._6xnn_opcode();
                Ok(())
            },
            0x7 => {
                self._7xnn_opcode();
                Ok(())
            },
            0x8 => {
                self._8_opcodes();
                Ok(())
            },
            0x9 => {
                if self.opcode & 0x000F == 0 {
                    self._9xy0_opcode();
                } else {
                    self.increase_pc();
                }
                Ok(())
            },
            0xA => {
                self._annn_opcode();
                Ok(())
            },
            0xB => {
                self._bnnn_opcode();
                Ok(())
            },
            0xC => {
                self._cxnn_opcode();
                Ok(())
            },
            0xD => {
                self._dxyn_opcode();
                Ok(())
            },
            0xE => {
                self._e_opcodes();
                Ok(())
            },
            _ => {
                self._f_opcodes();
                Ok(())
            },
        }
    }

    /// One cycle of the cycle domain: nothing while a key wait is pending;
    /// otherwise fetch, decode and execute one instruction. The host's
    /// driver loop paces calls to this by the configured clock; it never
    /// touches the timer domain.
    pub fn emulate_cycle(&mut self) -> (r: Result<(), Fault>)
        requires
            old(self)@.wf(),
        ensures
            final(self)@.wf(),
            final(self)@ == spec_cycle(old(self)@).state,
            r is Ok <==> spec_cycle(old(self)@).fault is None,
            r matches Err(f) ==> spec_cycle(old(self)@).fault == Option::Some(f),
    {
        if self.waiting_for_key.is_some() {
            return Ok(());
        }
        match self.fetch_opcode() {
            Err(f) => Err(f),
            Ok(()) => self.decode_opcode(),
        }
    }

    /// Input interface: record that key `k` went down or up. A press that
    /// lands while a key wait is pending completes it: the key's index
    /// goes to the waiting register and the program counter advances.
    pub fn set_keys(&mut self, k: u8, pressed: bool)
        requires
            old(self)@.wf(),
            k < 16,
        ensures
            final(self)@.wf(),
            final(self)@ == spec_set_key(old(self)@, k as int, pressed),
    {
        self.key.set(k as usize, pressed);
        if pressed {
            match self.waiting_for_key {
                Option::Some(x) => {
                    self.v.set(x as usize, k);
                    if self.pc <= 0xFFFD {
                        self.pc = self.pc + 2;
                    } else {
                        let wrapped = self.pc;
                        proof {
                            assert((wrapped + 2) as u16 == wrapped - 0xFFFE) by (bit_vector)
                                requires
                                    wrapped >= 0xFFFE,
                            ;
                        }
                        self.pc = wrapped - 0xFFFE;
                    }
                    self.waiting_for_key = Option::None;
                },
                Option::None => {},
            }
        }
        proof {
            assert(self@ =~= spec_set_key(old(self)@, k as int, pressed));
        }
    }

    /// One tick of the 60 Hz timer domain: each nonzero timer counts down
    /// by one. Independent of the cycle domain, and of any pending key
    /// wait.
    pub fn tick_timers(&mut self)
        requires
            old(self)@.wf(),
        ensures
            final(self)@.wf(),
            final(self)@ == spec_tick(old(self)@),
    {
        if self.delay_timer > 0 {
            self.delay_timer = self.delay_timer - 1;
        }
        if self.sound_timer > 0 {
            self.sound_timer = self.sound_timer - 1;
        }
        proof {
            assert(self@ =~= spec_tick(old(self)@));
        }
    }

    /// Render interface: a read-only snapshot of the 64x32 pixel grid,
    /// row-major, one byte per pixel.
    pub fn draw_screen(&self) -> (r: Vec<u8>)
        ensures
            r@ == self@.gfx,
    {
        let mut out: Vec<u8> = Vec::new();
        let mut j: usize = 0;
        proof {
            assert(out@ =~= self.gfx@.take(0));
        }
        while j < self.gfx.len()
            invariant
                j <= self.gfx@.len(),
                out@ == self.gfx@.take(j as int),
            decreases self.gfx@.len() - j,
        {
            let b = self.gfx[j];
            out.push(b);
            j = j + 1;
            proof {
                assert(out@ =~= self.gfx@.take(j as int));
            }
        }
        proof {
            assert(self.gfx@.take(self.gfx@.len() as int) =~= self.gfx@);
        }
        out
    }
}

} // verus!
