//! Machine-level behaviour: reset, loading, the cycle, the call stack,
//! the framebuffer, the timers and the blocking key wait.

use chipate::Chipate;
use chipate::Fault;
use chipate::LoadError;

fn fresh() -> Chipate {
    let mut c = Chipate::new();
    c.init();
    c
}

fn exec(c: &mut Chipate, op: u16) -> Result<(), Fault> {
    c.opcode = op;
    c.decode_opcode()
}

#[test]
fn init_resets_the_machine() {
    let mut c = Chipate::new();
    c.v[3] = 9;
    c.delay_timer = 5;
    c.init();
    assert_eq!(c.pc, 0x200);
    assert_eq!(c.i, 0);
    assert_eq!(c.opcode, 0);
    assert_eq!(c.v, vec![0u8; 16]);
    assert_eq!(c.stack.len(), 0);
    assert_eq!(c.delay_timer, 0);
    assert_eq!(c.sound_timer, 0);
    assert!(c.gfx.iter().all(|&p| p == 0));
}

#[test]
fn init_loads_the_font() {
    let c = fresh();
    // glyph 0
    assert_eq!(&c.memory[0x50..0x55], &[0xF0, 0x90, 0x90, 0x90, 0xF0]);
    // glyph F
    assert_eq!(&c.memory[0x9B..0xA0], &[0xF0, 0x80, 0xF0, 0x80, 0x80]);
    // nothing outside the font area
    assert!(c.memory[..0x50].iter().all(|&b| b == 0));
    assert!(c.memory[0xA0..].iter().all(|&b| b == 0));
}

#[test]
fn load_program_places_bytes_at_0x200() {
    let mut c = fresh();
    let rom = [0xA2u8, 0xF0, 0x60, 0x42];
    c.load_program(&rom).unwrap();
    assert_eq!(&c.memory[0x200..0x204], &rom);
    assert_eq!(c.memory[0x204], 0);
    assert_eq!(c.pc, 0x200);
}

#[test]
fn load_program_accepts_a_full_image() {
    let mut c = fresh();
    let rom = vec![0xABu8; 3584];
    c.load_program(&rom).unwrap();
    assert_eq!(c.memory[0xFFF], 0xAB);
}

#[test]
fn load_program_rejects_an_oversized_image() {
    let mut c = fresh();
    let rom = vec![0u8; 3585];
    let r = c.load_program(&rom);
    assert_eq!(r, Err(LoadError::TooLarge { size: 3585 }));
    // nothing was written
    assert!(c.memory[0x200..].iter().all(|&b| b == 0));
}

#[test]
fn load_program_accepts_an_empty_image() {
    let mut c = fresh();
    c.load_program(&[]).unwrap();
    assert!(c.memory[0x200..].iter().all(|&b| b == 0));
    // fetching from untouched memory finds 0000, a tolerated no-op
    c.emulate_cycle().unwrap();
    assert_eq!(c.pc, 0x202);
}

#[test]
fn clock_speed_rejects_zero() {
    let mut c = fresh();
    assert!(!c.set_clock_speed(0));
    assert_eq!(c.clock_speed, 0);
    assert!(c.set_clock_speed(2));
    assert_eq!(c.clock_speed, 2);
}

#[test]
fn fetch_reads_big_endian() {
    let mut c = fresh();
    c.load_program(&[0xA2, 0xF0]).unwrap();
    c.fetch_opcode().unwrap();
    assert_eq!(c.opcode, 0xA2F0);
    assert_eq!(c.pc, 0x200);
}

#[test]
fn fetch_past_end_of_memory_is_fatal() {
    let mut c = fresh();
    exec(&mut c, 0x1FFF).unwrap(); // jump to 0xFFF: its second byte is out
    let r = c.emulate_cycle();
    assert_eq!(r, Err(Fault::FetchOutOfBounds { pc: 0xFFF }));
    assert_eq!(c.pc, 0xFFF);
}

#[test]
fn cycle_fetches_decodes_and_executes() {
    let mut c = fresh();
    c.load_program(&[0x60, 0x42, 0x71, 0x07]).unwrap();
    c.emulate_cycle().unwrap();
    assert_eq!(c.v[0], 0x42);
    assert_eq!(c.pc, 0x202);
    c.emulate_cycle().unwrap();
    assert_eq!(c.v[1], 0x07);
    assert_eq!(c.pc, 0x204);
}

#[test]
fn call_and_return_roundtrip() {
    let mut c = fresh();
    exec(&mut c, 0x2300).unwrap(); // CALL 0x300 from 0x200
    assert_eq!(c.pc, 0x300);
    assert_eq!(c.stack, vec![0x200]);
    exec(&mut c, 0x00EE).unwrap(); // RETURN
    assert_eq!(c.pc, 0x202);
    assert_eq!(c.stack.len(), 0);
}

#[test]
fn return_with_empty_stack_is_fatal() {
    let mut c = fresh();
    c.opcode = 0x00EE;
    let r = c.decode_opcode();
    assert_eq!(r, Err(Fault::StackUnderflow { pc: 0x200, opcode: 0x00EE }));
    assert_eq!(c.pc, 0x200);
}

#[test]
fn seventeenth_call_overflows_the_stack() {
    let mut c = fresh();
    for _ in 0..16 {
        exec(&mut c, 0x2300).unwrap();
    }
    assert_eq!(c.stack.len(), 16);
    let r = exec(&mut c, 0x2300);
    assert_eq!(r, Err(Fault::StackOverflow { pc: 0x300, opcode: 0x2300 }));
    // the fault changes nothing
    assert_eq!(c.stack.len(), 16);
    assert_eq!(c.pc, 0x300);
}

#[test]
fn draw_sets_pixels_and_reports_no_collision() {
    let mut c = fresh();
    c.memory[0x600] = 0b1010_0000;
    c.memory[0x601] = 0b0100_0000;
    exec(&mut c, 0xA600).unwrap();
    c.v[0] = 4; // x
    c.v[1] = 2; // y
    exec(&mut c, 0xD012).unwrap();
    assert_eq!(c.v[0xF], 0);
    let px = |x: usize, y: usize| c.gfx[y * 64 + x];
    assert_eq!(px(4, 2), 1);
    assert_eq!(px(5, 2), 0);
    assert_eq!(px(6, 2), 1);
    assert_eq!(px(4, 3), 0);
    assert_eq!(px(5, 3), 1);
}

#[test]
fn drawing_twice_clears_and_flags_collision() {
    let mut c = fresh();
    c.memory[0x600] = 0xFF;
    c.memory[0x601] = 0x81;
    exec(&mut c, 0xA600).unwrap();
    c.v[0] = 10;
    c.v[1] = 5;
    exec(&mut c, 0xD012).unwrap();
    assert_eq!(c.v[0xF], 0);
    assert!(c.gfx.iter().any(|&p| p == 1));
    c.v[0] = 10;
    c.v[1] = 5;
    exec(&mut c, 0xD012).unwrap();
    assert_eq!(c.v[0xF], 1);
    assert!(c.gfx.iter().all(|&p| p == 0));
}

#[test]
fn draw_clips_at_the_edges() {
    let mut c = fresh();
    c.memory[0x600] = 0xFF;
    c.memory[0x601] = 0xFF;
    exec(&mut c, 0xA600).unwrap();
    c.v[0] = 60; // four pixels fit before the right edge
    c.v[1] = 31; // one row fits before the bottom edge
    exec(&mut c, 0xD012).unwrap();
    let set: usize = c.gfx.iter().map(|&p| p as usize).sum();
    assert_eq!(set, 4);
    for x in 60..64 {
        assert_eq!(c.gfx[31 * 64 + x], 1);
    }
}

#[test]
fn draw_coordinates_wrap_before_drawing() {
    let mut c = fresh();
    c.memory[0x600] = 0x80;
    exec(&mut c, 0xA600).unwrap();
    c.v[0] = 64; // wraps to column 0
    c.v[1] = 33; // wraps to row 1
    exec(&mut c, 0xD011).unwrap();
    assert_eq!(c.gfx[64], 1);
}

#[test]
fn draw_screen_snapshots_the_framebuffer() {
    let mut c = fresh();
    c.memory[0x600] = 0x80;
    exec(&mut c, 0xA600).unwrap();
    exec(&mut c, 0xD011).unwrap();
    let shot = c.draw_screen();
    assert_eq!(shot, c.gfx);
    assert_eq!(shot[0], 1);
}

#[test]
fn timers_decay_by_exactly_their_value() {
    let mut c = fresh();
    c.v[0] = 10;
    exec(&mut c, 0xF015).unwrap();
    assert_eq!(c.delay_timer, 10);
    for k in 0..10 {
        assert_eq!(c.delay_timer, 10 - k);
        c.tick_timers();
    }
    assert_eq!(c.delay_timer, 0);
    // a further tick never drives it below zero
    c.tick_timers();
    assert_eq!(c.delay_timer, 0);
}

#[test]
fn sound_timer_counts_down_too() {
    let mut c = fresh();
    c.v[2] = 3;
    exec(&mut c, 0xF218).unwrap();
    assert_eq!(c.sound_timer, 3);
    c.tick_timers();
    c.tick_timers();
    assert_eq!(c.sound_timer, 1); // tone is on while nonzero
    c.tick_timers();
    assert_eq!(c.sound_timer, 0);
}

#[test]
fn delay_timer_read_back() {
    let mut c = fresh();
    c.v[0] = 5;
    exec(&mut c, 0xF015).unwrap();
    c.tick_timers();
    exec(&mut c, 0xF107).unwrap();
    assert_eq!(c.v[1], 4);
}

#[test]
fn key_wait_blocks_until_a_press() {
    let mut c = fresh();
    c.load_program(&[0xF3, 0x0A]).unwrap();
    c.emulate_cycle().unwrap();
    assert_eq!(c.pc, 0x200); // still on the waiting instruction
    // further cycles pass the machine through unchanged
    c.emulate_cycle().unwrap();
    c.emulate_cycle().unwrap();
    assert_eq!(c.pc, 0x200);
    // timers keep running while the wait is pending
    c.v[0] = 2;
    c.delay_timer = 2;
    c.tick_timers();
    assert_eq!(c.delay_timer, 1);
    // a release completes nothing
    c.set_keys(0xB, false);
    assert_eq!(c.pc, 0x200);
    // the press lands: VX takes the key, the program counter advances
    c.set_keys(0xB, true);
    assert_eq!(c.v[3], 0xB);
    assert_eq!(c.pc, 0x202);
    // and the machine cycles again afterwards
    c.memory[0x202] = 0x60;
    c.memory[0x203] = 0x11;
    c.emulate_cycle().unwrap();
    assert_eq!(c.v[0], 0x11);
}

#[test]
fn set_keys_records_state() {
    let mut c = fresh();
    c.set_keys(0x4, true);
    assert!(c.key[0x4]);
    c.set_keys(0x4, false);
    assert!(!c.key[0x4]);
    assert_eq!(c.pc, 0x200); // no wait pending: the pc is untouched
}

#[test]
fn clear_screen_opcode() {
    let mut c = fresh();
    c.memory[0x600] = 0xFF;
    exec(&mut c, 0xA600).unwrap();
    exec(&mut c, 0xD011).unwrap();
    assert!(c.gfx.iter().any(|&p| p == 1));
    exec(&mut c, 0x00E0).unwrap();
    assert!(c.gfx.iter().all(|&p| p == 0));
    assert_eq!(c.pc, 0x206);
}
