use libchip8::chip8::{first_pressed, tick_due, Chip8};
use libchip8::cpu::Cpu;
use libchip8::hardware::Hardware;
use libchip8::instr::{decode, Fault, Instr};

/// A screen in memory, a scripted keypad and a clock that the test moves by hand.
struct TestHw {
    size: (usize, usize),
    vram: Vec<bool>,
    keys: [bool; 16],
    now: u64,
    step_ns: u64,
    random: u8,
    beeps: u32,
    steps: u32,
    stop_after: Option<u32>,
}

impl TestHw {
    fn new() -> TestHw {
        TestHw {
            size: (0, 0),
            vram: vec![],
            keys: [false; 16],
            now: 0,
            step_ns: 0,
            random: 0,
            beeps: 0,
            steps: 0,
            stop_after: None,
        }
    }

    fn lit(&self, x: usize, y: usize) -> bool {
        self.vram[y * self.size.0 + x]
    }
}

impl Hardware for TestHw {
    fn rand(&mut self) -> u8 {
        self.random
    }

    fn key(&mut self, key: u8) -> bool {
        (key as usize) < 16 && self.keys[key as usize]
    }

    fn vram_set(&mut self, x: usize, y: usize, d: bool) {
        self.vram[y * self.size.0 + x] = d;
    }

    fn vram_get(&mut self, x: usize, y: usize) -> bool {
        self.vram[y * self.size.0 + x]
    }

    fn vram_setsize(&mut self, size: (usize, usize)) {
        self.size = size;
        self.vram = vec![false; size.0 * size.1];
    }

    fn vram_size(&mut self) -> (usize, usize) {
        self.size
    }

    fn clock(&mut self) -> u64 {
        self.now
    }

    fn beep(&mut self) {
        self.beeps += 1;
    }

    fn sched(&mut self) -> bool {
        self.steps += 1;
        self.now = self.now.wrapping_add(self.step_ns);
        match self.stop_after {
            Some(n) => self.steps > n,
            None => false,
        }
    }
}

fn machine() -> Chip8<TestHw> {
    let mut c = Chip8::new(TestHw::new());
    c.setup();
    c
}

fn exec(cpu: &mut Cpu, w: u16) {
    let ins = decode(w).unwrap();
    cpu.execute(ins);
    cpu.next();
}

#[test]
fn load_and_jump_to_self() {
    let rom = [0x6a, 0x05, 0x12, 0x00];
    let mut c = Chip8::new(TestHw::new());
    assert_eq!(c.run(&rom, 1), Ok(1));
    assert_eq!(c.cpu.v[0xa], 5);
    assert_eq!(c.cpu.pc, 514);
    let mut c = Chip8::new(TestHw::new());
    assert_eq!(c.run(&rom, 2), Ok(2));
    assert_eq!(c.cpu.v[0xa], 5);
    assert_eq!(c.cpu.pc, 512);
    for _ in 0..10 {
        assert_eq!(c.step(), Ok(()));
        assert_eq!(c.step(), Ok(()));
        assert_eq!(c.cpu.v[0xa], 5);
        assert_eq!(c.cpu.pc, 512);
    }
}

#[test]
fn run_stops_on_shutdown_request() {
    let mut hw = TestHw::new();
    hw.stop_after = Some(3);
    let mut c = Chip8::new(hw);
    assert_eq!(c.run(&[0x12, 0x00], 100), Ok(4));
    assert!(!c.running);
}

#[test]
fn run_loads_font_and_rom() {
    let mut c = Chip8::new(TestHw::new());
    assert_eq!(c.run(&[0x12, 0x00, 0xab], 0), Ok(0));
    assert_eq!(&c.cpu.mem[0..5], &[0xf0, 0x90, 0x90, 0x90, 0xf0]);
    assert_eq!(&c.cpu.mem[75..80], &[0xf0, 0x80, 0xf0, 0x80, 0x80]);
    assert_eq!(&c.cpu.mem[512..515], &[0x12, 0x00, 0xab]);
    assert_eq!(c.cpu.mem[515], 0);
    assert_eq!(c.hw.size, (64, 32));
    assert!(c.running);
}

#[test]
fn run_reports_invalid_and_unsupported_opcodes() {
    let mut c = Chip8::new(TestHw::new());
    assert_eq!(c.run(&[0x60, 0x01, 0x50, 0x01], 10), Err(Fault::InvalidOpcode(0x5001)));
    assert_eq!(c.cpu.pc, 514);
    let mut c = Chip8::new(TestHw::new());
    assert_eq!(c.run(&[0x01, 0x23], 10), Err(Fault::Unsupported(0x0123)));
    assert_eq!(decode(0xf0ff), Err(Fault::InvalidOpcode(0xf0ff)));
    assert_eq!(decode(0x8008), Err(Fault::InvalidOpcode(0x8008)));
    assert_eq!(decode(0xe000), Err(Fault::InvalidOpcode(0xe000)));
}

#[test]
fn decode_fields() {
    assert_eq!(decode(0x00e0), Ok(Instr::Cls));
    assert_eq!(decode(0x00ee), Ok(Instr::Ret));
    assert_eq!(decode(0x1abc), Ok(Instr::Jp(0xabc)));
    assert_eq!(decode(0x2abc), Ok(Instr::Call(0xabc)));
    assert_eq!(decode(0x3a12), Ok(Instr::SeImm(0xa, 0x12)));
    assert_eq!(decode(0x5ab0), Ok(Instr::SeReg(0xa, 0xb)));
    assert_eq!(decode(0x8ab4), Ok(Instr::AddReg(0xa, 0xb)));
    assert_eq!(decode(0x8abe), Ok(Instr::Shl(0xa)));
    assert_eq!(decode(0xd12f), Ok(Instr::Drw(1, 2, 0xf)));
    assert_eq!(decode(0xe59e), Ok(Instr::Skp(5)));
    assert_eq!(decode(0xe5a1), Ok(Instr::Sknp(5)));
    assert_eq!(decode(0xf30a), Ok(Instr::WaitKey(3)));
    assert_eq!(decode(0xf365), Ok(Instr::Load(3)));
}

#[test]
fn load_then_add_wraps() {
    for (kk, kk2) in [(0u8, 0u8), (200, 100), (255, 1), (17, 38), (255, 255)] {
        let mut cpu = Cpu::new();
        exec(&mut cpu, 0x6300 | kk as u16);
        exec(&mut cpu, 0x7300 | kk2 as u16);
        assert_eq!(cpu.v[3] as u32, (kk as u32 + kk2 as u32) % 256);
        assert_eq!(cpu.v[0xf], 0);
    }
}

#[test]
fn call_then_ret_resumes_after_call() {
    let rom = [0x23, 0x00];
    let mut c = Chip8::new(TestHw::new());
    c.setup();
    c.load(&rom);
    c.cpu.mem[0x300] = 0x00;
    c.cpu.mem[0x301] = 0xee;
    assert_eq!(c.step(), Ok(()));
    assert_eq!(c.cpu.pc, 0x300);
    assert_eq!(c.cpu.sp, 1);
    assert_eq!(c.step(), Ok(()));
    assert_eq!(c.cpu.pc, 514);
    assert_eq!(c.cpu.sp, 0);
}

#[test]
fn sixteen_nested_calls_unwind_in_order() {
    let mut cpu = Cpu::new();
    for k in 0..16u16 {
        cpu.push(0x200 + 2 * k);
    }
    assert_eq!(cpu.sp, 16);
    for k in (0..16u16).rev() {
        assert_eq!(cpu.pop(), 0x200 + 2 * k);
    }
    assert_eq!(cpu.sp, 0);
}

#[test]
fn seventeenth_call_overwrites_slot_zero() {
    let mut cpu = Cpu::new();
    for k in 0..17u16 {
        cpu.push(0x200 + 2 * k);
    }
    assert_eq!(cpu.stack[0], 0x220);
    assert_eq!(cpu.sp, 17);
}

#[test]
fn pop_from_empty_stack_wraps() {
    let mut cpu = Cpu::new();
    cpu.stack[15] = 0x345;
    assert_eq!(cpu.pop(), 0x345);
    assert_eq!(cpu.sp, 255);
    cpu.push(0x111);
    assert_eq!(cpu.sp, 0);
    assert_eq!(cpu.stack[15], 0x111);
}

#[test]
fn add_sets_carry_exactly_on_overflow() {
    for (a, b) in [(200u8, 55u8), (200, 56), (0, 0), (255, 255), (128, 128), (1, 254)] {
        let mut cpu = Cpu::new();
        cpu.v[1] = a;
        cpu.v[2] = b;
        exec(&mut cpu, 0x8124);
        assert_eq!(cpu.v[1], a.wrapping_add(b));
        assert_eq!(cpu.v[0xf], if a as u16 + b as u16 > 255 { 1 } else { 0 });
    }
}

#[test]
fn sub_sets_flag_when_no_borrow() {
    for (a, b) in [(5u8, 3u8), (3, 5), (7, 7), (0, 255), (255, 0)] {
        let mut cpu = Cpu::new();
        cpu.v[1] = a;
        cpu.v[2] = b;
        exec(&mut cpu, 0x8125);
        assert_eq!(cpu.v[1], a.wrapping_sub(b));
        assert_eq!(cpu.v[0xf], if a >= b { 1 } else { 0 });
        let mut cpu = Cpu::new();
        cpu.v[1] = a;
        cpu.v[2] = b;
        exec(&mut cpu, 0x8127);
        assert_eq!(cpu.v[1], b.wrapping_sub(a));
        assert_eq!(cpu.v[0xf], if b >= a { 1 } else { 0 });
    }
}

#[test]
fn shifts_and_bitwise() {
    let mut cpu = Cpu::new();
    cpu.v[4] = 0x81;
    exec(&mut cpu, 0x8406);
    assert_eq!((cpu.v[4], cpu.v[0xf]), (0x40, 1));
    cpu.v[4] = 0x81;
    exec(&mut cpu, 0x840e);
    assert_eq!((cpu.v[4], cpu.v[0xf]), (0x02, 1));
    cpu.v[4] = 0x40;
    exec(&mut cpu, 0x840e);
    assert_eq!((cpu.v[4], cpu.v[0xf]), (0x80, 0));
    cpu.v[5] = 0x0f;
    cpu.v[6] = 0x3c;
    exec(&mut cpu, 0x8561);
    assert_eq!(cpu.v[5], 0x3f);
    exec(&mut cpu, 0x8562);
    assert_eq!(cpu.v[5], 0x3c);
    exec(&mut cpu, 0x8563);
    assert_eq!(cpu.v[5], 0x00);
    exec(&mut cpu, 0x8560);
    assert_eq!(cpu.v[5], 0x3c);
}

#[test]
fn skips_and_jumps() {
    let mut cpu = Cpu::new();
    cpu.pc = 0x200;
    cpu.v[1] = 7;
    exec(&mut cpu, 0x3107);
    assert_eq!(cpu.pc, 0x204);
    exec(&mut cpu, 0x4107);
    assert_eq!(cpu.pc, 0x206);
    cpu.v[2] = 7;
    exec(&mut cpu, 0x5120);
    assert_eq!(cpu.pc, 0x20a);
    exec(&mut cpu, 0x9120);
    assert_eq!(cpu.pc, 0x20c);
    exec(&mut cpu, 0x1456);
    assert_eq!(cpu.pc, 0x456);
    cpu.v[0] = 0x10;
    exec(&mut cpu, 0xb300);
    assert_eq!(cpu.pc, 0x310);
    exec(&mut cpu, 0x1000);
    assert_eq!(cpu.pc, 0);
}

#[test]
fn index_register_ops() {
    let mut cpu = Cpu::new();
    exec(&mut cpu, 0xa123);
    assert_eq!(cpu.i, 0x123);
    cpu.v[2] = 0xf0;
    exec(&mut cpu, 0xf21e);
    assert_eq!(cpu.i, 0x213);
    cpu.v[3] = 0xf;
    exec(&mut cpu, 0xf329);
    assert_eq!(cpu.i, 75);
    cpu.i = 0xffff;
    cpu.v[4] = 2;
    exec(&mut cpu, 0xf41e);
    assert_eq!(cpu.i, 1);
}

#[test]
fn bcd_of_255() {
    let mut cpu = Cpu::new();
    cpu.v[7] = 255;
    cpu.i = 0x300;
    exec(&mut cpu, 0xf733);
    assert_eq!(&cpu.mem[0x300..0x303], &[2, 5, 5]);
    cpu.v[7] = 7;
    exec(&mut cpu, 0xf733);
    assert_eq!(&cpu.mem[0x300..0x303], &[0, 0, 7]);
}

#[test]
fn bcd_wraps_at_end_of_memory() {
    let mut cpu = Cpu::new();
    cpu.v[0] = 123;
    cpu.i = 4095;
    exec(&mut cpu, 0xf033);
    assert_eq!((cpu.mem[4095], cpu.mem[0], cpu.mem[1]), (1, 2, 3));
}

#[test]
fn store_and_load_registers() {
    let mut cpu = Cpu::new();
    for k in 0..16 {
        cpu.v[k] = 10 + k as u8;
    }
    cpu.i = 4094;
    exec(&mut cpu, 0xf355);
    assert_eq!((cpu.mem[4094], cpu.mem[4095], cpu.mem[0], cpu.mem[1]), (10, 11, 12, 13));
    assert_eq!(cpu.mem[2], 0);
    for k in 0..16 {
        cpu.v[k] = 0;
    }
    exec(&mut cpu, 0xf265);
    assert_eq!(&cpu.v[0..4], &[10, 11, 12, 0]);
    assert_eq!(cpu.i, 4094);
}

#[test]
fn timers_load_and_read() {
    let mut cpu = Cpu::new();
    cpu.v[1] = 9;
    exec(&mut cpu, 0xf115);
    exec(&mut cpu, 0xf118);
    assert_eq!((cpu.dt, cpu.st), (9, 9));
    cpu.dt = 4;
    exec(&mut cpu, 0xf207);
    assert_eq!(cpu.v[2], 4);
}

#[test]
fn tick_counts_down_and_beeps_once() {
    let mut c = machine();
    c.cpu.dt = 2;
    c.cpu.st = 2;
    c.tick();
    assert_eq!((c.cpu.dt, c.cpu.st, c.hw.beeps), (1, 1, 0));
    c.tick();
    assert_eq!((c.cpu.dt, c.cpu.st, c.hw.beeps), (0, 0, 1));
    c.tick();
    assert_eq!((c.cpu.dt, c.cpu.st, c.hw.beeps), (0, 0, 1));
}

#[test]
fn tick_due_threshold() {
    assert!(!tick_due(0, 16_666_666));
    assert!(tick_due(0, 16_666_667));
    assert!(tick_due(u64::MAX - 10, 16_666_660));
    assert!(!tick_due(u64::MAX - 10, 16_666_650));
    assert!(!tick_due(100, 100));
}

#[test]
fn delay_reaches_zero_after_n_period_steps() {
    let n = 5u8;
    let mut c = machine();
    c.hw.step_ns = 16_666_667;
    c.cpu.dt = n;
    c.sched();
    assert_eq!(c.cpu.dt, n);
    for k in 1..=n {
        c.sched();
        assert_eq!(c.cpu.dt, n - k);
    }
    c.sched();
    assert_eq!(c.cpu.dt, 0);
}

#[test]
fn large_clock_jump_ticks_once() {
    let mut c = machine();
    c.hw.step_ns = 1_000_000_000;
    c.cpu.dt = 50;
    c.time = Some(0);
    c.sched();
    assert_eq!(c.cpu.dt, 49);
    assert_eq!(c.time, Some(1_000_000_000));
}

#[test]
fn short_steps_do_not_tick() {
    let mut c = machine();
    c.hw.step_ns = 1_000_000;
    c.cpu.dt = 3;
    c.time = Some(0);
    for _ in 0..16 {
        c.sched();
    }
    assert_eq!(c.cpu.dt, 3);
    c.sched();
    assert_eq!(c.cpu.dt, 2);
}

fn lit_cells(hw: &TestHw) -> Vec<(usize, usize)> {
    let mut r = vec![];
    for y in 0..hw.size.1 {
        for x in 0..hw.size.0 {
            if hw.lit(x, y) {
                r.push((x, y));
            }
        }
    }
    r
}

#[test]
fn draw_glyph_and_collide() {
    let mut c = machine();
    c.cpu.v[0] = 10;
    c.cpu.v[1] = 3;
    c.cpu.i = 0;
    c.draw(0, 1, 5);
    assert_eq!(c.cpu.v[0xf], 0);
    let cells = lit_cells(&c.hw);
    assert_eq!(cells.len(), 14);
    assert!(c.hw.lit(10, 3) && c.hw.lit(13, 3) && !c.hw.lit(11, 4) && c.hw.lit(13, 7));
    c.draw(0, 1, 5);
    assert_eq!(c.cpu.v[0xf], 1);
    assert!(lit_cells(&c.hw).is_empty());
}

#[test]
fn draw_twice_restores_screen() {
    let mut c = machine();
    c.hw.vram[5 * 64 + 22] = true;
    c.hw.vram[9 * 64 + 40] = true;
    let before = c.hw.vram.clone();
    c.cpu.mem[0x300..0x303].copy_from_slice(&[0xa5, 0x3c, 0xff]);
    c.cpu.i = 0x300;
    c.cpu.v[2] = 20;
    c.cpu.v[3] = 5;
    c.draw(2, 3, 3);
    assert_eq!(c.cpu.v[0xf], 1);
    assert_ne!(c.hw.vram, before);
    c.draw(2, 3, 3);
    assert_eq!(c.cpu.v[0xf], 1);
    assert_eq!(c.hw.vram, before);
}

#[test]
fn draw_wraps_at_right_and_bottom_edges() {
    let mut c = machine();
    c.cpu.mem[0x300] = 0xff;
    c.cpu.mem[0x301] = 0x80;
    c.cpu.i = 0x300;
    c.cpu.v[0] = 63;
    c.cpu.v[1] = 31;
    c.draw(0, 1, 2);
    let mut want = vec![(63, 0)];
    for x in 0..7 {
        want.push((x, 31));
    }
    want.push((63, 31));
    want.sort_by_key(|&(x, y)| (y, x));
    assert_eq!(lit_cells(&c.hw), want);
    assert_eq!(c.cpu.v[0xf], 0);
}

#[test]
fn clear_screen_instruction() {
    let mut c = machine();
    c.hw.vram[0] = true;
    c.hw.vram[64 * 32 - 1] = true;
    c.cpu.v[0xf] = 1;
    c.perform(Instr::Cls);
    assert!(lit_cells(&c.hw).is_empty());
    assert_eq!(c.cpu.v[0xf], 1);
}

#[test]
fn random_is_masked() {
    let mut c = machine();
    c.hw.random = 0xb7;
    c.perform(Instr::Rnd(4, 0x0f));
    assert_eq!(c.cpu.v[4], 0x07);
}

#[test]
fn key_skips() {
    let mut c = machine();
    c.cpu.pc = 0x200;
    c.cpu.v[1] = 0xc;
    c.hw.keys[0xc] = true;
    c.perform(Instr::Skp(1));
    assert_eq!(c.cpu.pc, 0x202);
    c.perform(Instr::Sknp(1));
    assert_eq!(c.cpu.pc, 0x202);
    c.hw.keys[0xc] = false;
    c.perform(Instr::Sknp(1));
    assert_eq!(c.cpu.pc, 0x204);
    c.perform(Instr::Skp(1));
    assert_eq!(c.cpu.pc, 0x204);
}

#[test]
fn wait_key_returns_first_pressed() {
    let mut c = machine();
    c.hw.keys[9] = true;
    c.hw.keys[3] = true;
    c.cpu.pc = 0x200;
    c.perform(Instr::WaitKey(5));
    assert_eq!(c.cpu.v[5], 3);
    assert_eq!(c.cpu.pc, 0x200);
    assert!(!c.waiting);
}

#[test]
fn wait_key_repeats_until_a_key_is_pressed() {
    let mut c = Chip8::new(TestHw::new());
    assert_eq!(c.run(&[0xf5, 0x0a, 0x12, 0x00], 3), Ok(3));
    assert_eq!(c.cpu.pc, 512);
    assert!(c.waiting);
    assert_eq!(c.hw.steps, 4);
    c.hw.keys[0xe] = true;
    assert_eq!(c.step(), Ok(()));
    assert_eq!(c.cpu.v[5], 0xe);
    assert_eq!(c.cpu.pc, 514);
    assert!(!c.waiting);
}

#[test]
fn wait_key_never_polls_key_f() {
    let mut c = machine();
    c.hw.keys[0xf] = true;
    c.cpu.pc = 0x200;
    assert_eq!(c.waitkey(), None);
    assert!(c.waiting);
}

#[test]
fn wait_key_gives_space_when_stopped() {
    let mut c = machine();
    c.shutdown();
    assert_eq!(c.waitkey(), Some(0x20));
    let mut hw = TestHw::new();
    hw.stop_after = Some(1);
    let mut c = Chip8::new(hw);
    assert_eq!(c.run(&[0xf5, 0x0a], 10), Ok(1));
    assert_eq!(c.cpu.v[5], 0x20);
    assert_eq!(c.cpu.pc, 514);
}

#[test]
fn new_is_all_zero_and_stopped() {
    let c = Chip8::new(TestHw::new());
    assert!(!c.running && !c.waiting);
    assert_eq!(c.time, None);
    assert_eq!(c.cpu.pc, 0);
    assert!(c.cpu.mem.iter().all(|&b| b == 0));
    assert!(c.cpu.v.iter().all(|&b| b == 0));
}

#[test]
fn shifts_on_the_flag_register() {
    let mut cpu = Cpu::new();
    cpu.v[0xf] = 0x81;
    exec(&mut cpu, 0x8f06);
    assert_eq!(cpu.v[0xf], 0);
    cpu.v[0xf] = 0x81;
    exec(&mut cpu, 0x8f0e);
    assert_eq!(cpu.v[0xf], 2);
    cpu.v[0xf] = 0x40;
    exec(&mut cpu, 0x8f0e);
    assert_eq!(cpu.v[0xf], 0);
}

#[test]
fn skip_when_follows_the_answer() {
    let mut cpu = Cpu::new();
    cpu.pc = 0x300;
    cpu.skip_when(false);
    assert_eq!(cpu.pc, 0x300);
    cpu.skip_when(true);
    assert_eq!(cpu.pc, 0x302);
}

#[test]
fn timer_step_first_reading_only_records() {
    let mut c = machine();
    c.cpu.dt = 3;
    c.cpu.st = 1;
    assert!(!c.timer_step(5_000_000_000));
    assert_eq!((c.cpu.dt, c.cpu.st, c.time, c.hw.beeps), (3, 1, Some(5_000_000_000), 0));
}

#[test]
fn timer_step_ticks_once_and_records_reading() {
    let mut c = machine();
    c.cpu.dt = 3;
    c.cpu.st = 1;
    c.time = Some(100);
    assert!(c.timer_step(100 + 16_666_667 * 5));
    assert_eq!((c.cpu.dt, c.cpu.st, c.hw.beeps), (2, 0, 1));
    assert_eq!(c.time, Some(100 + 16_666_667 * 5));
}

#[test]
fn timer_step_before_a_period_keeps_everything() {
    let mut c = machine();
    c.cpu.dt = 3;
    c.time = Some(100);
    assert!(!c.timer_step(100 + 16_666_666));
    assert_eq!((c.cpu.dt, c.time), (3, Some(100)));
}

#[test]
fn sched_keeps_running_unless_asked_to_stop() {
    let mut hw = TestHw::new();
    hw.stop_after = Some(1);
    let mut c = Chip8::new(hw);
    c.setup();
    c.sched();
    assert!(c.running);
    c.sched();
    assert!(!c.running);
}

#[test]
fn first_pressed_picks_lowest() {
    let mut p = [false; 15];
    assert_eq!(first_pressed(&p), None);
    p[14] = true;
    assert_eq!(first_pressed(&p), Some(14));
    p[6] = true;
    p[9] = true;
    assert_eq!(first_pressed(&p), Some(6));
    p[0] = true;
    assert_eq!(first_pressed(&p), Some(0));
}

#[test]
fn wait_key_stopped_on_entry_stays_stopped() {
    let mut c = machine();
    c.shutdown();
    c.hw.keys[2] = true;
    assert_eq!(c.waitkey(), Some(0x20));
    assert!(!c.running);
    assert_eq!(c.hw.steps, 0);
}

#[test]
fn wait_key_gives_space_when_platform_stops_without_key() {
    let mut hw = TestHw::new();
    hw.stop_after = Some(0);
    let mut c = Chip8::new(hw);
    c.setup();
    assert_eq!(c.waitkey(), Some(0x20));
    assert!(!c.running && !c.waiting);
}

#[test]
fn run_with_zero_budget_only_loads() {
    let mut c = Chip8::new(TestHw::new());
    c.cpu.mem[100] = 7;
    c.cpu.mem[4095] = 9;
    assert_eq!(c.run(&[0xa2, 0x34], 0), Ok(0));
    assert_eq!(c.cpu.pc, 512);
    assert_eq!(&c.cpu.mem[512..514], &[0xa2, 0x34]);
    assert_eq!((c.cpu.mem[100], c.cpu.mem[4095]), (7, 9));
    assert_eq!(c.cpu.i, 0);
    assert!(c.running);
}

#[test]
fn run_of_empty_image_faults_on_first_word() {
    let mut c = Chip8::new(TestHw::new());
    assert_eq!(c.run(&[], 5), Err(Fault::Unsupported(0)));
    assert_eq!(c.hw.steps, 1);
    assert_eq!(c.cpu.pc, 512);
}
