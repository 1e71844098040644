use vstd::prelude::*;
use crate::cpu::{
    advance, cell, exec_spec, set_reg, tick_spec, wrap16, zero_state, Cpu, CpuState, ENTRY,
    TICK_NS, VF,
};
use crate::hardware::Hardware;
use crate::instr::{decode, decode_spec, Fault, Instr};
use crate::screen::{covers, draw_spec, draw_upto, sprite_bit, target, HEIGHT, WIDTH};

verus! {

/// The built-in font: a 4 by 5 glyph for each hexadecimal digit, five bytes per glyph.
pub open spec fn font_spec() -> Seq<u8> {
    seq![
        0xf0, 0x90, 0x90, 0x90, 0xf0, 0x20, 0x60, 0x20, 0x20, 0x70,
        0xf0, 0x10, 0xf0, 0x80, 0xf0, 0xf0, 0x10, 0xf0, 0x10, 0xf0,
        0x90, 0x90, 0xf0, 0x10, 0x10, 0xf0, 0x80, 0xf0, 0x10, 0xf0,
        0xf0, 0x80, 0xf0, 0x90, 0xf0, 0xf0, 0x10, 0x20, 0x40, 0x40,
        0xf0, 0x90, 0xf0, 0x90, 0xf0, 0xf0, 0x90, 0xf0, 0x10, 0xf0,
        0xf0, 0x90, 0xf0, 0x90, 0x90, 0xe0, 0x90, 0xe0, 0x90, 0xe0,
        0xf0, 0x80, 0x80, 0x80, 0xf0, 0xe0, 0x90, 0x90, 0x90, 0xe0,
        0xf0, 0x80, 0xf0, 0x80, 0xf0, 0xf0, 0x80, 0xf0, 0x80, 0x80,
    ]
}

fn font() -> (r: [u8; 80])
    ensures
        r@ == font_spec(),
{
    let r = [
        0xf0, 0x90, 0x90, 0x90, 0xf0, 0x20, 0x60, 0x20, 0x20, 0x70,
        0xf0, 0x10, 0xf0, 0x80, 0xf0, 0xf0, 0x10, 0xf0, 0x10, 0xf0,
        0x90, 0x90, 0xf0, 0x10, 0x10, 0xf0, 0x80, 0xf0, 0x10, 0xf0,
        0xf0, 0x80, 0xf0, 0x90, 0xf0, 0xf0, 0x10, 0x20, 0x40, 0x40,
        0xf0, 0x90, 0xf0, 0x90, 0xf0, 0xf0, 0x90, 0xf0, 0x10, 0xf0,
        0xf0, 0x90, 0xf0, 0x90, 0x90, 0xe0, 0x90, 0xe0, 0x90, 0xe0,
        0xf0, 0x80, 0x80, 0x80, 0xf0, 0xe0, 0x90, 0x90, 0x90, 0xe0,
        0xf0, 0x80, 0xf0, 0x80, 0xf0, 0xf0, 0x80, 0xf0, 0x80, 0x80,
    ];
    assert(r@ =~= font_spec());
    r
}

/// The instruction word at the program counter, read big-endian; addresses wrap.
pub open spec fn fetch_spec(s: CpuState) -> u16 {
    (s.mem[cell(s.pc as int)] * 256 + s.mem[cell(s.pc + 1)]) as u16
}

/// The `n` rows of the sprite at the index register.
pub open spec fn sprite_of(s: CpuState, n: u8) -> Seq<u8> {
    Seq::new(n as nat, |r: int| s.mem[cell(s.i + r)])
}

/// What executing `ins` from processor state `s`, on a screen `p` of `size`, may leave:
/// the processor state `t`, the screen `q`, and whether a key wait goes on (`waits`).
/// Where the platform answers (a random byte, a key), every answer is allowed.
pub open spec fn performed(
    s: CpuState,
    p: Map<(int, int), bool>,
    size: (usize, usize),
    ins: Instr,
    t: CpuState,
    q: Map<(int, int), bool>,
    waits: bool,
) -> bool {
    match ins {
        Instr::Cls => t == s && q.dom() == p.dom() && forall|a: int, b: int|
            0 <= a < size.0 && 0 <= b < size.1 ==> !#[trigger] q[(a, b)],
        Instr::Drw(x, y, n) => {
            let (p2, c) = draw_spec(p, size, sprite_of(s, n), s.v[x as int] as int, s.v[y as int] as int);
            q == p2 && t == set_reg(s, 15, if c { 1u8 } else { 0u8 })
        },
        Instr::Rnd(x, kk) => q == p && exists|b: u8| t == set_reg(s, x, #[trigger] (b & kk)),
        Instr::Skp(_) | Instr::Sknp(_) => q == p && (t == s || t == advance(s)),
        Instr::WaitKey(x) => {
            let m = CpuState { v: s.v, pc: s.pc, ..t };
            &&& q == p
            &&& m == s || m == tick_spec(s)
            &&& waits ==> t == (CpuState { pc: wrap16(s.pc - 2), ..m })
            &&& !waits ==> t == set_reg(m, x, t.v[x as int])
            &&& !waits ==> t.v[x as int] < 15 || t.v[x as int] == 0x20
        },
        _ => q == p && t == exec_spec(s, ins),
    }
}

/// One cycle from processor state `a.0` on screen `a.1`, through the processor state `m`
/// that the scheduling step left and the state `t` that the instruction left, to `b`: the
/// processor, the screen and whether a key wait goes on.
pub open spec fn step_by(
    a: (CpuState, Map<(int, int), bool>),
    m: CpuState,
    t: CpuState,
    b: (CpuState, Map<(int, int), bool>, bool),
    size: (usize, usize),
) -> bool {
    &&& decode_spec(fetch_spec(a.0)) is Ok
    &&& m == a.0 || m == tick_spec(a.0)
    &&& performed(m, a.1, size, decode_spec(fetch_spec(a.0))->Ok_0, t, b.1, b.2)
    &&& b.0 == advance(t)
}

/// One cycle leads from `a` to `b`, whatever the platform answered.
#[verifier::opaque]
pub open spec fn step_rel(
    a: (CpuState, Map<(int, int), bool>),
    b: (CpuState, Map<(int, int), bool>, bool),
    size: (usize, usize),
) -> bool {
    exists|m: CpuState, t: CpuState| #[trigger] step_by(a, m, t, b, size)
}

/// Each state of `trace` leads to the next in one cycle.
pub open spec fn is_run(trace: Seq<(CpuState, Map<(int, int), bool>, bool)>, size: (usize, usize)) -> bool {
    forall|j: int|
        0 <= j < trace.len() - 1 ==> #[trigger] step_rel((trace[j].0, trace[j].1), trace[j + 1], size)
}

/// Memory and program counter once the font is in place and `rom` loaded at the entry
/// point.
pub open spec fn loaded(s: CpuState, rom: Seq<u8>) -> CpuState {
    CpuState {
        pc: ENTRY,
        mem: font_spec() + s.mem.subrange(80, 512) + rom + s.mem.subrange(512 + rom.len() as int, 4096),
        ..s
    }
}

/// Placing the font and then the program image gives the memory of `loaded`.
proof fn lemma_loaded_mem(mem: Seq<u8>, rom: Seq<u8>)
    requires
        mem.len() == 4096,
        rom.len() <= 4096 - 512,
    ensures
        ({
            let f = font_spec() + mem.subrange(80, 4096);
            f.subrange(0, 512) + rom + f.subrange(512 + rom.len() as int, 4096) == font_spec()
                + mem.subrange(80, 512) + rom + mem.subrange(512 + rom.len() as int, 4096)
        }),
{
    let f = font_spec() + mem.subrange(80, 4096);
    assert(f.subrange(0, 512) =~= font_spec() + mem.subrange(80, 512));
    assert(f.subrange(512 + rom.len() as int, 4096) =~= mem.subrange(512 + rom.len() as int, 4096));
}

/// Whether `now` is more than one 60 Hz period after `last`, on a clock that may wrap.
pub open spec fn due_spec(last: u64, now: u64) -> bool {
    (now - last) % 0x1_0000_0000_0000_0000 > TICK_NS
}

/// Whether a timer tick is due at clock value `now`, the last tick having been at `last`.
pub fn tick_due(last: u64, now: u64) -> (r: bool)
    ensures
        r == due_spec(last, now),
{
    now.wrapping_sub(last) > TICK_NS
}

/// The timers and the last tick time after the timer step on clock reading `now`.
pub open spec fn timer_spec(s: CpuState, time: Option<u64>, now: u64) -> (CpuState, Option<u64>) {
    match time {
        None => (s, Some(now)),
        Some(t) => if due_spec(t, now) {
            (tick_spec(s), Some(now))
        } else {
            (s, time)
        },
    }
}

/// The processor, the last tick time and the run flag after a scheduling step in which the
/// platform answered `stop` to the stop request and `now` to the clock reading.
pub open spec fn sched_spec(s: CpuState, time: Option<u64>, running: bool, stop: bool, now: u64) -> (
    CpuState,
    Option<u64>,
    bool,
) {
    let (c, t) = timer_spec(s, time, now);
    (c, t, running && !stop)
}

/// `r` names the first key marked pressed in `p`, or is `None` when no key is.
pub open spec fn first_of(p: Seq<bool>, r: Option<u8>) -> bool {
    match r {
        Some(k) => k < 15 && p[k as int] && forall|j: int| 0 <= j < k ==> !#[trigger] p[j],
        None => forall|j: int| 0 <= j < 15 ==> !#[trigger] p[j],
    }
}

/// The outcome of a key-wait round in which the platform reported `p` for keys `0x0` to
/// `0xE`, the interpreter being `running` afterwards: the first pressed key; or, with none
/// pressed, `None` to wait on while running and the space character once stopped.
pub open spec fn key_wait(p: Seq<bool>, running: bool, r: Option<u8>) -> bool {
    match r {
        Some(k) => (k < 15 && first_of(p, r)) || (k == 0x20 && first_of(p, None) && !running),
        None => first_of(p, None) && running,
    }
}

/// The first key marked pressed in `p`, keys being scanned in ascending order.
pub fn first_pressed(p: &[bool; 15]) -> (r: Option<u8>)
    ensures
        first_of(p@, r),
        r matches Some(k) ==> k < 15 && p@[k as int] && forall|j: int| 0 <= j < k ==> !p@[j],
        r is None ==> forall|j: int| 0 <= j < 15 ==> !p@[j],
{
    let mut k: usize = 0;
    while k < 15
        invariant
            k <= 15,
            forall|j: int| 0 <= j < k ==> !p@[j],
        decreases 15 - k,
    {
        if p[k] {
            return Some(k as u8);
        }
        k += 1;
    }
    None
}

/// Interpreter instance.
pub struct Chip8<T> {
    /// Registers, timers, memory and call stack.
    pub cpu: Cpu,
    /// Clock value of the last timer tick, once one has been observed.
    pub time: Option<u64>,
    /// Whether the interpreter runs.
    pub running: bool,
    /// Whether a key wait (`Fx0A`) found no key and will poll again in the next step.
    pub waiting: bool,
    /// The platform.
    pub hw: T,
}

impl<T: Hardware> Chip8<T> {
    /// The platform's screen has a cell for every position within its size, and that size
    /// is not empty.
    pub open spec fn screen_ready(&self) -> bool {
        self.hw.size().0 > 0 && self.hw.size().1 > 0 && covers(self.hw.pixels(), self.hw.size())
    }

    /// Creates an interpreter instance: everything at zero, not running.
    pub fn new(hw: T) -> (r: Self)
        ensures
            r.cpu@ == zero_state(),
            r.time is None,
            !r.running,
            !r.waiting,
            r.hw == hw,
    {
        let cpu = Cpu::new();
        Chip8 { cpu, time: None, running: false, waiting: false, hw }
    }

    /// Sets the program counter to the entry point, asks for the screen, loads the font
    /// and starts running.
    pub fn setup(&mut self)
        ensures
            final(self).cpu@ == (CpuState {
                pc: ENTRY,
                mem: font_spec() + old(self).cpu@.mem.subrange(80, 4096),
                ..old(self).cpu@
            }),
            final(self).running,
            final(self).waiting == old(self).waiting,
            final(self).time == old(self).time,
            final(self).hw.size() == (WIDTH, HEIGHT),
            final(self).screen_ready(),
    {
        self.cpu.pc = ENTRY;
        self.hw.vram_setsize((WIDTH, HEIGHT));
        let f = font();
        let mut j: usize = 0;
        while j < 80
            invariant
                j <= 80,
                f@ == font_spec(),
                self.cpu@ == (CpuState { pc: ENTRY, mem: self.cpu@.mem, ..old(self).cpu@ }),
                self.cpu@.mem == f@.subrange(0, j as int) + old(self).cpu@.mem.subrange(j as int, 4096),
                self.hw.size() == (WIDTH, HEIGHT),
                covers(self.hw.pixels(), self.hw.size()),
                self.running == old(self).running,
                self.waiting == old(self).waiting,
                self.time == old(self).time,
            decreases 80 - j,
        {
            self.cpu.mem[j] = f[j];
            j += 1;
            assert(self.cpu@.mem =~= f@.subrange(0, j as int) + old(self).cpu@.mem.subrange(j as int, 4096));
        }
        assert(f@.subrange(0, 80) =~= f@);
        self.running = true;
    }

    /// Stops the interpreter.
    pub fn shutdown(&mut self)
        ensures
            final(self).cpu == old(self).cpu,
            !final(self).running,
            final(self).waiting == old(self).waiting,
            final(self).time == old(self).time,
            final(self).hw == old(self).hw,
    {
        self.running = false;
    }

    /// Copies a program image into memory at the entry point.
    pub fn load(&mut self, rom: &[u8])
        requires
            rom@.len() <= 4096 - 512,
        ensures
            final(self).cpu@ == (CpuState {
                mem: old(self).cpu@.mem.subrange(0, 512) + rom@ + old(self).cpu@.mem.subrange(
                    512 + rom@.len() as int,
                    4096,
                ),
                ..old(self).cpu@
            }),
            final(self).running == old(self).running,
            final(self).waiting == old(self).waiting,
            final(self).time == old(self).time,
            final(self).hw == old(self).hw,
    {
        let mut j: usize = 0;
        while j < rom.len()
            invariant
                j <= rom@.len() <= 4096 - 512,
                self.cpu@ == (CpuState { mem: self.cpu@.mem, ..old(self).cpu@ }),
                self.cpu@.mem == old(self).cpu@.mem.subrange(0, 512) + rom@.subrange(0, j as int)
                    + old(self).cpu@.mem.subrange(512 + j, 4096),
                self.running == old(self).running,
                self.waiting == old(self).waiting,
                self.time == old(self).time,
                self.hw == old(self).hw,
            decreases rom@.len() - j,
        {
            self.cpu.mem[512 + j] = rom[j];
            j += 1;
            assert(self.cpu@.mem =~= old(self).cpu@.mem.subrange(0, 512) + rom@.subrange(0, j as int)
                + old(self).cpu@.mem.subrange(512 + j, 4096));
        }
        assert(rom@.subrange(0, rom@.len() as int) =~= rom@);
    }

    /// The platform's screen is as it was in `other`.
    pub open spec fn same_screen(&self, other: &Self) -> bool {
        self.hw.size() == other.hw.size() && self.hw.pixels() == other.hw.pixels()
    }

    /// One 60 Hz timer event; a beep sounds when the sound timer runs out.
    pub fn tick(&mut self)
        ensures
            final(self).cpu@ == tick_spec(old(self).cpu@),
            final(self).same_screen(old(self)),
            final(self).running == old(self).running,
            final(self).waiting == old(self).waiting,
            final(self).time == old(self).time,
    {
        if self.cpu.tick() {
            self.hw.beep();
        }
    }

    /// The timer half of the scheduling step, given the clock reading `now`. The first
    /// reading is only recorded. After that, once more than a 60 Hz period has passed since
    /// the last tick, exactly one tick runs and `now` is recorded; otherwise nothing
    /// changes. Returns whether a tick ran.
    pub fn timer_step(&mut self, now: u64) -> (ticked: bool)
        ensures
            (final(self).cpu@, final(self).time) == timer_spec(old(self).cpu@, old(self).time, now),
            ticked == (old(self).time matches Some(t) && due_spec(t, now)),
            final(self).running == old(self).running,
            final(self).waiting == old(self).waiting,
            final(self).same_screen(old(self)),
    {
        match self.time {
            Some(t) => {
                if tick_due(t, now) {
                    self.tick();
                    self.time = Some(now);
                    true
                } else {
                    false
                }
            },
            None => {
                self.time = Some(now);
                false
            },
        }
    }

    /// The scheduling step: lets the platform present a frame and stops if it asks to,
    /// then reads the clock once and runs the timer step on that reading.
    pub fn sched(&mut self)
        ensures
            exists|stop: bool, now: u64|
                #[trigger] sched_spec(old(self).cpu@, old(self).time, old(self).running, stop, now)
                    == (final(self).cpu@, final(self).time, final(self).running),
            final(self).waiting == old(self).waiting,
            final(self).same_screen(old(self)),
    {
        let stop = self.hw.sched();
        if stop {
            self.shutdown();
        }
        let now = self.hw.clock();
        self.timer_step(now);
        assert(sched_spec(old(self).cpu@, old(self).time, old(self).running, stop, now)
            == (self.cpu@, self.time, self.running));
    }

    /// One round of the key wait of `Fx0A`. Before the wait begins it stops at once if the
    /// interpreter is not running, and otherwise runs a scheduling step (later rounds have
    /// theirs from the step that repeats the instruction). It then polls keys `0x0` to `0xE`
    /// in ascending order, stopping at the first one pressed, and returns it. With none
    /// pressed it returns `None` to wait on, or the space character `0x20` if the
    /// interpreter has stopped. Key `0xF` is never polled, as on the machines whose
    /// programs this interpreter runs.
    pub fn waitkey(&mut self) -> (r: Option<u8>)
        ensures
            !old(self).waiting && !old(self).running ==> r == Some(0x20u8) && *final(self)
                == *old(self),
            old(self).waiting || old(self).running ==> exists|p: Seq<bool>|
                p.len() == 15 && #[trigger] key_wait(p, final(self).running, r),
            old(self).waiting ==> final(self).cpu == old(self).cpu && final(self).time == old(
                self,
            ).time && final(self).running == old(self).running,
            !old(self).waiting && old(self).running ==> exists|stop: bool, now: u64|
                #[trigger] sched_spec(old(self).cpu@, old(self).time, old(self).running, stop, now)
                    == (final(self).cpu@, final(self).time, final(self).running),
            final(self).waiting == (r is None),
            final(self).same_screen(old(self)),
    {
        if !self.waiting {
            if !self.running {
                return Some(0x20);
            }
            self.sched();
        }
        let ghost mid = *self;
        let mut pressed = [false; 15];
        let mut k: usize = 0;
        while k < 15
            invariant
                k <= 15,
                self.cpu == mid.cpu,
                self.time == mid.time,
                self.running == mid.running,
                self.waiting == mid.waiting,
                self.same_screen(&mid),
            decreases 15 - k,
        {
            if self.hw.key(k as u8) {
                pressed[k] = true;
                break;
            }
            k += 1;
        }
        let r = match first_pressed(&pressed) {
            Some(key) => Some(key),
            None => if self.running {
                None
            } else {
                Some(0x20)
            },
        };
        self.waiting = r.is_none();
        assert(key_wait(pressed@, self.running, r));
        r
    }

    /// Turns every pixel of the screen off.
    pub fn clear(&mut self)
        requires
            old(self).screen_ready(),
        ensures
            forall|a: int, b: int|
                0 <= a < old(self).hw.size().0 && 0 <= b < old(self).hw.size().1
                    ==> !#[trigger] final(self).hw.pixels()[(a, b)],
            final(self).hw.pixels().dom() == old(self).hw.pixels().dom(),
            final(self).hw.size() == old(self).hw.size(),
            final(self).screen_ready(),
            final(self).cpu == old(self).cpu,
            final(self).running == old(self).running,
            final(self).waiting == old(self).waiting,
            final(self).time == old(self).time,
    {
        let (w, h) = self.hw.vram_size();
        let mut x: usize = 0;
        while x < w
            invariant
                x <= w,
                (w, h) == old(self).hw.size(),
                self.hw.size() == old(self).hw.size(),
                self.hw.pixels().dom() == old(self).hw.pixels().dom(),
                covers(self.hw.pixels(), self.hw.size()),
                forall|a: int, b: int|
                    0 <= a < x && 0 <= b < h ==> !#[trigger] self.hw.pixels()[(a, b)],
                self.cpu == old(self).cpu,
                self.running == old(self).running,
                self.waiting == old(self).waiting,
                self.time == old(self).time,
            decreases w - x,
        {
            let mut y: usize = 0;
            while y < h
                invariant
                    x < w,
                    y <= h,
                    (w, h) == old(self).hw.size(),
                    self.hw.size() == old(self).hw.size(),
                    self.hw.pixels().dom() == old(self).hw.pixels().dom(),
                    covers(self.hw.pixels(), self.hw.size()),
                    forall|a: int, b: int|
                        (0 <= a < x && 0 <= b < h) || (a == x && 0 <= b < y)
                            ==> !#[trigger] self.hw.pixels()[(a, b)],
                    self.cpu == old(self).cpu,
                    self.running == old(self).running,
                    self.waiting == old(self).waiting,
                    self.time == old(self).time,
                decreases h - y,
            {
                self.hw.vram_set(x, y, false);
                assert(self.hw.pixels().dom() =~= old(self).hw.pixels().dom());
                y += 1;
            }
            x += 1;
        }
    }

    /// Draws the `n`-row sprite at `mem[I]` with its corner at `(Vx, Vy)`: each set bit
    /// flips its pixel, both axes wrap, and `VF` tells whether a set bit met a lit pixel.
    pub fn draw(&mut self, x: u8, y: u8, n: u8)
        requires
            old(self).screen_ready(),
            x < 16,
            y < 16,
            n < 16,
        ensures
            ({
                let (p, c) = draw_spec(
                    old(self).hw.pixels(),
                    old(self).hw.size(),
                    sprite_of(old(self).cpu@, n),
                    old(self).cpu.v[x as int] as int,
                    old(self).cpu.v[y as int] as int,
                );
                &&& final(self).hw.pixels() == p
                &&& final(self).cpu@ == set_reg(old(self).cpu@, 15, if c { 1u8 } else { 0u8 })
            }),
            final(self).hw.size() == old(self).hw.size(),
            final(self).screen_ready(),
            final(self).running == old(self).running,
            final(self).waiting == old(self).waiting,
            final(self).time == old(self).time,
    {
        let basex = self.cpu.v[x as usize] as usize;
        let basey = self.cpu.v[y as usize] as usize;
        let (w, h) = self.hw.vram_size();
        let ghost size = (w, h);
        let ghost sprite = sprite_of(old(self).cpu@, n);
        let ghost p0 = old(self).hw.pixels();
        let total: usize = 8 * n as usize;
        let mut collision = false;
        let mut k: usize = 0;
        while k < total
            invariant
                k <= total,
                total == 8 * n,
                n < 16,
                size == (w, h),
                size == old(self).hw.size(),
                w > 0 && h > 0,
                self.hw.size() == size,
                self.cpu == old(self).cpu,
                basex == old(self).cpu.v[x as int],
                basey == old(self).cpu.v[y as int],
                sprite == sprite_of(old(self).cpu@, n),
                (self.hw.pixels(), collision) == draw_upto(p0, size, sprite, basex as int, basey as int, k as nat),
                covers(self.hw.pixels(), size),
                self.running == old(self).running,
                self.waiting == old(self).waiting,
                self.time == old(self).time,
            decreases total - k,
        {
            let row = k / 8;
            let col = k % 8;
            let b = self.cpu.mem[(self.cpu.i as usize + row) % 4096];
            let src = (b >> ((7 - col) as u8)) & 1 == 1;
            let vx = (col + basex) % w;
            let vy = (row + basey) % h;
            assert(src == sprite_bit(sprite, k as int));
            assert((vx as int, vy as int) == target(size, basex as int, basey as int, k as int));
            let dst = self.hw.vram_get(vx, vy);
            collision = collision || (src && dst);
            self.hw.vram_set(vx, vy, src != dst);
            k += 1;
        }
        self.cpu.v[VF] = if collision { 1 } else { 0 };
    }

    /// Executes a decoded instruction, leaving the program counter advance to the caller.
    pub fn perform(&mut self, ins: Instr)
        requires
            old(self).screen_ready(),
            ins.wf(),
        ensures
            performed(
                old(self).cpu@,
                old(self).hw.pixels(),
                old(self).hw.size(),
                ins,
                final(self).cpu@,
                final(self).hw.pixels(),
                final(self).waiting,
            ),
            !(ins is WaitKey) ==> final(self).running == old(self).running && final(self).waiting
                == old(self).waiting && final(self).time == old(self).time,
            final(self).hw.size() == old(self).hw.size(),
            final(self).screen_ready(),
    {
        match ins {
            Instr::Cls => self.clear(),
            Instr::Drw(x, y, n) => self.draw(x, y, n),
            Instr::Rnd(x, kk) => {
                let b = self.hw.rand();
                self.cpu.v[x as usize] = b & kk;
            },
            Instr::Skp(x) => {
                let pressed = self.hw.key(self.cpu.v[x as usize]);
                self.cpu.skip_when(pressed);
            },
            Instr::Sknp(x) => {
                let pressed = self.hw.key(self.cpu.v[x as usize]);
                self.cpu.skip_when(!pressed);
            },
            Instr::WaitKey(x) => {
                match self.waitkey() {
                    Some(k) => self.cpu.v[x as usize] = k,
                    None => {
                        let pc = self.cpu.pc;
                        self.cpu.jump(pc.wrapping_sub(2));
                    },
                }
            },
            _ => self.cpu.execute(ins),
        }
    }

    /// Fetches, decodes and executes the instruction at the program counter, leaving the
    /// program counter advance to the caller. A word that is no instruction is reported and
    /// changes nothing.
    pub fn eval(&mut self) -> (r: Result<(), Fault>)
        requires
            old(self).screen_ready(),
        ensures
            r is Err <==> decode_spec(fetch_spec(old(self).cpu@)) is Err,
            r matches Err(f) ==> decode_spec(fetch_spec(old(self).cpu@)) == Err::<Instr, Fault>(f)
                && *final(self) == *old(self),
            decode_spec(fetch_spec(old(self).cpu@)) matches Ok(ins) ==> performed(
                old(self).cpu@,
                old(self).hw.pixels(),
                old(self).hw.size(),
                ins,
                final(self).cpu@,
                final(self).hw.pixels(),
                final(self).waiting,
            ),
            final(self).hw.size() == old(self).hw.size(),
            final(self).screen_ready(),
    {
        let pc = self.cpu.pc as usize;
        let hi = self.cpu.mem[pc % 4096] as u16;
        let lo = self.cpu.mem[(pc + 1) % 4096] as u16;
        match decode(hi * 256 + lo) {
            Ok(ins) => {
                self.perform(ins);
                Ok(())
            },
            Err(f) => Err(f),
        }
    }

    /// One cycle: the scheduling step, then the instruction at the program counter, then
    /// the advance past it. A fault stops the cycle before the instruction and the advance.
    pub fn step(&mut self) -> (r: Result<(), Fault>)
        requires
            old(self).screen_ready(),
        ensures
            r is Err <==> decode_spec(fetch_spec(old(self).cpu@)) is Err,
            r matches Err(f) ==> decode_spec(fetch_spec(old(self).cpu@)) == Err::<Instr, Fault>(f),
            r is Err ==> final(self).cpu@ == old(self).cpu@ || final(self).cpu@ == tick_spec(
                old(self).cpu@,
            ),
            r is Ok ==> step_rel(
                (old(self).cpu@, old(self).hw.pixels()),
                (final(self).cpu@, final(self).hw.pixels(), final(self).waiting),
                old(self).hw.size(),
            ),
            final(self).hw.size() == old(self).hw.size(),
            final(self).screen_ready(),
    {
        self.sched();
        let ghost m = self.cpu@;
        assert(fetch_spec(m) == fetch_spec(old(self).cpu@));
        match self.eval() {
            Ok(()) => {
                let ghost t = self.cpu@;
                self.cpu.next();
                assert(step_by(
                    (old(self).cpu@, old(self).hw.pixels()),
                    m,
                    t,
                    (self.cpu@, self.hw.pixels(), self.waiting),
                    old(self).hw.size(),
                ));
                reveal(step_rel);
                Ok(())
            },
            Err(f) => Err(f),
        }
    }

    /// Runs the interpreter on a program image: sets up, loads the image at the entry point,
    /// then runs cycles until the platform asks for shutdown, an instruction faults, or
    /// `budget` cycles have run. Returns the number of cycles run, or the fault.
    pub fn run(&mut self, rom: &[u8], budget: u64) -> (r: Result<u64, Fault>)
        requires
            rom@.len() <= 4096 - 512,
        ensures
            budget == 0 ==> r == Ok::<u64, Fault>(0) && final(self).cpu@ == loaded(old(self).cpu@, rom@)
                && final(self).running,
            budget > 0 ==> (decode_spec(fetch_spec(loaded(old(self).cpu@, rom@))) matches Err(f)
                ==> r == Err::<u64, Fault>(f)),
            r matches Ok(n) ==> n <= budget && (n < budget ==> !final(self).running),
            r matches Ok(n) ==> exists|trace: Seq<(CpuState, Map<(int, int), bool>, bool)>|
                #[trigger] is_run(trace, (WIDTH, HEIGHT)) && trace.len() == n + 1 && trace[0].0
                    == loaded(old(self).cpu@, rom@) && trace.last() == (
                    final(self).cpu@,
                    final(self).hw.pixels(),
                    final(self).waiting,
                ),
            r matches Err(f) ==> decode_spec(fetch_spec(final(self).cpu@)) == Err::<Instr, Fault>(f),
            final(self).hw.size() == (WIDTH, HEIGHT),
            final(self).screen_ready(),
    {
        self.setup();
        self.load(rom);
        let ghost start = loaded(old(self).cpu@, rom@);
        let ghost mut trace = seq![(self.cpu@, self.hw.pixels(), self.waiting)];
        proof {
            lemma_loaded_mem(old(self).cpu@.mem, rom@);
        }
        assert(self.cpu@ == start);
        let mut n: u64 = 0;
        while self.running && n < budget
            invariant
                n <= budget,
                self.hw.size() == (WIDTH, HEIGHT),
                self.screen_ready(),
                is_run(trace, (WIDTH, HEIGHT)),
                trace.len() == n + 1,
                trace[0].0 == start,
                start == loaded(old(self).cpu@, rom@),
                trace.last() == (self.cpu@, self.hw.pixels(), self.waiting),
                n == 0 ==> self.cpu@ == start && self.running,
                n > 0 ==> decode_spec(fetch_spec(start)) is Ok,
            decreases budget - n,
        {
            let ghost before = (self.cpu@, self.hw.pixels(), self.waiting);
            match self.step() {
                Ok(()) => {
                    proof {
                        let next = (self.cpu@, self.hw.pixels(), self.waiting);
                        let old_trace = trace;
                        trace = trace.push(next);
                        assert forall|j: int| 0 <= j < trace.len() - 1 implies #[trigger] step_rel(
                            (trace[j].0, trace[j].1),
                            trace[j + 1],
                            (WIDTH, HEIGHT),
                        ) by {
                            if j < old_trace.len() - 1 {
                                assert(step_rel((old_trace[j].0, old_trace[j].1), old_trace[j + 1], (WIDTH, HEIGHT)));
                            }
                        }
                    }
                    n += 1;
                },
                Err(f) => {
                    assert(fetch_spec(self.cpu@) == fetch_spec(before.0));
                    assert(n == 0 ==> decode_spec(fetch_spec(start)) == Err::<Instr, Fault>(f));
                    return Err(f);
                },
            }
        }
        assert(is_run(trace, (WIDTH, HEIGHT)) && trace.len() == n + 1 && trace[0].0 == loaded(
            old(self).cpu@,
            rom@,
        ) && trace.last() == (self.cpu@, self.hw.pixels(), self.waiting));
        Ok(n)
    }
}

} // verus!
