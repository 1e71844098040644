use vstd::prelude::*;
use crate::instr::Instr;

verus! {

/// Size of main memory in bytes.
pub const MEM_SIZE: usize = 4096;

/// Number of general-purpose registers.
pub const NUM_REGS: usize = 16;

/// Number of call-stack slots.
pub const STACK_SLOTS: usize = 16;

/// Where programs are loaded, and where execution starts.
pub const ENTRY: u16 = 512;

/// Nanoseconds in one period of the 60 Hz timers, rounded down. A tick is due once more
/// than this has passed, that is once a whole period has.
pub const TICK_NS: u64 = 1_000_000_000 / 60;

/// The register that doubles as carry, borrow and collision flag.
pub const VF: usize = 15;

/// The abstract state of the processor.
pub struct CpuState {
    pub v: Seq<u8>,
    pub i: u16,
    pub dt: u8,
    pub st: u8,
    pub pc: u16,
    pub sp: u8,
    pub mem: Seq<u8>,
    pub stack: Seq<u16>,
}

/// Registers, timers, main memory and call stack.
pub struct Cpu {
    /// General-purpose registers `V0..VF`.
    pub v: [u8; 16],
    /// Index register.
    pub i: u16,
    /// Delay timer.
    pub dt: u8,
    /// Sound timer.
    pub st: u8,
    /// Program counter.
    pub pc: u16,
    /// Stack pointer; the slot it names is `sp % 16`.
    pub sp: u8,
    /// Main memory.
    pub mem: [u8; 4096],
    /// Return addresses.
    pub stack: [u16; 16],
}

impl View for Cpu {
    type V = CpuState;

    open spec fn view(&self) -> CpuState {
        CpuState {
            v: self.v@,
            i: self.i,
            dt: self.dt,
            st: self.st,
            pc: self.pc,
            sp: self.sp,
            mem: self.mem@,
            stack: self.stack@,
        }
    }
}

/// `a` reduced to a byte.
pub open spec fn wrap8(a: int) -> u8 {
    (a % 256) as u8
}

/// `a` reduced to 16 bits.
pub open spec fn wrap16(a: int) -> u16 {
    (a % 65536) as u16
}

/// The memory cell that address `a` reaches: addresses wrap at the memory size.
pub open spec fn cell(a: int) -> int {
    a % 4096
}

/// `s` with register `x` set to `b`.
pub open spec fn set_reg(s: CpuState, x: u8, b: u8) -> CpuState {
    CpuState { v: s.v.update(x as int, b), ..s }
}

/// `s` with register `x` set to `b`, then the flag register set to `f`.
pub open spec fn set_reg_flag(s: CpuState, x: u8, b: u8, f: u8) -> CpuState {
    CpuState { v: s.v.update(x as int, b).update(15, f), ..s }
}

/// `s` with the program counter moved past one instruction.
pub open spec fn advance(s: CpuState) -> CpuState {
    CpuState { pc: wrap16(s.pc + 2), ..s }
}

/// `s` prepared to continue at `target`: the counter is set two bytes short, since every
/// instruction is followed by an advance.
pub open spec fn goto(s: CpuState, target: int) -> CpuState {
    CpuState { pc: wrap16(target - 2), ..s }
}

/// `s` with the instruction after the current one skipped when `cond` holds.
pub open spec fn skip_if(s: CpuState, cond: bool) -> CpuState {
    if cond {
        advance(s)
    } else {
        s
    }
}

/// `s` after pushing `a` onto the call stack.
pub open spec fn push_spec(s: CpuState, a: u16) -> CpuState {
    CpuState { stack: s.stack.update(s.sp as int % 16, a), sp: wrap8(s.sp + 1), ..s }
}

/// The stack pointer after a pop.
pub open spec fn popped_sp(s: CpuState) -> u8 {
    wrap8(s.sp - 1)
}

/// The address that a pop returns.
pub open spec fn top(s: CpuState) -> u16 {
    s.stack[popped_sp(s) as int % 16]
}

/// One 60 Hz timer event: both timers count down towards zero.
pub open spec fn tick_spec(s: CpuState) -> CpuState {
    CpuState {
        dt: if s.dt > 0 { (s.dt - 1) as u8 } else { 0 },
        st: if s.st > 0 { (s.st - 1) as u8 } else { 0 },
        ..s
    }
}

/// Memory after the three decimal digits of `b` are stored at `i`.
pub open spec fn bcd_mem(mem: Seq<u8>, i: u16, b: u8) -> Seq<u8> {
    mem.update(cell(i as int), b / 100).update(cell(i + 1), (b / 10) % 10).update(
        cell(i + 2),
        b % 10,
    )
}

/// Memory after registers `V0..=Vx` are stored from address `i` on.
pub open spec fn store_mem(s: CpuState, x: u8) -> Seq<u8> {
    Seq::new(
        s.mem.len(),
        |a: int|
            if (a - s.i) % 4096 <= x {
                s.v[(a - s.i) % 4096]
            } else {
                s.mem[a]
            },
    )
}

/// Registers after `V0..=Vx` are loaded from address `i` on.
pub open spec fn load_regs(s: CpuState, x: u8) -> Seq<u8> {
    Seq::new(s.v.len(), |j: int| if j <= x { s.mem[cell(s.i + j)] } else { s.v[j] })
}

/// The effect of an instruction that reads nothing outside the processor. The instructions
/// that read the platform (`Cls`, `Rnd`, `Drw`, `Skp`, `Sknp`, `WaitKey`) leave `s` as it is
/// here; their effect is stated where they run.
pub open spec fn exec_spec(s: CpuState, ins: Instr) -> CpuState {
    match ins {
        Instr::Ret => CpuState { sp: popped_sp(s), pc: top(s), ..s },
        Instr::Jp(a) => goto(s, a as int),
        Instr::Call(a) => goto(push_spec(s, s.pc), a as int),
        Instr::SeImm(x, kk) => skip_if(s, s.v[x as int] == kk),
        Instr::SneImm(x, kk) => skip_if(s, s.v[x as int] != kk),
        Instr::SeReg(x, y) => skip_if(s, s.v[x as int] == s.v[y as int]),
        Instr::LdImm(x, kk) => set_reg(s, x, kk),
        Instr::AddImm(x, kk) => set_reg(s, x, wrap8(s.v[x as int] + kk)),
        Instr::LdReg(x, y) => set_reg(s, x, s.v[y as int]),
        Instr::Or(x, y) => set_reg(s, x, s.v[x as int] | s.v[y as int]),
        Instr::And(x, y) => set_reg(s, x, s.v[x as int] & s.v[y as int]),
        Instr::Xor(x, y) => set_reg(s, x, s.v[x as int] ^ s.v[y as int]),
        Instr::AddReg(x, y) => set_reg_flag(
            s,
            x,
            wrap8(s.v[x as int] + s.v[y as int]),
            if s.v[x as int] + s.v[y as int] > 255 { 1 } else { 0 },
        ),
        Instr::Sub(x, y) => set_reg_flag(
            s,
            x,
            wrap8(s.v[x as int] - s.v[y as int]),
            if s.v[x as int] >= s.v[y as int] { 1 } else { 0 },
        ),
        Instr::Shr(x) => {
            let f = s.v.update(15, s.v[x as int] % 2);
            CpuState { v: f.update(x as int, f[x as int] / 2), ..s }
        },
        Instr::Subn(x, y) => set_reg_flag(
            s,
            x,
            wrap8(s.v[y as int] - s.v[x as int]),
            if s.v[y as int] >= s.v[x as int] { 1 } else { 0 },
        ),
        Instr::Shl(x) => {
            let f = s.v.update(15, s.v[x as int] / 128);
            CpuState { v: f.update(x as int, wrap8(f[x as int] * 2)), ..s }
        },
        Instr::SneReg(x, y) => skip_if(s, s.v[x as int] != s.v[y as int]),
        Instr::LdI(a) => CpuState { i: a, ..s },
        Instr::JpV0(a) => goto(s, a + s.v[0]),
        Instr::LdFromDelay(x) => set_reg(s, x, s.dt),
        Instr::LdDelay(x) => CpuState { dt: s.v[x as int], ..s },
        Instr::LdSound(x) => CpuState { st: s.v[x as int], ..s },
        Instr::AddI(x) => CpuState { i: wrap16(s.i + s.v[x as int]), ..s },
        Instr::LdGlyph(x) => CpuState { i: (s.v[x as int] * 5) as u16, ..s },
        Instr::Bcd(x) => CpuState { mem: bcd_mem(s.mem, s.i, s.v[x as int]), ..s },
        Instr::Store(x) => CpuState { mem: store_mem(s, x), ..s },
        Instr::Load(x) => CpuState { v: load_regs(s, x), ..s },
        _ => s,
    }
}

/// Whether `exec_spec` gives the whole effect of `ins`.
pub open spec fn is_internal(ins: Instr) -> bool {
    !(ins is Cls || ins is Rnd || ins is Drw || ins is Skp || ins is Sknp || ins is WaitKey)
}

/// Every register, timer, memory cell and stack slot at zero.
pub open spec fn zero_state() -> CpuState {
    CpuState {
        v: Seq::new(16, |j: int| 0u8),
        i: 0,
        dt: 0,
        st: 0,
        pc: 0,
        sp: 0,
        mem: Seq::new(4096, |j: int| 0u8),
        stack: Seq::new(16, |j: int| 0u16),
    }
}

/// Jumps, calls, returns and skips.
pub open spec fn is_flow(ins: Instr) -> bool {
    ins is Ret || ins is Jp || ins is Call || ins is SeImm || ins is SneImm || ins is SeReg
        || ins is SneReg || ins is JpV0
}

/// Register loads and arithmetic on registers.
pub open spec fn is_alu(ins: Instr) -> bool {
    ins is LdImm || ins is AddImm || ins is LdReg || ins is Or || ins is And || ins is Xor
        || ins is AddReg || ins is Sub || ins is Shr || ins is Subn || ins is Shl
        || ins is LdFromDelay
}

impl Cpu {
    /// A processor with every register, timer, memory cell and stack slot at zero.
    pub fn new() -> (r: Cpu)
        ensures
            r@ == zero_state(),
    {
        let r = Cpu { v: [0; 16], i: 0, dt: 0, st: 0, pc: 0, sp: 0, mem: [0; 4096], stack: [0; 16] };
        assert(r@.v =~= Seq::new(16, |j: int| 0u8));
        assert(r@.mem =~= Seq::new(4096, |j: int| 0u8));
        assert(r@.stack =~= Seq::new(16, |j: int| 0u16));
        r
    }

    /// Pushes a return address. The pointer wraps; a seventeenth push reuses slot 0.
    pub fn push(&mut self, item: u16)
        ensures
            final(self)@ == push_spec(old(self)@, item),
    {
        self.stack[(self.sp % 16) as usize] = item;
        self.sp = self.sp.wrapping_add(1);
    }

    /// Pops a return address: the last one pushed.
    pub fn pop(&mut self) -> (r: u16)
        ensures
            r == top(old(self)@),
            final(self)@ == (CpuState { sp: popped_sp(old(self)@), ..old(self)@ }),
    {
        self.sp = self.sp.wrapping_sub(1);
        self.stack[(self.sp % 16) as usize]
    }

    /// Sets the program counter.
    pub fn jump(&mut self, pc: u16)
        ensures
            final(self)@ == (CpuState { pc, ..old(self)@ }),
    {
        self.pc = pc;
    }

    /// Moves the program counter past one instruction.
    pub fn next(&mut self)
        ensures
            final(self)@ == advance(old(self)@),
    {
        self.jump(self.pc.wrapping_add(2));
    }

    /// One 60 Hz timer event. Returns whether the sound timer has just run out, which is
    /// when a beep is due.
    pub fn tick(&mut self) -> (beep: bool)
        ensures
            final(self)@ == tick_spec(old(self)@),
            beep == (old(self).st == 1),
    {
        if self.dt > 0 {
            self.dt -= 1;
        }
        let mut beep = false;
        if self.st > 0 {
            self.st -= 1;
            if self.st == 0 {
                beep = true;
            }
        }
        beep
    }

    /// Skips the next instruction when `cond` holds: the step for the key tests, given
    /// the platform's answer.
    pub fn skip_when(&mut self, cond: bool)
        ensures
            final(self)@ == skip_if(old(self)@, cond),
    {
        if cond {
            self.next();
        }
    }

    /// Executes an instruction that reads nothing outside the processor, leaving the
    /// program counter advance to the caller.
    pub fn execute(&mut self, ins: Instr)
        requires
            ins.wf(),
            is_internal(ins),
        ensures
            final(self)@ == exec_spec(old(self)@, ins),
    {
        match ins {
            Instr::Ret | Instr::Jp(_) | Instr::Call(_) | Instr::SeImm(..) | Instr::SneImm(..)
            | Instr::SeReg(..) | Instr::SneReg(..) | Instr::JpV0(_) => self.execute_flow(ins),
            Instr::LdImm(..) | Instr::AddImm(..) | Instr::LdReg(..) | Instr::Or(..)
            | Instr::And(..) | Instr::Xor(..) | Instr::AddReg(..) | Instr::Sub(..)
            | Instr::Shr(_) | Instr::Subn(..) | Instr::Shl(_) | Instr::LdFromDelay(_) => {
                self.execute_alu(ins)
            },
            _ => self.execute_other(ins),
        }
    }

    /// Jumps, calls, returns and skips.
    #[verifier::rlimit(30)]
    fn execute_flow(&mut self, ins: Instr)
        requires
            ins.wf(),
            is_flow(ins),
        ensures
            final(self)@ == exec_spec(old(self)@, ins),
    {
        match ins {
            Instr::Ret => {
                let addr = self.pop();
                self.jump(addr);
            },
            Instr::Jp(a) => self.jump(a.wrapping_sub(2)),
            Instr::Call(a) => {
                let pc = self.pc;
                self.push(pc);
                self.jump(a.wrapping_sub(2));
            },
            Instr::SeImm(x, kk) => self.skip_when(self.v[x as usize] == kk),
            Instr::SneImm(x, kk) => self.skip_when(self.v[x as usize] != kk),
            Instr::SeReg(x, y) => self.skip_when(self.v[x as usize] == self.v[y as usize]),
            Instr::SneReg(x, y) => self.skip_when(self.v[x as usize] != self.v[y as usize]),
            Instr::JpV0(a) => self.jump((a + self.v[0] as u16).wrapping_sub(2)),
            _ => {},
        }
    }

    /// Register loads and arithmetic on registers.
    fn execute_alu(&mut self, ins: Instr)
        requires
            ins.wf(),
            is_alu(ins),
        ensures
            final(self)@ == exec_spec(old(self)@, ins),
    {
        match ins {
            Instr::LdImm(x, kk) => self.v[x as usize] = kk,
            Instr::AddImm(x, kk) => self.v[x as usize] = self.v[x as usize].wrapping_add(kk),
            Instr::LdReg(x, y) => self.v[x as usize] = self.v[y as usize],
            Instr::Or(x, y) => self.v[x as usize] = self.v[x as usize] | self.v[y as usize],
            Instr::And(x, y) => self.v[x as usize] = self.v[x as usize] & self.v[y as usize],
            Instr::Xor(x, y) => self.v[x as usize] = self.v[x as usize] ^ self.v[y as usize],
            Instr::AddReg(x, y) => {
                let sum: u16 = self.v[x as usize] as u16 + self.v[y as usize] as u16;
                self.v[x as usize] = (sum % 256) as u8;
                self.v[VF] = if sum > 255 { 1 } else { 0 };
            },
            Instr::Sub(x, y) => {
                let (a, b) = (self.v[x as usize], self.v[y as usize]);
                self.v[x as usize] = a.wrapping_sub(b);
                self.v[VF] = if a >= b { 1 } else { 0 };
            },
            Instr::Shr(x) => {
                self.v[VF] = self.v[x as usize] % 2;
                self.v[x as usize] = self.v[x as usize] / 2;
            },
            Instr::Subn(x, y) => {
                let (a, b) = (self.v[x as usize], self.v[y as usize]);
                self.v[x as usize] = b.wrapping_sub(a);
                self.v[VF] = if b >= a { 1 } else { 0 };
            },
            Instr::Shl(x) => {
                self.v[VF] = self.v[x as usize] / 128;
                self.v[x as usize] = ((self.v[x as usize] as u16 * 2) % 256) as u8;
            },
            Instr::LdFromDelay(x) => self.v[x as usize] = self.dt,
            _ => {},
        }
    }

    /// The index register, the timers and memory.
    fn execute_other(&mut self, ins: Instr)
        requires
            ins.wf(),
            is_internal(ins),
            !is_flow(ins),
            !is_alu(ins),
        ensures
            final(self)@ == exec_spec(old(self)@, ins),
    {
        match ins {
            Instr::LdI(a) => self.i = a,
            Instr::LdDelay(x) => self.dt = self.v[x as usize],
            Instr::LdSound(x) => self.st = self.v[x as usize],
            Instr::AddI(x) => self.i = self.i.wrapping_add(self.v[x as usize] as u16),
            Instr::LdGlyph(x) => self.i = self.v[x as usize] as u16 * 5,
            Instr::Bcd(x) => self.store_bcd(x),
            Instr::Store(x) => self.store_regs(x),
            Instr::Load(x) => self.load_regs(x),
            _ => {},
        }
    }

    /// Stores the hundreds, tens and ones digits of `Vx` at `I`, `I+1` and `I+2`.
    pub fn store_bcd(&mut self, x: u8)
        requires
            x < 16,
        ensures
            final(self)@ == (CpuState { mem: bcd_mem(old(self)@.mem, old(self).i, old(self).v[x as int]), ..old(self)@ }),
    {
        let b = self.v[x as usize];
        let i = self.i as usize;
        self.mem[i % MEM_SIZE] = b / 100;
        self.mem[(i + 1) % MEM_SIZE] = (b / 10) % 10;
        self.mem[(i + 2) % MEM_SIZE] = b % 10;
    }

    /// Stores registers `V0..=Vx` in memory from address `I` on.
    pub fn store_regs(&mut self, x: u8)
        requires
            x < 16,
        ensures
            final(self)@ == (CpuState { mem: store_mem(old(self)@, x), ..old(self)@ }),
    {
        let i = self.i as usize;
        let end = x as usize + 1;
        let mut j: usize = 0;
        while j < end
            invariant
                x < 16,
                end == x + 1,
                j <= end,
                i == old(self).i,
                self@ == (CpuState { mem: self@.mem, ..old(self)@ }),
                self@.mem == Seq::new(
                    4096,
                    |a: int|
                        if (a - i) % 4096 < j {
                            old(self)@.v[(a - i) % 4096]
                        } else {
                            old(self)@.mem[a]
                        },
                ),
            decreases end - j,
        {
            let a = (i + j) % MEM_SIZE;
            self.mem[a] = self.v[j];
            j += 1;
            assert(self@.mem =~= Seq::new(
                4096,
                |a: int|
                    if (a - i) % 4096 < j {
                        old(self)@.v[(a - i) % 4096]
                    } else {
                        old(self)@.mem[a]
                    },
            ));
        }
        assert(self@.mem =~= store_mem(old(self)@, x));
    }

    /// Loads registers `V0..=Vx` from memory from address `I` on.
    pub fn load_regs(&mut self, x: u8)
        requires
            x < 16,
        ensures
            final(self)@ == (CpuState { v: load_regs(old(self)@, x), ..old(self)@ }),
    {
        let i = self.i as usize;
        let end = x as usize + 1;
        let mut j: usize = 0;
        while j < end
            invariant
                x < 16,
                end == x + 1,
                j <= end,
                i == old(self).i,
                self@ == (CpuState { v: self@.v, ..old(self)@ }),
                self@.v == Seq::new(
                    16,
                    |k: int| if k < j { old(self)@.mem[cell(i + k)] } else { old(self)@.v[k] },
                ),
            decreases end - j,
        {
            self.v[j] = self.mem[(i + j) % MEM_SIZE];
            j += 1;
            assert(self@.v =~= Seq::new(
                16,
                |k: int| if k < j { old(self)@.mem[cell(i + k)] } else { old(self)@.v[k] },
            ));
        }
        assert(self@.v =~= load_regs(old(self)@, x));
    }
}

} // verus!
