use vstd::prelude::*;
use vstd::arithmetic::div_mod::lemma_small_mod;
use crate::cpu::{
    advance, exec_spec, popped_sp, push_spec, tick_spec, top, wrap16, wrap8, CpuState,
};
use crate::chip8::{due_spec, timer_spec};
use crate::instr::Instr;
use crate::screen::{covers, draw_spec, draw_upto, sprite_bit, target};

verus! {

/// A sprite of `rows` rows drawn at `(vx, vy)` lies wholly on the screen, so no bit wraps.
pub open spec fn inside(size: (usize, usize), vx: int, vy: int, rows: int) -> bool {
    0 <= vx && vx + 8 <= size.0 && 0 <= vy && vy + rows <= size.1
}

/// For a sprite inside the screen: the bit that lands on `(a, b)`.
pub open spec fn bit_index(vx: int, vy: int, a: int, b: int) -> int {
    (b - vy) * 8 + (a - vx)
}

/// For a sprite inside the screen: whether one of the first `k` bits lands on `(a, b)`.
pub open spec fn touched(vx: int, vy: int, a: int, b: int, k: int) -> bool {
    vx <= a < vx + 8 && vy <= b && bit_index(vx, vy, a, b) < k
}

/// Drawing the first `k` bits of a sprite that lies inside the screen flips exactly the
/// cells of its set bits, and collides exactly where one of them meets a lit cell.
pub proof fn lemma_draw_inside(
    p: Map<(int, int), bool>,
    size: (usize, usize),
    sprite: Seq<u8>,
    vx: int,
    vy: int,
    k: nat,
)
    requires
        covers(p, size),
        inside(size, vx, vy, sprite.len() as int),
        k <= 8 * sprite.len(),
    ensures
        draw_upto(p, size, sprite, vx, vy, k).0.dom() == p.dom(),
        forall|a: int, b: int|
            p.dom().contains((a, b)) ==> #[trigger] draw_upto(p, size, sprite, vx, vy, k).0[(a, b)]
                == if touched(vx, vy, a, b, k as int) {
                p[(a, b)] != sprite_bit(sprite, bit_index(vx, vy, a, b))
            } else {
                p[(a, b)]
            },
        draw_upto(p, size, sprite, vx, vy, k).1 == exists|j: int|
            0 <= j < k && sprite_bit(sprite, j) && #[trigger] p[target(size, vx, vy, j)],
    decreases k,
{
    if k > 0 {
        let j = k - 1;
        lemma_draw_inside(p, size, sprite, vx, vy, j as nat);
        let (q, c) = draw_upto(p, size, sprite, vx, vy, j as nat);
        let t = target(size, vx, vy, j);
        lemma_small_mod((vx + j % 8) as nat, size.0 as nat);
        lemma_small_mod((vy + j / 8) as nat, size.1 as nat);
        assert(t == (vx + j % 8, vy + j / 8));
        assert(p.dom().contains(t));
        assert(!touched(vx, vy, t.0, t.1, j));
        assert(bit_index(vx, vy, t.0, t.1) == j);
        assert(q[t] == p[t]);
        let r = draw_upto(p, size, sprite, vx, vy, k).0;
        assert(r.dom() =~= p.dom());
        assert forall|a: int, b: int| p.dom().contains((a, b)) implies #[trigger] r[(a, b)]
            == if touched(vx, vy, a, b, k as int) {
            p[(a, b)] != sprite_bit(sprite, bit_index(vx, vy, a, b))
        } else {
            p[(a, b)]
        } by {
            if (a, b) != t {
                assert(touched(vx, vy, a, b, k as int) == touched(vx, vy, a, b, j));
            }
        }
        let e_prev = exists|i: int| 0 <= i < j && sprite_bit(sprite, i) && #[trigger] p[target(size, vx, vy, i)];
        let e_now = exists|i: int| 0 <= i < k && sprite_bit(sprite, i) && #[trigger] p[target(size, vx, vy, i)];
        if e_now && !e_prev {
            let i = choose|i: int| 0 <= i < k && sprite_bit(sprite, i) && #[trigger] p[target(size, vx, vy, i)];
            assert(i == j);
        }
    }
}

/// Drawing the same sprite twice at the same place, wholly inside the screen, gives the
/// screen back as it was; the second draw reports a collision exactly when a set bit of
/// the sprite meets a pixel that is lit after the first draw.
pub proof fn lemma_draw_twice(
    p: Map<(int, int), bool>,
    size: (usize, usize),
    sprite: Seq<u8>,
    vx: int,
    vy: int,
)
    requires
        covers(p, size),
        inside(size, vx, vy, sprite.len() as int),
    ensures
        ({
            let (p1, c1) = draw_spec(p, size, sprite, vx, vy);
            let (p2, c2) = draw_spec(p1, size, sprite, vx, vy);
            &&& p2 == p
            &&& c2 == exists|j: int|
                0 <= j < 8 * sprite.len() && sprite_bit(sprite, j) && #[trigger] p1[target(
                    size,
                    vx,
                    vy,
                    j,
                )]
        }),
{
    let k = 8 * sprite.len();
    lemma_draw_inside(p, size, sprite, vx, vy, k);
    let p1 = draw_spec(p, size, sprite, vx, vy).0;
    assert(covers(p1, size));
    lemma_draw_inside(p1, size, sprite, vx, vy, k);
    let p2 = draw_spec(p1, size, sprite, vx, vy).0;
    assert forall|key: (int, int)| p.dom().contains(key) implies p2[key] == p[key] by {
        let (a, b) = key;
        assert(p1[(a, b)] == draw_upto(p, size, sprite, vx, vy, k).0[(a, b)]);
        assert(p2[(a, b)] == draw_upto(p1, size, sprite, vx, vy, k).0[(a, b)]);
    }
    assert(p2 =~= p);
}

/// Drawing wraps columns: with the sprite's left edge in the last column of a screen at
/// least eight wide, bit column 0 lands in that last column and bit columns 1 to 7 land
/// in screen columns 0 to 6.
pub proof fn lemma_draw_wraps_columns(size: (usize, usize), vy: int, k: int)
    requires
        size.0 >= 8,
        size.1 > 0,
        0 <= k,
    ensures
        k % 8 == 0 ==> target(size, size.0 - 1, vy, k).0 == size.0 - 1,
        k % 8 > 0 ==> target(size, size.0 - 1, vy, k).0 == k % 8 - 1,
{
    let w = size.0 as int;
    if k % 8 == 0 {
        lemma_small_mod((w - 1) as nat, w as nat);
    } else {
        assert(w - 1 + k % 8 == w + (k % 8 - 1));
        vstd::arithmetic::div_mod::lemma_mod_add_multiples_vanish(k % 8 - 1, w);
        lemma_small_mod((k % 8 - 1) as nat, w as nat);
    }
}

/// Loading `kk` into a register and then adding `kk2` to it leaves `(kk + kk2) mod 256`.
pub proof fn lemma_load_then_add(s: CpuState, x: u8, kk: u8, kk2: u8)
    requires
        x < 16,
        s.v.len() == 16,
    ensures
        exec_spec(advance(exec_spec(s, Instr::LdImm(x, kk))), Instr::AddImm(x, kk2)).v[x as int]
            == (kk + kk2) % 256,
{
}

/// A call followed at once by a return resumes at the instruction after the call, with
/// the stack pointer as it was.
pub proof fn lemma_call_then_ret(s: CpuState, a: u16)
    requires
        a < 4096,
        s.stack.len() == 16,
    ensures
        ({
            let s1 = advance(exec_spec(s, Instr::Call(a)));
            let s2 = advance(exec_spec(s1, Instr::Ret));
            &&& s1.pc == a
            &&& s2.pc == wrap16(s.pc + 2)
            &&& s2.sp == s.sp
        }),
{
}

/// `s` after pushing each address of `addrs` in turn.
pub open spec fn push_all(s: CpuState, addrs: Seq<u16>) -> CpuState
    decreases addrs.len(),
{
    if addrs.len() == 0 {
        s
    } else {
        push_spec(push_all(s, addrs.drop_last()), addrs.last())
    }
}

/// Up to sixteen nested pushes are all kept: the `j`-th address pushed sits `j` slots above
/// where the stack pointer started, and the pointer has moved by the number of pushes.
pub proof fn lemma_nested_pushes(s: CpuState, addrs: Seq<u16>)
    requires
        s.stack.len() == 16,
        addrs.len() <= 16,
    ensures
        push_all(s, addrs).sp == wrap8(s.sp + addrs.len()),
        push_all(s, addrs).stack.len() == 16,
        forall|j: int|
            0 <= j < addrs.len() ==> #[trigger] push_all(s, addrs).stack[(s.sp + j) % 16]
                == addrs[j],
    decreases addrs.len(),
{
    if addrs.len() > 0 {
        let init = addrs.drop_last();
        lemma_nested_pushes(s, init);
        let n = addrs.len() - 1;
        let t = push_all(s, init);
        lemma_wrap8_slot(s.sp + n, 0);
        assert(wrap8(t.sp + 1) == wrap8(s.sp + n + 1)) by {
            vstd::arithmetic::div_mod::lemma_add_mod_noop(s.sp + n, 1, 256);
            vstd::arithmetic::div_mod::lemma_mod_twice(1, 256);
        }
        assert forall|j: int| 0 <= j < addrs.len() implies #[trigger] push_all(s, addrs).stack[(s.sp + j) % 16]
            == addrs[j] by {
            if j < n {
                assert(init[j] == addrs[j]);
                lemma_slots_distinct(s.sp as int, j, n);
            }
        }
    }
}

/// Fewer than sixteen pushes apart, two stack slots differ.
proof fn lemma_slots_distinct(a: int, j: int, n: int)
    requires
        0 <= j < n < 16,
    ensures
        (a + j) % 16 != (a + n) % 16,
{
}

/// After up to sixteen nested pushes, the `i`-th pop (counting from zero) returns the
/// `i`-th address from the end: returns unwind the calls in reverse order.
pub proof fn lemma_pops_reverse(s: CpuState, addrs: Seq<u16>, i: int)
    requires
        s.stack.len() == 16,
        addrs.len() <= 16,
        0 <= i < addrs.len(),
    ensures
        ({
            let t = push_all(s, addrs);
            top(CpuState { sp: wrap8(t.sp - i), ..t }) == addrs[addrs.len() - 1 - i]
        }),
{
    lemma_nested_pushes(s, addrs);
    let t = push_all(s, addrs);
    let j = addrs.len() - 1 - i;
    let u = CpuState { sp: wrap8(t.sp - i), ..t };
    lemma_pop_slot(s.sp as int, addrs.len() as int, i);
    assert((popped_sp(u) as int) % 16 == (s.sp + j) % 16);
    assert(push_all(s, addrs).stack[(s.sp + j) % 16] == addrs[j]);
}

/// Reducing to a byte does not move a stack slot: slots repeat every sixteen.
proof fn lemma_wrap8_slot(a: int, c: int)
    ensures
        (wrap8(a) - c) % 16 == (a - c) % 16,
{
    vstd::arithmetic::div_mod::lemma_fundamental_div_mod(a, 256);
    vstd::arithmetic::div_mod::lemma_mod_multiples_vanish(-16 * (a / 256), a - c, 16);
}

/// After `n` pushes and `i` pops from a pointer at `sp`, the next pop reads the slot of the
/// push numbered `n - 1 - i`.
proof fn lemma_pop_slot(sp: int, n: int, i: int)
    ensures
        wrap8(wrap8(wrap8(sp + n) - i) - 1) % 16 == (sp + n - 1 - i) % 16,
{
    lemma_wrap8_slot(wrap8(wrap8(sp + n) - i) - 1, 0);
    lemma_wrap8_slot(wrap8(sp + n) - i, 1);
    lemma_wrap8_slot(sp + n, i + 1);
}

/// The seventeenth nested push wraps around and overwrites the slot of the first.
pub proof fn lemma_seventeenth_push(s: CpuState, addrs: Seq<u16>)
    requires
        s.stack.len() == 16,
        addrs.len() == 17,
    ensures
        push_all(s, addrs).stack[s.sp as int % 16] == addrs[16],
{
    let init = addrs.drop_last();
    lemma_nested_pushes(s, init);
    assert((push_all(s, init).sp as int) % 16 == (s.sp as int) % 16) by {
        vstd::arithmetic::div_mod::lemma_mod_mod(s.sp + 16, 256, 16);
    }
}

/// `ADD Vx, Vy` sets the flag exactly when the sum exceeds 255; `SUB Vx, Vy` sets it
/// exactly when `Vx >= Vy`, that is when there is no borrow.
pub proof fn lemma_add_sub_flags(s: CpuState, x: u8, y: u8)
    requires
        x < 16,
        y < 16,
        s.v.len() == 16,
    ensures
        (exec_spec(s, Instr::AddReg(x, y)).v[15] == 1) == (s.v[x as int] + s.v[y as int] > 255),
        (exec_spec(s, Instr::Sub(x, y)).v[15] == 1) == (s.v[x as int] >= s.v[y as int]),
{
}

/// `s` after `k` timer ticks.
pub open spec fn ticks(s: CpuState, k: nat) -> CpuState
    decreases k,
{
    if k == 0 {
        s
    } else {
        tick_spec(ticks(s, (k - 1) as nat))
    }
}

/// Each tick takes exactly one off a running delay timer: a delay timer set to `n` reads
/// `n - k` after `k <= n` ticks, so it reaches zero after exactly `n` ticks and stays there.
pub proof fn lemma_delay_countdown(s: CpuState, k: nat)
    ensures
        ticks(s, k).dt == if k <= s.dt { s.dt - k } else { 0 },
    decreases k,
{
    if k > 0 {
        lemma_delay_countdown(s, (k - 1) as nat);
    }
}

/// The screen after the first `k` bits of a full 8-pixel row are drawn at the last column
/// of row `r0` of a dark screen: the first bit lights the last column, bit `j > 0` lights
/// column `j - 1`, and nothing collides.
proof fn lemma_edge_row(p: Map<(int, int), bool>, size: (usize, usize), r0: int, k: nat)
    requires
        covers(p, size),
        size.0 >= 8,
        0 <= r0 < size.1,
        forall|a: int, b: int| 0 <= a < size.0 && 0 <= b < size.1 ==> !#[trigger] p[(a, b)],
        k <= 8,
    ensures
        ({
            let (q, c) = draw_upto(p, size, seq![0xffu8], size.0 - 1, r0, k);
            &&& !c
            &&& q.dom() == p.dom()
            &&& forall|a: int, b: int|
                0 <= a < size.0 && 0 <= b < size.1 ==> #[trigger] q[(a, b)] == (b == r0 && ((a
                    == size.0 - 1 && k >= 1) || a < k - 1))
        }),
    decreases k,
{
    if k > 0 {
        let j = k - 1;
        lemma_edge_row(p, size, r0, j as nat);
        let sprite = seq![0xffu8];
        let (q, c) = draw_upto(p, size, sprite, size.0 - 1, r0, j as nat);
        lemma_draw_wraps_columns(size, r0, j);
        lemma_small_mod(r0 as nat, size.1 as nat);
        let t = target(size, size.0 - 1, r0, j);
        assert(t.1 == r0);
        assert(j % 8 == j && j / 8 == 0);
        let sh: u8 = (7 - j) as u8;
        assert(((0xffu8 >> sh) & 1u8) == 1u8) by (bit_vector)
            requires
                sh < 8,
        ;
        assert(sprite_bit(sprite, j));
        assert(q.dom().contains(t));
        let r = draw_upto(p, size, sprite, size.0 - 1, r0, k).0;
        assert(r.dom() =~= p.dom());
    }
}

/// Drawing a full 8-pixel row with its left edge in the last column of a dark screen at
/// least eight wide lights that last column and wraps the other seven pixels to columns 0
/// to 6 of the same row; no other pixel lights and nothing collides.
pub proof fn lemma_draw_right_edge(p: Map<(int, int), bool>, size: (usize, usize), r0: int)
    requires
        covers(p, size),
        size.0 >= 8,
        0 <= r0 < size.1,
        forall|a: int, b: int| 0 <= a < size.0 && 0 <= b < size.1 ==> !#[trigger] p[(a, b)],
    ensures
        ({
            let (q, c) = draw_spec(p, size, seq![0xffu8], size.0 - 1, r0);
            &&& !c
            &&& forall|a: int, b: int|
                0 <= a < size.0 && 0 <= b < size.1 ==> #[trigger] q[(a, b)] == (b == r0 && (a
                    == size.0 - 1 || a <= 6))
        }),
{
    assert(8 * seq![0xffu8].len() == 8);
    lemma_edge_row(p, size, r0, 8);
}

/// The timers and the last tick time after timer steps on each reading of `clocks`.
pub open spec fn timer_run(s: CpuState, time: Option<u64>, clocks: Seq<u64>) -> (
    CpuState,
    Option<u64>,
)
    decreases clocks.len(),
{
    if clocks.len() == 0 {
        (s, time)
    } else {
        let (c, t) = timer_run(s, time, clocks.drop_last());
        timer_spec(c, t, clocks.last())
    }
}

/// Each reading of `clocks` comes more than a 60 Hz period after the one before it, the
/// first after `c0`.
pub open spec fn each_due(c0: u64, clocks: Seq<u64>) -> bool {
    forall|j: int|
        0 <= j < clocks.len() ==> due_spec(if j == 0 { c0 } else { clocks[j - 1] }, #[trigger] clocks[j])
}

/// Timer steps on readings that each cross a 60 Hz period tick exactly once each and record
/// the reading: a delay timer set to `n` reads `n - k` after `k <= n` such steps, so it
/// reaches zero after exactly `n`, however far the clock jumped.
pub proof fn lemma_timer_cadence(s: CpuState, c0: u64, clocks: Seq<u64>)
    requires
        each_due(c0, clocks),
    ensures
        timer_run(s, Some(c0), clocks) == (
            ticks(s, clocks.len()),
            Some(if clocks.len() == 0 { c0 } else { clocks.last() }),
        ),
        timer_run(s, Some(c0), clocks).0.dt == if clocks.len() <= s.dt {
            s.dt - clocks.len()
        } else {
            0
        },
    decreases clocks.len(),
{
    if clocks.len() > 0 {
        let init = clocks.drop_last();
        assert forall|j: int| 0 <= j < init.len() implies due_spec(
            if j == 0 { c0 } else { init[j - 1] },
            #[trigger] init[j],
        ) by {
            assert(clocks[j] == init[j]);
        }
        lemma_timer_cadence(s, c0, init);
        let last = clocks.len() - 1;
        assert(due_spec(if last == 0 { c0 } else { clocks[last - 1] }, clocks[last]));
    }
    lemma_delay_countdown(s, clocks.len());
}

} // verus!
