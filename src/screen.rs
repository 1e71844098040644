use vstd::prelude::*;

verus! {

/// Width of the screen that the interpreter asks for.
pub const WIDTH: usize = 64;

/// Height of the screen that the interpreter asks for.
pub const HEIGHT: usize = 32;

/// Every cell of a `size.0` by `size.1` screen has a state in `p`.
pub open spec fn covers(p: Map<(int, int), bool>, size: (usize, usize)) -> bool {
    forall|a: int, b: int|
        0 <= a < size.0 && 0 <= b < size.1 ==> #[trigger] p.dom().contains((a, b))
}

/// Bit `k` of a sprite, counting from the most significant bit of its first row.
pub open spec fn sprite_bit(sprite: Seq<u8>, k: int) -> bool {
    (sprite[k / 8] >> ((7 - k % 8) as u8)) & 1 == 1
}

/// The cell that bit `k` of a sprite drawn at `(vx, vy)` lands on; both axes wrap.
pub open spec fn target(size: (usize, usize), vx: int, vy: int, k: int) -> (int, int) {
    ((vx + k % 8) % (size.0 as int), (vy + k / 8) % (size.1 as int))
}

/// The screen and the collision flag after the first `k` bits of a sprite are drawn:
/// each bit is XORed into its cell, and a collision is a set bit that meets a lit cell.
pub open spec fn draw_upto(
    p: Map<(int, int), bool>,
    size: (usize, usize),
    sprite: Seq<u8>,
    vx: int,
    vy: int,
    k: nat,
) -> (Map<(int, int), bool>, bool)
    decreases k,
{
    if k == 0 {
        (p, false)
    } else {
        let (q, c) = draw_upto(p, size, sprite, vx, vy, (k - 1) as nat);
        let t = target(size, vx, vy, k - 1);
        let src = sprite_bit(sprite, k - 1);
        (q.insert(t, src != q[t]), c || (src && q[t]))
    }
}

/// The screen and the collision flag after a whole sprite is drawn at `(vx, vy)`.
pub open spec fn draw_spec(
    p: Map<(int, int), bool>,
    size: (usize, usize),
    sprite: Seq<u8>,
    vx: int,
    vy: int,
) -> (Map<(int, int), bool>, bool) {
    draw_upto(p, size, sprite, vx, vy, 8 * sprite.len())
}

} // verus!
