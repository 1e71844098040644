use vstd::prelude::*;

verus! {

/// A decoded instruction. `x` and `y` name registers, `n` is a nibble, `kk` a byte and
/// `nnn` a 12-bit address.
#[derive(Clone, Copy, Debug, PartialEq, Eq, Structural)]
pub enum Instr {
    /// `00E0`: clear the screen.
    Cls,
    /// `00EE`: return from a subroutine.
    Ret,
    /// `1nnn`: jump to `nnn`.
    Jp(u16),
    /// `2nnn`: call the subroutine at `nnn`.
    Call(u16),
    /// `3xkk`: skip the next instruction if `Vx == kk`.
    SeImm(u8, u8),
    /// `4xkk`: skip the next instruction if `Vx != kk`.
    SneImm(u8, u8),
    /// `5xy0`: skip the next instruction if `Vx == Vy`.
    SeReg(u8, u8),
    /// `6xkk`: `Vx = kk`.
    LdImm(u8, u8),
    /// `7xkk`: `Vx += kk`, wrapping.
    AddImm(u8, u8),
    /// `8xy0`: `Vx = Vy`.
    LdReg(u8, u8),
    /// `8xy1`: `Vx |= Vy`.
    Or(u8, u8),
    /// `8xy2`: `Vx &= Vy`.
    And(u8, u8),
    /// `8xy3`: `Vx ^= Vy`.
    Xor(u8, u8),
    /// `8xy4`: `Vx += Vy`, `VF` = carry.
    AddReg(u8, u8),
    /// `8xy5`: `Vx -= Vy`, `VF` = no borrow.
    Sub(u8, u8),
    /// `8xy6`: `VF` = low bit of `Vx`, `Vx >>= 1`.
    Shr(u8),
    /// `8xy7`: `Vx = Vy - Vx`, `VF` = no borrow.
    Subn(u8, u8),
    /// `8xyE`: `VF` = high bit of `Vx`, `Vx <<= 1`.
    Shl(u8),
    /// `9xy0`: skip the next instruction if `Vx != Vy`.
    SneReg(u8, u8),
    /// `Annn`: `I = nnn`.
    LdI(u16),
    /// `Bnnn`: jump to `nnn + V0`.
    JpV0(u16),
    /// `Cxkk`: `Vx = random & kk`.
    Rnd(u8, u8),
    /// `Dxyn`: draw the `n`-row sprite at `mem[I]` at `(Vx, Vy)`.
    Drw(u8, u8, u8),
    /// `Ex9E`: skip the next instruction if key `Vx` is pressed.
    Skp(u8),
    /// `ExA1`: skip the next instruction if key `Vx` is not pressed.
    Sknp(u8),
    /// `Fx07`: `Vx = DT`.
    LdFromDelay(u8),
    /// `Fx0A`: wait for a key press and store its code in `Vx`.
    WaitKey(u8),
    /// `Fx15`: `DT = Vx`.
    LdDelay(u8),
    /// `Fx18`: `ST = Vx`.
    LdSound(u8),
    /// `Fx1E`: `I += Vx`.
    AddI(u8),
    /// `Fx29`: `I` = address of the font glyph for digit `Vx`.
    LdGlyph(u8),
    /// `Fx33`: store the decimal digits of `Vx` at `mem[I..I+3]`.
    Bcd(u8),
    /// `Fx55`: store `V0..=Vx` at `mem[I..]`.
    Store(u8),
    /// `Fx65`: load `V0..=Vx` from `mem[I..]`.
    Load(u8),
}

/// Why an instruction could not be executed.
#[derive(Clone, Copy, Debug, PartialEq, Eq, Structural)]
pub enum Fault {
    /// A `0nnn` machine-code call, which this interpreter does not support.
    Unsupported(u16),
    /// An instruction word that matches no opcode.
    InvalidOpcode(u16),
}

/// Bits 12 to 15 of an instruction word.
pub open spec fn op_of(w: u16) -> u16 {
    w / 4096
}

/// Bits 8 to 11: the first register.
pub open spec fn x_of(w: u16) -> u8 {
    ((w / 256) % 16) as u8
}

/// Bits 4 to 7: the second register.
pub open spec fn y_of(w: u16) -> u8 {
    ((w / 16) % 16) as u8
}

/// Bits 0 to 3.
pub open spec fn n_of(w: u16) -> u8 {
    (w % 16) as u8
}

/// The low 12 bits: an address.
pub open spec fn nnn_of(w: u16) -> u16 {
    w % 4096
}

/// The low 8 bits: an immediate byte.
pub open spec fn kk_of(w: u16) -> u8 {
    (w % 256) as u8
}

/// What the instruction word `w` means.
pub open spec fn decode_spec(w: u16) -> Result<Instr, Fault> {
    let (op, x, y, n, nnn, kk) = (op_of(w), x_of(w), y_of(w), n_of(w), nnn_of(w), kk_of(w));
    if w == 0x00e0 {
        Ok(Instr::Cls)
    } else if w == 0x00ee {
        Ok(Instr::Ret)
    } else if op == 0 {
        Err(Fault::Unsupported(w))
    } else if op == 1 {
        Ok(Instr::Jp(nnn))
    } else if op == 2 {
        Ok(Instr::Call(nnn))
    } else if op == 3 {
        Ok(Instr::SeImm(x, kk))
    } else if op == 4 {
        Ok(Instr::SneImm(x, kk))
    } else if op == 5 && n == 0 {
        Ok(Instr::SeReg(x, y))
    } else if op == 6 {
        Ok(Instr::LdImm(x, kk))
    } else if op == 7 {
        Ok(Instr::AddImm(x, kk))
    } else if op == 8 && n == 0 {
        Ok(Instr::LdReg(x, y))
    } else if op == 8 && n == 1 {
        Ok(Instr::Or(x, y))
    } else if op == 8 && n == 2 {
        Ok(Instr::And(x, y))
    } else if op == 8 && n == 3 {
        Ok(Instr::Xor(x, y))
    } else if op == 8 && n == 4 {
        Ok(Instr::AddReg(x, y))
    } else if op == 8 && n == 5 {
        Ok(Instr::Sub(x, y))
    } else if op == 8 && n == 6 {
        Ok(Instr::Shr(x))
    } else if op == 8 && n == 7 {
        Ok(Instr::Subn(x, y))
    } else if op == 8 && n == 0xe {
        Ok(Instr::Shl(x))
    } else if op == 9 && n == 0 {
        Ok(Instr::SneReg(x, y))
    } else if op == 0xa {
        Ok(Instr::LdI(nnn))
    } else if op == 0xb {
        Ok(Instr::JpV0(nnn))
    } else if op == 0xc {
        Ok(Instr::Rnd(x, kk))
    } else if op == 0xd {
        Ok(Instr::Drw(x, y, n))
    } else if op == 0xe && kk == 0x9e {
        Ok(Instr::Skp(x))
    } else if op == 0xe && kk == 0xa1 {
        Ok(Instr::Sknp(x))
    } else if op == 0xf && kk == 0x07 {
        Ok(Instr::LdFromDelay(x))
    } else if op == 0xf && kk == 0x0a {
        Ok(Instr::WaitKey(x))
    } else if op == 0xf && kk == 0x15 {
        Ok(Instr::LdDelay(x))
    } else if op == 0xf && kk == 0x18 {
        Ok(Instr::LdSound(x))
    } else if op == 0xf && kk == 0x1e {
        Ok(Instr::AddI(x))
    } else if op == 0xf && kk == 0x29 {
        Ok(Instr::LdGlyph(x))
    } else if op == 0xf && kk == 0x33 {
        Ok(Instr::Bcd(x))
    } else if op == 0xf && kk == 0x55 {
        Ok(Instr::Store(x))
    } else if op == 0xf && kk == 0x65 {
        Ok(Instr::Load(x))
    } else {
        Err(Fault::InvalidOpcode(w))
    }
}

impl Instr {
    /// Register operands name one of the sixteen registers, addresses fit in 12 bits and
    /// row counts in 4.
    pub open spec fn wf(self) -> bool {
        match self {
            Instr::Jp(a) | Instr::Call(a) | Instr::LdI(a) | Instr::JpV0(a) => a < 4096,
            Instr::SeImm(x, _) | Instr::SneImm(x, _) | Instr::LdImm(x, _) | Instr::AddImm(x, _)
            | Instr::Rnd(x, _) => x < 16,
            Instr::SeReg(x, y) | Instr::LdReg(x, y) | Instr::Or(x, y) | Instr::And(x, y)
            | Instr::Xor(x, y) | Instr::AddReg(x, y) | Instr::Sub(x, y) | Instr::Subn(x, y)
            | Instr::SneReg(x, y) => x < 16 && y < 16,
            Instr::Drw(x, y, n) => x < 16 && y < 16 && n < 16,
            Instr::Shr(x) | Instr::Shl(x) | Instr::Skp(x) | Instr::Sknp(x)
            | Instr::LdFromDelay(x) | Instr::WaitKey(x) | Instr::LdDelay(x) | Instr::LdSound(x)
            | Instr::AddI(x) | Instr::LdGlyph(x) | Instr::Bcd(x) | Instr::Store(x)
            | Instr::Load(x) => x < 16,
            Instr::Cls | Instr::Ret => true,
        }
    }
}

/// Decodes the instruction word `w`.
pub fn decode(w: u16) -> (r: Result<Instr, Fault>)
    ensures
        r == decode_spec(w),
        r matches Ok(ins) ==> ins.wf(),
{
    let op = w / 4096;
    let x = ((w / 256) % 16) as u8;
    let y = ((w / 16) % 16) as u8;
    let n = (w % 16) as u8;
    let nnn = w % 4096;
    let kk = (w % 256) as u8;
    if w == 0x00e0 {
        Ok(Instr::Cls)
    } else if w == 0x00ee {
        Ok(Instr::Ret)
    } else if op == 0 {
        Err(Fault::Unsupported(w))
    } else if op == 1 {
        Ok(Instr::Jp(nnn))
    } else if op == 2 {
        Ok(Instr::Call(nnn))
    } else if op == 3 {
        Ok(Instr::SeImm(x, kk))
    } else if op == 4 {
        Ok(Instr::SneImm(x, kk))
    } else if op == 5 && n == 0 {
        Ok(Instr::SeReg(x, y))
    } else if op == 6 {
        Ok(Instr::LdImm(x, kk))
    } else if op == 7 {
        Ok(Instr::AddImm(x, kk))
    } else if op == 8 {
        match n {
            0 => Ok(Instr::LdReg(x, y)),
            1 => Ok(Instr::Or(x, y)),
            2 => Ok(Instr::And(x, y)),
            3 => Ok(Instr::Xor(x, y)),
            4 => Ok(Instr::AddReg(x, y)),
            5 => Ok(Instr::Sub(x, y)),
            6 => Ok(Instr::Shr(x)),
            7 => Ok(Instr::Subn(x, y)),
            0xe => Ok(Instr::Shl(x)),
            _ => Err(Fault::InvalidOpcode(w)),
        }
    } else if op == 9 && n == 0 {
        Ok(Instr::SneReg(x, y))
    } else if op == 0xa {
        Ok(Instr::LdI(nnn))
    } else if op == 0xb {
        Ok(Instr::JpV0(nnn))
    } else if op == 0xc {
        Ok(Instr::Rnd(x, kk))
    } else if op == 0xd {
        Ok(Instr::Drw(x, y, n))
    } else if op == 0xe && kk == 0x9e {
        Ok(Instr::Skp(x))
    } else if op == 0xe && kk == 0xa1 {
        Ok(Instr::Sknp(x))
    } else if op == 0xf {
        match kk {
            0x07 => Ok(Instr::LdFromDelay(x)),
            0x0a => Ok(Instr::WaitKey(x)),
            0x15 => Ok(Instr::LdDelay(x)),
            0x18 => Ok(Instr::LdSound(x)),
            0x1e => Ok(Instr::AddI(x)),
            0x29 => Ok(Instr::LdGlyph(x)),
            0x33 => Ok(Instr::Bcd(x)),
            0x55 => Ok(Instr::Store(x)),
            0x65 => Ok(Instr::Load(x)),
            _ => Err(Fault::InvalidOpcode(w)),
        }
    } else {
        Err(Fault::InvalidOpcode(w))
    }
}

} // verus!
