//! Numbers as the store holds them, and the comparisons a condition applies.
use vstd::prelude::*;

verus! {

/// The sign bit of an IEEE-754 binary64 bit pattern.
pub const SIGN_BIT: u64 = 0x8000_0000_0000_0000;

/// The bit pattern of positive infinity; a larger magnitude is a NaN.
pub const INFINITY_BITS: u64 = 0x7FF0_0000_0000_0000;

/// A number: its IEEE-754 binary64 bit pattern and the decimal text it prints as.
#[derive(Debug, Clone, PartialEq, Eq)]
pub struct Num {
    pub bits: u64,
    pub text: String,
}

impl View for Num {
    type V = (u64, Seq<char>);

    open spec fn view(&self) -> (u64, Seq<char>) {
        (self.bits, self.text@)
    }
}

impl Num {
    /// A copy of this number.
    pub fn duplicate(&self) -> (r: Num)
        ensures
            r@ == self@,
    {
        Num { bits: self.bits, text: self.text.clone() }
    }
}

/// The bit pattern without its sign bit.
pub open spec fn magnitude(b: u64) -> int {
    (b as int) % (SIGN_BIT as int)
}

/// Whether the bit pattern encodes a NaN.
pub open spec fn is_nan(b: u64) -> bool {
    magnitude(b) > INFINITY_BITS as int
}

/// An integer that orders the non-NaN values as the reals they encode
/// (both zeros map to 0).
pub open spec fn order_key(b: u64) -> int {
    if b >= SIGN_BIT {
        -magnitude(b)
    } else {
        magnitude(b)
    }
}

/// The comparison operators of a condition.
#[derive(PartialEq, Eq, Structural, Clone, Copy, Debug)]
pub enum CmpOp {
    Eq,
    Ne,
    Gt,
    Lt,
    Ge,
    Le,
}

/// The operator that a token names, if any.
pub open spec fn op_of(t: Seq<char>) -> Option<CmpOp> {
    if t == seq!['=', '='] {
        Some(CmpOp::Eq)
    } else if t == seq!['!', '='] {
        Some(CmpOp::Ne)
    } else if t == seq!['>'] {
        Some(CmpOp::Gt)
    } else if t == seq!['<'] {
        Some(CmpOp::Lt)
    } else if t == seq!['>', '='] {
        Some(CmpOp::Ge)
    } else if t == seq!['<', '='] {
        Some(CmpOp::Le)
    } else {
        None
    }
}

/// Reads an operator token.
pub fn parse_op(t: &str) -> (r: Option<CmpOp>)
    ensures
        r == op_of(t@),
{
    let n = t.unicode_len();
    if n == 1 {
        let c = t.get_char(0);
        assert(t@ == seq![c]);
        if c == '>' {
            return Some(CmpOp::Gt);
        } else if c == '<' {
            return Some(CmpOp::Lt);
        }
    } else if n == 2 {
        let c = t.get_char(0);
        let d = t.get_char(1);
        assert(t@ == seq![c, d]);
        if d == '=' {
            if c == '=' {
                return Some(CmpOp::Eq);
            } else if c == '!' {
                return Some(CmpOp::Ne);
            } else if c == '>' {
                return Some(CmpOp::Ge);
            } else if c == '<' {
                return Some(CmpOp::Le);
            }
        }
    }
    None
}

/// Whether `l op r` holds of the binary64 values the bit patterns encode:
/// every comparison with a NaN is false but `!=`, and `-0 == 0`.
pub open spec fn holds(op: CmpOp, l: u64, r: u64) -> bool {
    if is_nan(l) || is_nan(r) {
        op == CmpOp::Ne
    } else {
        match op {
            CmpOp::Eq => order_key(l) == order_key(r),
            CmpOp::Ne => order_key(l) != order_key(r),
            CmpOp::Gt => order_key(l) > order_key(r),
            CmpOp::Lt => order_key(l) < order_key(r),
            CmpOp::Ge => order_key(l) >= order_key(r),
            CmpOp::Le => order_key(l) <= order_key(r),
        }
    }
}

fn key_of(b: u64) -> (r: i128)
    ensures
        r as int == order_key(b),
{
    let m = b % SIGN_BIT;
    if b >= SIGN_BIT {
        -(m as i128)
    } else {
        m as i128
    }
}

/// Compares two numbers given by their bit patterns.
pub fn compare(op: CmpOp, l: u64, r: u64) -> (res: bool)
    ensures
        res == holds(op, l, r),
{
    if l % SIGN_BIT > INFINITY_BITS || r % SIGN_BIT > INFINITY_BITS {
        return op == CmpOp::Ne;
    }
    let a = key_of(l);
    let b = key_of(r);
    match op {
        CmpOp::Eq => a == b,
        CmpOp::Ne => a != b,
        CmpOp::Gt => a > b,
        CmpOp::Lt => a < b,
        CmpOp::Ge => a >= b,
        CmpOp::Le => a <= b,
    }
}

} // verus!
