//! The 32 general-purpose registers and the resolution of register operands.
use vstd::prelude::*;

use crate::text::{char_eq_ignore_case, chars_of, eq_ignore_case, i32_value, is_digit, is_upper, parse_i32};

verus! {

/// One of the 32 general-purpose MIPS registers, in index order.
#[derive(Copy, Clone, Debug, PartialEq, Eq, Structural)]
pub enum Register {
    ZERO,
    AT,
    V0,
    V1,
    A0,
    A1,
    A2,
    A3,
    T0,
    T1,
    T2,
    T3,
    T4,
    T5,
    T6,
    T7,
    S0,
    S1,
    S2,
    S3,
    S4,
    S5,
    S6,
    S7,
    T8,
    T9,
    K0,
    K1,
    GP,
    SP,
    FP,
    RA,
}

/// Why a register operand could not be resolved.
#[derive(Clone, Debug, PartialEq, Eq)]
pub enum RegisterError {
    /// Neither a register index nor a register name; holds the operand as written.
    UnknownRegister(String),
    /// A register family letter followed by an index that family does not have.
    NamedRegisterOutOfRange { reg_name: char, reg_index: i32 },
    /// A register index outside `0..32`.
    NumRegisterOutOfRange(i32),
}

/// What a `RegisterError` says, with the operand text as a sequence.
pub ghost enum RegisterErrorView {
    UnknownRegister(Seq<char>),
    NamedRegisterOutOfRange { reg_name: char, reg_index: i32 },
    NumRegisterOutOfRange(i32),
}

impl View for RegisterError {
    type V = RegisterErrorView;

    open spec fn view(&self) -> RegisterErrorView {
        match self {
            RegisterError::UnknownRegister(t) => RegisterErrorView::UnknownRegister(t@),
            RegisterError::NamedRegisterOutOfRange { reg_name, reg_index } =>
                RegisterErrorView::NamedRegisterOutOfRange { reg_name: *reg_name, reg_index: *reg_index },
            RegisterError::NumRegisterOutOfRange(n) => RegisterErrorView::NumRegisterOutOfRange(*n),
        }
    }
}

/// The register with index `n`, for `0 <= n < 32`.
pub open spec fn register_at(n: int) -> Register {
    if n == 0 {
        Register::ZERO
    } else if n == 1 {
        Register::AT
    } else if n == 2 {
        Register::V0
    } else if n == 3 {
        Register::V1
    } else if n == 4 {
        Register::A0
    } else if n == 5 {
        Register::A1
    } else if n == 6 {
        Register::A2
    } else if n == 7 {
        Register::A3
    } else if n == 8 {
        Register::T0
    } else if n == 9 {
        Register::T1
    } else if n == 10 {
        Register::T2
    } else if n == 11 {
        Register::T3
    } else if n == 12 {
        Register::T4
    } else if n == 13 {
        Register::T5
    } else if n == 14 {
        Register::T6
    } else if n == 15 {
        Register::T7
    } else if n == 16 {
        Register::S0
    } else if n == 17 {
        Register::S1
    } else if n == 18 {
        Register::S2
    } else if n == 19 {
        Register::S3
    } else if n == 20 {
        Register::S4
    } else if n == 21 {
        Register::S5
    } else if n == 22 {
        Register::S6
    } else if n == 23 {
        Register::S7
    } else if n == 24 {
        Register::T8
    } else if n == 25 {
        Register::T9
    } else if n == 26 {
        Register::K0
    } else if n == 27 {
        Register::K1
    } else if n == 28 {
        Register::GP
    } else if n == 29 {
        Register::SP
    } else if n == 30 {
        Register::FP
    } else {
        Register::RA
    }
}

/// Whether the letter starts the name of a register family with numbered members.
pub open spec fn is_family_letter(c: char) -> bool {
    c == 'v' || c == 'a' || c == 't' || c == 's' || c == 'k'
}

/// The first register, in index order from `i`, whose name matches `t` up to ASCII case.
pub open spec fn name_match_from(t: Seq<char>, i: int) -> Option<Register>
    decreases 32 - i,
{
    if i >= 32 || i < 0 {
        None
    } else if eq_ignore_case(register_at(i).upper_name(), t) {
        Some(register_at(i))
    } else {
        name_match_from(t, i + 1)
    }
}

/// The register that operand text `t` (without its `$`) denotes, or the error it gives:
/// an integer is an index; otherwise a name, compared up to ASCII case; otherwise a family
/// letter followed by an integer is a named index out of range; otherwise it is unknown.
pub open spec fn resolve_register(t: Seq<char>) -> Result<Register, RegisterErrorView> {
    match i32_value(t) {
        Some(n) => if 0 <= n < 32 {
            Ok(register_at(n as int))
        } else {
            Err(RegisterErrorView::NumRegisterOutOfRange(n))
        },
        None => match name_match_from(t, 0) {
            Some(r) => Ok(r),
            None => if t.len() > 0 && is_family_letter(t[0]) && i32_value(t.drop_first()) is Some {
                Err(
                    RegisterErrorView::NamedRegisterOutOfRange {
                        reg_name: t[0],
                        reg_index: i32_value(t.drop_first())->Some_0,
                    },
                )
            } else {
                Err(RegisterErrorView::UnknownRegister(t))
            },
        },
    }
}

impl Register {
    /// The register's index.
    pub open spec fn index(self) -> int {
        match self {
            Register::ZERO => 0,
            Register::AT => 1,
            Register::V0 => 2,
            Register::V1 => 3,
            Register::A0 => 4,
            Register::A1 => 5,
            Register::A2 => 6,
            Register::A3 => 7,
            Register::T0 => 8,
            Register::T1 => 9,
            Register::T2 => 10,
            Register::T3 => 11,
            Register::T4 => 12,
            Register::T5 => 13,
            Register::T6 => 14,
            Register::T7 => 15,
            Register::S0 => 16,
            Register::S1 => 17,
            Register::S2 => 18,
            Register::S3 => 19,
            Register::S4 => 20,
            Register::S5 => 21,
            Register::S6 => 22,
            Register::S7 => 23,
            Register::T8 => 24,
            Register::T9 => 25,
            Register::K0 => 26,
            Register::K1 => 27,
            Register::GP => 28,
            Register::SP => 29,
            Register::FP => 30,
            Register::RA => 31,
        }
    }

    /// The upper-case name.
    pub open spec fn upper_name(self) -> Seq<char> {
        match self {
            Register::ZERO => seq!['Z', 'E', 'R', 'O'],
            Register::AT => seq!['A', 'T'],
            Register::V0 => seq!['V', '0'],
            Register::V1 => seq!['V', '1'],
            Register::A0 => seq!['A', '0'],
            Register::A1 => seq!['A', '1'],
            Register::A2 => seq!['A', '2'],
            Register::A3 => seq!['A', '3'],
            Register::T0 => seq!['T', '0'],
            Register::T1 => seq!['T', '1'],
            Register::T2 => seq!['T', '2'],
            Register::T3 => seq!['T', '3'],
            Register::T4 => seq!['T', '4'],
            Register::T5 => seq!['T', '5'],
            Register::T6 => seq!['T', '6'],
            Register::T7 => seq!['T', '7'],
            Register::S0 => seq!['S', '0'],
            Register::S1 => seq!['S', '1'],
            Register::S2 => seq!['S', '2'],
            Register::S3 => seq!['S', '3'],
            Register::S4 => seq!['S', '4'],
            Register::S5 => seq!['S', '5'],
            Register::S6 => seq!['S', '6'],
            Register::S7 => seq!['S', '7'],
            Register::T8 => seq!['T', '8'],
            Register::T9 => seq!['T', '9'],
            Register::K0 => seq!['K', '0'],
            Register::K1 => seq!['K', '1'],
            Register::GP => seq!['G', 'P'],
            Register::SP => seq!['S', 'P'],
            Register::FP => seq!['F', 'P'],
            Register::RA => seq!['R', 'A'],
        }
    }

    /// The lower-case name.
    pub open spec fn lower_name(self) -> Seq<char> {
        match self {
            Register::ZERO => seq!['z', 'e', 'r', 'o'],
            Register::AT => seq!['a', 't'],
            Register::V0 => seq!['v', '0'],
            Register::V1 => seq!['v', '1'],
            Register::A0 => seq!['a', '0'],
            Register::A1 => seq!['a', '1'],
            Register::A2 => seq!['a', '2'],
            Register::A3 => seq!['a', '3'],
            Register::T0 => seq!['t', '0'],
            Register::T1 => seq!['t', '1'],
            Register::T2 => seq!['t', '2'],
            Register::T3 => seq!['t', '3'],
            Register::T4 => seq!['t', '4'],
            Register::T5 => seq!['t', '5'],
            Register::T6 => seq!['t', '6'],
            Register::T7 => seq!['t', '7'],
            Register::S0 => seq!['s', '0'],
            Register::S1 => seq!['s', '1'],
            Register::S2 => seq!['s', '2'],
            Register::S3 => seq!['s', '3'],
            Register::S4 => seq!['s', '4'],
            Register::S5 => seq!['s', '5'],
            Register::S6 => seq!['s', '6'],
            Register::S7 => seq!['s', '7'],
            Register::T8 => seq!['t', '8'],
            Register::T9 => seq!['t', '9'],
            Register::K0 => seq!['k', '0'],
            Register::K1 => seq!['k', '1'],
            Register::GP => seq!['g', 'p'],
            Register::SP => seq!['s', 'p'],
            Register::FP => seq!['f', 'p'],
            Register::RA => seq!['r', 'a'],
        }
    }

    /// All registers, in index order.
    pub fn all() -> (r: [Register; 32])
        ensures
            forall|i: int| 0 <= i < 32 ==> #[trigger] r@[i] == register_at(i),
    {
        [
            Register::ZERO, Register::AT, Register::V0, Register::V1, Register::A0, Register::A1, Register::A2, Register::A3,
            Register::T0, Register::T1, Register::T2, Register::T3, Register::T4, Register::T5, Register::T6, Register::T7,
            Register::S0, Register::S1, Register::S2, Register::S3, Register::S4, Register::S5, Register::S6, Register::S7,
            Register::T8, Register::T9, Register::K0, Register::K1, Register::GP, Register::SP, Register::FP, Register::RA,
        ]
    }

    pub fn to_number(&self) -> (r: u8)
        ensures
            r as int == self.index(),
    {
        match self {
            Register::ZERO => 0,
            Register::AT => 1,
            Register::V0 => 2,
            Register::V1 => 3,
            Register::A0 => 4,
            Register::A1 => 5,
            Register::A2 => 6,
            Register::A3 => 7,
            Register::T0 => 8,
            Register::T1 => 9,
            Register::T2 => 10,
            Register::T3 => 11,
            Register::T4 => 12,
            Register::T5 => 13,
            Register::T6 => 14,
            Register::T7 => 15,
            Register::S0 => 16,
            Register::S1 => 17,
            Register::S2 => 18,
            Register::S3 => 19,
            Register::S4 => 20,
            Register::S5 => 21,
            Register::S6 => 22,
            Register::S7 => 23,
            Register::T8 => 24,
            Register::T9 => 25,
            Register::K0 => 26,
            Register::K1 => 27,
            Register::GP => 28,
            Register::SP => 29,
            Register::FP => 30,
            Register::RA => 31,
        }
    }

    /// The register with index `num`, or `NumRegisterOutOfRange(num)` when there is none.
    pub fn from_number(num: i32) -> (r: Result<Register, RegisterError>)
        ensures
            0 <= num < 32 ==> r == Ok::<Register, RegisterError>(register_at(num as int)),
            !(0 <= num < 32) ==> r == Err::<Register, RegisterError>(RegisterError::NumRegisterOutOfRange(num)),
    {
        match num {
            0 => Ok(Register::ZERO),
            1 => Ok(Register::AT),
            2 => Ok(Register::V0),
            3 => Ok(Register::V1),
            4 => Ok(Register::A0),
            5 => Ok(Register::A1),
            6 => Ok(Register::A2),
            7 => Ok(Register::A3),
            8 => Ok(Register::T0),
            9 => Ok(Register::T1),
            10 => Ok(Register::T2),
            11 => Ok(Register::T3),
            12 => Ok(Register::T4),
            13 => Ok(Register::T5),
            14 => Ok(Register::T6),
            15 => Ok(Register::T7),
            16 => Ok(Register::S0),
            17 => Ok(Register::S1),
            18 => Ok(Register::S2),
            19 => Ok(Register::S3),
            20 => Ok(Register::S4),
            21 => Ok(Register::S5),
            22 => Ok(Register::S6),
            23 => Ok(Register::S7),
            24 => Ok(Register::T8),
            25 => Ok(Register::T9),
            26 => Ok(Register::K0),
            27 => Ok(Register::K1),
            28 => Ok(Register::GP),
            29 => Ok(Register::SP),
            30 => Ok(Register::FP),
            31 => Ok(Register::RA),
            _ => Err(RegisterError::NumRegisterOutOfRange(num)),
        }
    }

    /// `from_number` on the index read as a signed 32-bit integer.
    pub fn from_u32(num: u32) -> (r: Result<Register, RegisterError>)
        ensures
            num < 32 ==> r == Ok::<Register, RegisterError>(register_at(num as int)),
            num >= 32 ==> r == Err::<Register, RegisterError>(RegisterError::NumRegisterOutOfRange(#[verifier::truncate] (num as i32))),
    {
        if num < 32 {
            Self::from_number(num as i32)
        } else {
            Err(RegisterError::NumRegisterOutOfRange(#[verifier::truncate] (num as i32)))
        }
    }

    pub fn to_u32(&self) -> (r: u32)
        ensures
            r as int == self.index(),
    {
        self.to_number() as u32
    }

    /// The upper-case name of the register with index `num`.
    pub fn u32_to_str(num: u32) -> (r: &'static str)
        requires
            num < 32,
        ensures
            r@ == register_at(num as int).upper_name(),
    {
        let regs = Self::all();
        regs[num as usize].to_str()
    }

    pub fn to_str(&self) -> (r: &'static str)
        ensures
            r@ == self.upper_name(),
    {
        match self {
            Register::ZERO => {
                proof {
                    reveal_strlit("ZERO");
                }
                "ZERO"
            },
            Register::AT => {
                proof {
                    reveal_strlit("AT");
                }
                "AT"
            },
            Register::V0 => {
                proof {
                    reveal_strlit("V0");
                }
                "V0"
            },
            Register::V1 => {
                proof {
                    reveal_strlit("V1");
                }
                "V1"
            },
            Register::A0 => {
                proof {
                    reveal_strlit("A0");
                }
                "A0"
            },
            Register::A1 => {
                proof {
                    reveal_strlit("A1");
                }
                "A1"
            },
            Register::A2 => {
                proof {
                    reveal_strlit("A2");
                }
                "A2"
            },
            Register::A3 => {
                proof {
                    reveal_strlit("A3");
                }
                "A3"
            },
            Register::T0 => {
                proof {
                    reveal_strlit("T0");
                }
                "T0"
            },
            Register::T1 => {
                proof {
                    reveal_strlit("T1");
                }
                "T1"
            },
            Register::T2 => {
                proof {
                    reveal_strlit("T2");
                }
                "T2"
            },
            Register::T3 => {
                proof {
                    reveal_strlit("T3");
                }
                "T3"
            },
            Register::T4 => {
                proof {
                    reveal_strlit("T4");
                }
                "T4"
            },
            Register::T5 => {
                proof {
                    reveal_strlit("T5");
                }
                "T5"
            },
            Register::T6 => {
                proof {
                    reveal_strlit("T6");
                }
                "T6"
            },
            Register::T7 => {
                proof {
                    reveal_strlit("T7");
                }
                "T7"
            },
            Register::S0 => {
                proof {
                    reveal_strlit("S0");
                }
                "S0"
            },
            Register::S1 => {
                proof {
                    reveal_strlit("S1");
                }
                "S1"
            },
            Register::S2 => {
                proof {
                    reveal_strlit("S2");
                }
                "S2"
            },
            Register::S3 => {
                proof {
                    reveal_strlit("S3");
                }
                "S3"
            },
            Register::S4 => {
                proof {
                    reveal_strlit("S4");
                }
                "S4"
            },
            Register::S5 => {
                proof {
                    reveal_strlit("S5");
                }
                "S5"
            },
            Register::S6 => {
                proof {
                    reveal_strlit("S6");
                }
                "S6"
            },
            Register::S7 => {
                proof {
                    reveal_strlit("S7");
                }
                "S7"
            },
            Register::T8 => {
                proof {
                    reveal_strlit("T8");
                }
                "T8"
            },
            Register::T9 => {
                proof {
                    reveal_strlit("T9");
                }
                "T9"
            },
            Register::K0 => {
                proof {
                    reveal_strlit("K0");
                }
                "K0"
            },
            Register::K1 => {
                proof {
                    reveal_strlit("K1");
                }
                "K1"
            },
            Register::GP => {
                proof {
                    reveal_strlit("GP");
                }
                "GP"
            },
            Register::SP => {
                proof {
                    reveal_strlit("SP");
                }
                "SP"
            },
            Register::FP => {
                proof {
                    reveal_strlit("FP");
                }
                "FP"
            },
            Register::RA => {
                proof {
                    reveal_strlit("RA");
                }
                "RA"
            },
        }
    }

    pub fn to_lower_str(&self) -> (r: &'static str)
        ensures
            r@ == self.lower_name(),
    {
        match self {
            Register::ZERO => {
                proof {
                    reveal_strlit("zero");
                }
                "zero"
            },
            Register::AT => {
                proof {
                    reveal_strlit("at");
                }
                "at"
            },
            Register::V0 => {
                proof {
                    reveal_strlit("v0");
                }
                "v0"
            },
            Register::V1 => {
                proof {
                    reveal_strlit("v1");
                }
                "v1"
            },
            Register::A0 => {
                proof {
                    reveal_strlit("a0");
                }
                "a0"
            },
            Register::A1 => {
                proof {
                    reveal_strlit("a1");
                }
                "a1"
            },
            Register::A2 => {
                proof {
                    reveal_strlit("a2");
                }
                "a2"
            },
            Register::A3 => {
                proof {
                    reveal_strlit("a3");
                }
                "a3"
            },
            Register::T0 => {
                proof {
                    reveal_strlit("t0");
                }
                "t0"
            },
            Register::T1 => {
                proof {
                    reveal_strlit("t1");
                }
                "t1"
            },
            Register::T2 => {
                proof {
                    reveal_strlit("t2");
                }
                "t2"
            },
            Register::T3 => {
                proof {
                    reveal_strlit("t3");
                }
                "t3"
            },
            Register::T4 => {
                proof {
                    reveal_strlit("t4");
                }
                "t4"
            },
            Register::T5 => {
                proof {
                    reveal_strlit("t5");
                }
                "t5"
            },
            Register::T6 => {
                proof {
                    reveal_strlit("t6");
                }
                "t6"
            },
            Register::T7 => {
                proof {
                    reveal_strlit("t7");
                }
                "t7"
            },
            Register::S0 => {
                proof {
                    reveal_strlit("s0");
                }
                "s0"
            },
            Register::S1 => {
                proof {
                    reveal_strlit("s1");
                }
                "s1"
            },
            Register::S2 => {
                proof {
                    reveal_strlit("s2");
                }
                "s2"
            },
            Register::S3 => {
                proof {
                    reveal_strlit("s3");
                }
                "s3"
            },
            Register::S4 => {
                proof {
                    reveal_strlit("s4");
                }
                "s4"
            },
            Register::S5 => {
                proof {
                    reveal_strlit("s5");
                }
                "s5"
            },
            Register::S6 => {
                proof {
                    reveal_strlit("s6");
                }
                "s6"
            },
            Register::S7 => {
                proof {
                    reveal_strlit("s7");
                }
                "s7"
            },
            Register::T8 => {
                proof {
                    reveal_strlit("t8");
                }
                "t8"
            },
            Register::T9 => {
                proof {
                    reveal_strlit("t9");
                }
                "t9"
            },
            Register::K0 => {
                proof {
                    reveal_strlit("k0");
                }
                "k0"
            },
            Register::K1 => {
                proof {
                    reveal_strlit("k1");
                }
                "k1"
            },
            Register::GP => {
                proof {
                    reveal_strlit("gp");
                }
                "gp"
            },
            Register::SP => {
                proof {
                    reveal_strlit("sp");
                }
                "sp"
            },
            Register::FP => {
                proof {
                    reveal_strlit("fp");
                }
                "fp"
            },
            Register::RA => {
                proof {
                    reveal_strlit("ra");
                }
                "ra"
            },
        }
    }
}

/// What a resolution result says, with error texts as sequences.
pub open spec fn resolution_view(r: Result<Register, RegisterError>) -> Result<Register, RegisterErrorView> {
    match r {
        Ok(reg) => Ok(reg),
        Err(e) => Err(e@),
    }
}

/// Whether `a` and `b[lo..hi]` are equal up to ASCII case.
fn eq_ignore_case_at(a: &[char], b: &[char], lo: usize, hi: usize) -> (r: bool)
    requires
        lo <= hi <= b@.len(),
    ensures
        r == eq_ignore_case(a@, b@.subrange(lo as int, hi as int)),
{
    if a.len() != hi - lo {
        return false;
    }
    let mut i: usize = 0;
    while i < a.len()
        invariant
            lo <= hi <= b@.len(),
            a@.len() == hi - lo,
            i <= a@.len(),
            forall|j: int| 0 <= j < i ==> char_eq_ignore_case(#[trigger] a@[j], b@[lo + j]),
        decreases a.len() - i,
    {
        let x = a[i];
        let y = b[lo + i];
        let same = x == y || ('A' <= x && x <= 'Z' && x as u32 + 32 == y as u32) || ('A' <= y
            && y <= 'Z' && y as u32 + 32 == x as u32);
        if !same {
            assert(!char_eq_ignore_case(a@[i as int], b@.subrange(lo as int, hi as int)[i as int]));
            return false;
        }
        i = i + 1;
    }
    true
}

impl Register {
    /// Resolves register operand text `t[lo..hi]` (without its `$`).
    pub fn resolve_chars(t: &[char], lo: usize, hi: usize) -> (r: Result<Register, RegisterError>)
        requires
            lo <= hi <= t@.len(),
        ensures
            resolution_view(r) == resolve_register(t@.subrange(lo as int, hi as int)),
    {
        let ghost text = t@.subrange(lo as int, hi as int);
        if let Some(n) = parse_i32(t, lo, hi) {
            return Self::from_number(n);
        }
        let regs = Self::all();
        let mut i: usize = 0;
        while i < 32
            invariant
                0 <= i <= 32,
                lo <= hi <= t@.len(),
                text == t@.subrange(lo as int, hi as int),
                forall|k: int| 0 <= k < 32 ==> #[trigger] regs@[k] == register_at(k),
                name_match_from(text, 0) == name_match_from(text, i as int),
            decreases 32 - i,
        {
            let reg = regs[i];
            let name = chars_of(reg.to_str());
            if eq_ignore_case_at(name.as_slice(), t, lo, hi) {
                return Ok(reg);
            }
            i = i + 1;
        }
        if lo < hi {
            let c = t[lo];
            if c == 'v' || c == 'a' || c == 't' || c == 's' || c == 'k' {
                assert(text.drop_first() =~= t@.subrange(lo + 1, hi as int));
                if let Some(n) = parse_i32(t, lo + 1, hi) {
                    return Err(RegisterError::NamedRegisterOutOfRange { reg_name: c, reg_index: n });
                }
            }
        }
        Err(RegisterError::UnknownRegister(crate::text::string_of(t, lo, hi)))
    }

    /// Resolves register operand text (without its `$`): an index, a name in any ASCII
    /// case, or the error that says why neither fits.
    pub fn resolve(name: &str) -> (r: Result<Register, RegisterError>)
        ensures
            resolution_view(r) == resolve_register(name@),
    {
        let t = chars_of(name);
        assert(t@.subrange(0, t@.len() as int) =~= name@);
        Self::resolve_chars(t.as_slice(), 0, t.len())
    }
}

impl std::str::FromStr for Register {
    type Err = RegisterError;

    fn from_str(name: &str) -> (r: Result<Register, RegisterError>)
        ensures
            resolution_view(r) == resolve_register(name@),
    {
        Register::resolve(name)
    }
}

/// A character with ASCII upper case folded to lower case, as a code point.
spec fn fold_char(c: char) -> int {
    if is_upper(c) {
        c as int + 32
    } else {
        c as int
    }
}

/// The first two characters of a name, folded: they tell the registers apart.
spec fn name_key(t: Seq<char>) -> (int, int) {
    (fold_char(t[0]), fold_char(t[1]))
}

spec fn register_with_key(k: (int, int)) -> Register {
    if k.0 == 122 && k.1 == 101 {
        Register::ZERO
    } else if k.0 == 97 && k.1 == 116 {
        Register::AT
    } else if k.0 == 118 && k.1 == 48 {
        Register::V0
    } else if k.0 == 118 && k.1 == 49 {
        Register::V1
    } else if k.0 == 97 && k.1 == 48 {
        Register::A0
    } else if k.0 == 97 && k.1 == 49 {
        Register::A1
    } else if k.0 == 97 && k.1 == 50 {
        Register::A2
    } else if k.0 == 97 && k.1 == 51 {
        Register::A3
    } else if k.0 == 116 && k.1 == 48 {
        Register::T0
    } else if k.0 == 116 && k.1 == 49 {
        Register::T1
    } else if k.0 == 116 && k.1 == 50 {
        Register::T2
    } else if k.0 == 116 && k.1 == 51 {
        Register::T3
    } else if k.0 == 116 && k.1 == 52 {
        Register::T4
    } else if k.0 == 116 && k.1 == 53 {
        Register::T5
    } else if k.0 == 116 && k.1 == 54 {
        Register::T6
    } else if k.0 == 116 && k.1 == 55 {
        Register::T7
    } else if k.0 == 115 && k.1 == 48 {
        Register::S0
    } else if k.0 == 115 && k.1 == 49 {
        Register::S1
    } else if k.0 == 115 && k.1 == 50 {
        Register::S2
    } else if k.0 == 115 && k.1 == 51 {
        Register::S3
    } else if k.0 == 115 && k.1 == 52 {
        Register::S4
    } else if k.0 == 115 && k.1 == 53 {
        Register::S5
    } else if k.0 == 115 && k.1 == 54 {
        Register::S6
    } else if k.0 == 115 && k.1 == 55 {
        Register::S7
    } else if k.0 == 116 && k.1 == 56 {
        Register::T8
    } else if k.0 == 116 && k.1 == 57 {
        Register::T9
    } else if k.0 == 107 && k.1 == 48 {
        Register::K0
    } else if k.0 == 107 && k.1 == 49 {
        Register::K1
    } else if k.0 == 103 && k.1 == 112 {
        Register::GP
    } else if k.0 == 115 && k.1 == 112 {
        Register::SP
    } else if k.0 == 102 && k.1 == 112 {
        Register::FP
    } else {
        Register::RA
    }
}

proof fn lemma_name_key(r: Register)
    ensures
        r.upper_name().len() >= 2,
        register_with_key(name_key(r.upper_name())) == r,
        name_key(r.lower_name()) == name_key(r.upper_name()),
        eq_ignore_case(r.upper_name(), r.lower_name()),
        eq_ignore_case(r.upper_name(), r.upper_name()),
        !is_digit(r.upper_name()[0]),
        !is_digit(r.lower_name()[0]),
        register_at(r.index()) == r,
        0 <= r.index() < 32,
{
    match r {
        Register::ZERO => {},
        Register::AT => {},
        Register::V0 => {},
        Register::V1 => {},
        Register::A0 => {},
        Register::A1 => {},
        Register::A2 => {},
        Register::A3 => {},
        Register::T0 => {},
        Register::T1 => {},
        Register::T2 => {},
        Register::T3 => {},
        Register::T4 => {},
        Register::T5 => {},
        Register::T6 => {},
        Register::T7 => {},
        Register::S0 => {},
        Register::S1 => {},
        Register::S2 => {},
        Register::S3 => {},
        Register::S4 => {},
        Register::S5 => {},
        Register::S6 => {},
        Register::S7 => {},
        Register::T8 => {},
        Register::T9 => {},
        Register::K0 => {},
        Register::K1 => {},
        Register::GP => {},
        Register::SP => {},
        Register::FP => {},
        Register::RA => {},
    }
}

proof fn lemma_same_name_same_register(a: Register, b: Register, name: Seq<char>)
    requires
        name == b.upper_name() || name == b.lower_name(),
        eq_ignore_case(a.upper_name(), name),
    ensures
        a == b,
{
    lemma_name_key(a);
    lemma_name_key(b);
    assert(char_eq_ignore_case(a.upper_name()[0], name[0]));
    assert(char_eq_ignore_case(a.upper_name()[1], name[1]));
    assert(name_key(name) == name_key(b.upper_name()));
    assert(name_key(a.upper_name()) == name_key(name));
}

proof fn lemma_name_match_from(r: Register, name: Seq<char>, i: int)
    requires
        name == r.upper_name() || name == r.lower_name(),
        0 <= i <= r.index(),
    ensures
        name_match_from(name, i) == Some(r),
    decreases r.index() - i,
{
    lemma_name_key(r);
    if i < r.index() {
        lemma_name_key(register_at(i));
        if eq_ignore_case(register_at(i).upper_name(), name) {
            lemma_same_name_same_register(register_at(i), r, name);
        }
        lemma_name_match_from(r, name, i + 1);
    }
}

proof fn lemma_name_resolves(r: Register, name: Seq<char>)
    requires
        name == r.upper_name() || name == r.lower_name(),
    ensures
        resolve_register(name) == Ok::<Register, RegisterErrorView>(r),
{
    lemma_name_key(r);
    assert(!crate::text::all_digits(name));
    lemma_name_match_from(r, name, 0);
}

/// Every register comes back from its index, and from each spelling of its name.
pub proof fn lemma_register_round_trip(r: Register)
    ensures
        register_at(r.index()) == r,
        resolve_register(r.upper_name()) == Ok::<Register, RegisterErrorView>(r),
        resolve_register(r.lower_name()) == Ok::<Register, RegisterErrorView>(r),
{
    lemma_name_key(r);
    lemma_name_resolves(r, r.upper_name());
    lemma_name_resolves(r, r.lower_name());
}

} // verus!
