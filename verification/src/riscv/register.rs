//! The integer registers of RISC-V, by number and by name.

use crate::text::{ascii_lowercase, same_chars, to_ascii_lowercase};
use vstd::prelude::*;

verus! {

/// An integer register of RISC-V: `x0` to `x31`.
#[derive(Clone, Copy, Debug, PartialEq, Eq, Hash, Structural)]
pub enum Register {
    X0,
    X1,
    X2,
    X3,
    X4,
    X5,
    X6,
    X7,
    X8,
    X9,
    X10,
    X11,
    X12,
    X13,
    X14,
    X15,
    X16,
    X17,
    X18,
    X19,
    X20,
    X21,
    X22,
    X23,
    X24,
    X25,
    X26,
    X27,
    X28,
    X29,
    X30,
    X31,
}

/// How many integer registers there are.
pub const REGISTER_COUNT: u8 = 32;

impl Register {
    /// The number of the register, which stands for it in an instruction.
    pub open spec fn number(self) -> nat {
        match self {
            Register::X0 => 0,
            Register::X1 => 1,
            Register::X2 => 2,
            Register::X3 => 3,
            Register::X4 => 4,
            Register::X5 => 5,
            Register::X6 => 6,
            Register::X7 => 7,
            Register::X8 => 8,
            Register::X9 => 9,
            Register::X10 => 10,
            Register::X11 => 11,
            Register::X12 => 12,
            Register::X13 => 13,
            Register::X14 => 14,
            Register::X15 => 15,
            Register::X16 => 16,
            Register::X17 => 17,
            Register::X18 => 18,
            Register::X19 => 19,
            Register::X20 => 20,
            Register::X21 => 21,
            Register::X22 => 22,
            Register::X23 => 23,
            Register::X24 => 24,
            Register::X25 => 25,
            Register::X26 => 26,
            Register::X27 => 27,
            Register::X28 => 28,
            Register::X29 => 29,
            Register::X30 => 30,
            Register::X31 => 31,
        }
    }

    /// The name of the register by its number: `x0` to `x31`.
    pub open spec fn numbered_name(self) -> Seq<char> {
        match self {
            Register::X0 => seq!['x', '0'],
            Register::X1 => seq!['x', '1'],
            Register::X2 => seq!['x', '2'],
            Register::X3 => seq!['x', '3'],
            Register::X4 => seq!['x', '4'],
            Register::X5 => seq!['x', '5'],
            Register::X6 => seq!['x', '6'],
            Register::X7 => seq!['x', '7'],
            Register::X8 => seq!['x', '8'],
            Register::X9 => seq!['x', '9'],
            Register::X10 => seq!['x', '1', '0'],
            Register::X11 => seq!['x', '1', '1'],
            Register::X12 => seq!['x', '1', '2'],
            Register::X13 => seq!['x', '1', '3'],
            Register::X14 => seq!['x', '1', '4'],
            Register::X15 => seq!['x', '1', '5'],
            Register::X16 => seq!['x', '1', '6'],
            Register::X17 => seq!['x', '1', '7'],
            Register::X18 => seq!['x', '1', '8'],
            Register::X19 => seq!['x', '1', '9'],
            Register::X20 => seq!['x', '2', '0'],
            Register::X21 => seq!['x', '2', '1'],
            Register::X22 => seq!['x', '2', '2'],
            Register::X23 => seq!['x', '2', '3'],
            Register::X24 => seq!['x', '2', '4'],
            Register::X25 => seq!['x', '2', '5'],
            Register::X26 => seq!['x', '2', '6'],
            Register::X27 => seq!['x', '2', '7'],
            Register::X28 => seq!['x', '2', '8'],
            Register::X29 => seq!['x', '2', '9'],
            Register::X30 => seq!['x', '3', '0'],
            Register::X31 => seq!['x', '3', '1'],
        }
    }

    /// The name of the register by its use in the calling convention.
    pub open spec fn abi_name(self) -> Seq<char> {
        match self {
            Register::X0 => seq!['z', 'e', 'r', 'o'],
            Register::X1 => seq!['r', 'a'],
            Register::X2 => seq!['s', 'p'],
            Register::X3 => seq!['g', 'p'],
            Register::X4 => seq!['t', 'p'],
            Register::X5 => seq!['t', '0'],
            Register::X6 => seq!['t', '1'],
            Register::X7 => seq!['t', '2'],
            Register::X8 => seq!['s', '0'],
            Register::X9 => seq!['s', '1'],
            Register::X10 => seq!['a', '0'],
            Register::X11 => seq!['a', '1'],
            Register::X12 => seq!['a', '2'],
            Register::X13 => seq!['a', '3'],
            Register::X14 => seq!['a', '4'],
            Register::X15 => seq!['a', '5'],
            Register::X16 => seq!['a', '6'],
            Register::X17 => seq!['a', '7'],
            Register::X18 => seq!['s', '2'],
            Register::X19 => seq!['s', '3'],
            Register::X20 => seq!['s', '4'],
            Register::X21 => seq!['s', '5'],
            Register::X22 => seq!['s', '6'],
            Register::X23 => seq!['s', '7'],
            Register::X24 => seq!['s', '8'],
            Register::X25 => seq!['s', '9'],
            Register::X26 => seq!['s', '1', '0'],
            Register::X27 => seq!['s', '1', '1'],
            Register::X28 => seq!['t', '3'],
            Register::X29 => seq!['t', '4'],
            Register::X30 => seq!['t', '5'],
            Register::X31 => seq!['t', '6'],
        }
    }

    /// Whether the lower-case text is a name of the register. The frame
    /// pointer `fp` is a second name of `s0`.
    pub open spec fn is_named(self, lowered: Seq<char>) -> bool {
        lowered == self.numbered_name() || lowered == self.abi_name() || (self == Register::X8
            && lowered == seq!['f', 'p'])
    }

    /// The register that `text` names, in any mix of upper and lower case, if
    /// it names one.
    pub open spec fn from_name(text: Seq<char>) -> Option<Register> {
        if exists|register: Register| register.is_named(ascii_lowercase(text)) {
            Some(choose|register: Register| register.is_named(ascii_lowercase(text)))
        } else {
            None
        }
    }

    /// The register with the given number.
    pub fn from_number(number: u8) -> (r: Register)
        requires
            number < REGISTER_COUNT,
        ensures
            r.number() == number,
    {
        match number {
            0 => Register::X0,
            1 => Register::X1,
            2 => Register::X2,
            3 => Register::X3,
            4 => Register::X4,
            5 => Register::X5,
            6 => Register::X6,
            7 => Register::X7,
            8 => Register::X8,
            9 => Register::X9,
            10 => Register::X10,
            11 => Register::X11,
            12 => Register::X12,
            13 => Register::X13,
            14 => Register::X14,
            15 => Register::X15,
            16 => Register::X16,
            17 => Register::X17,
            18 => Register::X18,
            19 => Register::X19,
            20 => Register::X20,
            21 => Register::X21,
            22 => Register::X22,
            23 => Register::X23,
            24 => Register::X24,
            25 => Register::X25,
            26 => Register::X26,
            27 => Register::X27,
            28 => Register::X28,
            29 => Register::X29,
            30 => Register::X30,
            _ => Register::X31,
        }
    }

    /// The number of the register.
    pub fn value(self) -> (v: u8)
        ensures
            v == self.number(),
            v < 32,
    {
        match self {
            Register::X0 => 0,
            Register::X1 => 1,
            Register::X2 => 2,
            Register::X3 => 3,
            Register::X4 => 4,
            Register::X5 => 5,
            Register::X6 => 6,
            Register::X7 => 7,
            Register::X8 => 8,
            Register::X9 => 9,
            Register::X10 => 10,
            Register::X11 => 11,
            Register::X12 => 12,
            Register::X13 => 13,
            Register::X14 => 14,
            Register::X15 => 15,
            Register::X16 => 16,
            Register::X17 => 17,
            Register::X18 => 18,
            Register::X19 => 19,
            Register::X20 => 20,
            Register::X21 => 21,
            Register::X22 => 22,
            Register::X23 => 23,
            Register::X24 => 24,
            Register::X25 => 25,
            Register::X26 => 26,
            Register::X27 => 27,
            Register::X28 => 28,
            Register::X29 => 29,
            Register::X30 => 30,
            Register::X31 => 31,
        }
    }

    fn numbered_spelling(self) -> (r: Vec<char>)
        ensures
            r@ == self.numbered_name(),
    {
        let r = match self {
            Register::X0 => vec!['x', '0'],
            Register::X1 => vec!['x', '1'],
            Register::X2 => vec!['x', '2'],
            Register::X3 => vec!['x', '3'],
            Register::X4 => vec!['x', '4'],
            Register::X5 => vec!['x', '5'],
            Register::X6 => vec!['x', '6'],
            Register::X7 => vec!['x', '7'],
            Register::X8 => vec!['x', '8'],
            Register::X9 => vec!['x', '9'],
            Register::X10 => vec!['x', '1', '0'],
            Register::X11 => vec!['x', '1', '1'],
            Register::X12 => vec!['x', '1', '2'],
            Register::X13 => vec!['x', '1', '3'],
            Register::X14 => vec!['x', '1', '4'],
            Register::X15 => vec!['x', '1', '5'],
            Register::X16 => vec!['x', '1', '6'],
            Register::X17 => vec!['x', '1', '7'],
            Register::X18 => vec!['x', '1', '8'],
            Register::X19 => vec!['x', '1', '9'],
            Register::X20 => vec!['x', '2', '0'],
            Register::X21 => vec!['x', '2', '1'],
            Register::X22 => vec!['x', '2', '2'],
            Register::X23 => vec!['x', '2', '3'],
            Register::X24 => vec!['x', '2', '4'],
            Register::X25 => vec!['x', '2', '5'],
            Register::X26 => vec!['x', '2', '6'],
            Register::X27 => vec!['x', '2', '7'],
            Register::X28 => vec!['x', '2', '8'],
            Register::X29 => vec!['x', '2', '9'],
            Register::X30 => vec!['x', '3', '0'],
            Register::X31 => vec!['x', '3', '1'],
        };
        assert(r@ =~= self.numbered_name());
        r
    }

    fn abi_spelling(self) -> (r: Vec<char>)
        ensures
            r@ == self.abi_name(),
    {
        let r = match self {
            Register::X0 => vec!['z', 'e', 'r', 'o'],
            Register::X1 => vec!['r', 'a'],
            Register::X2 => vec!['s', 'p'],
            Register::X3 => vec!['g', 'p'],
            Register::X4 => vec!['t', 'p'],
            Register::X5 => vec!['t', '0'],
            Register::X6 => vec!['t', '1'],
            Register::X7 => vec!['t', '2'],
            Register::X8 => vec!['s', '0'],
            Register::X9 => vec!['s', '1'],
            Register::X10 => vec!['a', '0'],
            Register::X11 => vec!['a', '1'],
            Register::X12 => vec!['a', '2'],
            Register::X13 => vec!['a', '3'],
            Register::X14 => vec!['a', '4'],
            Register::X15 => vec!['a', '5'],
            Register::X16 => vec!['a', '6'],
            Register::X17 => vec!['a', '7'],
            Register::X18 => vec!['s', '2'],
            Register::X19 => vec!['s', '3'],
            Register::X20 => vec!['s', '4'],
            Register::X21 => vec!['s', '5'],
            Register::X22 => vec!['s', '6'],
            Register::X23 => vec!['s', '7'],
            Register::X24 => vec!['s', '8'],
            Register::X25 => vec!['s', '9'],
            Register::X26 => vec!['s', '1', '0'],
            Register::X27 => vec!['s', '1', '1'],
            Register::X28 => vec!['t', '3'],
            Register::X29 => vec!['t', '4'],
            Register::X30 => vec!['t', '5'],
            Register::X31 => vec!['t', '6'],
        };
        assert(r@ =~= self.abi_name());
        r
    }

    /// Looks a register up by one of its names, in any mix of upper and
    /// lower case.
    pub fn from_str(input: &str) -> (r: Option<Register>)
        ensures
            r == Register::from_name(input@),
            match r {
                Some(register) => register.is_named(ascii_lowercase(input@)),
                None => forall|register: Register| !register.is_named(ascii_lowercase(input@)),
            },
    {
        let lowered = to_ascii_lowercase(input);
        let frame_pointer: Vec<char> = vec!['f', 'p'];
        assert(frame_pointer@ =~= seq!['f', 'p']);
        let mut number: u8 = 0;
        while number < REGISTER_COUNT
            invariant
                number <= REGISTER_COUNT,
                lowered@ == ascii_lowercase(input@),
                frame_pointer@ == seq!['f', 'p'],
                forall|register: Register|
                    register.number() < number ==> !register.is_named(lowered@),
            decreases REGISTER_COUNT - number,
        {
            let candidate = Register::from_number(number);
            let found = same_chars(&lowered, &candidate.numbered_spelling()) || same_chars(
                &lowered,
                &candidate.abi_spelling(),
            ) || (number == 8 && same_chars(&lowered, &frame_pointer));
            if found {
                proof {
                    assert(candidate.is_named(ascii_lowercase(input@)));
                    let chosen = choose|register: Register|
                        register.is_named(ascii_lowercase(input@));
                    Self::lemma_names_are_one_to_one(chosen, candidate, lowered@);
                }
                return Some(candidate);
            }
            proof {
                assert forall|register: Register| register.number() < number + 1 implies
                    !register.is_named(lowered@) by {
                    if register.number() == number {
                        assert(register == candidate);
                    }
                }
            }
            number += 1;
        }
        None
    }

    /// No name belongs to two registers.
    pub proof fn lemma_names_are_one_to_one(a: Register, b: Register, lowered: Seq<char>)
        requires
            a.is_named(lowered),
            b.is_named(lowered),
        ensures
            a == b,
    {
        let f = seq!['f', 'p'];
        assert(f[0] == 'f' && f[1] == 'p');
        assert(a.numbered_name()[0] == 'x' && b.numbered_name()[0] == 'x');
        assert(lowered.len() >= 2);
        assert(lowered[0] == lowered[0] && lowered[1] == lowered[1]);
        if lowered.len() > 2 {
            assert(lowered[2] == lowered[2]);
        }
        if lowered.len() > 3 {
            assert(lowered[3] == lowered[3]);
        }
    }
}

} // verus!
