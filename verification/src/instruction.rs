//! The sixteen-instruction language a genome encodes, one instruction per
//! nibble.

use vstd::prelude::*;

verus! {

/// One virtual-machine instruction.
#[derive(Clone, Copy, PartialEq, Eq, Structural, Debug)]
pub enum Instruction {
    Zero,
    Fwd,
    Back,
    Inc,
    Dec,
    ReadGenome,
    WriteGenome,
    ReadBuffer,
    WriteBuffer,
    Loop,
    Rep,
    Turn,
    Xchg,
    Kill,
    Share,
    Stop,
}

/// The numeric code of an instruction, 0 through 15.
pub open spec fn spec_code(i: Instruction) -> int {
    match i {
        Instruction::Zero => 0,
        Instruction::Fwd => 1,
        Instruction::Back => 2,
        Instruction::Inc => 3,
        Instruction::Dec => 4,
        Instruction::ReadGenome => 5,
        Instruction::WriteGenome => 6,
        Instruction::ReadBuffer => 7,
        Instruction::WriteBuffer => 8,
        Instruction::Loop => 9,
        Instruction::Rep => 10,
        Instruction::Turn => 11,
        Instruction::Xchg => 12,
        Instruction::Kill => 13,
        Instruction::Share => 14,
        Instruction::Stop => 15,
    }
}

/// The instruction the low nibble of a byte encodes.
pub open spec fn spec_instruction_of(byte: u8) -> Instruction {
    let n = byte & 0x0f;
    if n == 0x0 {
        Instruction::Zero
    } else if n == 0x1 {
        Instruction::Fwd
    } else if n == 0x2 {
        Instruction::Back
    } else if n == 0x3 {
        Instruction::Inc
    } else if n == 0x4 {
        Instruction::Dec
    } else if n == 0x5 {
        Instruction::ReadGenome
    } else if n == 0x6 {
        Instruction::WriteGenome
    } else if n == 0x7 {
        Instruction::ReadBuffer
    } else if n == 0x8 {
        Instruction::WriteBuffer
    } else if n == 0x9 {
        Instruction::Loop
    } else if n == 0xa {
        Instruction::Rep
    } else if n == 0xb {
        Instruction::Turn
    } else if n == 0xc {
        Instruction::Xchg
    } else if n == 0xd {
        Instruction::Kill
    } else if n == 0xe {
        Instruction::Share
    } else {
        Instruction::Stop
    }
}

impl Instruction {
    /// Decodes the low nibble of a byte. Every byte decodes: the high bits
    /// are ignored.
    pub fn from(byte: u8) -> (r: Instruction)
        ensures
            r == spec_instruction_of(byte),
    {
        let n = byte & 0x0f;
        proof {
            assert(byte & 0x0f < 16) by (bit_vector);
        }
        if n == 0x0 {
            Instruction::Zero
        } else if n == 0x1 {
            Instruction::Fwd
        } else if n == 0x2 {
            Instruction::Back
        } else if n == 0x3 {
            Instruction::Inc
        } else if n == 0x4 {
            Instruction::Dec
        } else if n == 0x5 {
            Instruction::ReadGenome
        } else if n == 0x6 {
            Instruction::WriteGenome
        } else if n == 0x7 {
            Instruction::ReadBuffer
        } else if n == 0x8 {
            Instruction::WriteBuffer
        } else if n == 0x9 {
            Instruction::Loop
        } else if n == 0xa {
            Instruction::Rep
        } else if n == 0xb {
            Instruction::Turn
        } else if n == 0xc {
            Instruction::Xchg
        } else if n == 0xd {
            Instruction::Kill
        } else if n == 0xe {
            Instruction::Share
        } else {
            Instruction::Stop
        }
    }

    /// All sixteen instructions, in code order.
    pub fn iterator() -> (r: Vec<Instruction>)
        ensures
            r@.len() == 16,
            forall|i: int| 0 <= i < 16 ==> spec_code(#[trigger] r@[i]) == i,
    {
        let mut v: Vec<Instruction> = Vec::new();
        v.push(Instruction::Zero);
        v.push(Instruction::Fwd);
        v.push(Instruction::Back);
        v.push(Instruction::Inc);
        v.push(Instruction::Dec);
        v.push(Instruction::ReadGenome);
        v.push(Instruction::WriteGenome);
        v.push(Instruction::ReadBuffer);
        v.push(Instruction::WriteBuffer);
        v.push(Instruction::Loop);
        v.push(Instruction::Rep);
        v.push(Instruction::Turn);
        v.push(Instruction::Xchg);
        v.push(Instruction::Kill);
        v.push(Instruction::Share);
        v.push(Instruction::Stop);
        v
    }
}

} // verus!
