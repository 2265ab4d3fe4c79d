//! The fault dump: a saved register context and the instruction before its
//! return address, rendered as text.

use vstd::prelude::*;
use vstd::string::*;
use crate::memory::{AccessError, Memory};
use crate::registers::PicoRV32StoredRegisters;

verus! {

/// Address of the instruction that precedes the return address `ra`.
///
/// The core sets bit 0 of the return address when that instruction is a
/// compressed one, which lies two bytes before the return address proper;
/// otherwise it lies four bytes before.  The subtraction wraps, as the
/// core's own address arithmetic does.
pub open spec fn return_pc_spec(ra: u32) -> u32 {
    if ra & 1 == 1 {
        ra.wrapping_sub(3)
    } else {
        ra.wrapping_sub(4)
    }
}

/// Computes the address of the instruction that precedes `ra`.
pub fn return_pc(ra: u32) -> (pc: u32)
    ensures
        pc == return_pc_spec(ra),
{
    if ra & 1 == 1 {
        ra.wrapping_sub(3)
    } else {
        ra.wrapping_sub(4)
    }
}

/// The instruction that a dump shows, in the width it was encoded in.
#[derive(Clone, Copy, Debug, PartialEq, Eq, Structural)]
pub enum ReturnInstruction {
    /// A compressed instruction of one halfword.
    Short(u16),
    /// An instruction of two halfwords.
    Long(u32),
}

/// A first halfword with both low bits set starts a two-halfword instruction.
pub open spec fn is_long_encoding(first: u16) -> bool {
    first & 3 == 3
}

/// The instruction that starts with the halfword `first`, where `second` is
/// the halfword that follows it in memory.
pub open spec fn decode_spec(first: u16, second: u16) -> ReturnInstruction {
    if is_long_encoding(first) {
        ReturnInstruction::Long((first as u32) | ((second as u32) << 16))
    } else {
        ReturnInstruction::Short(first)
    }
}

impl ReturnInstruction {
    /// Tells from the first halfword of an instruction whether a second one
    /// belongs to it.
    pub fn needs_second_halfword(first: u16) -> (long: bool)
        ensures
            long == is_long_encoding(first),
    {
        first & 3 == 3
    }

    /// Puts an instruction together from its first halfword and the halfword
    /// after it.  `second` is ignored where `first` is a whole instruction.
    pub fn decode(first: u16, second: u16) -> (instr: ReturnInstruction)
        ensures
            instr == decode_spec(first, second),
    {
        if first & 3 == 3 {
            ReturnInstruction::Long((first as u32) | ((second as u32) << 16))
        } else {
            ReturnInstruction::Short(first)
        }
    }

    /// The instruction's bits, zero-extended to a word.
    pub open spec fn bits_spec(&self) -> u32 {
        match *self {
            ReturnInstruction::Short(bits) => bits as u32,
            ReturnInstruction::Long(bits) => bits,
        }
    }

    /// The instruction's bits, zero-extended to a word.
    pub fn bits(&self) -> (bits: u32)
        ensures
            bits == self.bits_spec(),
    {
        match *self {
            ReturnInstruction::Short(bits) => bits as u32,
            ReturnInstruction::Long(bits) => bits,
        }
    }

    /// The instruction as the dump prints it: four hexadecimal digits for a
    /// short one, eight for a long one.
    pub open spec fn hex(&self) -> Seq<char> {
        match *self {
            ReturnInstruction::Short(bits) => hex4(bits),
            ReturnInstruction::Long(bits) => hex8(bits),
        }
    }
}

/// The instruction that precedes the return address `ra`, read from `code`.
///
/// It starts at `return_pc_spec(ra)`.  Its second halfword is read only if
/// the first one asks for it, so a short instruction in the last halfword
/// of the image can be read.
pub open spec fn fetch_spec(code: &Memory, ra: u32) -> Result<ReturnInstruction, AccessError> {
    let pc = return_pc_spec(ra);
    let next = pc.wrapping_add(2);
    if !code.covers(pc as int, pc + 2) {
        Err(AccessError::Unmapped)
    } else if !is_long_encoding(code.halfword_at(pc as int)) {
        Ok(ReturnInstruction::Short(code.halfword_at(pc as int)))
    } else if !code.covers(next as int, next + 2) {
        Err(AccessError::Unmapped)
    } else {
        Ok(decode_spec(code.halfword_at(pc as int), code.halfword_at(next as int)))
    }
}

/// Reads the instruction that precedes the return address `ra` from `code`.
pub fn fetch_return_instruction(code: &Memory, ra: u32) -> (instr: Result<
    ReturnInstruction,
    AccessError,
>)
    ensures
        instr == fetch_spec(code, ra),
{
    let pc: u32 = return_pc(ra);
    assert(pc % 2 == 0) by {
        assert(ra & 1 == 1 ==> ra % 2 == 1) by (bit_vector);
        assert(ra & 1 != 1 ==> ra % 2 == 0) by (bit_vector);
    }
    let first: u16 = match code.read_halfword(pc) {
        Ok(halfword) => halfword,
        Err(fault) => {
            return Err(fault);
        },
    };
    if !ReturnInstruction::needs_second_halfword(first) {
        return Ok(ReturnInstruction::Short(first));
    }
    let next: u32 = pc.wrapping_add(2);
    match code.read_halfword(next) {
        Ok(second) => Ok(ReturnInstruction::decode(first, second)),
        Err(fault) => Err(fault),
    }
}

/// The four bits of `value` that start at bit `shift`.
pub open spec fn nibble(value: u32, shift: u32) -> u32 {
    (value >> shift) & 0xf
}

/// The lower-case hexadecimal digit for a value below sixteen.
pub open spec fn hex_digit(nibble: u32) -> Seq<char> {
    "0123456789abcdef"@.subrange(nibble as int, nibble as int + 1)
}

/// `value` as eight lower-case hexadecimal digits, most significant first.
pub open spec fn hex8(value: u32) -> Seq<char> {
    hex_digit(nibble(value, 28)) + hex_digit(nibble(value, 24)) + hex_digit(nibble(value, 20))
        + hex_digit(nibble(value, 16)) + hex4(value as u16)
}

/// `value` as four lower-case hexadecimal digits, most significant first.
pub open spec fn hex4(value: u16) -> Seq<char> {
    hex_digit(nibble(value as u32, 12)) + hex_digit(nibble(value as u32, 8)) + hex_digit(
        nibble(value as u32, 4),
    ) + hex_digit(nibble(value as u32, 0))
}

fn push_hex_digit(out: &mut String, value: u32, shift: u32)
    requires
        shift < 32,
    ensures
        final(out)@ == old(out)@ + hex_digit(nibble(value, shift)),
{
    let digit: u32 = (value >> shift) & 0xf;
    assert(digit < 16) by (bit_vector)
        requires
            digit == (value >> shift) & 0xf,
    ;
    let alphabet: &str = "0123456789abcdef";
    proof {
        reveal_strlit("0123456789abcdef");
    }
    let from: usize = digit as usize;
    out.append(alphabet.substring_ascii(from, from + 1));
}

fn push_hex4(out: &mut String, value: u16)
    ensures
        final(out)@ == old(out)@ + hex4(value),
{
    let wide: u32 = value as u32;
    push_hex_digit(out, wide, 12);
    push_hex_digit(out, wide, 8);
    push_hex_digit(out, wide, 4);
    push_hex_digit(out, wide, 0);
}

fn push_hex8(out: &mut String, value: u32)
    ensures
        final(out)@ == old(out)@ + hex8(value),
{
    push_hex_digit(out, value, 28);
    push_hex_digit(out, value, 24);
    push_hex_digit(out, value, 20);
    push_hex_digit(out, value, 16);
    push_hex4(out, value as u16);
}

/// One register of the dump: its label, a colon, a space and its value.
pub open spec fn field(label: &str, value: u32) -> Seq<char> {
    label@ + ": "@ + hex8(value)
}

fn push_field(out: &mut String, label: &str, value: u32)
    ensures
        final(out)@ == old(out)@ + field(label, value),
{
    out.append(label);
    out.append(": ");
    push_hex8(out, value);
}

/// The text of the dump of `regs`, with `instr` as the instruction before
/// the return address.
///
/// The first line names the return address and the instruction, the second
/// the stack and global pointers; four lines of temporaries and argument
/// registers follow.  Fields on a line are separated by a tab and every
/// line ends in a line feed.
pub open spec fn dump_text(regs: &PicoRV32StoredRegisters, instr: ReturnInstruction) -> Seq<char> {
    field("RA", regs.value(1)) + "\tINSTR: "@ + instr.hex() + "\n"@
        + field("SP", regs.value(2)) + "\t"@ + field("GP", regs.value(3)) + "\n"@
        + field("T0", regs.value(5)) + "\t"@ + field("T1", regs.value(6)) + "\t"@
        + field("T2", regs.value(7)) + "\n"@
        + field("A0", regs.value(10)) + "\t"@ + field("A1", regs.value(11)) + "\t"@
        + field("A2", regs.value(12)) + "\t"@ + field("A3", regs.value(13)) + "\n"@
        + field("A4", regs.value(14)) + "\t"@ + field("A5", regs.value(15)) + "\t"@
        + field("A6", regs.value(16)) + "\t"@ + field("A7", regs.value(17)) + "\n"@
        + field("T3", regs.value(28)) + "\t"@ + field("T4", regs.value(29)) + "\t"@
        + field("T5", regs.value(30)) + "\t"@ + field("T6", regs.value(31)) + "\n"@
}

impl PicoRV32StoredRegisters {
    /// Renders the context as a fault dump.
    ///
    /// `instr` is the instruction that precedes the saved return address;
    /// the caller fetches it from the address that `return_pc` gives.
    pub fn dump(&self, instr: ReturnInstruction) -> (text: String)
        ensures
            text@ == dump_text(self, instr),
    {
        let mut out: String = String::new();
        push_field(&mut out, "RA", self.x1());
        out.append("\tINSTR: ");
        match instr {
            ReturnInstruction::Short(bits) => push_hex4(&mut out, bits),
            ReturnInstruction::Long(bits) => push_hex8(&mut out, bits),
        }
        out.append("\n");
        push_field(&mut out, "SP", self.x2());
        out.append("\t");
        push_field(&mut out, "GP", self.x3());
        out.append("\n");
        push_field(&mut out, "T0", self.x5());
        out.append("\t");
        push_field(&mut out, "T1", self.x6());
        out.append("\t");
        push_field(&mut out, "T2", self.x7());
        out.append("\n");
        push_field(&mut out, "A0", self.x10());
        out.append("\t");
        push_field(&mut out, "A1", self.x11());
        out.append("\t");
        push_field(&mut out, "A2", self.x12());
        out.append("\t");
        push_field(&mut out, "A3", self.x13());
        out.append("\n");
        push_field(&mut out, "A4", self.x14());
        out.append("\t");
        push_field(&mut out, "A5", self.x15());
        out.append("\t");
        push_field(&mut out, "A6", self.x16());
        out.append("\t");
        push_field(&mut out, "A7", self.x17());
        out.append("\n");
        push_field(&mut out, "T3", self.x28());
        out.append("\t");
        push_field(&mut out, "T4", self.x29());
        out.append("\t");
        push_field(&mut out, "T5", self.x30());
        out.append("\t");
        push_field(&mut out, "T6", self.x31());
        out.append("\n");
        out
    }

    /// Renders the context as a fault dump, reading the instruction that
    /// precedes the saved return address from `code`.  Fails where that
    /// instruction does not lie inside `code`.
    pub fn dump_with_code(&self, code: &Memory) -> (text: Result<String, AccessError>)
        ensures
            match fetch_spec(code, self.value(1)) {
                Ok(instr) => text matches Ok(t) && t@ == dump_text(self, instr),
                Err(fault) => text == Err::<String, AccessError>(fault),
            },
    {
        match fetch_return_instruction(code, self.x1()) {
            Ok(instr) => Ok(self.dump(instr)),
            Err(fault) => Err(fault),
        }
    }
}

} // verus!
