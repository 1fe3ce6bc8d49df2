//! The assembly printer and the listing driver: render decoded
//! instructions as NASM-compatible lines and produce the listing of a
//! whole byte stream.
//!
//! Memory operands are always written inside brackets, displacements in
//! signed decimal, and jump targets as `$ + 2 + disp`, so that the
//! listing re-assembles to the input bytes.

use vstd::prelude::*;
use crate::common_assembly::{
    ArithmeticOpCode, Direction, Mode, OpCode, WordByte, register_to_assembly_name,
    spec_is_jump_class, spec_reg_name,
};
use crate::byte_operations::{concat_bytes, i16_from_u16, sign_extend_8, spec_signed_16, spec_signed_8};
use crate::instruction::{
    BinOp, Displacement, EffAddr, EffAddrBase, Inst, RmOperand, spec_base_of_rm_field,
    spec_wf_ea, spec_wf_inst,
};
use crate::decode::{
    decode, decode_rm_reg, lemma_decode_encode, rm_field_to_base, DecodeError, spec_decode,
    spec_decode_rm_reg, spec_word_le,
};
use crate::text::{i16_to_dec, spec_dec_int, spec_dec_nat, u16_to_dec};

verus! {

/// The mnemonic of an r/m-form operation.
pub open spec fn spec_binop_name(op: BinOp) -> Seq<char> {
    match op {
        BinOp::Mov => "mov"@,
        BinOp::Add => "add"@,
        BinOp::Sub => "sub"@,
        BinOp::Cmp => "cmp"@,
    }
}

/// The mnemonic of an arithmetic operation.
pub open spec fn spec_arith_name(op: ArithmeticOpCode) -> Seq<char> {
    match op {
        ArithmeticOpCode::Add => "add"@,
        ArithmeticOpCode::Sub => "sub"@,
        ArithmeticOpCode::Cmp => "cmp"@,
    }
}

/// The mnemonic of a jump, loop, or `jcxz` class, in the spelling that
/// the listing uses.
pub open spec fn spec_jump_name(op: OpCode) -> Seq<char>
    recommends
        spec_is_jump_class(op),
{
    match op {
        OpCode::JneJnz => "jnz"@,
        OpCode::Je => "je"@,
        OpCode::Jl => "jl"@,
        OpCode::Jle => "jle"@,
        OpCode::Jb => "jb"@,
        OpCode::Jbe => "jbe"@,
        OpCode::Jp => "jp"@,
        OpCode::Jo => "jo"@,
        OpCode::Js => "js"@,
        OpCode::Jnl => "jnl"@,
        OpCode::Jg => "jg"@,
        OpCode::Jnb => "jnb"@,
        OpCode::Ja => "ja"@,
        OpCode::Jnp => "jnp"@,
        OpCode::Jno => "jno"@,
        OpCode::Jns => "jns"@,
        OpCode::Loop => "loop"@,
        OpCode::Loopz => "loopz"@,
        OpCode::Loopnz => "loopnz"@,
        OpCode::Jcxz => "jcxz"@,
        _ => Seq::empty(),
    }
}

/// The size token written before a memory destination whose width the
/// operands do not otherwise show.
pub open spec fn spec_width_prefix(w: WordByte) -> Seq<char> {
    match w {
        WordByte::Byte => "byte "@,
        WordByte::Word => "word "@,
    }
}

/// The register part of an effective-address expression.
pub open spec fn spec_base_name(b: EffAddrBase) -> Seq<char> {
    match b {
        EffAddrBase::BxSi => "bx + si"@,
        EffAddrBase::BxDi => "bx + di"@,
        EffAddrBase::BpSi => "bp + si"@,
        EffAddrBase::BpDi => "bp + di"@,
        EffAddrBase::Si => "si"@,
        EffAddrBase::Di => "di"@,
        EffAddrBase::Bp => "bp"@,
        EffAddrBase::Bx => "bx"@,
        EffAddrBase::Direct => Seq::empty(),
    }
}

/// A bracketed base-plus-displacement expression with the displacement
/// in signed decimal.
pub open spec fn spec_disp_addr_text(base: EffAddrBase, v: int) -> Seq<char> {
    "["@ + spec_base_name(base) + " + "@ + spec_dec_int(v) + "]"@
}

/// The NASM text of an effective address: always bracketed; a direct
/// address is its unsigned 16-bit value.
pub open spec fn spec_ea_text(ea: EffAddr) -> Seq<char> {
    if ea.base == EffAddrBase::Direct {
        match ea.disp {
            Displacement::Word(v) => "["@ + spec_dec_nat(v as nat) + "]"@,
            _ => Seq::empty(),
        }
    } else {
        match ea.disp {
            Displacement::Zero => "["@ + spec_base_name(ea.base) + "]"@,
            Displacement::Byte(b) => spec_disp_addr_text(ea.base, spec_signed_8(b)),
            Displacement::Word(v) => spec_disp_addr_text(ea.base, spec_signed_16(v)),
        }
    }
}

/// The text of an r/m operand: a register name or an address expression.
pub open spec fn spec_rm_text(rm: RmOperand) -> Seq<char> {
    match rm {
        RmOperand::Reg(r) => spec_reg_name(r),
        RmOperand::Mem(ea) => spec_ea_text(ea),
    }
}

/// An assembly line from a mnemonic and two operand texts, without the
/// final newline.
pub open spec fn spec_two_operand_line(name: Seq<char>, dest: Seq<char>, src: Seq<char>) -> Seq<
    char,
> {
    name + " "@ + dest + ", "@ + src
}

/// The immediate text of an `ImmRm` instruction: the sign-extended value
/// in signed decimal when `s = 1` selects a one-byte immediate for a
/// word operation, the unsigned value otherwise.
pub open spec fn spec_imm_rm_text(w: WordByte, s: u8, imm: u16) -> Seq<char> {
    if s == 1 && w == WordByte::Word {
        spec_dec_int(spec_signed_8(imm as u8))
    } else {
        spec_dec_nat(imm as nat)
    }
}

/// The printed form of one instruction, without the final newline.
pub open spec fn spec_line(inst: Inst) -> Seq<char> {
    match inst {
        Inst::RegImm { reg, imm } => spec_two_operand_line(
            "mov"@,
            spec_reg_name(reg),
            spec_dec_nat(imm as nat),
        ),
        Inst::RmReg { op, w, d, reg, rm } => {
            let reg_text = spec_reg_name(reg);
            let rm_text = spec_rm_text(rm);
            match d {
                crate::common_assembly::Direction::RegRm => spec_two_operand_line(
                    spec_binop_name(op),
                    rm_text,
                    reg_text,
                ),
                crate::common_assembly::Direction::RmReg => spec_two_operand_line(
                    spec_binop_name(op),
                    reg_text,
                    rm_text,
                ),
            }
        },
        Inst::ImmRm { op, w, s, rm, imm } => {
            let dest = match rm {
                RmOperand::Reg(r) => spec_reg_name(r),
                RmOperand::Mem(ea) => spec_width_prefix(w) + spec_ea_text(ea),
            };
            spec_two_operand_line(spec_arith_name(op), dest, spec_imm_rm_text(w, s, imm))
        },
        Inst::ImmToMem { w, ea, imm } => spec_two_operand_line(
            "mov"@,
            spec_width_prefix(w) + spec_ea_text(ea),
            spec_dec_nat(imm as nat),
        ),
        Inst::AccImm { op, w, imm } => spec_two_operand_line(
            spec_arith_name(op),
            if w == WordByte::Word {
                "ax"@
            } else {
                "al"@
            },
            spec_dec_nat(imm as nat),
        ),
        Inst::Jump { op, disp } => spec_jump_name(op) + " $ + 2 + "@ + spec_dec_int(
            spec_signed_8(disp),
        ),
    }
}

/// The mnemonic of an r/m-form operation.
fn binop_name(op: BinOp) -> (r: String)
    ensures
        r@ == spec_binop_name(op),
{
    match op {
        BinOp::Mov => "mov".to_owned(),
        BinOp::Add => "add".to_owned(),
        BinOp::Sub => "sub".to_owned(),
        BinOp::Cmp => "cmp".to_owned(),
    }
}

/// The mnemonic of an arithmetic operation.
fn arith_name(op: ArithmeticOpCode) -> (r: String)
    ensures
        r@ == spec_arith_name(op),
{
    match op {
        ArithmeticOpCode::Add => "add".to_owned(),
        ArithmeticOpCode::Sub => "sub".to_owned(),
        ArithmeticOpCode::Cmp => "cmp".to_owned(),
    }
}

/// The mnemonic of a jump, loop, or `jcxz` class.
fn jump_name(op: OpCode) -> (r: String)
    requires
        spec_is_jump_class(op),
    ensures
        r@ == spec_jump_name(op),
{
    match op {
        OpCode::JneJnz => "jnz".to_owned(),
        OpCode::Je => "je".to_owned(),
        OpCode::Jl => "jl".to_owned(),
        OpCode::Jle => "jle".to_owned(),
        OpCode::Jb => "jb".to_owned(),
        OpCode::Jbe => "jbe".to_owned(),
        OpCode::Jp => "jp".to_owned(),
        OpCode::Jo => "jo".to_owned(),
        OpCode::Js => "js".to_owned(),
        OpCode::Jnl => "jnl".to_owned(),
        OpCode::Jg => "jg".to_owned(),
        OpCode::Jnb => "jnb".to_owned(),
        OpCode::Ja => "ja".to_owned(),
        OpCode::Jnp => "jnp".to_owned(),
        OpCode::Jno => "jno".to_owned(),
        OpCode::Jns => "jns".to_owned(),
        OpCode::Loop => "loop".to_owned(),
        OpCode::Loopz => "loopz".to_owned(),
        OpCode::Loopnz => "loopnz".to_owned(),
        _ => "jcxz".to_owned(),
    }
}

/// The register part of an effective-address expression.
fn base_name(b: EffAddrBase) -> (r: String)
    requires
        b != EffAddrBase::Direct,
    ensures
        r@ == spec_base_name(b),
{
    match b {
        EffAddrBase::BxSi => "bx + si".to_owned(),
        EffAddrBase::BxDi => "bx + di".to_owned(),
        EffAddrBase::BpSi => "bp + si".to_owned(),
        EffAddrBase::BpDi => "bp + di".to_owned(),
        EffAddrBase::Si => "si".to_owned(),
        EffAddrBase::Di => "di".to_owned(),
        EffAddrBase::Bp => "bp".to_owned(),
        _ => "bx".to_owned(),
    }
}

/// Render an effective address in NASM syntax: always bracketed, with
/// the displacement in signed decimal.
fn ea_to_text(ea: &EffAddr) -> (r: String)
    requires
        spec_wf_ea(*ea),
    ensures
        r@ == spec_ea_text(*ea),
{
    let mut s = "[".to_owned();
    match ea.base {
        EffAddrBase::Direct => {
            match ea.disp {
                Displacement::Word(v) => {
                    let num = u16_to_dec(v);
                    s.append(num.as_str());
                },
                _ => {
                    proof {
                        assert(false);
                    }
                },
            }
        },
        _ => {
            let bn = base_name(ea.base);
            s.append(bn.as_str());
            match ea.disp {
                Displacement::Zero => {},
                Displacement::Byte(b) => {
                    s.append(" + ");
                    let num = i16_to_dec(i16_from_u16(sign_extend_8(b)));
                    s.append(num.as_str());
                },
                Displacement::Word(v) => {
                    s.append(" + ");
                    let num = i16_to_dec(i16_from_u16(v));
                    s.append(num.as_str());
                },
            }
        },
    }
    s.append("]");
    assert(s@ =~= spec_ea_text(*ea));
    s
}

/// Render one decoded instruction as a line of assembly, without the
/// final newline.
pub fn format_instruction(inst: &Inst) -> (r: String)
    requires
        spec_wf_inst(*inst),
    ensures
        r@ == spec_line(*inst),
{
    match inst {
        Inst::RegImm { reg, imm } => {
            let mut s = "mov".to_owned();
            s.append(" ");
            let rn = register_to_assembly_name(*reg);
            s.append(rn.as_str());
            s.append(", ");
            let num = u16_to_dec(*imm);
            s.append(num.as_str());
            assert(s@ =~= spec_line(*inst));
            s
        },
        Inst::RmReg { op, w, d, reg, rm } => {
            let mut s = binop_name(*op);
            s.append(" ");
            let reg_text = register_to_assembly_name(*reg);
            let rm_text = match rm {
                RmOperand::Reg(r2) => register_to_assembly_name(*r2),
                RmOperand::Mem(ea) => ea_to_text(ea),
            };
            match d {
                crate::common_assembly::Direction::RegRm => {
                    s.append(rm_text.as_str());
                    s.append(", ");
                    s.append(reg_text.as_str());
                },
                crate::common_assembly::Direction::RmReg => {
                    s.append(reg_text.as_str());
                    s.append(", ");
                    s.append(rm_text.as_str());
                },
            }
            assert(s@ =~= spec_line(*inst));
            s
        },
        Inst::ImmRm { op, w, s: sx, rm, imm } => {
            let mut s = arith_name(*op);
            s.append(" ");
            match rm {
                RmOperand::Reg(r2) => {
                    let rn = register_to_assembly_name(*r2);
                    s.append(rn.as_str());
                },
                RmOperand::Mem(ea) => {
                    match w {
                        WordByte::Byte => s.append("byte "),
                        WordByte::Word => s.append("word "),
                    }
                    let et = ea_to_text(ea);
                    s.append(et.as_str());
                },
            }
            s.append(", ");
            if *sx == 1 && *w == WordByte::Word {
                let num = i16_to_dec(i16_from_u16(sign_extend_8((*imm % 256) as u8)));
                proof {
                    assert(*imm % 256 == *imm);
                }
                s.append(num.as_str());
            } else {
                let num = u16_to_dec(*imm);
                s.append(num.as_str());
            }
            assert(s@ =~= spec_line(*inst));
            s
        },
        Inst::ImmToMem { w, ea, imm } => {
            let mut s = "mov".to_owned();
            s.append(" ");
            match w {
                WordByte::Byte => s.append("byte "),
                WordByte::Word => s.append("word "),
            }
            let et = ea_to_text(ea);
            s.append(et.as_str());
            s.append(", ");
            let num = u16_to_dec(*imm);
            s.append(num.as_str());
            assert(s@ =~= spec_line(*inst));
            s
        },
        Inst::AccImm { op, w, imm } => {
            let mut s = arith_name(*op);
            s.append(" ");
            match w {
                WordByte::Byte => s.append("al"),
                WordByte::Word => s.append("ax"),
            }
            s.append(", ");
            let num = u16_to_dec(*imm);
            s.append(num.as_str());
            assert(s@ =~= spec_line(*inst));
            s
        },
        Inst::Jump { op, disp } => {
            let mut s = jump_name(*op);
            s.append(" $ + 2 + ");
            let num = i16_to_dec(i16_from_u16(sign_extend_8(*disp)));
            s.append(num.as_str());
            assert(s@ =~= spec_line(*inst));
            s
        },
    }
}

/// The r/m-form operation of each of the four r/m opcode classes.
pub open spec fn spec_class_binop(opcode: OpCode) -> BinOp {
    match opcode {
        OpCode::MovMem => BinOp::Mov,
        OpCode::AddMemMem => BinOp::Add,
        OpCode::SubMemMem => BinOp::Sub,
        _ => BinOp::Cmp,
    }
}

/// The address text of a `mod = 00` memory operand, always bracketed,
/// together with the number of displacement bytes it consumed (two in
/// the direct-address case, none otherwise).
pub fn no_displacement_address(rm_field: u8, machine_code: &Vec<u8>, index: usize) -> (r: Result<
    (String, usize),
    DecodeError,
>)
    requires
        rm_field < 8,
    ensures
        rm_field != 6 ==> (r matches Ok(p) && p.0@ == spec_ea_text(
            EffAddr {
                base: spec_base_of_rm_field(rm_field, Mode::MemNoDisplacement),
                disp: Displacement::Zero,
            },
        ) && p.1 == 0),
        rm_field == 6 && index + 4 <= machine_code@.len() ==> (r matches Ok(p) && p.0@
            == spec_ea_text(
            EffAddr {
                base: EffAddrBase::Direct,
                disp: Displacement::Word(
                    spec_word_le(machine_code@[index + 2], machine_code@[index + 3]),
                ),
            },
        ) && p.1 == 2),
        rm_field == 6 && index + 4 > machine_code@.len() ==> r == Err::<
            (String, usize),
            DecodeError,
        >(DecodeError::Truncated { at: index, needed: 4 }),
{
    if rm_field == 6 {
        if machine_code.len() >= 4 && index <= machine_code.len() - 4 {
            let lo = machine_code[index + 2];
            let hi = machine_code[index + 3];
            let ea = EffAddr {
                base: EffAddrBase::Direct,
                disp: Displacement::Word(concat_bytes(hi, lo)),
            };
            Ok((ea_to_text(&ea), 2))
        } else {
            Err(DecodeError::Truncated { at: index, needed: 4 })
        }
    } else {
        let ea = EffAddr {
            base: rm_field_to_base(rm_field, Mode::MemNoDisplacement),
            disp: Displacement::Zero,
        };
        Ok((ea_to_text(&ea), 0))
    }
}

/// The address text of a `mod = 00` memory operand of an arithmetic
/// instruction. Every memory operand is bracketed, so this agrees with
/// [`no_displacement_address`]; both names stay because each opcode
/// family's decoder reads better calling its own.
pub fn no_displacement_address_arithmetic(
    rm_field: u8,
    machine_code: &Vec<u8>,
    index: usize,
) -> (r: Result<(String, usize), DecodeError>)
    requires
        rm_field < 8,
    ensures
        rm_field != 6 ==> (r matches Ok(p) && p.0@ == spec_ea_text(
            EffAddr {
                base: spec_base_of_rm_field(rm_field, Mode::MemNoDisplacement),
                disp: Displacement::Zero,
            },
        ) && p.1 == 0),
        rm_field == 6 && index + 4 <= machine_code@.len() ==> (r matches Ok(p) && p.0@
            == spec_ea_text(
            EffAddr {
                base: EffAddrBase::Direct,
                disp: Displacement::Word(
                    spec_word_le(machine_code@[index + 2], machine_code@[index + 3]),
                ),
            },
        ) && p.1 == 2),
        rm_field == 6 && index + 4 > machine_code@.len() ==> r == Err::<
            (String, usize),
            DecodeError,
        >(DecodeError::Truncated { at: index, needed: 4 }),
{
    no_displacement_address(rm_field, machine_code, index)
}

/// The address text of a memory operand with a displacement, from its
/// `r/m` field and the sign-extended displacement value.
pub fn rm_field_to_displacement(rm_field: u8, displacement: i16) -> (r: String)
    requires
        rm_field < 8,
    ensures
        r@ == spec_disp_addr_text(
            spec_base_of_rm_field(rm_field, Mode::Mem8BitDisplacement),
            displacement as int,
        ),
{
    let base = rm_field_to_base(rm_field, Mode::Mem8BitDisplacement);
    let mut s = "[".to_owned();
    let bn = base_name(base);
    s.append(bn.as_str());
    s.append(" + ");
    let num = i16_to_dec(displacement);
    s.append(num.as_str());
    s.append("]");
    assert(s@ =~= spec_disp_addr_text(
        spec_base_of_rm_field(rm_field, Mode::Mem8BitDisplacement),
        displacement as int,
    ));
    s
}

/// Disassemble the r/m-form instruction at `index`: one printed line
/// ending in a newline, and the instruction's byte length.
pub fn mem_mem_disassembly(opcode: OpCode, machine_code: &Vec<u8>, index: usize) -> (r: Result<
    (String, usize),
    DecodeError,
>)
    requires
        opcode == OpCode::MovMem || opcode == OpCode::AddMemMem || opcode == OpCode::SubMemMem
            || opcode == OpCode::CmpMemMem,
    ensures
        spec_decode_rm_reg(machine_code@, index, spec_class_binop(opcode)) matches Ok(p) ==> (
        r matches Ok(q) && q.0@ == spec_line(p.0) + "\n"@ && q.1 == p.1),
        spec_decode_rm_reg(machine_code@, index, spec_class_binop(opcode)) matches Err(e) ==> r
            == Err::<(String, usize), DecodeError>(e),
{
    let op = match opcode {
        OpCode::MovMem => BinOp::Mov,
        OpCode::AddMemMem => BinOp::Add,
        OpCode::SubMemMem => BinOp::Sub,
        _ => BinOp::Cmp,
    };
    match decode_rm_reg(machine_code, index, op) {
        Err(e) => Err(e),
        Ok((inst, len)) => {
            let mut line = format_instruction(&inst);
            line.append("\n");
            Ok((line, len))
        },
    }
}

/// Disassemble the `mov` r/m instruction at `index`.
pub fn mov_mem(machine_code: &Vec<u8>, index: usize) -> (r: Result<(String, usize), DecodeError>)
    ensures
        spec_decode_rm_reg(machine_code@, index, BinOp::Mov) matches Ok(p) ==> (r matches Ok(q)
            && q.0@ == spec_line(p.0) + "\n"@ && q.1 == p.1),
        spec_decode_rm_reg(machine_code@, index, BinOp::Mov) matches Err(e) ==> r == Err::<
            (String, usize),
            DecodeError,
        >(e),
{
    mem_mem_disassembly(OpCode::MovMem, machine_code, index)
}

/// Disassemble the r/m-form instruction at `index` under a caller-chosen
/// mnemonic: one printed line ending in a newline, and the byte length.
pub fn arithmetic_diassembly(assembly_name: String, machine_code: &Vec<u8>, index: usize) -> (r:
    Result<(String, usize), DecodeError>)
    ensures
        spec_decode_rm_reg(machine_code@, index, BinOp::Add) matches Ok(p) ==> (r matches Ok(q)
            && q.1 == p.1 && (p.0 matches Inst::RmReg { op, w, d, reg, rm } ==> q.0@ == (match d {
            Direction::RegRm => spec_two_operand_line(
                assembly_name@,
                spec_rm_text(rm),
                spec_reg_name(reg),
            ),
            Direction::RmReg => spec_two_operand_line(
                assembly_name@,
                spec_reg_name(reg),
                spec_rm_text(rm),
            ),
        }) + "\n"@)),
        spec_decode_rm_reg(machine_code@, index, BinOp::Add) matches Err(e) ==> r == Err::<
            (String, usize),
            DecodeError,
        >(e),
{
    match decode_rm_reg(machine_code, index, BinOp::Add) {
        Err(e) => Err(e),
        Ok((inst, len)) => match inst {
            Inst::RmReg { op, w, d, reg, rm } => {
                let mut s = assembly_name;
                s.append(" ");
                let reg_text = register_to_assembly_name(reg);
                let rm_text = match rm {
                    RmOperand::Reg(r2) => register_to_assembly_name(r2),
                    RmOperand::Mem(ea) => ea_to_text(&ea),
                };
                match d {
                    Direction::RegRm => {
                        s.append(rm_text.as_str());
                        s.append(", ");
                        s.append(reg_text.as_str());
                    },
                    Direction::RmReg => {
                        s.append(reg_text.as_str());
                        s.append(", ");
                        s.append(rm_text.as_str());
                    },
                }
                s.append("\n");
                Ok((s, len))
            },
            _ => {
                proof {
                    assert(false);
                }
                Err(DecodeError::IllegalSubOp { at: index })
            },
        },
    }
}

/// The lines of the listing of a whole byte stream, one decoded
/// instruction after another from `pos` to the end of the buffer, or
/// the first decode error.
pub open spec fn spec_listing_lines(bytes: Seq<u8>, pos: usize) -> Result<Seq<char>, DecodeError>
    decreases bytes.len() - pos
        when pos <= bytes.len() && bytes.len() <= usize::MAX via spec_listing_lines_decreases
{
    if pos >= bytes.len() {
        Ok(Seq::empty())
    } else {
        match spec_decode(bytes, pos) {
            Err(e) => Err(e),
            Ok((inst, len)) => match spec_listing_lines(bytes, (pos + len) as usize) {
                Err(e) => Err(e),
                Ok(rest) => Ok(spec_line(inst) + "\n"@ + rest),
            },
        }
    }
}

#[via_fn]
proof fn spec_listing_lines_decreases(bytes: Seq<u8>, pos: usize) {
    lemma_decode_encode(bytes, pos);
}

/// Disassemble a whole byte stream into a NASM listing.
///
/// The listing opens with its `bits 16` header and then holds one line
/// per decoded instruction, in stream order; on the first byte that
/// fails to decode the error is returned instead, with nothing written.
pub fn disassemble(machine_code: &Vec<u8>) -> (r: Result<String, DecodeError>)
    ensures
        spec_listing_lines(machine_code@, 0) matches Ok(body) ==> r matches Ok(s) && s@
            == "bits 16\n"@ + body,
        spec_listing_lines(machine_code@, 0) matches Err(e) ==> r == Err::<String, DecodeError>(e),
{
    let n = machine_code.len();
    let mut body = String::new();
    let mut index: usize = 0;
    while index < n
        invariant
            n == machine_code@.len(),
            index <= n,
            spec_listing_lines(machine_code@, index) matches Ok(rest)
                ==> spec_listing_lines(machine_code@, 0) matches Ok(all) && all == body@ + rest,
            spec_listing_lines(machine_code@, index) matches Err(e) ==> spec_listing_lines(
                machine_code@,
                0,
            ) == Err::<Seq<char>, DecodeError>(e),
        decreases n - index,
    {
        let ghost old_index = index;
        let ghost old_body = body@;
        match decode(machine_code, index) {
            Err(e) => {
                proof {
                    assert(spec_listing_lines(machine_code@, index) == Err::<
                        Seq<char>,
                        DecodeError,
                    >(e));
                }
                return Err(e);
            },
            Ok((inst, len)) => {
                let line = format_instruction(&inst);
                body.append(line.as_str());
                body.append("\n");
                index = index + len;
                proof {
                    match spec_listing_lines(machine_code@, index) {
                        Ok(rest) => {
                            assert(spec_listing_lines(machine_code@, old_index) == Ok::<
                                Seq<char>,
                                DecodeError,
                            >(spec_line(inst) + "\n"@ + rest));
                            assert(body@ + rest =~= old_body + (spec_line(inst) + "\n"@ + rest));
                        },
                        Err(e) => {
                            assert(spec_listing_lines(machine_code@, old_index) == Err::<
                                Seq<char>,
                                DecodeError,
                            >(e));
                        },
                    }
                }
            },
        }
    }
    proof {
        assert(spec_listing_lines(machine_code@, index) == Ok::<Seq<char>, DecodeError>(
            Seq::<char>::empty(),
        ));
        assert(body@ + Seq::<char>::empty() =~= body@);
    }
    let mut out = "bits 16\n".to_owned();
    out.append(body.as_str());
    Ok(out)
}

} // verus!
