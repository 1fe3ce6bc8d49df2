//! The decoded-instruction model: operands, effective addresses, and the
//! instruction record, together with its well-formedness predicate, its
//! byte length, and its encoding back into machine code.
//!
//! A record keeps every encoding field of the instruction it came from
//! (direction bit, sign-extension bit, raw displacement), so that encoding
//! a decoded record reproduces the consumed bytes exactly.

use vstd::prelude::*;
use crate::common_assembly::{
    ArithmeticOpCode, Direction, Mode, OpCode, Register, WordByte, register_index,
    spec_arith_code, spec_d_bit, spec_is_jump_class, spec_is_word_register, spec_reg_index,
    spec_w_bit,
};

verus! {

/// The displacement field of an effective address, as it stood in the
/// instruction stream: absent, one byte, or one little-endian word.
#[derive(Clone, Copy, Debug, PartialEq, Eq, Structural)]
pub enum Displacement {
    Zero,
    Byte(u8),
    Word(u16),
}

/// The register part of an effective-address calculation, keyed by the
/// `r/m` field, plus the direct-address form (`r/m = 110` under `mod = 00`).
#[derive(Clone, Copy, Debug, PartialEq, Eq, Structural)]
pub enum EffAddrBase {
    BxSi,
    BxDi,
    BpSi,
    BpDi,
    Si,
    Di,
    Bp,
    Bx,
    Direct,
}

/// A memory operand: a base plus the displacement found in the stream.
#[derive(Clone, Copy, Debug, PartialEq, Eq, Structural)]
pub struct EffAddr {
    pub base: EffAddrBase,
    pub disp: Displacement,
}

/// The operand selected by the `mod` and `r/m` fields: a register or a
/// memory address.
#[derive(Clone, Copy, Debug, PartialEq, Eq, Structural)]
pub enum RmOperand {
    Reg(Register),
    Mem(EffAddr),
}

/// The operation of an instruction in r/m form.
#[derive(Clone, Copy, Debug, PartialEq, Eq, Structural)]
pub enum BinOp {
    Mov,
    Add,
    Sub,
    Cmp,
}

/// One decoded instruction, with every encoding field retained.
#[allow(inconsistent_fields)]
#[derive(Clone, Copy, Debug, PartialEq, Eq, Structural)]
pub enum Inst {
    /// `mov reg, imm` (`1011 w reg`); the register fixes the width.
    RegImm { reg: Register, imm: u16 },
    /// `mov`/`add`/`sub`/`cmp` between a register and an r/m operand
    /// (`opcode6 d w | mod reg rm | disp`).
    RmReg { op: BinOp, w: WordByte, d: Direction, reg: Register, rm: RmOperand },
    /// `add`/`sub`/`cmp` of an immediate into an r/m operand
    /// (`100000 s w | mod code rm | disp | data`).
    ImmRm { op: ArithmeticOpCode, w: WordByte, s: u8, rm: RmOperand, imm: u16 },
    /// `mov` of an immediate into memory (`1100011 w | mod 000 rm | disp | data`).
    ImmToMem { w: WordByte, ea: EffAddr, imm: u16 },
    /// `add`/`sub`/`cmp` of an immediate into the accumulator.
    AccImm { op: ArithmeticOpCode, w: WordByte, imm: u16 },
    /// A conditional jump, loop, or `jcxz`, with its raw displacement byte.
    Jump { op: OpCode, disp: u8 },
}

/// The `r/m` field that selects an effective-address base. `Bp` and
/// `Direct` share field 6; the addressing mode tells them apart.
pub open spec fn spec_base_rm_field(b: EffAddrBase) -> u8 {
    match b {
        EffAddrBase::BxSi => 0,
        EffAddrBase::BxDi => 1,
        EffAddrBase::BpSi => 2,
        EffAddrBase::BpDi => 3,
        EffAddrBase::Si => 4,
        EffAddrBase::Di => 5,
        EffAddrBase::Bp => 6,
        EffAddrBase::Bx => 7,
        EffAddrBase::Direct => 6,
    }
}

/// The effective-address base selected by an `r/m` field under a memory
/// addressing mode.
pub open spec fn spec_base_of_rm_field(rm: u8, md: Mode) -> EffAddrBase
    recommends
        rm < 8,
        md != Mode::Register,
{
    if rm == 0 {
        EffAddrBase::BxSi
    } else if rm == 1 {
        EffAddrBase::BxDi
    } else if rm == 2 {
        EffAddrBase::BpSi
    } else if rm == 3 {
        EffAddrBase::BpDi
    } else if rm == 4 {
        EffAddrBase::Si
    } else if rm == 5 {
        EffAddrBase::Di
    } else if rm == 6 {
        if md == Mode::MemNoDisplacement {
            EffAddrBase::Direct
        } else {
            EffAddrBase::Bp
        }
    } else {
        EffAddrBase::Bx
    }
}

/// A register operand is consistent with the width bit of its instruction.
pub open spec fn spec_reg_matches_w(r: Register, w: WordByte) -> bool {
    spec_is_word_register(r) == (w == WordByte::Word)
}

/// A well-formed effective address: the direct form carries a word
/// displacement, and bare `bp` does not occur (its `r/m` field under
/// `mod = 00` means a direct address instead).
pub open spec fn spec_wf_ea(ea: EffAddr) -> bool {
    &&& (ea.base == EffAddrBase::Direct ==> ea.disp is Word)
    &&& (ea.base == EffAddrBase::Bp ==> !(ea.disp is Zero))
}

/// A well-formed r/m operand under a width bit.
pub open spec fn spec_wf_rm(rm: RmOperand, w: WordByte) -> bool {
    match rm {
        RmOperand::Reg(r) => spec_reg_matches_w(r, w),
        RmOperand::Mem(ea) => spec_wf_ea(ea),
    }
}

/// Whether an instruction in `ImmRm` form carries a two-byte immediate:
/// only with `w = 1` and `s = 0`.
pub open spec fn spec_imm_rm_wide(w: WordByte, s: u8) -> bool {
    w == WordByte::Word && s == 0
}

/// Well-formedness of a decoded record: every field consistent with the
/// bits that can encode it.
pub open spec fn spec_wf_inst(i: Inst) -> bool {
    match i {
        Inst::RegImm { reg, imm } => !spec_is_word_register(reg) ==> imm < 256,
        Inst::RmReg { op, w, d, reg, rm } => {
            &&& spec_reg_matches_w(reg, w)
            &&& spec_wf_rm(rm, w)
        },
        Inst::ImmRm { op, w, s, rm, imm } => {
            &&& s < 2
            &&& spec_wf_rm(rm, w)
            &&& (!spec_imm_rm_wide(w, s) ==> imm < 256)
        },
        Inst::ImmToMem { w, ea, imm } => {
            &&& spec_wf_ea(ea)
            &&& (w == WordByte::Byte ==> imm < 256)
        },
        Inst::AccImm { op, w, imm } => w == WordByte::Byte ==> imm < 256,
        Inst::Jump { op, disp } => spec_is_jump_class(op),
    }
}

/// How many displacement bytes an r/m operand occupies in the stream.
pub open spec fn spec_rm_disp_len(rm: RmOperand) -> int {
    match rm {
        RmOperand::Reg(_) => 0,
        RmOperand::Mem(ea) => match ea.disp {
            Displacement::Zero => 0,
            Displacement::Byte(_) => 1,
            Displacement::Word(_) => 2,
        },
    }
}

/// The byte length of an instruction.
pub open spec fn spec_inst_len(i: Inst) -> int {
    match i {
        Inst::RegImm { reg, imm } => if spec_is_word_register(reg) {
            3
        } else {
            2
        },
        Inst::RmReg { op, w, d, reg, rm } => 2 + spec_rm_disp_len(rm),
        Inst::ImmRm { op, w, s, rm, imm } => 2 + spec_rm_disp_len(rm) + if spec_imm_rm_wide(
            w,
            s,
        ) {
            2int
        } else {
            1int
        },
        Inst::ImmToMem { w, ea, imm } => 2 + spec_rm_disp_len(RmOperand::Mem(ea)) + if w
            == WordByte::Word {
            2int
        } else {
            1int
        },
        Inst::AccImm { op, w, imm } => if w == WordByte::Word {
            3
        } else {
            2
        },
        Inst::Jump { op, disp } => 2,
    }
}

/// A well-formed instruction is one to six bytes long.
pub broadcast proof fn lemma_inst_len_bounds(i: Inst)
    ensures
        1 <= #[trigger] spec_inst_len(i) <= 6,
{
}

/// The `mod` field that an r/m operand encodes to.
pub open spec fn spec_rm_mod_field(rm: RmOperand) -> u8 {
    match rm {
        RmOperand::Reg(_) => 3,
        RmOperand::Mem(ea) => if ea.base == EffAddrBase::Direct {
            0
        } else {
            match ea.disp {
                Displacement::Zero => 0,
                Displacement::Byte(_) => 1,
                Displacement::Word(_) => 2,
            }
        },
    }
}

/// The `r/m` field that an r/m operand encodes to.
pub open spec fn spec_rm_rm_field(rm: RmOperand) -> u8 {
    match rm {
        RmOperand::Reg(r) => (spec_reg_index(r) % 8) as u8,
        RmOperand::Mem(ea) => spec_base_rm_field(ea.base),
    }
}

/// The displacement bytes that an r/m operand encodes to.
pub open spec fn spec_rm_disp_bytes(rm: RmOperand) -> Seq<u8> {
    match rm {
        RmOperand::Reg(_) => Seq::empty(),
        RmOperand::Mem(ea) => match ea.disp {
            Displacement::Zero => Seq::empty(),
            Displacement::Byte(b) => seq![b],
            Displacement::Word(v) => seq![(v % 256) as u8, (v / 256) as u8],
        },
    }
}

/// The immediate bytes of a value: little-endian word, or low byte alone.
pub open spec fn spec_imm_bytes(v: u16, wide: bool) -> Seq<u8> {
    if wide {
        seq![(v % 256) as u8, (v / 256) as u8]
    } else {
        seq![(v % 256) as u8]
    }
}

/// The top six bits of the first byte of an r/m-form instruction.
pub open spec fn spec_binop_top6(op: BinOp) -> u8 {
    match op {
        BinOp::Mov => 0x22,
        BinOp::Add => 0x00,
        BinOp::Sub => 0x0A,
        BinOp::Cmp => 0x0E,
    }
}

/// The r/m-form class of each operation.
pub open spec fn spec_binop_class(op: BinOp) -> OpCode {
    match op {
        BinOp::Mov => OpCode::MovMem,
        BinOp::Add => OpCode::AddMemMem,
        BinOp::Sub => OpCode::SubMemMem,
        BinOp::Cmp => OpCode::CmpMemMem,
    }
}

/// The first byte of the accumulator form of each arithmetic operation,
/// before the width bit is added.
pub open spec fn spec_acc_base(op: ArithmeticOpCode) -> u8 {
    match op {
        ArithmeticOpCode::Add => 0x04,
        ArithmeticOpCode::Sub => 0x2C,
        ArithmeticOpCode::Cmp => 0x3C,
    }
}

/// The opcode byte of each jump, loop, and `jcxz` class.
pub open spec fn spec_jump_byte(op: OpCode) -> u8
    recommends
        spec_is_jump_class(op),
{
    match op {
        OpCode::Jo => 0x70,
        OpCode::Jno => 0x71,
        OpCode::Jb => 0x72,
        OpCode::Jnb => 0x73,
        OpCode::Je => 0x74,
        OpCode::JneJnz => 0x75,
        OpCode::Jbe => 0x76,
        OpCode::Ja => 0x77,
        OpCode::Js => 0x78,
        OpCode::Jns => 0x79,
        OpCode::Jp => 0x7A,
        OpCode::Jnp => 0x7B,
        OpCode::Jl => 0x7C,
        OpCode::Jnl => 0x7D,
        OpCode::Jle => 0x7E,
        OpCode::Jg => 0x7F,
        OpCode::Loopnz => 0xE0,
        OpCode::Loopz => 0xE1,
        OpCode::Loop => 0xE2,
        OpCode::Jcxz => 0xE3,
        _ => 0,
    }
}

/// The machine code of an instruction record. For every well-formed
/// record this is the exact byte string that decodes back to it.
pub open spec fn spec_encode(i: Inst) -> Seq<u8> {
    match i {
        Inst::RegImm { reg, imm } => seq![(0xB0 + spec_reg_index(reg)) as u8] + spec_imm_bytes(
            imm,
            spec_is_word_register(reg),
        ),
        Inst::RmReg { op, w, d, reg, rm } => seq![
            (spec_binop_top6(op) * 4 + spec_d_bit(d) * 2 + spec_w_bit(w)) as u8,
            (spec_rm_mod_field(rm) * 64 + (spec_reg_index(reg) % 8) * 8 + spec_rm_rm_field(
                rm,
            )) as u8,
        ] + spec_rm_disp_bytes(rm),
        Inst::ImmRm { op, w, s, rm, imm } => seq![
            (0x80 + s * 2 + spec_w_bit(w)) as u8,
            (spec_rm_mod_field(rm) * 64 + spec_arith_code(op) * 8 + spec_rm_rm_field(rm)) as u8,
        ] + spec_rm_disp_bytes(rm) + spec_imm_bytes(imm, spec_imm_rm_wide(w, s)),
        Inst::ImmToMem { w, ea, imm } => seq![
            (0xC6 + spec_w_bit(w)) as u8,
            (spec_rm_mod_field(RmOperand::Mem(ea)) * 64 + spec_rm_rm_field(
                RmOperand::Mem(ea),
            )) as u8,
        ] + spec_rm_disp_bytes(RmOperand::Mem(ea)) + spec_imm_bytes(imm, w == WordByte::Word),
        Inst::AccImm { op, w, imm } => seq![(spec_acc_base(op) + spec_w_bit(w)) as u8]
            + spec_imm_bytes(imm, w == WordByte::Word),
        Inst::Jump { op, disp } => seq![spec_jump_byte(op), disp],
    }
}

/// The encoding of an instruction is as long as the instruction says.
pub broadcast proof fn lemma_encode_len(i: Inst)
    ensures
        #[trigger] spec_encode(i).len() == spec_inst_len(i),
{
}

/// The `mod` field that an r/m operand encodes to.
fn rm_mod_field(rm: &RmOperand) -> (r: u8)
    ensures
        r == spec_rm_mod_field(*rm),
        r <= 3,
{
    match rm {
        RmOperand::Reg(_) => 3,
        RmOperand::Mem(ea) => {
            if ea.base == EffAddrBase::Direct {
                0
            } else {
                match ea.disp {
                    Displacement::Zero => 0,
                    Displacement::Byte(_) => 1,
                    Displacement::Word(_) => 2,
                }
            }
        },
    }
}

/// The `r/m` field that an r/m operand encodes to.
fn rm_rm_field(rm: &RmOperand) -> (r: u8)
    ensures
        r == spec_rm_rm_field(*rm),
        r <= 7,
{
    match rm {
        RmOperand::Reg(reg) => register_index(*reg) % 8,
        RmOperand::Mem(ea) => match ea.base {
            EffAddrBase::BxSi => 0,
            EffAddrBase::BxDi => 1,
            EffAddrBase::BpSi => 2,
            EffAddrBase::BpDi => 3,
            EffAddrBase::Si => 4,
            EffAddrBase::Di => 5,
            EffAddrBase::Bp => 6,
            EffAddrBase::Bx => 7,
            EffAddrBase::Direct => 6,
        },
    }
}

/// Append the displacement bytes of an r/m operand.
fn push_rm_disp(out: &mut Vec<u8>, rm: &RmOperand)
    ensures
        final(out)@ == old(out)@ + spec_rm_disp_bytes(*rm),
{
    match rm {
        RmOperand::Reg(_) => {},
        RmOperand::Mem(ea) => match ea.disp {
            Displacement::Zero => {},
            Displacement::Byte(b) => {
                out.push(b);
            },
            Displacement::Word(v) => {
                out.push((v % 256) as u8);
                out.push((v / 256) as u8);
            },
        },
    }
    assert(out@ =~= old(out)@ + spec_rm_disp_bytes(*rm));
}

/// The opcode byte of a jump, loop, or `jcxz` class.
fn jump_byte(op: OpCode) -> (r: u8)
    requires
        spec_is_jump_class(op),
    ensures
        r == spec_jump_byte(op),
{
    match op {
        OpCode::Jo => 0x70,
        OpCode::Jno => 0x71,
        OpCode::Jb => 0x72,
        OpCode::Jnb => 0x73,
        OpCode::Je => 0x74,
        OpCode::JneJnz => 0x75,
        OpCode::Jbe => 0x76,
        OpCode::Ja => 0x77,
        OpCode::Js => 0x78,
        OpCode::Jns => 0x79,
        OpCode::Jp => 0x7A,
        OpCode::Jnp => 0x7B,
        OpCode::Jl => 0x7C,
        OpCode::Jnl => 0x7D,
        OpCode::Jle => 0x7E,
        OpCode::Jg => 0x7F,
        OpCode::Loopnz => 0xE0,
        OpCode::Loopz => 0xE1,
        OpCode::Loop => 0xE2,
        _ => 0xE3,
    }
}

/// Assemble one well-formed instruction record back into machine code.
///
/// For every record the decoder produces, this returns exactly the
/// bytes the decoder consumed.
pub fn encode_instruction(inst: &Inst) -> (r: Vec<u8>)
    requires
        spec_wf_inst(*inst),
    ensures
        r@ == spec_encode(*inst),
{
    let mut out: Vec<u8> = Vec::new();
    match inst {
        Inst::RegImm { reg, imm } => {
            let idx = register_index(*reg);
            out.push(0xB0 + idx);
            out.push((*imm % 256) as u8);
            if idx >= 8 {
                out.push((*imm / 256) as u8);
            }
            assert(out@ =~= spec_encode(*inst));
        },
        Inst::RmReg { op, w, d, reg, rm } => {
            let top6: u8 = match op {
                BinOp::Mov => 0x22,
                BinOp::Add => 0x00,
                BinOp::Sub => 0x0A,
                BinOp::Cmp => 0x0E,
            };
            let d_bit: u8 = match d {
                Direction::RegRm => 0,
                Direction::RmReg => 1,
            };
            let w_bit: u8 = match w {
                WordByte::Byte => 0,
                WordByte::Word => 1,
            };
            out.push(top6 * 4 + d_bit * 2 + w_bit);
            out.push(rm_mod_field(rm) * 64 + (register_index(*reg) % 8) * 8 + rm_rm_field(rm));
            push_rm_disp(&mut out, rm);
            assert(out@ =~= spec_encode(*inst));
        },
        Inst::ImmRm { op, w, s, rm, imm } => {
            let w_bit: u8 = match w {
                WordByte::Byte => 0,
                WordByte::Word => 1,
            };
            let code: u8 = match op {
                ArithmeticOpCode::Add => 0,
                ArithmeticOpCode::Sub => 5,
                ArithmeticOpCode::Cmp => 7,
            };
            out.push(0x80 + *s * 2 + w_bit);
            out.push(rm_mod_field(rm) * 64 + code * 8 + rm_rm_field(rm));
            push_rm_disp(&mut out, rm);
            out.push((*imm % 256) as u8);
            if *w == WordByte::Word && *s == 0 {
                out.push((*imm / 256) as u8);
            }
            assert(out@ =~= spec_encode(*inst));
        },
        Inst::ImmToMem { w, ea, imm } => {
            let w_bit: u8 = match w {
                WordByte::Byte => 0,
                WordByte::Word => 1,
            };
            let mem_rm = RmOperand::Mem(*ea);
            out.push(0xC6 + w_bit);
            out.push(rm_mod_field(&mem_rm) * 64 + rm_rm_field(&mem_rm));
            push_rm_disp(&mut out, &mem_rm);
            out.push((*imm % 256) as u8);
            if *w == WordByte::Word {
                out.push((*imm / 256) as u8);
            }
            assert(out@ =~= spec_encode(*inst));
        },
        Inst::AccImm { op, w, imm } => {
            let w_bit: u8 = match w {
                WordByte::Byte => 0,
                WordByte::Word => 1,
            };
            let base: u8 = match op {
                ArithmeticOpCode::Add => 0x04,
                ArithmeticOpCode::Sub => 0x2C,
                ArithmeticOpCode::Cmp => 0x3C,
            };
            out.push(base + w_bit);
            out.push((*imm % 256) as u8);
            if *w == WordByte::Word {
                out.push((*imm / 256) as u8);
            }
            assert(out@ =~= spec_encode(*inst));
        },
        Inst::Jump { op, disp } => {
            out.push(jump_byte(*op));
            out.push(*disp);
            assert(out@ =~= spec_encode(*inst));
        },
    }
    out
}

} // verus!
