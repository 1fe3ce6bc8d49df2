//! The instruction decoder: consume bytes at a cursor and produce one
//! decoded instruction record together with its byte length.
//!
//! `spec_decode` is the mathematical statement of the wire format; the
//! executable decoder returns exactly its value and never reads past the
//! buffer.

use vstd::prelude::*;
use crate::common_assembly::{
    ArithmeticOpCode, Mode, OpCode, Register, WordByte, direction_from_bit, get_opcode,
    get_register_enum, lemma_register_at_roundtrip, mode_from_bits, spec_arith_of_code,
    spec_classify, spec_direction, spec_is_jump_class, spec_mode, spec_register_at, spec_w_bit,
    spec_word_byte, word_byte_from_bit,
};
use crate::byte_operations::concat_bytes;
use crate::instruction::{
    BinOp, Displacement, EffAddr, EffAddrBase, Inst, RmOperand, spec_acc_base,
    spec_base_of_rm_field, spec_binop_class, spec_binop_top6, spec_encode, spec_imm_bytes,
    spec_imm_rm_wide, spec_inst_len, spec_rm_disp_bytes, spec_rm_disp_len, spec_rm_mod_field,
    spec_rm_rm_field, spec_wf_inst, spec_wf_rm,
};

verus! {

/// Why a decode failed.
///
/// `Truncated` reports the position of the instruction's first byte and
/// how many bytes the instruction needs from that position; the stream
/// ended before they were all there.
#[derive(Clone, Copy, Debug, PartialEq, Eq, Structural)]
pub enum DecodeError {
    /// The stream ended in the middle of the instruction at `at`.
    Truncated { at: usize, needed: usize },
    /// The byte at `at` starts no instruction of the supported subset.
    UnknownOpcode { at: usize, byte: u8 },
    /// A sub-opcode field at `at` selects no supported operation, or an
    /// immediate-to-memory `mov` names a register destination.
    IllegalSubOp { at: usize },
}

/// The 16-bit value of two little-endian bytes.
pub open spec fn spec_word_le(lo: u8, hi: u8) -> u16 {
    (hi * 256 + lo) as u16
}

/// The r/m operand and displacement byte count selected by the second
/// byte of an instruction at `pos`, reading displacement bytes as needed.
pub open spec fn spec_decode_rm(bytes: Seq<u8>, pos: usize, w: WordByte) -> Result<
    (RmOperand, usize),
    DecodeError,
>
    recommends
        pos + 2 <= bytes.len(),
{
    let b1 = bytes[pos + 1];
    let md = spec_mode((b1 / 64) as u8);
    let rmf = (b1 % 8) as u8;
    match md {
        Mode::Register => Ok(
            (RmOperand::Reg(spec_register_at((rmf + 8 * spec_w_bit(w)) as u8)), 0),
        ),
        Mode::MemNoDisplacement => {
            if rmf == 6 {
                if pos + 4 <= bytes.len() {
                    Ok(
                        (
                            RmOperand::Mem(
                                EffAddr {
                                    base: EffAddrBase::Direct,
                                    disp: Displacement::Word(
                                        spec_word_le(bytes[pos + 2], bytes[pos + 3]),
                                    ),
                                },
                            ),
                            2,
                        ),
                    )
                } else {
                    Err(DecodeError::Truncated { at: pos, needed: 4 })
                }
            } else {
                Ok(
                    (
                        RmOperand::Mem(
                            EffAddr {
                                base: spec_base_of_rm_field(rmf, md),
                                disp: Displacement::Zero,
                            },
                        ),
                        0,
                    ),
                )
            }
        },
        Mode::Mem8BitDisplacement => {
            if pos + 3 <= bytes.len() {
                Ok(
                    (
                        RmOperand::Mem(
                            EffAddr {
                                base: spec_base_of_rm_field(rmf, md),
                                disp: Displacement::Byte(bytes[pos + 2]),
                            },
                        ),
                        1,
                    ),
                )
            } else {
                Err(DecodeError::Truncated { at: pos, needed: 3 })
            }
        },
        Mode::Mem16BitDisplacement => {
            if pos + 4 <= bytes.len() {
                Ok(
                    (
                        RmOperand::Mem(
                            EffAddr {
                                base: spec_base_of_rm_field(rmf, md),
                                disp: Displacement::Word(
                                    spec_word_le(bytes[pos + 2], bytes[pos + 3]),
                                ),
                            },
                        ),
                        2,
                    ),
                )
            } else {
                Err(DecodeError::Truncated { at: pos, needed: 4 })
            }
        },
    }
}

/// Decode of a register-immediate `mov` (`1011 w reg`) at `pos`.
pub open spec fn spec_decode_reg_imm(bytes: Seq<u8>, pos: usize) -> Result<
    (Inst, usize),
    DecodeError,
>
    recommends
        pos < bytes.len(),
{
    let b0 = bytes[pos as int];
    let w = spec_word_byte(((b0 / 8) % 2) as u8);
    let reg = spec_register_at((b0 % 8 + 8 * spec_w_bit(w)) as u8);
    let needed: usize = if w == WordByte::Word {
        3
    } else {
        2
    };
    if pos + needed <= bytes.len() {
        let imm = if w == WordByte::Word {
            spec_word_le(bytes[pos + 1], bytes[pos + 2])
        } else {
            bytes[pos + 1] as u16
        };
        Ok((Inst::RegImm { reg, imm }, needed))
    } else {
        Err(DecodeError::Truncated { at: pos, needed })
    }
}

/// Decode of an r/m-form `mov`/`add`/`sub`/`cmp` (`opcode6 d w`) at `pos`.
pub open spec fn spec_decode_rm_reg(bytes: Seq<u8>, pos: usize, op: BinOp) -> Result<
    (Inst, usize),
    DecodeError,
>
    recommends
        pos < bytes.len(),
{
    if pos + 2 <= bytes.len() {
        let b0 = bytes[pos as int];
        let d = spec_direction(((b0 / 2) % 2) as u8);
        let w = spec_word_byte((b0 % 2) as u8);
        let b1 = bytes[pos + 1];
        let reg = spec_register_at(((b1 / 8) % 8 + 8 * spec_w_bit(w)) as u8);
        match spec_decode_rm(bytes, pos, w) {
            Ok((rm, disp_len)) => Ok(
                (Inst::RmReg { op, w, d, reg, rm }, (2 + disp_len) as usize),
            ),
            Err(e) => Err(e),
        }
    } else {
        Err(DecodeError::Truncated { at: pos, needed: 2 })
    }
}

/// Decode of an immediate-to-r/m arithmetic instruction (`100000 s w`)
/// at `pos`.
pub open spec fn spec_decode_imm_rm(bytes: Seq<u8>, pos: usize) -> Result<
    (Inst, usize),
    DecodeError,
>
    recommends
        pos < bytes.len(),
{
    if pos + 2 <= bytes.len() {
        let b0 = bytes[pos as int];
        let s = ((b0 / 2) % 2) as u8;
        let w = spec_word_byte((b0 % 2) as u8);
        let b1 = bytes[pos + 1];
        match spec_arith_of_code(((b1 / 8) % 8) as u8) {
            None => Err(DecodeError::IllegalSubOp { at: pos }),
            Some(op) => match spec_decode_rm(bytes, pos, w) {
                Ok((rm, disp_len)) => {
                    let imm_len: usize = if spec_imm_rm_wide(w, s) {
                        2
                    } else {
                        1
                    };
                    let total = (2 + disp_len + imm_len) as usize;
                    if pos + total <= bytes.len() {
                        let imm = if spec_imm_rm_wide(w, s) {
                            spec_word_le(bytes[pos + 2 + disp_len], bytes[pos + 3 + disp_len])
                        } else {
                            bytes[pos + 2 + disp_len] as u16
                        };
                        Ok((Inst::ImmRm { op, w, s, rm, imm }, total))
                    } else {
                        Err(DecodeError::Truncated { at: pos, needed: total })
                    }
                },
                Err(e) => Err(e),
            },
        }
    } else {
        Err(DecodeError::Truncated { at: pos, needed: 2 })
    }
}

/// Decode of an immediate-to-memory `mov` (`1100011 w`) at `pos`.
pub open spec fn spec_decode_imm_to_mem(bytes: Seq<u8>, pos: usize) -> Result<
    (Inst, usize),
    DecodeError,
>
    recommends
        pos < bytes.len(),
{
    if pos + 2 <= bytes.len() {
        let b0 = bytes[pos as int];
        let w = spec_word_byte((b0 % 2) as u8);
        let b1 = bytes[pos + 1];
        if b1 / 64 == 3 {
            Err(DecodeError::IllegalSubOp { at: pos })
        } else if (b1 / 8) % 8 != 0 {
            Err(DecodeError::IllegalSubOp { at: pos })
        } else {
            match spec_decode_rm(bytes, pos, w) {
                Ok((rm, disp_len)) => {
                    let imm_len: usize = if w == WordByte::Word {
                        2
                    } else {
                        1
                    };
                    let total = (2 + disp_len + imm_len) as usize;
                    if pos + total <= bytes.len() {
                        let imm = if w == WordByte::Word {
                            spec_word_le(bytes[pos + 2 + disp_len], bytes[pos + 3 + disp_len])
                        } else {
                            bytes[pos + 2 + disp_len] as u16
                        };
                        match rm {
                            RmOperand::Mem(ea) => Ok((Inst::ImmToMem { w, ea, imm }, total)),
                            RmOperand::Reg(_) => Err(DecodeError::IllegalSubOp { at: pos }),
                        }
                    } else {
                        Err(DecodeError::Truncated { at: pos, needed: total })
                    }
                },
                Err(e) => Err(e),
            }
        }
    } else {
        Err(DecodeError::Truncated { at: pos, needed: 2 })
    }
}

/// Decode of an immediate-to-accumulator arithmetic instruction at `pos`.
pub open spec fn spec_decode_acc_imm(bytes: Seq<u8>, pos: usize, op: ArithmeticOpCode) -> Result<
    (Inst, usize),
    DecodeError,
>
    recommends
        pos < bytes.len(),
{
    let b0 = bytes[pos as int];
    let w = spec_word_byte((b0 % 2) as u8);
    let needed: usize = if w == WordByte::Word {
        3
    } else {
        2
    };
    if pos + needed <= bytes.len() {
        let imm = if w == WordByte::Word {
            spec_word_le(bytes[pos + 1], bytes[pos + 2])
        } else {
            bytes[pos + 1] as u16
        };
        Ok((Inst::AccImm { op, w, imm }, needed))
    } else {
        Err(DecodeError::Truncated { at: pos, needed })
    }
}

/// Decode of a jump, loop, or `jcxz` instruction at `pos`.
pub open spec fn spec_decode_jump(bytes: Seq<u8>, pos: usize, op: OpCode) -> Result<
    (Inst, usize),
    DecodeError,
>
    recommends
        pos < bytes.len(),
        spec_is_jump_class(op),
{
    if pos + 2 <= bytes.len() {
        Ok((Inst::Jump { op, disp: bytes[pos + 1] }, 2))
    } else {
        Err(DecodeError::Truncated { at: pos, needed: 2 })
    }
}

/// What decoding one instruction at `pos` returns: the record and its
/// byte length, or the error, with the cursor in either case untouched.
pub open spec fn spec_decode(bytes: Seq<u8>, pos: usize) -> Result<(Inst, usize), DecodeError> {
    if pos >= bytes.len() {
        Err(DecodeError::Truncated { at: pos, needed: 1 })
    } else {
        let b0 = bytes[pos as int];
        match spec_classify(b0) {
            None => Err(DecodeError::UnknownOpcode { at: pos, byte: b0 }),
            Some(op) => match op {
                OpCode::RegisterImmediateMov => spec_decode_reg_imm(bytes, pos),
                OpCode::MovMem => spec_decode_rm_reg(bytes, pos, BinOp::Mov),
                OpCode::AddMemMem => spec_decode_rm_reg(bytes, pos, BinOp::Add),
                OpCode::SubMemMem => spec_decode_rm_reg(bytes, pos, BinOp::Sub),
                OpCode::CmpMemMem => spec_decode_rm_reg(bytes, pos, BinOp::Cmp),
                OpCode::ImmediateArithmetic => spec_decode_imm_rm(bytes, pos),
                OpCode::ImmediateToMem => spec_decode_imm_to_mem(bytes, pos),
                OpCode::ImmediateToAccumulator => spec_decode_acc_imm(
                    bytes,
                    pos,
                    ArithmeticOpCode::Add,
                ),
                OpCode::ImmediateFromAccumulator => spec_decode_acc_imm(
                    bytes,
                    pos,
                    ArithmeticOpCode::Sub,
                ),
                OpCode::CmpImmediateToAccumulator => spec_decode_acc_imm(
                    bytes,
                    pos,
                    ArithmeticOpCode::Cmp,
                ),
                _ => spec_decode_jump(bytes, pos, op),
            },
        }
    }
}

/// Read the r/m operand and its displacement byte count from the second
/// byte of the instruction at `index`.
fn decode_rm(machine_code: &Vec<u8>, index: usize, w: WordByte) -> (r: Result<
    (RmOperand, usize),
    DecodeError,
>)
    requires
        index + 2 <= machine_code@.len(),
    ensures
        r == spec_decode_rm(machine_code@, index, w),
{
    let n = machine_code.len();
    let b1 = machine_code[index + 1];
    let md = mode_from_bits(b1 / 64);
    let rmf = b1 % 8;
    match md {
        Mode::Register => Ok((RmOperand::Reg(get_register_enum(rmf, w)), 0)),
        Mode::MemNoDisplacement => {
            if rmf == 6 {
                if machine_code.len() >= 4 && index <= machine_code.len() - 4 {
                    let lo = machine_code[index + 2];
                    let hi = machine_code[index + 3];
                    Ok(
                        (
                            RmOperand::Mem(
                                EffAddr {
                                    base: EffAddrBase::Direct,
                                    disp: Displacement::Word(concat_bytes(hi, lo)),
                                },
                            ),
                            2,
                        ),
                    )
                } else {
                    Err(DecodeError::Truncated { at: index, needed: 4 })
                }
            } else {
                Ok(
                    (
                        RmOperand::Mem(
                            EffAddr { base: rm_field_to_base(rmf, md), disp: Displacement::Zero },
                        ),
                        0,
                    ),
                )
            }
        },
        Mode::Mem8BitDisplacement => {
            if machine_code.len() >= 3 && index <= machine_code.len() - 3 {
                let disp = machine_code[index + 2];
                Ok(
                    (
                        RmOperand::Mem(
                            EffAddr {
                                base: rm_field_to_base(rmf, md),
                                disp: Displacement::Byte(disp),
                            },
                        ),
                        1,
                    ),
                )
            } else {
                Err(DecodeError::Truncated { at: index, needed: 3 })
            }
        },
        Mode::Mem16BitDisplacement => {
            if machine_code.len() >= 4 && index <= machine_code.len() - 4 {
                let lo = machine_code[index + 2];
                let hi = machine_code[index + 3];
                Ok(
                    (
                        RmOperand::Mem(
                            EffAddr {
                                base: rm_field_to_base(rmf, md),
                                disp: Displacement::Word(concat_bytes(hi, lo)),
                            },
                        ),
                        2,
                    ),
                )
            } else {
                Err(DecodeError::Truncated { at: index, needed: 4 })
            }
        },
    }
}

/// The effective-address base of an `r/m` field under a memory mode.
pub(crate) fn rm_field_to_base(rmf: u8, md: Mode) -> (r: EffAddrBase)
    requires
        rmf < 8,
        md != Mode::Register,
    ensures
        r == spec_base_of_rm_field(rmf, md),
{
    if rmf == 0 {
        EffAddrBase::BxSi
    } else if rmf == 1 {
        EffAddrBase::BxDi
    } else if rmf == 2 {
        EffAddrBase::BpSi
    } else if rmf == 3 {
        EffAddrBase::BpDi
    } else if rmf == 4 {
        EffAddrBase::Si
    } else if rmf == 5 {
        EffAddrBase::Di
    } else if rmf == 6 {
        if md == Mode::MemNoDisplacement {
            EffAddrBase::Direct
        } else {
            EffAddrBase::Bp
        }
    } else {
        EffAddrBase::Bx
    }
}

/// Decode one instruction at `index`.
///
/// Returns the record and its byte length, or the error that spec
/// `spec_decode` gives for these bytes; the cursor itself is the
/// caller's and stays where it was on failure.
pub fn decode(machine_code: &Vec<u8>, index: usize) -> (r: Result<(Inst, usize), DecodeError>)
    ensures
        r == spec_decode(machine_code@, index),
        r matches Ok(p) ==> {
            &&& spec_wf_inst(p.0)
            &&& spec_inst_len(p.0) == p.1
            &&& 1 <= p.1 <= 6
            &&& index + p.1 <= machine_code@.len()
            &&& spec_encode(p.0) == machine_code@.subrange(index as int, index + p.1)
        },
{
    proof {
        lemma_decode_encode(machine_code@, index);
    }
    if index >= machine_code.len() {
        return Err(DecodeError::Truncated { at: index, needed: 1 });
    }
    let b0 = machine_code[index];
    let op = match get_opcode(b0) {
        Some(op) => op,
        None => {
            return Err(DecodeError::UnknownOpcode { at: index, byte: b0 });
        },
    };
    match op {
        OpCode::RegisterImmediateMov => {
            let w = word_byte_from_bit((b0 / 8) % 2);
            let reg = get_register_enum(b0 % 8, w);
            let needed: usize = if w == WordByte::Word {
                3
            } else {
                2
            };
            if machine_code.len() >= needed && index <= machine_code.len() - needed {
                let imm: u16 = if w == WordByte::Word {
                    concat_bytes(machine_code[index + 2], machine_code[index + 1])
                } else {
                    machine_code[index + 1] as u16
                };
                Ok((Inst::RegImm { reg, imm }, needed))
            } else {
                Err(DecodeError::Truncated { at: index, needed })
            }
        },
        OpCode::MovMem => decode_rm_reg(machine_code, index, BinOp::Mov),
        OpCode::AddMemMem => decode_rm_reg(machine_code, index, BinOp::Add),
        OpCode::SubMemMem => decode_rm_reg(machine_code, index, BinOp::Sub),
        OpCode::CmpMemMem => decode_rm_reg(machine_code, index, BinOp::Cmp),
        OpCode::ImmediateArithmetic => decode_imm_rm(machine_code, index),
        OpCode::ImmediateToMem => decode_imm_to_mem(machine_code, index),
        OpCode::ImmediateToAccumulator => decode_acc_imm(machine_code, index, ArithmeticOpCode::Add),
        OpCode::ImmediateFromAccumulator => decode_acc_imm(
            machine_code,
            index,
            ArithmeticOpCode::Sub,
        ),
        OpCode::CmpImmediateToAccumulator => decode_acc_imm(
            machine_code,
            index,
            ArithmeticOpCode::Cmp,
        ),
        _ => {
            if machine_code.len() >= 2 && index <= machine_code.len() - 2 {
                Ok((Inst::Jump { op, disp: machine_code[index + 1] }, 2))
            } else {
                Err(DecodeError::Truncated { at: index, needed: 2 })
            }
        },
    }
}

/// Decode the r/m `mov`/`add`/`sub`/`cmp` instruction at `index`.
pub(crate) fn decode_rm_reg(machine_code: &Vec<u8>, index: usize, op: BinOp) -> (r: Result<
    (Inst, usize),
    DecodeError,
>)
    ensures
        r == spec_decode_rm_reg(machine_code@, index, op),
        r matches Ok(p) ==> {
            &&& spec_wf_inst(p.0)
            &&& spec_inst_len(p.0) == p.1
            &&& index + p.1 <= machine_code@.len()
            &&& p.0 is RmReg
        },
{
    proof {
        lemma_rm_reg_wf(machine_code@, index, op);
    }
    if machine_code.len() >= 2 && index <= machine_code.len() - 2 {
        let b0 = machine_code[index];
        let d = direction_from_bit((b0 / 2) % 2);
        let w = word_byte_from_bit(b0 % 2);
        let b1 = machine_code[index + 1];
        let reg = get_register_enum((b1 / 8) % 8, w);
        match decode_rm(machine_code, index, w) {
            Ok((rm, disp_len)) => Ok((Inst::RmReg { op, w, d, reg, rm }, 2 + disp_len)),
            Err(e) => Err(e),
        }
    } else {
        Err(DecodeError::Truncated { at: index, needed: 2 })
    }
}

/// Decode the immediate-to-r/m arithmetic instruction at `index`.
fn decode_imm_rm(machine_code: &Vec<u8>, index: usize) -> (r: Result<(Inst, usize), DecodeError>)
    requires
        index < machine_code@.len(),
    ensures
        r == spec_decode_imm_rm(machine_code@, index),
{
    if machine_code.len() >= 2 && index <= machine_code.len() - 2 {
        let b0 = machine_code[index];
        let s = (b0 / 2) % 2;
        let w = word_byte_from_bit(b0 % 2);
        let b1 = machine_code[index + 1];
        let op = match crate::common_assembly::arith_from_code((b1 / 8) % 8) {
            Some(op) => op,
            None => {
                return Err(DecodeError::IllegalSubOp { at: index });
            },
        };
        match decode_rm(machine_code, index, w) {
            Ok((rm, disp_len)) => {
                let wide = w == WordByte::Word && s == 0;
                let imm_len: usize = if wide {
                    2
                } else {
                    1
                };
                let total = 2 + disp_len + imm_len;
                if machine_code.len() >= total && index <= machine_code.len() - total {
                    let imm: u16 = if wide {
                        concat_bytes(
                            machine_code[index + 3 + disp_len],
                            machine_code[index + 2 + disp_len],
                        )
                    } else {
                        machine_code[index + 2 + disp_len] as u16
                    };
                    Ok((Inst::ImmRm { op, w, s, rm, imm }, total))
                } else {
                    Err(DecodeError::Truncated { at: index, needed: total })
                }
            },
            Err(e) => Err(e),
        }
    } else {
        Err(DecodeError::Truncated { at: index, needed: 2 })
    }
}

/// Decode the immediate-to-memory `mov` instruction at `index`.
fn decode_imm_to_mem(machine_code: &Vec<u8>, index: usize) -> (r: Result<
    (Inst, usize),
    DecodeError,
>)
    requires
        index < machine_code@.len(),
    ensures
        r == spec_decode_imm_to_mem(machine_code@, index),
{
    if machine_code.len() >= 2 && index <= machine_code.len() - 2 {
        let b0 = machine_code[index];
        let w = word_byte_from_bit(b0 % 2);
        let b1 = machine_code[index + 1];
        if b1 / 64 == 3 {
            return Err(DecodeError::IllegalSubOp { at: index });
        }
        if (b1 / 8) % 8 != 0 {
            return Err(DecodeError::IllegalSubOp { at: index });
        }
        match decode_rm(machine_code, index, w) {
            Ok((rm, disp_len)) => {
                let imm_len: usize = if w == WordByte::Word {
                    2
                } else {
                    1
                };
                let total = 2 + disp_len + imm_len;
                if machine_code.len() >= total && index <= machine_code.len() - total {
                    let imm: u16 = if w == WordByte::Word {
                        concat_bytes(
                            machine_code[index + 3 + disp_len],
                            machine_code[index + 2 + disp_len],
                        )
                    } else {
                        machine_code[index + 2 + disp_len] as u16
                    };
                    match rm {
                        RmOperand::Mem(ea) => Ok((Inst::ImmToMem { w, ea, imm }, total)),
                        RmOperand::Reg(_) => Err(DecodeError::IllegalSubOp { at: index }),
                    }
                } else {
                    Err(DecodeError::Truncated { at: index, needed: total })
                }
            },
            Err(e) => Err(e),
        }
    } else {
        Err(DecodeError::Truncated { at: index, needed: 2 })
    }
}

/// Decode the immediate-to-accumulator arithmetic instruction at `index`.
fn decode_acc_imm(machine_code: &Vec<u8>, index: usize, op: ArithmeticOpCode) -> (r: Result<
    (Inst, usize),
    DecodeError,
>)
    requires
        index < machine_code@.len(),
    ensures
        r == spec_decode_acc_imm(machine_code@, index, op),
{
    let b0 = machine_code[index];
    let w = word_byte_from_bit(b0 % 2);
    let needed: usize = if w == WordByte::Word {
        3
    } else {
        2
    };
    if machine_code.len() >= needed && index <= machine_code.len() - needed {
        let imm: u16 = if w == WordByte::Word {
            concat_bytes(machine_code[index + 2], machine_code[index + 1])
        } else {
            machine_code[index + 1] as u16
        };
        Ok((Inst::AccImm { op, w, imm }, needed))
    } else {
        Err(DecodeError::Truncated { at: index, needed })
    }
}

/// A byte is the sum of its opcode fields.
proof fn lemma_byte_fields(b: u8)
    ensures
        (b / 4) * 4 + ((b / 2) % 2) * 2 + b % 2 == b,
        (b / 2) * 2 + b % 2 == b,
        (b / 64) * 64 + ((b / 8) % 8) * 8 + b % 8 == b,
        (b / 16) * 16 + ((b / 8) % 2) * 8 + b % 8 == b,
{
    assert((b / 4) * 4 + ((b / 2) % 2) * 2 + b % 2 == b) by (bit_vector);
    assert((b / 2) * 2 + b % 2 == b) by (bit_vector);
    assert((b / 64) * 64 + ((b / 8) % 8) * 8 + b % 8 == b) by (bit_vector);
    assert((b / 16) * 16 + ((b / 8) % 2) * 8 + b % 8 == b) by (bit_vector);
}

/// A word assembled from two little-endian bytes splits back into them.
proof fn lemma_word_le_split(lo: u8, hi: u8)
    ensures
        spec_word_le(lo, hi) % 256 == lo,
        spec_word_le(lo, hi) / 256 == hi,
        spec_imm_bytes(spec_word_le(lo, hi), true) =~= seq![lo, hi],
{
}

/// The r/m operand that decoding returns is well formed, re-encodes to
/// the very fields of the second byte, and its displacement bytes are
/// the consumed ones.
pub(crate) proof fn lemma_decode_rm_fields(bytes: Seq<u8>, pos: usize, w: WordByte)
    requires
        pos + 2 <= bytes.len(),
    ensures
        spec_decode_rm(bytes, pos, w) matches Ok(p) ==> {
            &&& spec_wf_rm(p.0, w)
            &&& p.1 == spec_rm_disp_len(p.0)
            &&& pos + 2 + p.1 <= bytes.len()
            &&& spec_rm_mod_field(p.0) == bytes[pos + 1] / 64
            &&& spec_rm_rm_field(p.0) == bytes[pos + 1] % 8
            &&& spec_rm_disp_bytes(p.0) =~= bytes.subrange(pos + 2, pos + 2 + p.1)
        },
{
    let b1 = bytes[pos + 1];
    let md = spec_mode((b1 / 64) as u8);
    let rmf = (b1 % 8) as u8;
    if md == Mode::Register {
        lemma_register_at_roundtrip((rmf + 8 * spec_w_bit(w)) as u8);
    }
    match spec_decode_rm(bytes, pos, w) {
        Ok((rm, disp_len)) => match rm {
            RmOperand::Mem(ea) => match ea.disp {
                Displacement::Word(v) => {
                    lemma_word_le_split(bytes[pos + 2], bytes[pos + 3]);
                    assert(spec_rm_disp_bytes(rm) =~= bytes.subrange(pos + 2, pos + 4));
                },
                _ => {},
            },
            _ => {},
        },
        _ => {},
    }
}

/// Round trip and length discipline of the decoder, stated over the
/// mathematical decode and encode functions.
///
/// Whenever a decode succeeds, the record is well formed, its length is
/// the record's own byte length, between one and six bytes, the cursor
/// advanced by that length stays inside the buffer, and encoding the
/// record reproduces exactly the consumed bytes. Over a whole program
/// this is the assembler round trip: re-assembling every decoded
/// instruction rebuilds the input byte for byte.
#[verifier::rlimit(100)]
pub proof fn lemma_decode_encode(bytes: Seq<u8>, pos: usize)
    ensures
        spec_decode(bytes, pos) matches Ok(p) ==> {
            &&& spec_wf_inst(p.0)
            &&& spec_inst_len(p.0) == p.1
            &&& 1 <= p.1 <= 6
            &&& pos + p.1 <= bytes.len()
            &&& spec_encode(p.0) == bytes.subrange(pos as int, pos + p.1)
        },
{
    match spec_decode(bytes, pos) {
      Err(_) => {},
      Ok((inst, len)) => {
        let b0 = bytes[pos as int];
        lemma_byte_fields(b0);
        match spec_classify(b0) {
            Some(OpCode::RegisterImmediateMov) => {
                let w = spec_word_byte(((b0 / 8) % 2) as u8);
                let idx = (b0 % 8 + 8 * spec_w_bit(w)) as u8;
                lemma_register_at_roundtrip(idx);
                assert(b0 / 16 == 0x0B);
                assert(0xB0 + (b0 % 8 + 8 * ((b0 / 8) % 2)) == b0) by (bit_vector)
                    requires
                        b0 / 16 == 0x0B,
                ;
                if w == WordByte::Word {
                    lemma_word_le_split(bytes[pos + 1], bytes[pos + 2]);
                }
                assert(spec_encode(inst) =~= bytes.subrange(pos as int, pos + len));
            },
            Some(OpCode::MovMem) => {
                lemma_rm_reg_encode(bytes, pos, BinOp::Mov);
            },
            Some(OpCode::AddMemMem) => {
                lemma_rm_reg_encode(bytes, pos, BinOp::Add);
            },
            Some(OpCode::SubMemMem) => {
                lemma_rm_reg_encode(bytes, pos, BinOp::Sub);
            },
            Some(OpCode::CmpMemMem) => {
                lemma_rm_reg_encode(bytes, pos, BinOp::Cmp);
            },
            Some(OpCode::ImmediateArithmetic) => {
                let b1 = bytes[pos + 1];
                lemma_byte_fields(b1);
                lemma_decode_rm_fields(bytes, pos, spec_word_byte((b0 % 2) as u8));
                match inst {
                    Inst::ImmRm { op, w, s, rm, imm } => {
                        let dl = spec_rm_disp_len(rm);
                        if spec_imm_rm_wide(w, s) {
                            lemma_word_le_split(bytes[pos + 2 + dl], bytes[pos + 3 + dl]);
                        }
                        assert(spec_encode(inst) =~= bytes.subrange(pos as int, pos + len));
                    },
                    _ => {},
                }
            },
            Some(OpCode::ImmediateToMem) => {
                let b1 = bytes[pos + 1];
                lemma_byte_fields(b1);
                lemma_decode_rm_fields(bytes, pos, spec_word_byte((b0 % 2) as u8));
                match inst {
                    Inst::ImmToMem { w, ea, imm } => {
                        let dl = spec_rm_disp_len(RmOperand::Mem(ea));
                        if w == WordByte::Word {
                            lemma_word_le_split(bytes[pos + 2 + dl], bytes[pos + 3 + dl]);
                        }
                        assert(spec_encode(inst) =~= bytes.subrange(pos as int, pos + len));
                    },
                    _ => {},
                }
            },
            Some(OpCode::ImmediateToAccumulator) => {
                lemma_acc_imm_encode(bytes, pos, ArithmeticOpCode::Add);
            },
            Some(OpCode::ImmediateFromAccumulator) => {
                lemma_acc_imm_encode(bytes, pos, ArithmeticOpCode::Sub);
            },
            Some(OpCode::CmpImmediateToAccumulator) => {
                lemma_acc_imm_encode(bytes, pos, ArithmeticOpCode::Cmp);
            },
            Some(op) => {
                assert(spec_encode(inst) =~= bytes.subrange(pos as int, pos + len));
            },
            None => {},
        }
      },
    }
}

/// Whatever class byte stood first, the record an r/m-form decode
/// returns is well formed and as long as the bytes it consumed.
pub(crate) proof fn lemma_rm_reg_wf(bytes: Seq<u8>, pos: usize, op: BinOp)
    ensures
        spec_decode_rm_reg(bytes, pos, op) matches Ok(p) ==> {
            &&& spec_wf_inst(p.0)
            &&& spec_inst_len(p.0) == p.1
            &&& pos + p.1 <= bytes.len()
            &&& p.0 is RmReg
        },
{
    match spec_decode_rm_reg(bytes, pos, op) {
        Ok((inst, len)) => {
            let b0 = bytes[pos as int];
            let b1 = bytes[pos + 1];
            let w = spec_word_byte((b0 % 2) as u8);
            lemma_register_at_roundtrip(((b1 / 8) % 8 + 8 * spec_w_bit(w)) as u8);
            lemma_decode_rm_fields(bytes, pos, w);
        },
        Err(_) => {},
    }
}

/// Round trip of one r/m-form instruction.
proof fn lemma_rm_reg_encode(bytes: Seq<u8>, pos: usize, op: BinOp)
    requires
        pos < bytes.len(),
        spec_classify(bytes[pos as int]) == Some(spec_binop_class(op)),
    ensures
        spec_decode_rm_reg(bytes, pos, op) matches Ok(p) ==> {
            &&& spec_wf_inst(p.0)
            &&& spec_inst_len(p.0) == p.1
            &&& pos + p.1 <= bytes.len()
            &&& spec_encode(p.0) == bytes.subrange(pos as int, pos + p.1)
        },
{
    let b0 = bytes[pos as int];
    lemma_byte_fields(b0);
    match spec_decode_rm_reg(bytes, pos, op) {
        Ok((inst, len)) => {
            let b1 = bytes[pos + 1];
            lemma_byte_fields(b1);
            let w = spec_word_byte((b0 % 2) as u8);
            lemma_register_at_roundtrip(((b1 / 8) % 8 + 8 * spec_w_bit(w)) as u8);
            lemma_decode_rm_fields(bytes, pos, w);
            assert(b0 / 4 == spec_binop_top6(op));
            assert(spec_encode(inst) =~= bytes.subrange(pos as int, pos + len));
        },
        Err(_) => {},
    }
}

/// Round trip of one immediate-to-accumulator instruction.
proof fn lemma_acc_imm_encode(bytes: Seq<u8>, pos: usize, op: ArithmeticOpCode)
    requires
        pos < bytes.len(),
        spec_classify(bytes[pos as int]) matches Some(c) && c == (match op {
            ArithmeticOpCode::Add => OpCode::ImmediateToAccumulator,
            ArithmeticOpCode::Sub => OpCode::ImmediateFromAccumulator,
            ArithmeticOpCode::Cmp => OpCode::CmpImmediateToAccumulator,
        }),
    ensures
        spec_decode_acc_imm(bytes, pos, op) matches Ok(p) ==> {
            &&& spec_wf_inst(p.0)
            &&& spec_inst_len(p.0) == p.1
            &&& pos + p.1 <= bytes.len()
            &&& spec_encode(p.0) == bytes.subrange(pos as int, pos + p.1)
        },
{
    let b0 = bytes[pos as int];
    lemma_byte_fields(b0);
    match spec_decode_acc_imm(bytes, pos, op) {
        Ok((inst, len)) => {
            let w = spec_word_byte((b0 % 2) as u8);
            assert(b0 / 2 == spec_acc_base(op) / 2);
            assert(spec_acc_base(op) + spec_w_bit(w) == b0);
            if w == WordByte::Word {
                lemma_word_le_split(bytes[pos + 1], bytes[pos + 2]);
            }
            assert(spec_encode(inst) =~= bytes.subrange(pos as int, pos + len));
        },
        Err(_) => {},
    }
}

/// Decoding is a function of the bytes and the cursor alone: the same
/// stream and position always yield structurally equal results.
pub proof fn lemma_decode_deterministic(
    bytes1: Seq<u8>,
    pos1: usize,
    bytes2: Seq<u8>,
    pos2: usize,
)
    requires
        bytes1 == bytes2,
        pos1 == pos2,
    ensures
        spec_decode(bytes1, pos1) == spec_decode(bytes2, pos2),
{
}

} // verus!
