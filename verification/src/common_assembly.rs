//! ISA tables: opcode classification, register numbering and names, and the
//! field encodings (`mod`, `d`, `w`, arithmetic sub-opcode) that the decoder
//! and the simulator share.

use vstd::prelude::*;

verus! {

/// Instruction class selected by the first byte of an instruction.
///
/// Classification uses the top 4 bits for `RegisterImmediateMov`, the top
/// 7 bits for `ImmediateToMem` and the accumulator forms, the top 6 bits
/// for the r/m forms, and all 8 bits for the jump and loop family.
#[derive(Clone, Copy, Debug, PartialEq, Eq, Structural)]
pub enum OpCode {
    RegisterImmediateMov,
    MovMem,
    AddMemMem,
    SubMemMem,
    CmpMemMem,
    ImmediateArithmetic,
    ImmediateToAccumulator,
    ImmediateFromAccumulator,
    CmpImmediateToAccumulator,
    ImmediateToMem,
    JneJnz,
    Je,
    Jl,
    Jle,
    Jb,
    Jbe,
    Jp,
    Jo,
    Js,
    Jnl,
    Jg,
    Jnb,
    Ja,
    Jnp,
    Jno,
    Jns,
    Loop,
    Loopz,
    Loopnz,
    Jcxz,
}

/// The class that a first byte falls in, or `None` when the byte starts no
/// instruction of the supported subset.
pub open spec fn spec_classify(byte: u8) -> Option<OpCode> {
    if byte / 16 == 0x0B {
        Some(OpCode::RegisterImmediateMov)
    } else if byte / 2 == 0x63 {
        Some(OpCode::ImmediateToMem)
    } else if byte / 4 == 0x22 {
        Some(OpCode::MovMem)
    } else if byte / 4 == 0x00 {
        Some(OpCode::AddMemMem)
    } else if byte / 4 == 0x0A {
        Some(OpCode::SubMemMem)
    } else if byte / 4 == 0x0E {
        Some(OpCode::CmpMemMem)
    } else if byte / 4 == 0x20 {
        Some(OpCode::ImmediateArithmetic)
    } else if byte / 2 == 0x02 {
        Some(OpCode::ImmediateToAccumulator)
    } else if byte / 2 == 0x16 {
        Some(OpCode::ImmediateFromAccumulator)
    } else if byte / 2 == 0x1E {
        Some(OpCode::CmpImmediateToAccumulator)
    } else if byte == 0x70 {
        Some(OpCode::Jo)
    } else if byte == 0x71 {
        Some(OpCode::Jno)
    } else if byte == 0x72 {
        Some(OpCode::Jb)
    } else if byte == 0x73 {
        Some(OpCode::Jnb)
    } else if byte == 0x74 {
        Some(OpCode::Je)
    } else if byte == 0x75 {
        Some(OpCode::JneJnz)
    } else if byte == 0x76 {
        Some(OpCode::Jbe)
    } else if byte == 0x77 {
        Some(OpCode::Ja)
    } else if byte == 0x78 {
        Some(OpCode::Js)
    } else if byte == 0x79 {
        Some(OpCode::Jns)
    } else if byte == 0x7A {
        Some(OpCode::Jp)
    } else if byte == 0x7B {
        Some(OpCode::Jnp)
    } else if byte == 0x7C {
        Some(OpCode::Jl)
    } else if byte == 0x7D {
        Some(OpCode::Jnl)
    } else if byte == 0x7E {
        Some(OpCode::Jle)
    } else if byte == 0x7F {
        Some(OpCode::Jg)
    } else if byte == 0xE0 {
        Some(OpCode::Loopnz)
    } else if byte == 0xE1 {
        Some(OpCode::Loopz)
    } else if byte == 0xE2 {
        Some(OpCode::Loop)
    } else if byte == 0xE3 {
        Some(OpCode::Jcxz)
    } else {
        None
    }
}

/// Classify the first byte of an instruction, or return `None` for a byte
/// outside the supported subset.
pub fn get_opcode(byte: u8) -> (r: Option<OpCode>)
    ensures
        r == spec_classify(byte),
{
    if byte / 16 == 0x0B {
        Some(OpCode::RegisterImmediateMov)
    } else if byte / 2 == 0x63 {
        Some(OpCode::ImmediateToMem)
    } else if byte / 4 == 0x22 {
        Some(OpCode::MovMem)
    } else if byte / 4 == 0x00 {
        Some(OpCode::AddMemMem)
    } else if byte / 4 == 0x0A {
        Some(OpCode::SubMemMem)
    } else if byte / 4 == 0x0E {
        Some(OpCode::CmpMemMem)
    } else if byte / 4 == 0x20 {
        Some(OpCode::ImmediateArithmetic)
    } else if byte / 2 == 0x02 {
        Some(OpCode::ImmediateToAccumulator)
    } else if byte / 2 == 0x16 {
        Some(OpCode::ImmediateFromAccumulator)
    } else if byte / 2 == 0x1E {
        Some(OpCode::CmpImmediateToAccumulator)
    } else if byte == 0x70 {
        Some(OpCode::Jo)
    } else if byte == 0x71 {
        Some(OpCode::Jno)
    } else if byte == 0x72 {
        Some(OpCode::Jb)
    } else if byte == 0x73 {
        Some(OpCode::Jnb)
    } else if byte == 0x74 {
        Some(OpCode::Je)
    } else if byte == 0x75 {
        Some(OpCode::JneJnz)
    } else if byte == 0x76 {
        Some(OpCode::Jbe)
    } else if byte == 0x77 {
        Some(OpCode::Ja)
    } else if byte == 0x78 {
        Some(OpCode::Js)
    } else if byte == 0x79 {
        Some(OpCode::Jns)
    } else if byte == 0x7A {
        Some(OpCode::Jp)
    } else if byte == 0x7B {
        Some(OpCode::Jnp)
    } else if byte == 0x7C {
        Some(OpCode::Jl)
    } else if byte == 0x7D {
        Some(OpCode::Jnl)
    } else if byte == 0x7E {
        Some(OpCode::Jle)
    } else if byte == 0x7F {
        Some(OpCode::Jg)
    } else if byte == 0xE0 {
        Some(OpCode::Loopnz)
    } else if byte == 0xE1 {
        Some(OpCode::Loopz)
    } else if byte == 0xE2 {
        Some(OpCode::Loop)
    } else if byte == 0xE3 {
        Some(OpCode::Jcxz)
    } else {
        None
    }
}

/// True of first bytes that start a conditional jump, a loop, or `jcxz`:
/// the classes whose instructions are one opcode byte plus one signed
/// displacement byte.
pub open spec fn spec_is_jump_class(op: OpCode) -> bool {
    match op {
        OpCode::RegisterImmediateMov => false,
        OpCode::MovMem => false,
        OpCode::AddMemMem => false,
        OpCode::SubMemMem => false,
        OpCode::CmpMemMem => false,
        OpCode::ImmediateArithmetic => false,
        OpCode::ImmediateToAccumulator => false,
        OpCode::ImmediateFromAccumulator => false,
        OpCode::CmpImmediateToAccumulator => false,
        OpCode::ImmediateToMem => false,
        _ => true,
    }
}

/// Register identity: the eight 8-bit halves followed by the eight 16-bit
/// words, ordered so that the decoder's index `reg_field + 8 * w` selects
/// the right variant by position.
#[derive(Clone, Copy, Debug, PartialEq, Eq, Structural)]
pub enum Register {
    Al,
    Cl,
    Dl,
    Bl,
    Ah,
    Ch,
    Dh,
    Bh,
    Ax,
    Cx,
    Dx,
    Bx,
    Sp,
    Bp,
    Si,
    Di,
}

/// The position of a register in the decoding table:
/// `reg_field (3 bits) | (w_bit << 3)`.
pub open spec fn spec_reg_index(r: Register) -> u8 {
    match r {
        Register::Al => 0,
        Register::Cl => 1,
        Register::Dl => 2,
        Register::Bl => 3,
        Register::Ah => 4,
        Register::Ch => 5,
        Register::Dh => 6,
        Register::Bh => 7,
        Register::Ax => 8,
        Register::Cx => 9,
        Register::Dx => 10,
        Register::Bx => 11,
        Register::Sp => 12,
        Register::Bp => 13,
        Register::Si => 14,
        Register::Di => 15,
    }
}

/// The register at a position of the decoding table.
pub open spec fn spec_register_at(i: u8) -> Register
    recommends
        i < 16,
{
    if i == 0 {
        Register::Al
    } else if i == 1 {
        Register::Cl
    } else if i == 2 {
        Register::Dl
    } else if i == 3 {
        Register::Bl
    } else if i == 4 {
        Register::Ah
    } else if i == 5 {
        Register::Ch
    } else if i == 6 {
        Register::Dh
    } else if i == 7 {
        Register::Bh
    } else if i == 8 {
        Register::Ax
    } else if i == 9 {
        Register::Cx
    } else if i == 10 {
        Register::Dx
    } else if i == 11 {
        Register::Bx
    } else if i == 12 {
        Register::Sp
    } else if i == 13 {
        Register::Bp
    } else if i == 14 {
        Register::Si
    } else {
        Register::Di
    }
}

/// The position of a register in the decoding table.
pub fn register_index(register: Register) -> (r: u8)
    ensures
        r == spec_reg_index(register),
{
    match register {
        Register::Al => 0,
        Register::Cl => 1,
        Register::Dl => 2,
        Register::Bl => 3,
        Register::Ah => 4,
        Register::Ch => 5,
        Register::Dh => 6,
        Register::Bh => 7,
        Register::Ax => 8,
        Register::Cx => 9,
        Register::Dx => 10,
        Register::Bx => 11,
        Register::Sp => 12,
        Register::Bp => 13,
        Register::Si => 14,
        Register::Di => 15,
    }
}

/// The register's position is inverse to the table index.
pub broadcast proof fn lemma_register_at_roundtrip(i: u8)
    requires
        i < 16,
    ensures
        spec_reg_index(#[trigger] spec_register_at(i)) == i,
{
}

/// Whether a register is one of the eight 16-bit words.
pub open spec fn spec_is_word_register(r: Register) -> bool {
    spec_reg_index(r) >= 8
}

/// Operand width: one byte or one 16-bit word.
#[derive(Clone, Copy, Debug, PartialEq, Eq, Structural)]
pub enum WordByte {
    Byte,
    Word,
}

/// The `w` bit that encodes a width.
pub open spec fn spec_w_bit(w: WordByte) -> u8 {
    match w {
        WordByte::Byte => 0,
        WordByte::Word => 1,
    }
}

/// The width selected by a `w` bit.
pub open spec fn spec_word_byte(bit: u8) -> WordByte
    recommends
        bit < 2,
{
    if bit == 0 {
        WordByte::Byte
    } else {
        WordByte::Word
    }
}

/// Decode a `w` bit into a width.
pub fn word_byte_from_bit(bit: u8) -> (r: WordByte)
    requires
        bit < 2,
    ensures
        r == spec_word_byte(bit),
{
    if bit == 0 {
        WordByte::Byte
    } else {
        WordByte::Word
    }
}

/// Direction bit of an r/m instruction: whether the `reg` operand is the
/// source (`RegRm`) or the destination (`RmReg`).
#[derive(Clone, Copy, Debug, PartialEq, Eq, Structural)]
pub enum Direction {
    RegRm,
    RmReg,
}

/// The `d` bit that encodes a direction.
pub open spec fn spec_d_bit(d: Direction) -> u8 {
    match d {
        Direction::RegRm => 0,
        Direction::RmReg => 1,
    }
}

/// The direction selected by a `d` bit.
pub open spec fn spec_direction(bit: u8) -> Direction
    recommends
        bit < 2,
{
    if bit == 0 {
        Direction::RegRm
    } else {
        Direction::RmReg
    }
}

/// Decode a `d` bit into a direction.
pub fn direction_from_bit(bit: u8) -> (r: Direction)
    requires
        bit < 2,
    ensures
        r == spec_direction(bit),
{
    if bit == 0 {
        Direction::RegRm
    } else {
        Direction::RmReg
    }
}

/// Addressing mode from the top two bits of the `mod/reg/r/m` byte.
#[derive(Clone, Copy, Debug, PartialEq, Eq, Structural)]
pub enum Mode {
    MemNoDisplacement,
    Mem8BitDisplacement,
    Mem16BitDisplacement,
    Register,
}

/// The addressing mode selected by a `mod` field.
pub open spec fn spec_mode(bits: u8) -> Mode
    recommends
        bits < 4,
{
    if bits == 0 {
        Mode::MemNoDisplacement
    } else if bits == 1 {
        Mode::Mem8BitDisplacement
    } else if bits == 2 {
        Mode::Mem16BitDisplacement
    } else {
        Mode::Register
    }
}

/// Decode a `mod` field into an addressing mode.
pub fn mode_from_bits(bits: u8) -> (r: Mode)
    requires
        bits < 4,
    ensures
        r == spec_mode(bits),
{
    if bits == 0 {
        Mode::MemNoDisplacement
    } else if bits == 1 {
        Mode::Mem8BitDisplacement
    } else if bits == 2 {
        Mode::Mem16BitDisplacement
    } else {
        Mode::Register
    }
}

/// Arithmetic operation selected by the middle three bits of the second
/// byte of an `ImmediateArithmetic` instruction.
#[derive(Clone, Copy, Debug, PartialEq, Eq, Structural)]
pub enum ArithmeticOpCode {
    Add,
    Sub,
    Cmp,
}

/// The middle-bits code of an arithmetic operation.
pub open spec fn spec_arith_code(op: ArithmeticOpCode) -> u8 {
    match op {
        ArithmeticOpCode::Add => 0,
        ArithmeticOpCode::Sub => 5,
        ArithmeticOpCode::Cmp => 7,
    }
}

/// The arithmetic operation of a middle-bits code, or `None` for the codes
/// outside the supported subset.
pub open spec fn spec_arith_of_code(code: u8) -> Option<ArithmeticOpCode> {
    if code == 0 {
        Some(ArithmeticOpCode::Add)
    } else if code == 5 {
        Some(ArithmeticOpCode::Sub)
    } else if code == 7 {
        Some(ArithmeticOpCode::Cmp)
    } else {
        None
    }
}

/// Decode the middle-bits code of an arithmetic operation.
pub fn arith_from_code(code: u8) -> (r: Option<ArithmeticOpCode>)
    ensures
        r == spec_arith_of_code(code),
{
    if code == 0 {
        Some(ArithmeticOpCode::Add)
    } else if code == 5 {
        Some(ArithmeticOpCode::Sub)
    } else if code == 7 {
        Some(ArithmeticOpCode::Cmp)
    } else {
        None
    }
}

/// Look up a register by its 3-bit field and the `w` bit of the width.
pub fn get_register_enum(register_field: u8, word_byte_field: WordByte) -> (r: Register)
    requires
        register_field < 8,
    ensures
        r == spec_register_at((register_field + 8 * spec_w_bit(word_byte_field)) as u8),
{
    let index: u8 = register_field + match word_byte_field {
        WordByte::Byte => 0,
        WordByte::Word => 8,
    };
    if index == 0 {
        Register::Al
    } else if index == 1 {
        Register::Cl
    } else if index == 2 {
        Register::Dl
    } else if index == 3 {
        Register::Bl
    } else if index == 4 {
        Register::Ah
    } else if index == 5 {
        Register::Ch
    } else if index == 6 {
        Register::Dh
    } else if index == 7 {
        Register::Bh
    } else if index == 8 {
        Register::Ax
    } else if index == 9 {
        Register::Cx
    } else if index == 10 {
        Register::Dx
    } else if index == 11 {
        Register::Bx
    } else if index == 12 {
        Register::Sp
    } else if index == 13 {
        Register::Bp
    } else if index == 14 {
        Register::Si
    } else {
        Register::Di
    }
}

/// Look up the register selected by the low three bits (the `r/m` field)
/// of a `mod/reg/r/m` byte.
pub fn get_rm_register_field(byte: u8, word_byte_field: WordByte) -> (r: Register)
    ensures
        r == spec_register_at((byte % 8 + 8 * spec_w_bit(word_byte_field)) as u8),
{
    get_register_enum(byte % 8, word_byte_field)
}

/// The lower-case assembly name of a register.
pub open spec fn spec_reg_name(r: Register) -> Seq<char> {
    match r {
        Register::Al => "al"@,
        Register::Cl => "cl"@,
        Register::Dl => "dl"@,
        Register::Bl => "bl"@,
        Register::Ah => "ah"@,
        Register::Ch => "ch"@,
        Register::Dh => "dh"@,
        Register::Bh => "bh"@,
        Register::Ax => "ax"@,
        Register::Cx => "cx"@,
        Register::Dx => "dx"@,
        Register::Bx => "bx"@,
        Register::Sp => "sp"@,
        Register::Bp => "bp"@,
        Register::Si => "si"@,
        Register::Di => "di"@,
    }
}

/// The lower-case assembly name of a register.
pub fn register_to_assembly_name(register: Register) -> (r: String)
    ensures
        r@ == spec_reg_name(register),
{
    match register {
        Register::Al => "al".to_owned(),
        Register::Cl => "cl".to_owned(),
        Register::Dl => "dl".to_owned(),
        Register::Bl => "bl".to_owned(),
        Register::Ah => "ah".to_owned(),
        Register::Ch => "ch".to_owned(),
        Register::Dh => "dh".to_owned(),
        Register::Bh => "bh".to_owned(),
        Register::Ax => "ax".to_owned(),
        Register::Cx => "cx".to_owned(),
        Register::Dx => "dx".to_owned(),
        Register::Bx => "bx".to_owned(),
        Register::Sp => "sp".to_owned(),
        Register::Bp => "bp".to_owned(),
        Register::Si => "si".to_owned(),
        Register::Di => "di".to_owned(),
    }
}

} // verus!
