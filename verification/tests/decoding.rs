//! Decoder and printer behaviour on concrete byte streams.

use sim86::byte_operations::{concat_bytes, i16_from_u16, sign_extend_8};
use sim86::common_assembly::{
    get_opcode, get_register_enum, get_rm_register_field, register_to_assembly_name, OpCode,
    Register, WordByte,
};
use sim86::decode::{decode, DecodeError};
use sim86::instruction::encode_instruction;
use sim86::disassemble::{
    arithmetic_diassembly, disassemble, mem_mem_disassembly, mov_mem, no_displacement_address,
    no_displacement_address_arithmetic, rm_field_to_displacement,
};
use sim86::text::{i16_to_dec, u16_to_dec, u16_to_hex};

#[test]
fn concat_bytes_is_little_endian_composition() {
    assert_eq!(concat_bytes(0x12, 0x34), 0x1234);
    assert_eq!(concat_bytes(0, 0), 0);
    assert_eq!(concat_bytes(0xFF, 0xFF), 0xFFFF);
}

#[test]
fn sign_extension_propagates_the_sign() {
    assert_eq!(sign_extend_8(0x7F), 0x007F);
    assert_eq!(sign_extend_8(0x80), 0xFF80);
    assert_eq!(sign_extend_8(0xFF), 0xFFFF);
    assert_eq!(i16_from_u16(0xFFFF), -1);
    assert_eq!(i16_from_u16(0x8000), -32768);
    assert_eq!(i16_from_u16(0x7FFF), 32767);
}

#[test]
fn number_rendering() {
    assert_eq!(u16_to_dec(0), "0");
    assert_eq!(u16_to_dec(12), "12");
    assert_eq!(u16_to_dec(65535), "65535");
    assert_eq!(i16_to_dec(-32), "-32");
    assert_eq!(i16_to_dec(-32768), "-32768");
    assert_eq!(i16_to_dec(2), "2");
    assert_eq!(u16_to_hex(0), "0x0000");
    assert_eq!(u16_to_hex(0xABCD), "0xABCD");
    assert_eq!(u16_to_hex(0x0103), "0x0103");
}

#[test]
fn opcode_classification() {
    assert_eq!(get_opcode(0x89), Some(OpCode::MovMem));
    assert_eq!(get_opcode(0xB1), Some(OpCode::RegisterImmediateMov));
    assert_eq!(get_opcode(0x03), Some(OpCode::AddMemMem));
    assert_eq!(get_opcode(0x2B), Some(OpCode::SubMemMem));
    assert_eq!(get_opcode(0x3B), Some(OpCode::CmpMemMem));
    assert_eq!(get_opcode(0x83), Some(OpCode::ImmediateArithmetic));
    assert_eq!(get_opcode(0xC6), Some(OpCode::ImmediateToMem));
    assert_eq!(get_opcode(0x04), Some(OpCode::ImmediateToAccumulator));
    assert_eq!(get_opcode(0x2D), Some(OpCode::ImmediateFromAccumulator));
    assert_eq!(get_opcode(0x3C), Some(OpCode::CmpImmediateToAccumulator));
    assert_eq!(get_opcode(0x74), Some(OpCode::Je));
    assert_eq!(get_opcode(0x75), Some(OpCode::JneJnz));
    assert_eq!(get_opcode(0xE2), Some(OpCode::Loop));
    assert_eq!(get_opcode(0xE3), Some(OpCode::Jcxz));
    assert_eq!(get_opcode(0x0F), None);
    assert_eq!(get_opcode(0x06), None);
    assert_eq!(get_opcode(0xFF), None);
}

#[test]
fn register_table_follows_the_index() {
    assert_eq!(get_register_enum(0, WordByte::Byte), Register::Al);
    assert_eq!(get_register_enum(3, WordByte::Word), Register::Bx);
    assert_eq!(get_register_enum(7, WordByte::Byte), Register::Bh);
    assert_eq!(get_register_enum(6, WordByte::Word), Register::Si);
    assert_eq!(get_rm_register_field(0xD9, WordByte::Word), Register::Cx);
    assert_eq!(register_to_assembly_name(Register::Si), "si");
    assert_eq!(register_to_assembly_name(Register::Al), "al");
    assert_eq!(register_to_assembly_name(Register::Bp), "bp");
}

#[test]
fn register_register_mov() {
    let code: Vec<u8> = vec![0x89, 0xD9];
    assert_eq!(disassemble(&code).unwrap(), "bits 16\nmov cx, bx\n");
}

#[test]
fn immediate_to_byte_register_mov() {
    let code: Vec<u8> = vec![0xB1, 0x0C];
    assert_eq!(disassemble(&code).unwrap(), "bits 16\nmov cl, 12\n");
}

#[test]
fn signed_displacement_mov() {
    let code: Vec<u8> = vec![0x8B, 0x57, 0xE0];
    assert_eq!(disassemble(&code).unwrap(), "bits 16\nmov dx, [bx + -32]\n");
}

#[test]
fn add_memory_to_register() {
    let code: Vec<u8> = vec![0x03, 0x18];
    assert_eq!(disassemble(&code).unwrap(), "bits 16\nadd bx, [bx + si]\n");
}

#[test]
fn sign_extended_immediate_add() {
    let code: Vec<u8> = vec![0x83, 0xC6, 0x02];
    assert_eq!(disassemble(&code).unwrap(), "bits 16\nadd si, 2\n");
}

#[test]
fn forward_jnz() {
    let code: Vec<u8> = vec![0x75, 0x02];
    assert_eq!(disassemble(&code).unwrap(), "bits 16\njnz $ + 2 + 2\n");
}

#[test]
fn backward_jnz() {
    let code: Vec<u8> = vec![0x75, 0xFE];
    assert_eq!(disassemble(&code).unwrap(), "bits 16\njnz $ + 2 + -2\n");
}

#[test]
fn loop_and_jcxz_decode() {
    let code: Vec<u8> = vec![0xE2, 0xFC, 0xE3, 0x00];
    assert_eq!(
        disassemble(&code).unwrap(),
        "bits 16\nloop $ + 2 + -4\njcxz $ + 2 + 0\n"
    );
}

#[test]
fn immediate_to_memory_mov_both_widths() {
    let byte_form: Vec<u8> = vec![0xC6, 0x06, 0x10, 0x00, 0x07];
    assert_eq!(
        disassemble(&byte_form).unwrap(),
        "bits 16\nmov byte [16], 7\n"
    );
    let word_form: Vec<u8> = vec![0xC7, 0x06, 0x10, 0x00, 0x07, 0x00];
    assert_eq!(
        disassemble(&word_form).unwrap(),
        "bits 16\nmov word [16], 7\n"
    );
}

#[test]
fn immediate_arithmetic_to_memory_has_width_token() {
    let code: Vec<u8> = vec![0x83, 0x06, 0x10, 0x00, 0x05];
    assert_eq!(disassemble(&code).unwrap(), "bits 16\nadd word [16], 5\n");
}

#[test]
fn sixteen_bit_displacement() {
    let code: Vec<u8> = vec![0x8B, 0x96, 0x00, 0x01];
    assert_eq!(disassemble(&code).unwrap(), "bits 16\nmov dx, [bp + 256]\n");
}

#[test]
fn accumulator_arithmetic_listing() {
    let code: Vec<u8> = vec![0x04, 0x05, 0x2D, 0x01, 0x00, 0x3C, 0x00];
    assert_eq!(
        disassemble(&code).unwrap(),
        "bits 16\nadd al, 5\nsub ax, 1\ncmp al, 0\n"
    );
}

#[test]
fn bare_index_registers_are_bracketed() {
    // r/m fields 4, 5 and 7 under mod 00: [si], [di], [bx].
    let code: Vec<u8> = vec![0x8B, 0x14, 0x8B, 0x15, 0x8B, 0x17];
    assert_eq!(
        disassemble(&code).unwrap(),
        "bits 16\nmov dx, [si]\nmov dx, [di]\nmov dx, [bx]\n"
    );
}

#[test]
fn empty_input_is_just_the_header() {
    let code: Vec<u8> = Vec::new();
    assert_eq!(disassemble(&code).unwrap(), "bits 16\n");
}

#[test]
fn decode_lengths_cover_two_to_six() {
    let two: Vec<u8> = vec![0x89, 0xD9];
    assert_eq!(decode(&two, 0).unwrap().1, 2);
    let three: Vec<u8> = vec![0xB8, 0x01, 0x00];
    assert_eq!(decode(&three, 0).unwrap().1, 3);
    let four: Vec<u8> = vec![0x8B, 0x96, 0x00, 0x01];
    assert_eq!(decode(&four, 0).unwrap().1, 4);
    let five: Vec<u8> = vec![0xC6, 0x06, 0x10, 0x00, 0x07];
    assert_eq!(decode(&five, 0).unwrap().1, 5);
    let six: Vec<u8> = vec![0xC7, 0x06, 0x10, 0x00, 0x07, 0x00];
    assert_eq!(decode(&six, 0).unwrap().1, 6);
}

#[test]
fn decode_twice_gives_equal_records() {
    let code: Vec<u8> = vec![0x8B, 0x57, 0xE0, 0x75, 0x02];
    let first = decode(&code, 0);
    let second = decode(&code, 0);
    assert_eq!(first, second);
    let first_jump = decode(&code, 3);
    let second_jump = decode(&code, 3);
    assert_eq!(first_jump, second_jump);
}

#[test]
fn decode_advances_to_the_next_instruction() {
    let code: Vec<u8> = vec![0xB8, 0x01, 0x00, 0x89, 0xD9];
    let (_, len) = decode(&code, 0).unwrap();
    assert_eq!(len, 3);
    let (_, len2) = decode(&code, len).unwrap();
    assert_eq!(len2, 2);
    assert_eq!(len + len2, code.len());
}

#[test]
fn truncated_streams_are_reported() {
    let one: Vec<u8> = vec![0x89];
    assert_eq!(
        decode(&one, 0),
        Err(DecodeError::Truncated { at: 0, needed: 2 })
    );
    let imm: Vec<u8> = vec![0xB8, 0x01];
    assert_eq!(
        decode(&imm, 0),
        Err(DecodeError::Truncated { at: 0, needed: 3 })
    );
    let direct: Vec<u8> = vec![0x8B, 0x16, 0x10];
    assert_eq!(
        decode(&direct, 0),
        Err(DecodeError::Truncated { at: 0, needed: 4 })
    );
    let empty: Vec<u8> = Vec::new();
    assert_eq!(
        decode(&empty, 0),
        Err(DecodeError::Truncated { at: 0, needed: 1 })
    );
}

#[test]
fn unknown_opcode_is_reported_with_its_byte() {
    let code: Vec<u8> = vec![0x0F];
    assert_eq!(
        decode(&code, 0),
        Err(DecodeError::UnknownOpcode { at: 0, byte: 0x0F })
    );
}

#[test]
fn illegal_sub_opcodes_are_reported() {
    // Middle bits 001 select no supported arithmetic operation.
    let bad_arith: Vec<u8> = vec![0x80, 0x08, 0x01];
    assert_eq!(decode(&bad_arith, 0), Err(DecodeError::IllegalSubOp { at: 0 }));
    // Immediate-to-memory mov with a register destination.
    let reg_dest: Vec<u8> = vec![0xC6, 0xC0, 0x01];
    assert_eq!(decode(&reg_dest, 0), Err(DecodeError::IllegalSubOp { at: 0 }));
}

#[test]
fn no_displacement_address_forms() {
    let empty: Vec<u8> = Vec::new();
    assert_eq!(
        no_displacement_address(0, &empty, 0).unwrap(),
        ("[bx + si]".to_owned(), 0)
    );
    assert_eq!(
        no_displacement_address(4, &empty, 0).unwrap(),
        ("[si]".to_owned(), 0)
    );
    assert_eq!(
        no_displacement_address(7, &empty, 0).unwrap(),
        ("[bx]".to_owned(), 0)
    );
    let direct: Vec<u8> = vec![0x00, 0x00, 0x10, 0x00];
    assert_eq!(
        no_displacement_address(6, &direct, 0).unwrap(),
        ("[16]".to_owned(), 2)
    );
    let short: Vec<u8> = vec![0x00, 0x00];
    assert_eq!(
        no_displacement_address(6, &short, 0),
        Err(DecodeError::Truncated { at: 0, needed: 4 })
    );
    assert_eq!(
        no_displacement_address_arithmetic(5, &empty, 0).unwrap(),
        ("[di]".to_owned(), 0)
    );
}

#[test]
fn displacement_address_text() {
    assert_eq!(rm_field_to_displacement(0, 5), "[bx + si + 5]");
    assert_eq!(rm_field_to_displacement(6, -3), "[bp + -3]");
    assert_eq!(rm_field_to_displacement(7, 0), "[bx + 0]");
}

#[test]
fn mem_mem_disassembly_prints_one_line() {
    let code: Vec<u8> = vec![0x89, 0xD9];
    assert_eq!(
        mem_mem_disassembly(OpCode::MovMem, &code, 0).unwrap(),
        ("mov cx, bx\n".to_owned(), 2)
    );
    let cmp: Vec<u8> = vec![0x3B, 0x18];
    assert_eq!(
        mem_mem_disassembly(OpCode::CmpMemMem, &cmp, 0).unwrap(),
        ("cmp bx, [bx + si]\n".to_owned(), 2)
    );
}

#[test]
fn mov_mem_prints_one_line() {
    let code: Vec<u8> = vec![0x8B, 0x57, 0xE0];
    assert_eq!(
        mov_mem(&code, 0).unwrap(),
        ("mov dx, [bx + -32]\n".to_owned(), 3)
    );
}

#[test]
fn arithmetic_diassembly_uses_the_given_mnemonic() {
    let code: Vec<u8> = vec![0x01, 0xD8];
    assert_eq!(
        arithmetic_diassembly("add".to_owned(), &code, 0).unwrap(),
        ("add ax, bx\n".to_owned(), 2)
    );
}

#[test]
fn reencoding_one_decoded_instruction_reproduces_its_bytes() {
    let samples: Vec<Vec<u8>> = vec![
        vec![0x89, 0xD9],
        vec![0xB1, 0x0C],
        vec![0x8B, 0x57, 0xE0],
        vec![0x03, 0x18],
        vec![0x83, 0xC6, 0x02],
        vec![0x75, 0x02],
        vec![0xC6, 0x06, 0x10, 0x00, 0x07],
        vec![0xC7, 0x06, 0x10, 0x00, 0x07, 0x00],
        vec![0x8B, 0x96, 0x00, 0x01],
        vec![0x04, 0x05],
        vec![0x2D, 0x01, 0x00],
        vec![0x3C, 0x00],
        vec![0xE2, 0xFC],
    ];
    for code in samples {
        let (inst, len) = decode(&code, 0).unwrap();
        assert_eq!(len, code.len());
        assert_eq!(encode_instruction(&inst), code);
    }
}

#[test]
fn reencoding_a_whole_program_reproduces_it() {
    let code: Vec<u8> = vec![
        0xB8, 0x01, 0x00, 0xBB, 0x02, 0x00, 0x01, 0xD8, 0x83, 0xC6, 0x02, 0x75, 0xFE,
    ];
    let mut rebuilt: Vec<u8> = Vec::new();
    let mut index: usize = 0;
    while index < code.len() {
        let (inst, len) = decode(&code, index).unwrap();
        rebuilt.extend(encode_instruction(&inst));
        index += len;
    }
    assert_eq!(rebuilt, code);
}

#[test]
fn listing_stops_at_the_first_bad_byte() {
    let code: Vec<u8> = vec![0x89, 0xD9, 0x0F];
    assert_eq!(
        disassemble(&code),
        Err(DecodeError::UnknownOpcode { at: 2, byte: 0x0F })
    );
}
