//! Machine-state operations and whole-program simulation runs.

use sim86::common_assembly::{OpCode, Register, WordByte};
use sim86::decode::DecodeError;
use sim86::simulate::{simulate, SimError};
use sim86::simulator_state::{
    get_mem16, get_mem8, get_sim_state_diff, set_mem16, set_mem8, zeroed_memory, SimulationState,
};

#[test]
fn word_registers_read_back_whole() {
    let mut state = SimulationState::new();
    state.set_register_value(Register::Bx, 0xBEEF);
    assert_eq!(state.get_register_value(Register::Bx), 0xBEEF);
    assert_eq!(state.get_register_value(Register::Bl), 0xEF);
    assert_eq!(state.get_register_value(Register::Bh), 0xBE);
}

#[test]
fn low_half_write_preserves_the_high_byte() {
    let mut state = SimulationState::new();
    state.set_register_value(Register::Ax, 0x1234);
    state.set_register_value(Register::Al, 0x56);
    assert_eq!(state.get_register_value(Register::Ax), 0x1256);
    assert_eq!(state.get_register_value(Register::Ah), 0x12);
    assert_eq!(state.get_register_value(Register::Al), 0x56);
}

#[test]
fn high_half_write_preserves_the_low_byte() {
    let mut state = SimulationState::new();
    state.set_register_value(Register::Cx, 0x1234);
    state.set_register_value(Register::Ch, 0x56);
    assert_eq!(state.get_register_value(Register::Cx), 0x5634);
    assert_eq!(state.get_register_value(Register::Cl), 0x34);
}

#[test]
fn half_writes_touch_no_other_register() {
    let mut state = SimulationState::new();
    state.set_register_value(Register::Dx, 0x1111);
    state.set_register_value(Register::Bx, 0x2222);
    state.set_register_value(Register::Dh, 0xAB);
    assert_eq!(state.get_register_value(Register::Dx), 0xAB11);
    assert_eq!(state.get_register_value(Register::Bx), 0x2222);
}

#[test]
fn flags_follow_the_result_and_its_width() {
    let mut state = SimulationState::new();
    state.set_flags(0, WordByte::Word);
    assert!(state.zero_flag);
    assert!(!state.sign_flag);
    state.set_flags(0x8000, WordByte::Word);
    assert!(!state.zero_flag);
    assert!(state.sign_flag);
    state.set_flags(0x80, WordByte::Byte);
    assert!(state.sign_flag);
    state.set_flags(0x7F, WordByte::Byte);
    assert!(!state.sign_flag);
}

#[test]
fn memory_reads_back_what_was_written() {
    let mut mem = zeroed_memory();
    assert_eq!(get_mem8(&mem, 0x12345), 0);
    set_mem8(&mut mem, 0x12345, 0xAB);
    assert_eq!(get_mem8(&mem, 0x12345), 0xAB);
    set_mem16(&mut mem, 0xFFFF, 0x1234);
    assert_eq!(get_mem16(&mem, 0xFFFF), 0x1234);
    assert_eq!(get_mem8(&mem, 0xFFFF), 0x34);
    assert_eq!(get_mem8(&mem, 0x10000), 0x12);
}

#[test]
fn state_diff_lists_only_changes() {
    let before = SimulationState::new();
    let mut after = SimulationState::new();
    after.ax = 1;
    after.ip = 3;
    assert_eq!(
        get_sim_state_diff(&before, &after),
        "ax: 0x0000 -> 0x0001 ip: 0x0000 -> 0x0003 \n"
    );
    assert_eq!(get_sim_state_diff(&before, &before), "\n");
}

#[test]
fn state_diff_reports_flag_changes() {
    let before = SimulationState::new();
    let mut after = SimulationState::new();
    after.zero_flag = true;
    assert_eq!(get_sim_state_diff(&before, &after), "Flags:  -> Z\n");
}

#[test]
fn pretty_string_of_the_zero_state() {
    let state = SimulationState::new();
    assert_eq!(
        state.pretty_string(),
        "ax: 0x0000(0)\nbx: 0x0000(0)\ncx: 0x0000(0)\ndx: 0x0000(0)\nsp: 0x0000(0)\nbp: 0x0000(0)\nsi: 0x0000(0)\ndi: 0x0000(0)\nFlags: "
    );
}

#[test]
fn three_instruction_program_adds_into_ax() {
    let code: Vec<u8> = vec![0xB8, 0x01, 0x00, 0xBB, 0x02, 0x00, 0x01, 0xD8];
    let (listing, log) = simulate(&code).unwrap();
    assert_eq!(listing, "bits 16\nmov ax, 1\nmov bx, 2\nadd ax, bx\n");
    assert!(log.contains("mov ax, 1 ; ax: 0x0000 -> 0x0001 ip: 0x0000 -> 0x0003 \n"));
    assert!(log.contains("mov bx, 2 ; bx: 0x0000 -> 0x0002 ip: 0x0003 -> 0x0006 \n"));
    assert!(log.contains("add ax, bx ; ax: 0x0001 -> 0x0003 ip: 0x0006 -> 0x0008 \n"));
    assert!(log.contains("Final registers:\n"));
    assert!(log.contains("ax: 0x0003(3)\n"));
    assert!(log.contains("bx: 0x0002(2)\n"));
    assert!(log.ends_with("Flags: \n"));
}

#[test]
fn taken_jnz_moves_ip_past_the_displacement() {
    let code: Vec<u8> = vec![0x75, 0x02];
    let (_, log) = simulate(&code).unwrap();
    assert!(log.contains("jnz $ + 2 + 2 ; ip: 0x0000 -> 0x0004 \n"));
}

#[test]
fn untaken_jnz_only_steps_over_itself() {
    // mov ax, 1 ; sub ax, 1 sets the zero flag, so the jump falls through.
    let code: Vec<u8> = vec![0xB8, 0x01, 0x00, 0x2D, 0x01, 0x00, 0x75, 0x02];
    let (_, log) = simulate(&code).unwrap();
    assert!(log.contains("jnz $ + 2 + 2 ; ip: 0x0006 -> 0x0008 \n"));
    assert!(log.contains("ax: 0x0000(0)\n"));
    assert!(log.ends_with("Flags: Z\n"));
}

#[test]
fn taken_je_follows_the_zero_flag() {
    let code: Vec<u8> = vec![0xB8, 0x01, 0x00, 0x2D, 0x01, 0x00, 0x74, 0x02];
    let (_, log) = simulate(&code).unwrap();
    assert!(log.contains("je $ + 2 + 2 ; ip: 0x0006 -> 0x000A \n"));
}

#[test]
fn subtraction_below_zero_sets_the_sign_flag() {
    let code: Vec<u8> = vec![0xB8, 0x00, 0x00, 0x2D, 0x01, 0x00];
    let (_, log) = simulate(&code).unwrap();
    assert!(log.contains("ax: 0xFFFF(65535)\n"));
    assert!(log.ends_with("Flags: S\n"));
}

#[test]
fn cmp_sets_flags_but_keeps_registers() {
    let code: Vec<u8> = vec![0xB8, 0x05, 0x00, 0x3D, 0x05, 0x00];
    let (listing, log) = simulate(&code).unwrap();
    assert_eq!(listing, "bits 16\nmov ax, 5\ncmp ax, 5\n");
    assert!(log.contains("ax: 0x0005(5)\n"));
    assert!(log.ends_with("Flags: Z\n"));
}

#[test]
fn memory_round_trip_through_a_direct_address() {
    // mov word [16], 7 ; mov bx, [16]
    let code: Vec<u8> = vec![
        0xC7, 0x06, 0x10, 0x00, 0x07, 0x00, 0x8B, 0x1E, 0x10, 0x00,
    ];
    let (listing, log) = simulate(&code).unwrap();
    assert_eq!(listing, "bits 16\nmov word [16], 7\nmov bx, [16]\n");
    assert!(log.contains("bx: 0x0007(7)\n"));
}

#[test]
fn store_through_a_register_base_and_load_a_byte_back() {
    // mov ax, 0x1234 ; mov [bx + si], ax ; mov dl, [0]
    let code: Vec<u8> = vec![
        0xB8, 0x34, 0x12, 0x89, 0x00, 0x8A, 0x16, 0x00, 0x00,
    ];
    let (listing, log) = simulate(&code).unwrap();
    assert_eq!(
        listing,
        "bits 16\nmov ax, 4660\nmov [bx + si], ax\nmov dl, [0]\n"
    );
    assert!(log.contains("dx: 0x0034(52)\n"));
}

#[test]
fn half_register_moves_compose_in_simulation() {
    // mov ah, 0x12 ; mov al, 0x34
    let code: Vec<u8> = vec![0xB4, 0x12, 0xB0, 0x34];
    let (_, log) = simulate(&code).unwrap();
    assert!(log.contains("ax: 0x1234(4660)\n"));
}

#[test]
fn unimplemented_loop_is_reported() {
    let code: Vec<u8> = vec![0xE2, 0xFE];
    assert_eq!(
        simulate(&code),
        Err(SimError::ExecUnimplemented { at: 0, mnemonic: OpCode::Loop })
    );
}

#[test]
fn endless_loop_hits_the_step_limit() {
    // jnz $ + 2 + -2 jumps back onto itself while the zero flag is clear.
    let code: Vec<u8> = vec![0x75, 0xFE];
    assert_eq!(simulate(&code), Err(SimError::StepLimit { at: 0 }));
}

#[test]
fn simulation_surfaces_decode_errors() {
    let code: Vec<u8> = vec![0x0F];
    assert_eq!(
        simulate(&code),
        Err(SimError::Decode(DecodeError::UnknownOpcode { at: 0, byte: 0x0F }))
    );
}
