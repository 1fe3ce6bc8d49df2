//! The executor and the simulation driver: apply decoded instructions to
//! the machine state, and run a whole program step by step, emitting a
//! per-step trace.
//!
//! The driver pre-advances `ip` by the instruction's byte length before
//! the instruction executes; a taken jump then adds its signed
//! displacement, which is exactly the `$ + 2 + disp` target the printer
//! writes.

use vstd::prelude::*;
use crate::common_assembly::{ArithmeticOpCode, Direction, OpCode, Register, WordByte};
use crate::byte_operations::{spec_sign_extend_8, sign_extend_8};
use crate::decode::{decode, lemma_decode_encode, DecodeError, spec_decode};
use crate::disassemble::{disassemble, format_instruction, spec_line, spec_listing_lines};
use crate::instruction::{BinOp, Displacement, EffAddr, EffAddrBase, Inst, RmOperand};
use crate::simulator_state::{
    get_mem16, get_mem8, get_sim_state_diff, set_mem16, set_mem8, spec_get_reg, spec_mem16,
    spec_pretty, spec_set_flags, spec_set_reg, spec_state_diff, zeroed_memory, SimulationState,
    MEM_SIZE,
};

verus! {

/// The most steps one simulation run will execute before it gives up;
/// a program that is still running after this many steps is reported
/// instead of followed forever.
pub const STEP_LIMIT: usize = 1000000;

/// Why a simulation stopped short.
#[derive(Clone, Copy, Debug, PartialEq, Eq, Structural)]
pub enum SimError {
    /// A byte at the instruction pointer failed to decode.
    Decode(DecodeError),
    /// The instruction at `at` decodes but its execution is outside the
    /// modelled subset (a jump or loop other than `jz`/`jnz`).
    ExecUnimplemented { at: usize, mnemonic: OpCode },
    /// The run at `at` was still going after the step limit.
    StepLimit { at: usize },
}

/// The all-zero machine state a run starts from.
pub open spec fn spec_initial_state() -> SimulationState {
    SimulationState {
        ax: 0u16,
        bx: 0u16,
        cx: 0u16,
        dx: 0u16,
        sp: 0u16,
        bp: 0u16,
        si: 0u16,
        di: 0u16,
        sign_flag: false,
        zero_flag: false,
        ip: 0u16,
    }
}

/// The all-zero memory a run starts from.
pub open spec fn spec_zero_mem() -> Seq<u8> {
    Seq::new(MEM_SIZE as nat, |i: int| 0u8)
}

/// The 16-bit offset of a memory operand, from the live base registers
/// plus the sign-extended displacement, modulo 2^16.
pub open spec fn spec_ea_addr(s: SimulationState, ea: EffAddr) -> u16 {
    let base: int = match ea.base {
        EffAddrBase::BxSi => s.bx + s.si,
        EffAddrBase::BxDi => s.bx + s.di,
        EffAddrBase::BpSi => s.bp + s.si,
        EffAddrBase::BpDi => s.bp + s.di,
        EffAddrBase::Si => s.si as int,
        EffAddrBase::Di => s.di as int,
        EffAddrBase::Bp => s.bp as int,
        EffAddrBase::Bx => s.bx as int,
        EffAddrBase::Direct => 0,
    };
    let disp: int = match ea.disp {
        Displacement::Zero => 0,
        Displacement::Byte(b) => spec_sign_extend_8(b) as int,
        Displacement::Word(v) => v as int,
    };
    ((base + disp) % 0x10000) as u16
}

/// The value an r/m operand reads: a register, or memory at the live
/// effective address, one byte zero-extended or a little-endian word.
pub open spec fn spec_read_rm(
    s: SimulationState,
    mem: Seq<u8>,
    rm: RmOperand,
    w: WordByte,
) -> u16 {
    match rm {
        RmOperand::Reg(r) => spec_get_reg(s, r),
        RmOperand::Mem(ea) => {
            let addr = spec_ea_addr(s, ea);
            if w == WordByte::Word {
                spec_mem16(mem, addr as int)
            } else {
                mem[addr as int] as u16
            }
        },
    }
}

/// The state and memory after a value is stored to an r/m operand.
pub open spec fn spec_write_rm(
    s: SimulationState,
    mem: Seq<u8>,
    rm: RmOperand,
    w: WordByte,
    v: u16,
) -> (SimulationState, Seq<u8>) {
    match rm {
        RmOperand::Reg(r) => (spec_set_reg(s, r, v), mem),
        RmOperand::Mem(ea) => {
            let addr = spec_ea_addr(s, ea) as int;
            if w == WordByte::Word {
                (s, mem.update(addr, (v % 256) as u8).update(addr + 1, (v / 256) as u8))
            } else {
                (s, mem.update(addr, (v % 256) as u8))
            }
        },
    }
}

/// The arithmetic result at the operation's width: addition or
/// two's-complement subtraction, modulo 2^16 or 2^8.
pub open spec fn spec_arith_result(
    op: ArithmeticOpCode,
    w: WordByte,
    dest: u16,
    src: u16,
) -> u16 {
    let m: int = if w == WordByte::Word {
        0x10000
    } else {
        0x100
    };
    match op {
        ArithmeticOpCode::Add => ((((dest as int) % m) + ((src as int) % m)) % m) as u16,
        _ => ((((dest as int) % m) + m - ((src as int) % m)) % m) as u16,
    }
}

/// One arithmetic step against an r/m destination: compute the result,
/// store it unless the operation is `cmp`, and set the flags from it.
pub open spec fn spec_arith_exec(
    op: ArithmeticOpCode,
    w: WordByte,
    dest: RmOperand,
    srcv: u16,
    s: SimulationState,
    mem: Seq<u8>,
) -> (SimulationState, Seq<u8>) {
    let destv = spec_read_rm(s, mem, dest, w);
    let result = spec_arith_result(op, w, destv, srcv);
    match op {
        ArithmeticOpCode::Cmp => (spec_set_flags(s, result, w), mem),
        _ => {
            let written = spec_write_rm(s, mem, dest, w, result);
            (spec_set_flags(written.0, result, w), written.1)
        },
    }
}

/// The state with `ip` moved by a signed 8-bit jump displacement,
/// modulo 2^16.
pub open spec fn spec_jump_ip(s: SimulationState, disp: u8) -> SimulationState {
    SimulationState { ip: ((s.ip + spec_sign_extend_8(disp)) % 0x10000) as u16, ..s }
}

/// What executing one instruction does to a machine state whose `ip`
/// was already advanced past the instruction, or `None` when the
/// instruction decodes but its execution is outside the modelled
/// subset.
pub open spec fn spec_execute(inst: Inst, s: SimulationState, mem: Seq<u8>) -> Option<
    (SimulationState, Seq<u8>),
> {
    match inst {
        Inst::RegImm { reg, imm } => Some((spec_set_reg(s, reg, imm), mem)),
        Inst::RmReg { op, w, d, reg, rm } => {
            let dest = match d {
                Direction::RegRm => rm,
                Direction::RmReg => RmOperand::Reg(reg),
            };
            let src = match d {
                Direction::RegRm => RmOperand::Reg(reg),
                Direction::RmReg => rm,
            };
            let srcv = spec_read_rm(s, mem, src, w);
            match op {
                BinOp::Mov => Some(spec_write_rm(s, mem, dest, w, srcv)),
                BinOp::Add => Some(spec_arith_exec(ArithmeticOpCode::Add, w, dest, srcv, s, mem)),
                BinOp::Sub => Some(spec_arith_exec(ArithmeticOpCode::Sub, w, dest, srcv, s, mem)),
                BinOp::Cmp => Some(spec_arith_exec(ArithmeticOpCode::Cmp, w, dest, srcv, s, mem)),
            }
        },
        Inst::ImmRm { op, w, s: sx, rm, imm } => {
            let srcv = if sx == 1 && w == WordByte::Word {
                spec_sign_extend_8((imm % 256) as u8)
            } else {
                imm
            };
            Some(spec_arith_exec(op, w, rm, srcv, s, mem))
        },
        Inst::ImmToMem { w, ea, imm } => Some(spec_write_rm(s, mem, RmOperand::Mem(ea), w, imm)),
        Inst::AccImm { op, w, imm } => {
            let acc = if w == WordByte::Word {
                Register::Ax
            } else {
                Register::Al
            };
            Some(spec_arith_exec(op, w, RmOperand::Reg(acc), imm, s, mem))
        },
        Inst::Jump { op, disp } => {
            if op == OpCode::JneJnz {
                Some(
                    (
                        if !s.zero_flag {
                            spec_jump_ip(s, disp)
                        } else {
                            s
                        },
                        mem,
                    ),
                )
            } else if op == OpCode::Je {
                Some(
                    (
                        if s.zero_flag {
                            spec_jump_ip(s, disp)
                        } else {
                            s
                        },
                        mem,
                    ),
                )
            } else {
                None
            }
        },
    }
}

/// The 16-bit offset of a memory operand from the live register values.
fn ea_address(sim_state: &SimulationState, ea: &EffAddr) -> (r: u16)
    ensures
        r == spec_ea_addr(*sim_state, *ea),
{
    let base: u32 = match ea.base {
        EffAddrBase::BxSi => sim_state.bx as u32 + sim_state.si as u32,
        EffAddrBase::BxDi => sim_state.bx as u32 + sim_state.di as u32,
        EffAddrBase::BpSi => sim_state.bp as u32 + sim_state.si as u32,
        EffAddrBase::BpDi => sim_state.bp as u32 + sim_state.di as u32,
        EffAddrBase::Si => sim_state.si as u32,
        EffAddrBase::Di => sim_state.di as u32,
        EffAddrBase::Bp => sim_state.bp as u32,
        EffAddrBase::Bx => sim_state.bx as u32,
        EffAddrBase::Direct => 0,
    };
    let disp: u32 = match ea.disp {
        Displacement::Zero => 0,
        Displacement::Byte(b) => sign_extend_8(b) as u32,
        Displacement::Word(v) => v as u32,
    };
    ((base + disp) % 0x10000) as u16
}

/// Read the value of an r/m operand from the live state and memory.
fn read_rm(sim_state: &SimulationState, mem: &Vec<u8>, rm: &RmOperand, w: WordByte) -> (r: u16)
    requires
        mem@.len() == MEM_SIZE,
    ensures
        r == spec_read_rm(*sim_state, mem@, *rm, w),
{
    match rm {
        RmOperand::Reg(reg) => sim_state.get_register_value(*reg),
        RmOperand::Mem(ea) => {
            let addr = ea_address(sim_state, ea);
            if w == WordByte::Word {
                get_mem16(mem, addr as usize)
            } else {
                proof {
                    assert(addr as int % (MEM_SIZE as int) == addr as int);
                }
                get_mem8(mem, addr as usize) as u16
            }
        },
    }
}

/// Store a value to an r/m operand.
fn write_rm(
    sim_state: &mut SimulationState,
    mem: &mut Vec<u8>,
    rm: &RmOperand,
    w: WordByte,
    v: u16,
)
    requires
        old(mem)@.len() == MEM_SIZE,
    ensures
        final(mem)@.len() == MEM_SIZE,
        (*final(sim_state), final(mem)@) == spec_write_rm(*old(sim_state), old(mem)@, *rm, w, v),
{
    match rm {
        RmOperand::Reg(reg) => {
            sim_state.set_register_value(*reg, v);
        },
        RmOperand::Mem(ea) => {
            let addr = ea_address(sim_state, ea);
            proof {
                assert(addr as int % (MEM_SIZE as int) == addr as int);
                assert((addr + 1) as int % (MEM_SIZE as int) == addr + 1);
            }
            if w == WordByte::Word {
                set_mem16(mem, addr as usize, v);
            } else {
                set_mem8(mem, addr as usize, (v % 256) as u8);
            }
        },
    }
}

/// The arithmetic result at the operation's width.
fn arith_result(op: ArithmeticOpCode, w: WordByte, dest: u16, src: u16) -> (r: u16)
    ensures
        r == spec_arith_result(op, w, dest, src),
{
    let m: u32 = if w == WordByte::Word {
        0x10000
    } else {
        0x100
    };
    match op {
        ArithmeticOpCode::Add => (((dest as u32 % m) + (src as u32 % m)) % m) as u16,
        _ => (((dest as u32 % m) + m - (src as u32 % m)) % m) as u16,
    }
}

/// Execute one arithmetic operation against an r/m destination: store
/// the result unless the operation is `cmp`, and set the flags from it.
fn arith_to_rm(
    op: ArithmeticOpCode,
    w: WordByte,
    dest: &RmOperand,
    srcv: u16,
    sim_state: &mut SimulationState,
    mem: &mut Vec<u8>,
)
    requires
        old(mem)@.len() == MEM_SIZE,
    ensures
        final(mem)@.len() == MEM_SIZE,
        (*final(sim_state), final(mem)@) == spec_arith_exec(
            op,
            w,
            *dest,
            srcv,
            *old(sim_state),
            old(mem)@,
        ),
{
    let destv = read_rm(sim_state, mem, dest, w);
    let result = arith_result(op, w, destv, srcv);
    match op {
        ArithmeticOpCode::Cmp => {
            sim_state.set_flags(result, w);
        },
        _ => {
            write_rm(sim_state, mem, dest, w, result);
            sim_state.set_flags(result, w);
        },
    }
}

/// Execute an r/m-form `mov`/`add`/`sub`/`cmp` between a register and
/// an r/m operand, in the direction the `d` bit names.
fn simulate_mem_mem(
    op: BinOp,
    w: WordByte,
    d: Direction,
    reg: Register,
    rm: &RmOperand,
    sim_state: &mut SimulationState,
    mem: &mut Vec<u8>,
)
    requires
        old(mem)@.len() == MEM_SIZE,
    ensures
        final(mem)@.len() == MEM_SIZE,
        Some((*final(sim_state), final(mem)@)) == spec_execute(
            Inst::RmReg { op, w, d, reg, rm: *rm },
            *old(sim_state),
            old(mem)@,
        ),
{
    let dest: RmOperand = match d {
        Direction::RegRm => *rm,
        Direction::RmReg => RmOperand::Reg(reg),
    };
    let src: RmOperand = match d {
        Direction::RegRm => RmOperand::Reg(reg),
        Direction::RmReg => *rm,
    };
    let srcv = read_rm(sim_state, mem, &src, w);
    match op {
        BinOp::Mov => {
            write_rm(sim_state, mem, &dest, w, srcv);
        },
        BinOp::Add => {
            arith_to_rm(ArithmeticOpCode::Add, w, &dest, srcv, sim_state, mem);
        },
        BinOp::Sub => {
            arith_to_rm(ArithmeticOpCode::Sub, w, &dest, srcv, sim_state, mem);
        },
        BinOp::Cmp => {
            arith_to_rm(ArithmeticOpCode::Cmp, w, &dest, srcv, sim_state, mem);
        },
    }
}

/// Apply one decoded instruction to the machine state, whose `ip` the
/// caller has already advanced past the instruction.
///
/// Succeeds on exactly the instructions the execution model covers;
/// a jump or loop outside it returns `ExecUnimplemented` for the
/// instruction at `at` and leaves state and memory untouched.
pub fn execute(
    inst: &Inst,
    at: usize,
    sim_state: &mut SimulationState,
    mem: &mut Vec<u8>,
) -> (r: Result<(), SimError>)
    requires
        old(mem)@.len() == MEM_SIZE,
    ensures
        final(mem)@.len() == MEM_SIZE,
        spec_execute(*inst, *old(sim_state), old(mem)@) matches Some(p) ==> (r is Ok
            && *final(sim_state) == p.0 && final(mem)@ == p.1),
        spec_execute(*inst, *old(sim_state), old(mem)@) is None ==> (*final(sim_state)
            == *old(sim_state) && final(mem)@ == old(mem)@ && (inst matches Inst::Jump {
            op,
            disp,
        } ==> r == Err::<(), SimError>(SimError::ExecUnimplemented { at, mnemonic: *op }))),
{
    match inst {
        Inst::RegImm { reg, imm } => {
            sim_state.set_register_value(*reg, *imm);
            Ok(())
        },
        Inst::RmReg { op, w, d, reg, rm } => {
            simulate_mem_mem(*op, *w, *d, *reg, rm, sim_state, mem);
            Ok(())
        },
        Inst::ImmRm { op, w, s: sx, rm, imm } => {
            let srcv = if *sx == 1 && *w == WordByte::Word {
                sign_extend_8((*imm % 256) as u8)
            } else {
                *imm
            };
            arith_to_rm(*op, *w, rm, srcv, sim_state, mem);
            Ok(())
        },
        Inst::ImmToMem { w, ea, imm } => {
            write_rm(sim_state, mem, &RmOperand::Mem(*ea), *w, *imm);
            Ok(())
        },
        Inst::AccImm { op, w, imm } => {
            let acc = if *w == WordByte::Word {
                Register::Ax
            } else {
                Register::Al
            };
            arith_to_rm(*op, *w, &RmOperand::Reg(acc), *imm, sim_state, mem);
            Ok(())
        },
        Inst::Jump { op, disp } => {
            if *op == OpCode::JneJnz {
                if !sim_state.zero_flag {
                    let target = ((sim_state.ip as u32 + sign_extend_8(*disp) as u32)
                        % 0x10000) as u16;
                    sim_state.ip = target;
                }
                Ok(())
            } else if *op == OpCode::Je {
                if sim_state.zero_flag {
                    let target = ((sim_state.ip as u32 + sign_extend_8(*disp) as u32)
                        % 0x10000) as u16;
                    sim_state.ip = target;
                }
                Ok(())
            } else {
                Err(SimError::ExecUnimplemented { at, mnemonic: *op })
            }
        },
    }
}

/// The opcode class of a jump record; the mnemonic an unimplemented
/// execution is reported under.
pub open spec fn spec_jump_op(inst: Inst) -> OpCode {
    match inst {
        Inst::Jump { op, disp } => op,
        _ => OpCode::JneJnz,
    }
}

/// What a whole simulation run produces from a state and memory within
/// a step budget: the trace lines of every executed step and the final
/// state, or the error that stops the run.
///
/// Each step decodes at `ip`, pre-advances `ip` by the instruction's
/// byte length, executes, and emits the printed instruction followed
/// by the state diff of the step. The run ends when `ip` leaves the
/// program.
pub open spec fn spec_sim(bytes: Seq<u8>, s: SimulationState, mem: Seq<u8>, fuel: nat) -> Result<
    (Seq<char>, SimulationState),
    SimError,
>
    decreases fuel,
{
    if s.ip >= bytes.len() {
        Ok((Seq::empty(), s))
    } else if fuel == 0 {
        Err(SimError::StepLimit { at: s.ip as usize })
    } else {
        match spec_decode(bytes, s.ip as usize) {
            Err(e) => Err(SimError::Decode(e)),
            Ok((inst, len)) => {
                let s1 = SimulationState { ip: ((s.ip + len) % 0x10000) as u16, ..s };
                match spec_execute(inst, s1, mem) {
                    None => Err(
                        SimError::ExecUnimplemented {
                            at: s.ip as usize,
                            mnemonic: spec_jump_op(inst),
                        },
                    ),
                    Some((s2, mem2)) => match spec_sim(bytes, s2, mem2, (fuel - 1) as nat) {
                        Err(e) => Err(e),
                        Ok((rest, sf)) => Ok(
                            (spec_line(inst) + " ; "@ + spec_state_diff(s, s2) + rest, sf),
                        ),
                    },
                }
            },
        }
    }
}

/// One unfolding of `spec_sim`: a step whose decode and execution are
/// known composes the step's trace line with the rest of the run.
proof fn lemma_sim_step(
    bytes: Seq<u8>,
    s: SimulationState,
    mem: Seq<u8>,
    fuel: nat,
    inst: Inst,
    len: usize,
    s2: SimulationState,
    mem2: Seq<u8>,
)
    requires
        fuel > 0,
        s.ip < bytes.len(),
        spec_decode(bytes, s.ip as usize) == Ok::<(Inst, usize), DecodeError>((inst, len)),
        spec_execute(inst, (SimulationState { ip: ((s.ip + len) % 0x10000) as u16, ..s }), mem)
            == Some::<(SimulationState, Seq<u8>)>((s2, mem2)),
    ensures
        spec_sim(bytes, s, mem, fuel) == (match spec_sim(bytes, s2, mem2, (fuel - 1) as nat) {
            Err(e) => Err::<(Seq<char>, SimulationState), SimError>(e),
            Ok(p) => Ok((spec_line(inst) + " ; "@ + spec_state_diff(s, s2) + p.0, p.1)),
        }),
{
}

/// A run out of steps stops with the step-limit error.
proof fn lemma_sim_no_fuel(bytes: Seq<u8>, s: SimulationState, mem: Seq<u8>)
    requires
        s.ip < bytes.len(),
    ensures
        spec_sim(bytes, s, mem, 0) == Err::<(Seq<char>, SimulationState), SimError>(
            SimError::StepLimit { at: s.ip as usize },
        ),
{
}

/// A step whose decode fails stops the run with that error.
proof fn lemma_sim_decode_err(
    bytes: Seq<u8>,
    s: SimulationState,
    mem: Seq<u8>,
    fuel: nat,
    e: DecodeError,
)
    requires
        fuel > 0,
        s.ip < bytes.len(),
        spec_decode(bytes, s.ip as usize) == Err::<(Inst, usize), DecodeError>(e),
    ensures
        spec_sim(bytes, s, mem, fuel) == Err::<(Seq<char>, SimulationState), SimError>(
            SimError::Decode(e),
        ),
{
}

/// An instruction outside the execution model can only be a jump.
proof fn lemma_execute_none_is_jump(inst: Inst, s: SimulationState, mem: Seq<u8>)
    ensures
        spec_execute(inst, s, mem) is None ==> inst is Jump,
{
}

/// A step whose execution is outside the model stops the run with the
/// unimplemented-mnemonic error.
proof fn lemma_sim_exec_none(
    bytes: Seq<u8>,
    s: SimulationState,
    mem: Seq<u8>,
    fuel: nat,
    inst: Inst,
    len: usize,
)
    requires
        fuel > 0,
        s.ip < bytes.len(),
        spec_decode(bytes, s.ip as usize) == Ok::<(Inst, usize), DecodeError>((inst, len)),
        spec_execute(inst, (SimulationState { ip: ((s.ip + len) % 0x10000) as u16, ..s }), mem)
            is None,
    ensures
        spec_sim(bytes, s, mem, fuel) == Err::<(Seq<char>, SimulationState), SimError>(
            SimError::ExecUnimplemented { at: s.ip as usize, mnemonic: spec_jump_op(inst) },
        ),
{
}

/// A run whose `ip` has left the program is complete.
proof fn lemma_sim_done(bytes: Seq<u8>, s: SimulationState, mem: Seq<u8>, fuel: nat)
    requires
        s.ip >= bytes.len(),
    ensures
        spec_sim(bytes, s, mem, fuel) == Ok::<(Seq<char>, SimulationState), SimError>(
            (Seq::empty(), s),
        ),
{
}

/// Run one simulation step: decode at the instruction pointer,
/// pre-advance it by the instruction's byte length, execute, and
/// return the step's trace line — the printed instruction, then the
/// state diff of the step.
#[verifier::rlimit(100)]
#[verifier::spinoff_prover]
fn sim_step(
    machine_code: &Vec<u8>,
    sim_state: &mut SimulationState,
    mem: &mut Vec<u8>,
    Ghost(fuel): Ghost<nat>,
) -> (r: Result<String, SimError>)
    requires
        fuel > 0,
        (old(sim_state).ip as int) < machine_code@.len(),
        old(mem)@.len() == MEM_SIZE,
    ensures
        final(mem)@.len() == MEM_SIZE,
        r matches Err(e) ==> spec_sim(machine_code@, *old(sim_state), old(mem)@, fuel) == Err::<
            (Seq<char>, SimulationState),
            SimError,
        >(e),
        r matches Ok(line) ==> (match spec_sim(
            machine_code@,
            *final(sim_state),
            final(mem)@,
            (fuel - 1) as nat,
        ) {
            Ok(p) => spec_sim(machine_code@, *old(sim_state), old(mem)@, fuel) == Ok::<
                (Seq<char>, SimulationState),
                SimError,
            >((line@ + p.0, p.1)),
            Err(e) => spec_sim(machine_code@, *old(sim_state), old(mem)@, fuel) == Err::<
                (Seq<char>, SimulationState),
                SimError,
            >(e),
        }),
{
    let ghost bytes = machine_code@;
    let ghost prev_mem = mem@;
    let prev_state = *sim_state;
    let at = sim_state.ip as usize;
    match decode(machine_code, at) {
        Err(e) => {
            proof {
                lemma_sim_decode_err(bytes, prev_state, prev_mem, fuel, e);
            }
            Err(SimError::Decode(e))
        },
        Ok((inst, len)) => {
            sim_state.ip = ((sim_state.ip as u32 + len as u32) % 0x10000) as u16;
            proof {
                assert(*sim_state == (SimulationState {
                    ip: ((prev_state.ip + len) % 0x10000) as u16,
                    ..prev_state
                }));
                lemma_execute_none_is_jump(inst, *sim_state, mem@);
            }
            match execute(&inst, at, sim_state, mem) {
                Err(e) => {
                    proof {
                        lemma_sim_exec_none(bytes, prev_state, prev_mem, fuel, inst, len);
                    }
                    Err(e)
                },
                Ok(()) => {
                    let mut line = format_instruction(&inst);
                    line.append(" ; ");
                    let diff = get_sim_state_diff(&prev_state, sim_state);
                    line.append(diff.as_str());
                    proof {
                        lemma_sim_step(bytes, prev_state, prev_mem, fuel, inst, len, *sim_state, mem@);
                        assert(line@ =~= spec_line(inst) + " ; "@ + spec_state_diff(
                            prev_state,
                            *sim_state,
                        ));
                    }
                    Ok(line)
                },
            }
        },
    }
}

/// Disassemble and simulate a whole byte stream from the all-zero
/// state: the NASM listing, and the per-step trace ending in the
/// final-registers block.
///
/// The run stops, and the error is returned instead, on the first byte
/// that fails to decode, on the first executed instruction outside the
/// modelled subset, and after the step limit.
#[verifier::rlimit(100)]
#[verifier::spinoff_prover]
pub fn simulate(machine_code: &Vec<u8>) -> (r: Result<(String, String), SimError>)
    ensures
        spec_listing_lines(machine_code@, 0) matches Err(e) ==> r == Err::<
            (String, String),
            SimError,
        >(SimError::Decode(e)),
        spec_listing_lines(machine_code@, 0) matches Ok(body) ==> {
            &&& (spec_sim(machine_code@, spec_initial_state(), spec_zero_mem(), STEP_LIMIT as nat)
                matches Err(e2) ==> r == Err::<(String, String), SimError>(e2))
            &&& (spec_sim(machine_code@, spec_initial_state(), spec_zero_mem(), STEP_LIMIT as nat)
                matches Ok(p) ==> (r matches Ok(q) && q.0@ == "bits 16\n"@ + body && q.1@ == p.0
                + "Final registers:\n"@ + spec_pretty(p.1) + "\n"@))
        },
{
    let listing = match disassemble(machine_code) {
        Ok(l) => l,
        Err(e) => {
            return Err(SimError::Decode(e));
        },
    };
    let mut sim_state = SimulationState::new();
    let mut mem = zeroed_memory();
    proof {
        assert(mem@ =~= spec_zero_mem());
    }
    let mut sim_log = String::new();
    let mut steps: usize = 0;
    let ghost bytes = machine_code@;
    let ghost s0 = sim_state;
    let ghost m0 = mem@;
    while (sim_state.ip as usize) < machine_code.len()
        invariant
            machine_code@ == bytes,
            spec_listing_lines(bytes, 0) is Ok,
            mem@.len() == MEM_SIZE,
            steps <= STEP_LIMIT,
            s0 == spec_initial_state(),
            m0 == spec_zero_mem(),
            spec_sim(bytes, sim_state, mem@, (STEP_LIMIT - steps) as nat) matches Ok(p) ==> (
            spec_sim(bytes, s0, m0, STEP_LIMIT as nat) matches Ok(q) && q.0 == sim_log@ + p.0
                && q.1 == p.1),
            spec_sim(bytes, sim_state, mem@, (STEP_LIMIT - steps) as nat) matches Err(e)
                ==> spec_sim(bytes, s0, m0, STEP_LIMIT as nat) == Err::<
                (Seq<char>, SimulationState),
                SimError,
            >(e),
        decreases STEP_LIMIT - steps,
    {
        let ghost fuel = (STEP_LIMIT - steps) as nat;
        let ghost prev_mem = mem@;
        let ghost old_log = sim_log@;
        let ghost prev_state = sim_state;
        if steps >= STEP_LIMIT {
            proof {
                lemma_sim_no_fuel(bytes, sim_state, mem@);
            }
            return Err(SimError::StepLimit { at: sim_state.ip as usize });
        }
        match sim_step(machine_code, &mut sim_state, &mut mem, Ghost(fuel)) {
            Err(e) => {
                return Err(e);
            },
            Ok(line) => {
                sim_log.append(line.as_str());
                steps = steps + 1;
                proof {
                    assert((STEP_LIMIT - steps) as nat == (fuel - 1) as nat);
                    match spec_sim(bytes, sim_state, mem@, (fuel - 1) as nat) {
                        Ok(p) => {
                            assert(sim_log@ + p.0 =~= old_log + (line@ + p.0));
                        },
                        Err(e) => {},
                    }
                }
            },
        }
    }
    proof {
        lemma_sim_done(bytes, sim_state, mem@, (STEP_LIMIT - steps) as nat);
        assert(sim_log@ + Seq::<char>::empty() =~= sim_log@);
    }
    sim_log.append("Final registers:\n");
    let pretty = sim_state.pretty_string();
    sim_log.append(pretty.as_str());
    sim_log.append("\n");
    Ok((listing, sim_log))
}

/// Flag laws: after any arithmetic step the zero flag holds exactly of
/// a zero result, and the sign flag exactly of a result whose high bit
/// is set — bit 15 for word operations, bit 7 for byte operations.
pub proof fn lemma_arith_flags(
    op: ArithmeticOpCode,
    w: WordByte,
    dest: RmOperand,
    srcv: u16,
    s: SimulationState,
    mem: Seq<u8>,
)
    ensures
        ({
            let result = spec_arith_result(op, w, spec_read_rm(s, mem, dest, w), srcv);
            let s2 = spec_arith_exec(op, w, dest, srcv, s, mem).0;
            &&& (s2.zero_flag <==> result == 0)
            &&& (w == WordByte::Word ==> (s2.sign_flag <==> result >= 0x8000))
            &&& (w == WordByte::Byte ==> (s2.sign_flag <==> result % 256 >= 128))
        }),
{
}

/// `cmp` computes the same flags as `sub` on the same operands would,
/// and changes nothing else: every register, the instruction pointer
/// and the memory keep their values.
pub proof fn lemma_cmp_like_sub(
    w: WordByte,
    dest: RmOperand,
    srcv: u16,
    s: SimulationState,
    mem: Seq<u8>,
)
    ensures
        ({
            let cmp_step = spec_arith_exec(ArithmeticOpCode::Cmp, w, dest, srcv, s, mem);
            let sub_step = spec_arith_exec(ArithmeticOpCode::Sub, w, dest, srcv, s, mem);
            &&& cmp_step.1 == mem
            &&& cmp_step.0.ax == s.ax
            &&& cmp_step.0.bx == s.bx
            &&& cmp_step.0.cx == s.cx
            &&& cmp_step.0.dx == s.dx
            &&& cmp_step.0.sp == s.sp
            &&& cmp_step.0.bp == s.bp
            &&& cmp_step.0.si == s.si
            &&& cmp_step.0.di == s.di
            &&& cmp_step.0.ip == s.ip
            &&& cmp_step.0.zero_flag == sub_step.0.zero_flag
            &&& cmp_step.0.sign_flag == sub_step.0.sign_flag
        }),
{
}

/// A linear run: from this state on, no executed instruction moves the
/// pre-advanced instruction pointer — every jump falls through. Ends of
/// program, exhausted budgets and errors end the run and are linear.
pub open spec fn spec_sim_linear(bytes: Seq<u8>, s: SimulationState, mem: Seq<u8>, fuel: nat) -> bool
    decreases fuel,
{
    if s.ip >= bytes.len() {
        true
    } else if fuel == 0 {
        true
    } else {
        match spec_decode(bytes, s.ip as usize) {
            Err(_) => true,
            Ok((inst, len)) => {
                let s1 = SimulationState { ip: ((s.ip + len) % 0x10000) as u16, ..s };
                match spec_execute(inst, s1, mem) {
                    None => true,
                    Some((s2, mem2)) => s2.ip == s1.ip && spec_sim_linear(
                        bytes,
                        s2,
                        mem2,
                        (fuel - 1) as nat,
                    ),
                }
            },
        }
    }
}

/// Instruction-pointer discipline over a whole run: a linear run that
/// completes leaves `ip` exactly at the program's total byte length,
/// because every step advances it by precisely the byte length of the
/// instruction it executed.
pub proof fn lemma_linear_run_ip(bytes: Seq<u8>, s: SimulationState, mem: Seq<u8>, fuel: nat)
    requires
        bytes.len() < 0x10000,
        s.ip <= bytes.len(),
        spec_sim_linear(bytes, s, mem, fuel),
    ensures
        spec_sim(bytes, s, mem, fuel) matches Ok(p) ==> p.1.ip == bytes.len(),
    decreases fuel,
{
    if s.ip < bytes.len() && fuel > 0 {
        match spec_decode(bytes, s.ip as usize) {
            Err(_) => {},
            Ok((inst, len)) => {
                lemma_decode_encode(bytes, s.ip as usize);
                let s1 = SimulationState { ip: ((s.ip + len) % 0x10000) as u16, ..s };
                assert(s1.ip == s.ip + len);
                match spec_execute(inst, s1, mem) {
                    None => {},
                    Some((s2, mem2)) => {
                        lemma_linear_run_ip(bytes, s2, mem2, (fuel - 1) as nat);
                    },
                }
            },
        }
    }
}

/// Instruction-pointer discipline: an executed instruction that is not
/// a control transfer leaves the pre-advanced `ip` alone; a taken
/// `jz`/`jnz` moves it by the sign-extended displacement modulo 2^16,
/// the very target the printed `$ + 2 + disp` expression names.
#[verifier::rlimit(100)]
#[verifier::spinoff_prover]
pub proof fn lemma_ip_discipline(inst: Inst, s: SimulationState, mem: Seq<u8>)
    ensures
        spec_execute(inst, s, mem) matches Some(p) ==> p.0.ip == (match inst {
            Inst::Jump { op, disp } => if (op == OpCode::JneJnz && !s.zero_flag) || (op
                == OpCode::Je && s.zero_flag) {
                ((s.ip + spec_sign_extend_8(disp)) % 0x10000) as u16
            } else {
                s.ip
            },
            _ => s.ip,
        }),
{
}

} // verus!
