//! The 8086 programmer-visible state: the eight 16-bit word registers
//! with their 8-bit halves, the two modelled flags, the instruction
//! pointer, and the flat byte-addressable memory.
//!
//! Writing an 8-bit half preserves the other byte of its enclosing word;
//! reading a half is the corresponding byte slice. The masked updates
//! are stated and proved exactly.

use vstd::prelude::*;
use crate::common_assembly::{Register, WordByte, spec_is_word_register, spec_reg_index};
use crate::decode::spec_word_le;
use crate::text::{spec_dec_nat, spec_hex4, u16_to_dec, u16_to_hex};

verus! {

/// Bytes of the flat memory: the 8086 addresses 2^20 bytes.
pub const MEM_SIZE: usize = 0x100000;

/// The register file, the modelled flags, and the instruction pointer.
///
/// Registers and memory initialize to zero; one value of this struct
/// lives for one simulation run.
#[derive(Clone, Copy, Debug, PartialEq, Eq, Structural)]
pub struct SimulationState {
    pub ax: u16,
    pub bx: u16,
    pub cx: u16,
    pub dx: u16,
    pub sp: u16,
    pub bp: u16,
    pub si: u16,
    pub di: u16,
    pub sign_flag: bool,
    pub zero_flag: bool,
    pub ip: u16,
}

impl SimulationState {
    /// The all-zero machine state that a simulation starts from.
    pub fn new() -> (r: SimulationState)
        ensures
            r == (SimulationState {
                ax: 0u16,
                bx: 0u16,
                cx: 0u16,
                dx: 0u16,
                sp: 0u16,
                bp: 0u16,
                si: 0u16,
                di: 0u16,
                sign_flag: false,
                zero_flag: false,
                ip: 0u16,
            }),
    {
        SimulationState {
            ax: 0,
            bx: 0,
            cx: 0,
            dx: 0,
            sp: 0,
            bp: 0,
            si: 0,
            di: 0,
            sign_flag: false,
            zero_flag: false,
            ip: 0,
        }
    }

    /// Read a register: a word register is its value, an 8-bit half the
    /// corresponding byte of its enclosing word, zero-extended.
    pub fn get_register_value(&self, register: Register) -> (r: u16)
        ensures
            r == spec_get_reg(*self, register),
    {
        match register {
            Register::Al => self.ax % 256,
            Register::Cl => self.cx % 256,
            Register::Dl => self.dx % 256,
            Register::Bl => self.bx % 256,
            Register::Ah => self.ax / 256,
            Register::Ch => self.cx / 256,
            Register::Dh => self.dx / 256,
            Register::Bh => self.bx / 256,
            Register::Ax => self.ax,
            Register::Cx => self.cx,
            Register::Dx => self.dx,
            Register::Bx => self.bx,
            Register::Sp => self.sp,
            Register::Bp => self.bp,
            Register::Si => self.si,
            Register::Di => self.di,
        }
    }

    /// Write a register: a word register is overwritten whole; an 8-bit
    /// half updates only its byte of the enclosing word.
    pub fn set_register_value(&mut self, register: Register, value: u16)
        ensures
            *final(self) == spec_set_reg(*old(self), register, value),
    {
        match register {
            Register::Al => {
                self.ax = (self.ax / 256) * 256 + value % 256;
            },
            Register::Cl => {
                self.cx = (self.cx / 256) * 256 + value % 256;
            },
            Register::Dl => {
                self.dx = (self.dx / 256) * 256 + value % 256;
            },
            Register::Bl => {
                self.bx = (self.bx / 256) * 256 + value % 256;
            },
            Register::Ah => {
                self.ax = (value % 256) * 256 + self.ax % 256;
            },
            Register::Ch => {
                self.cx = (value % 256) * 256 + self.cx % 256;
            },
            Register::Dh => {
                self.dx = (value % 256) * 256 + self.dx % 256;
            },
            Register::Bh => {
                self.bx = (value % 256) * 256 + self.bx % 256;
            },
            Register::Ax => {
                self.ax = value;
            },
            Register::Cx => {
                self.cx = value;
            },
            Register::Dx => {
                self.dx = value;
            },
            Register::Bx => {
                self.bx = value;
            },
            Register::Sp => {
                self.sp = value;
            },
            Register::Bp => {
                self.bp = value;
            },
            Register::Si => {
                self.si = value;
            },
            Register::Di => {
                self.di = value;
            },
        }
    }

    /// Set the arithmetic flags from a result already reduced to its
    /// width: the zero flag iff the result is zero, the sign flag iff
    /// its high bit (bit 15 for word results, bit 7 for byte results)
    /// is set.
    pub fn set_flags(&mut self, value: u16, width: WordByte)
        ensures
            *final(self) == spec_set_flags(*old(self), value, width),
    {
        self.zero_flag = value == 0;
        self.sign_flag = match width {
            WordByte::Word => value >= 0x8000,
            WordByte::Byte => value % 256 >= 128,
        };
    }

    /// The final-state report: one line per word register as hex and
    /// decimal, then the active flags.
    pub fn pretty_string(&self) -> (r: String)
        ensures
            r@ == spec_pretty(*self),
    {
        let mut s = reg_line("ax", self.ax);
        let l2 = reg_line("bx", self.bx);
        s.append(l2.as_str());
        let l3 = reg_line("cx", self.cx);
        s.append(l3.as_str());
        let l4 = reg_line("dx", self.dx);
        s.append(l4.as_str());
        let l5 = reg_line("sp", self.sp);
        s.append(l5.as_str());
        let l6 = reg_line("bp", self.bp);
        s.append(l6.as_str());
        let l7 = reg_line("si", self.si);
        s.append(l7.as_str());
        let l8 = reg_line("di", self.di);
        s.append(l8.as_str());
        s.append("Flags: ");
        add_flags_string(self, &mut s);
        assert(s@ =~= spec_pretty(*self));
        s
    }
}

/// The value a register read returns.
pub open spec fn spec_get_reg(s: SimulationState, r: Register) -> u16 {
    match r {
        Register::Al => (s.ax % 256) as u16,
        Register::Cl => (s.cx % 256) as u16,
        Register::Dl => (s.dx % 256) as u16,
        Register::Bl => (s.bx % 256) as u16,
        Register::Ah => (s.ax / 256) as u16,
        Register::Ch => (s.cx / 256) as u16,
        Register::Dh => (s.dx / 256) as u16,
        Register::Bh => (s.bx / 256) as u16,
        Register::Ax => s.ax,
        Register::Cx => s.cx,
        Register::Dx => s.dx,
        Register::Bx => s.bx,
        Register::Sp => s.sp,
        Register::Bp => s.bp,
        Register::Si => s.si,
        Register::Di => s.di,
    }
}

/// The state after a register write: whole word, or one masked byte.
pub open spec fn spec_set_reg(s: SimulationState, r: Register, v: u16) -> SimulationState {
    match r {
        Register::Al => SimulationState { ax: ((s.ax / 256) * 256 + v % 256) as u16, ..s },
        Register::Cl => SimulationState { cx: ((s.cx / 256) * 256 + v % 256) as u16, ..s },
        Register::Dl => SimulationState { dx: ((s.dx / 256) * 256 + v % 256) as u16, ..s },
        Register::Bl => SimulationState { bx: ((s.bx / 256) * 256 + v % 256) as u16, ..s },
        Register::Ah => SimulationState { ax: ((v % 256) * 256 + s.ax % 256) as u16, ..s },
        Register::Ch => SimulationState { cx: ((v % 256) * 256 + s.cx % 256) as u16, ..s },
        Register::Dh => SimulationState { dx: ((v % 256) * 256 + s.dx % 256) as u16, ..s },
        Register::Bh => SimulationState { bx: ((v % 256) * 256 + s.bx % 256) as u16, ..s },
        Register::Ax => SimulationState { ax: v, ..s },
        Register::Cx => SimulationState { cx: v, ..s },
        Register::Dx => SimulationState { dx: v, ..s },
        Register::Bx => SimulationState { bx: v, ..s },
        Register::Sp => SimulationState { sp: v, ..s },
        Register::Bp => SimulationState { bp: v, ..s },
        Register::Si => SimulationState { si: v, ..s },
        Register::Di => SimulationState { di: v, ..s },
    }
}

/// The state after the arithmetic flags are set from a result already
/// reduced to its width.
pub open spec fn spec_set_flags(s: SimulationState, v: u16, width: WordByte) -> SimulationState {
    SimulationState {
        zero_flag: v == 0,
        sign_flag: match width {
            WordByte::Word => v >= 0x8000,
            WordByte::Byte => v % 256 >= 128,
        },
        ..s
    }
}

/// The word register whose bytes an 8-bit half aliases; a word register
/// encloses itself.
pub open spec fn spec_enclosing_word(r: Register) -> Register {
    match r {
        Register::Al => Register::Ax,
        Register::Cl => Register::Cx,
        Register::Dl => Register::Dx,
        Register::Bl => Register::Bx,
        Register::Ah => Register::Ax,
        Register::Ch => Register::Cx,
        Register::Dh => Register::Dx,
        Register::Bh => Register::Bx,
        _ => r,
    }
}

/// Whether an 8-bit half is the upper byte of its enclosing word.
pub open spec fn spec_is_high_half(r: Register) -> bool {
    4 <= spec_reg_index(r) < 8
}

/// Register aliasing, exactly: after writing `v` to an 8-bit half, that
/// half reads back `v`, the written byte of the enclosing word is `v`,
/// the other byte of the word is unchanged, and every other word
/// register keeps its value. Reads of a half are the byte slices of
/// the word.
pub proof fn lemma_register_aliasing(s: SimulationState, h: Register, v: u16)
    requires
        !spec_is_word_register(h),
        v < 256,
    ensures
        ({
            let s2 = spec_set_reg(s, h, v);
            let w = spec_enclosing_word(h);
            &&& spec_get_reg(s2, h) == v
            &&& (spec_is_high_half(h) ==> spec_get_reg(s2, w) / 256 == v && spec_get_reg(s2, w)
                % 256 == spec_get_reg(s, w) % 256)
            &&& (!spec_is_high_half(h) ==> spec_get_reg(s2, w) % 256 == v && spec_get_reg(s2, w)
                / 256 == spec_get_reg(s, w) / 256)
            &&& spec_get_reg(s, h) == (if spec_is_high_half(h) {
                spec_get_reg(s, w) / 256
            } else {
                spec_get_reg(s, w) % 256
            })
            &&& forall|other: Register|
                spec_is_word_register(other) && other != spec_enclosing_word(h)
                    ==> #[trigger] spec_get_reg(s2, other) == spec_get_reg(s, other)
        }),
{
}

/// Read one byte of memory; the address wraps modulo the memory size.
pub fn get_mem8(mem: &Vec<u8>, addr: usize) -> (r: u8)
    requires
        mem@.len() == MEM_SIZE,
    ensures
        r == mem@[addr as int % (MEM_SIZE as int)],
{
    mem[addr % MEM_SIZE]
}

/// Write one byte of memory; the address wraps modulo the memory size.
pub fn set_mem8(mem: &mut Vec<u8>, addr: usize, value: u8)
    requires
        old(mem)@.len() == MEM_SIZE,
    ensures
        final(mem)@ == old(mem)@.update(addr as int % (MEM_SIZE as int), value),
{
    mem.set(addr % MEM_SIZE, value);
}

/// The little-endian 16-bit value held at an address, both of its bytes
/// read modulo the memory size.
pub open spec fn spec_mem16(mem: Seq<u8>, addr: int) -> u16 {
    spec_word_le(mem[addr % (MEM_SIZE as int)], mem[(addr + 1) % (MEM_SIZE as int)])
}

/// Read a little-endian 16-bit value; each byte address wraps modulo
/// the memory size.
pub fn get_mem16(mem: &Vec<u8>, addr: usize) -> (r: u16)
    requires
        mem@.len() == MEM_SIZE,
        addr < MEM_SIZE,
    ensures
        r == spec_mem16(mem@, addr as int),
{
    let lo = mem[addr % MEM_SIZE];
    let hi = mem[(addr + 1) % MEM_SIZE];
    crate::byte_operations::concat_bytes(hi, lo)
}

/// Write a little-endian 16-bit value; each byte address wraps modulo
/// the memory size.
pub fn set_mem16(mem: &mut Vec<u8>, addr: usize, value: u16)
    requires
        old(mem)@.len() == MEM_SIZE,
        addr < MEM_SIZE,
    ensures
        final(mem)@ == old(mem)@.update(addr as int % (MEM_SIZE as int), (value % 256) as u8)
            .update((addr + 1) % (MEM_SIZE as int), (value / 256) as u8),
{
    mem.set(addr % MEM_SIZE, (value % 256) as u8);
    mem.set((addr + 1) % MEM_SIZE, (value / 256) as u8);
}

/// The flags part of a report: `S` when the sign flag is set, then `Z`
/// when the zero flag is set.
pub open spec fn spec_flags_text(s: SimulationState) -> Seq<char> {
    (if s.sign_flag {
        "S"@
    } else {
        Seq::empty()
    }) + (if s.zero_flag {
        "Z"@
    } else {
        Seq::empty()
    })
}

/// Append the active-flags letters to a report under construction.
pub fn add_flags_string(sim_state: &SimulationState, result: &mut String)
    ensures
        final(result)@ == old(result)@ + spec_flags_text(*sim_state),
{
    if sim_state.sign_flag {
        result.append("S");
    }
    if sim_state.zero_flag {
        result.append("Z");
    }
    assert(result@ =~= old(result)@ + spec_flags_text(*sim_state));
}

/// One register line of the final report: hex, then decimal in
/// parentheses.
pub open spec fn spec_reg_line(name: Seq<char>, v: u16) -> Seq<char> {
    name + ": "@ + spec_hex4(v) + "("@ + spec_dec_nat(v as nat) + ")"@ + "\n"@
}

/// One register line of the final report.
fn reg_line(name: &str, v: u16) -> (r: String)
    ensures
        r@ == spec_reg_line(name@, v),
{
    let mut s = name.to_owned();
    s.append(": ");
    let hex = u16_to_hex(v);
    s.append(hex.as_str());
    s.append("(");
    let dec = u16_to_dec(v);
    s.append(dec.as_str());
    s.append(")");
    s.append("\n");
    assert(s@ =~= spec_reg_line(name@, v));
    s
}

/// The full final-state report of a machine state.
pub open spec fn spec_pretty(s: SimulationState) -> Seq<char> {
    spec_reg_line("ax"@, s.ax) + spec_reg_line("bx"@, s.bx) + spec_reg_line("cx"@, s.cx)
        + spec_reg_line("dx"@, s.dx) + spec_reg_line("sp"@, s.sp) + spec_reg_line("bp"@, s.bp)
        + spec_reg_line("si"@, s.si) + spec_reg_line("di"@, s.di) + "Flags: "@ + spec_flags_text(s)
}

/// One entry of a state diff: present only when the value changed.
pub open spec fn spec_diff_entry(name: Seq<char>, before: u16, after: u16) -> Seq<char> {
    if before != after {
        name + ": "@ + spec_hex4(before) + " -> "@ + spec_hex4(after) + " "@
    } else {
        Seq::empty()
    }
}

/// The diff line between two states: an entry for each changed word
/// register and for `ip`, then the flags before and after when they
/// differ, ending in a newline.
pub open spec fn spec_state_diff(before: SimulationState, after: SimulationState) -> Seq<char> {
    spec_diff_entry("ax"@, before.ax, after.ax) + spec_diff_entry("bx"@, before.bx, after.bx)
        + spec_diff_entry("cx"@, before.cx, after.cx) + spec_diff_entry(
        "dx"@,
        before.dx,
        after.dx,
    ) + spec_diff_entry("sp"@, before.sp, after.sp) + spec_diff_entry("bp"@, before.bp, after.bp)
        + spec_diff_entry("si"@, before.si, after.si) + spec_diff_entry(
        "di"@,
        before.di,
        after.di,
    ) + spec_diff_entry("ip"@, before.ip, after.ip) + (if before.sign_flag != after.sign_flag
        || before.zero_flag != after.zero_flag {
        "Flags: "@ + spec_flags_text(before) + " -> "@ + spec_flags_text(after)
    } else {
        Seq::empty()
    }) + "\n"@
}

/// Append one diff entry when the value changed.
fn push_diff_entry(result: &mut String, name: &str, before: u16, after: u16)
    ensures
        final(result)@ == old(result)@ + spec_diff_entry(name@, before, after),
{
    if before != after {
        result.append(name);
        result.append(": ");
        let hex_before = u16_to_hex(before);
        result.append(hex_before.as_str());
        result.append(" -> ");
        let hex_after = u16_to_hex(after);
        result.append(hex_after.as_str());
        result.append(" ");
    }
    assert(result@ =~= old(result)@ + spec_diff_entry(name@, before, after));
}

/// The diff line between two machine states, for the trace: only the
/// registers that changed, then the flags when they changed.
#[verifier::rlimit(100)]
pub fn get_sim_state_diff(before: &SimulationState, after: &SimulationState) -> (r: String)
    ensures
        r@ == spec_state_diff(*before, *after),
{
    let mut result = String::new();
    push_diff_entry(&mut result, "ax", before.ax, after.ax);
    push_diff_entry(&mut result, "bx", before.bx, after.bx);
    push_diff_entry(&mut result, "cx", before.cx, after.cx);
    push_diff_entry(&mut result, "dx", before.dx, after.dx);
    push_diff_entry(&mut result, "sp", before.sp, after.sp);
    push_diff_entry(&mut result, "bp", before.bp, after.bp);
    push_diff_entry(&mut result, "si", before.si, after.si);
    push_diff_entry(&mut result, "di", before.di, after.di);
    push_diff_entry(&mut result, "ip", before.ip, after.ip);
    if before.sign_flag != after.sign_flag || before.zero_flag != after.zero_flag {
        result.append("Flags: ");
        add_flags_string(before, &mut result);
        result.append(" -> ");
        add_flags_string(after, &mut result);
    }
    result.append("\n");
    assert(result@ =~= spec_state_diff(*before, *after));
    result
}

/// The memory a simulation starts from: all zeroes.
pub fn zeroed_memory() -> (r: Vec<u8>)
    ensures
        r@.len() == MEM_SIZE,
        forall|i: int| 0 <= i < MEM_SIZE ==> r@[i] == 0u8,
{
    let mut mem: Vec<u8> = Vec::new();
    let mut i: usize = 0;
    while i < MEM_SIZE
        invariant
            i == mem@.len(),
            i <= MEM_SIZE,
            forall|j: int| 0 <= j < i ==> mem@[j] == 0u8,
        decreases MEM_SIZE - i,
    {
        mem.push(0);
        i = i + 1;
    }
    mem
}

} // verus!
