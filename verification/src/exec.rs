//! The fetch-decode-execute engine: one spec-level state transition per row
//! of the opcode table, and the verified interpreter that realizes it.

use vstd::prelude::*;

verus! {

use crate::arith::add16;
use crate::arith::add8;
use crate::arith::sub16;
use crate::arith::sub8;
use crate::arith::wrap_add16;
use crate::arith::wrap_add8;
use crate::arith::wrap_sub16;
use crate::arith::wrap_sub8;
use crate::decode::decode;
use crate::decode::spec_decode;
use crate::decode::ChipError;
use crate::decode::Instruction;
use crate::decode::instr_wf;
use crate::draw::draw_collision;
use crate::draw::draw_screen;
use crate::draw::draw_sprite;
use crate::state::Emulator;
use crate::state::Machine;
use crate::state::NUMBER_OF_KEYS;
use crate::state::NUMBER_OF_REGISTERS;
use crate::state::RAM_SIZE;
use crate::state::STACK_SIZE;
use crate::state::blank_screen;

/// Relies on rand::random: one byte drawn from the thread-local generator.
/// Nothing can be promised of its value, so nothing is.
#[verifier::external_body]
fn random_byte() -> u8 {
    rand::random::<u8>()
}

/// RAM with registers 0 through `x` stored at `base`.
pub open spec fn ram_with_regs(ram: Seq<u8>, regs: Seq<u8>, base: int, x: int) -> Seq<u8> {
    Seq::new(ram.len(), |p: int| if base <= p <= base + x { regs[p - base] } else { ram[p] })
}

/// Registers 0 through `x` loaded from RAM at `base`, the rest unchanged.
pub open spec fn regs_with_ram(regs: Seq<u8>, ram: Seq<u8>, base: int, x: int) -> Seq<u8> {
    Seq::new(regs.len(), |j: int| if 0 <= j <= x { ram[base + j] } else { regs[j] })
}

/// The lowest pressed key at or above index `k`, if any.
pub open spec fn spec_first_pressed(keys: Seq<bool>, k: int) -> Option<u8>
    decreases 16 - k,
{
    if k < 0 || k >= 16 {
        None
    } else if keys[k] {
        Some(k as u8)
    } else {
        spec_first_pressed(keys, k + 1)
    }
}

/// The state transition of one instruction, executed after its fetch:
/// `m.program_counter` already names the following instruction. `rnd` is
/// the byte the random opcode drew; every other row ignores it.
pub open spec fn spec_execute(m: Machine, instr: Instruction, rnd: u8) -> Result<
    Machine,
    ChipError,
> {
    match instr {
        Instruction::Nop => Ok(m),
        Instruction::ClearScreen => Ok(Machine { screen: blank_screen(), ..m }),
        Instruction::ReturnSub => if m.stack_pointer > 0 {
            Ok(
                Machine {
                    stack_pointer: (m.stack_pointer - 1) as u16,
                    program_counter: m.stack[m.stack_pointer - 1],
                    ..m
                },
            )
        } else {
            Err(ChipError::StackUnderflow)
        },
        Instruction::Jump(nnn) => Ok(Machine { program_counter: nnn, ..m }),
        Instruction::Call(nnn) => if m.stack_pointer < STACK_SIZE {
            Ok(
                Machine {
                    stack: m.stack.update(m.stack_pointer as int, m.program_counter),
                    stack_pointer: (m.stack_pointer + 1) as u16,
                    program_counter: nnn,
                    ..m
                },
            )
        } else {
            Err(ChipError::StackOverflow)
        },
        Instruction::SkipEqImm(x, kk) => Ok(
            Machine {
                program_counter: if m.registers[x as int] == kk {
                    add16(m.program_counter, 2)
                } else {
                    m.program_counter
                },
                ..m
            },
        ),
        Instruction::SkipNeImm(x, kk) => Ok(
            Machine {
                program_counter: if m.registers[x as int] != kk {
                    add16(m.program_counter, 2)
                } else {
                    m.program_counter
                },
                ..m
            },
        ),
        Instruction::SkipEqReg(x, y) => Ok(
            Machine {
                program_counter: if m.registers[x as int] == m.registers[y as int] {
                    add16(m.program_counter, 2)
                } else {
                    m.program_counter
                },
                ..m
            },
        ),
        Instruction::SetImm(x, kk) => Ok(
            Machine { registers: m.registers.update(x as int, kk), ..m },
        ),
        Instruction::AddImm(x, kk) => Ok(
            Machine { registers: m.registers.update(x as int, add8(m.registers[x as int], kk)), ..m },
        ),
        Instruction::CopyReg(x, y) => Ok(
            Machine { registers: m.registers.update(x as int, m.registers[y as int]), ..m },
        ),
        Instruction::OrReg(x, y) => Ok(
            Machine {
                registers: m.registers.update(x as int, m.registers[x as int] | m.registers[y as int]),
                ..m
            },
        ),
        Instruction::AndReg(x, y) => Ok(
            Machine {
                registers: m.registers.update(x as int, m.registers[x as int] & m.registers[y as int]),
                ..m
            },
        ),
        Instruction::XorReg(x, y) => Ok(
            Machine {
                registers: m.registers.update(x as int, m.registers[x as int] ^ m.registers[y as int]),
                ..m
            },
        ),
        Instruction::AddReg(x, y) => Ok(
            Machine {
                registers: m.registers.update(
                    x as int,
                    add8(m.registers[x as int], m.registers[y as int]),
                ).update(
                    15,
                    if m.registers[x as int] + m.registers[y as int] > 255 {
                        1u8
                    } else {
                        0u8
                    },
                ),
                ..m
            },
        ),
        Instruction::SubReg(x, y) => Ok(
            Machine {
                registers: m.registers.update(
                    x as int,
                    sub8(m.registers[x as int], m.registers[y as int]),
                ).update(
                    15,
                    if m.registers[x as int] < m.registers[y as int] {
                        0u8
                    } else {
                        1u8
                    },
                ),
                ..m
            },
        ),
        Instruction::ShiftRight(x) => Ok(
            Machine {
                registers: m.registers.update(x as int, m.registers[x as int] >> 1).update(
                    15,
                    m.registers[x as int] & 1,
                ),
                ..m
            },
        ),
        Instruction::SubFrom(x, y) => Ok(
            Machine {
                registers: m.registers.update(
                    x as int,
                    sub8(m.registers[y as int], m.registers[x as int]),
                ).update(
                    15,
                    if m.registers[y as int] < m.registers[x as int] {
                        0u8
                    } else {
                        1u8
                    },
                ),
                ..m
            },
        ),
        Instruction::ShiftLeft(x) => Ok(
            Machine {
                registers: m.registers.update(x as int, m.registers[x as int] << 1).update(
                    15,
                    (m.registers[x as int] >> 7) & 1,
                ),
                ..m
            },
        ),
        Instruction::SkipNeReg(x, y) => Ok(
            Machine {
                program_counter: if m.registers[x as int] != m.registers[y as int] {
                    add16(m.program_counter, 2)
                } else {
                    m.program_counter
                },
                ..m
            },
        ),
        Instruction::SetIndex(nnn) => Ok(Machine { i_register: nnn, ..m }),
        Instruction::JumpPlusV0(nnn) => Ok(
            Machine { program_counter: (m.registers[0] + nnn) as u16, ..m },
        ),
        Instruction::RandomMask(x, kk) => Ok(
            Machine { registers: m.registers.update(x as int, rnd & kk), ..m },
        ),
        Instruction::Draw(x, y, n) => {
            let base = m.i_register as int;
            if n == 0 || base + n <= RAM_SIZE {
                let x0 = m.registers[x as int] as int;
                let y0 = m.registers[y as int] as int;
                Ok(
                    Machine {
                        screen: draw_screen(m.screen, m.ram, base, x0, y0, n as int),
                        registers: m.registers.update(
                            15,
                            if draw_collision(m.screen, m.ram, base, x0, y0, n as int) {
                                1u8
                            } else {
                                0u8
                            },
                        ),
                        ..m
                    },
                )
            } else {
                Err(ChipError::MemoryOutOfBounds)
            }
        },
        // a register read as a key index is masked to the keypad's low
        // nibble rather than treated as fatal
        Instruction::SkipKeyPressed(x) => Ok(
            Machine {
                program_counter: if m.pressed_keys[(m.registers[x as int] & 0x0F) as int] {
                    add16(m.program_counter, 2)
                } else {
                    m.program_counter
                },
                ..m
            },
        ),
        Instruction::SkipKeyNotPressed(x) => Ok(
            Machine {
                program_counter: if !m.pressed_keys[(m.registers[x as int] & 0x0F) as int] {
                    add16(m.program_counter, 2)
                } else {
                    m.program_counter
                },
                ..m
            },
        ),
        Instruction::ReadDelay(x) => Ok(
            Machine { registers: m.registers.update(x as int, m.delay_timer), ..m },
        ),
        Instruction::WaitKey(x) => match spec_first_pressed(m.pressed_keys, 0) {
            Some(k) => Ok(Machine { registers: m.registers.update(x as int, k), ..m }),
            None => Ok(Machine { program_counter: sub16(m.program_counter, 2), ..m }),
        },
        Instruction::SetDelay(x) => Ok(Machine { delay_timer: m.registers[x as int], ..m }),
        Instruction::SetSound(x) => Ok(Machine { sound_timer: m.registers[x as int], ..m }),
        Instruction::AddIndex(x) => Ok(
            Machine { i_register: add16(m.i_register, m.registers[x as int] as u16), ..m },
        ),
        Instruction::FontIndex(x) => Ok(
            Machine { i_register: (m.registers[x as int] * 5) as u16, ..m },
        ),
        Instruction::StoreDigits(x) => {
            let base = m.i_register as int;
            if base + 2 < RAM_SIZE {
                let v = m.registers[x as int];
                Ok(
                    Machine {
                        ram: m.ram.update(base, (v / 100) as u8).update(
                            base + 1,
                            ((v / 10) % 10) as u8,
                        ).update(base + 2, (v % 10) as u8),
                        ..m
                    },
                )
            } else {
                Err(ChipError::MemoryOutOfBounds)
            }
        },
        Instruction::StoreRegs(x) => {
            let base = m.i_register as int;
            if base + x < RAM_SIZE {
                Ok(Machine { ram: ram_with_regs(m.ram, m.registers, base, x as int), ..m })
            } else {
                Err(ChipError::MemoryOutOfBounds)
            }
        },
        Instruction::LoadRegs(x) => {
            let base = m.i_register as int;
            if base + x < RAM_SIZE {
                Ok(
                    Machine { registers: regs_with_ram(m.registers, m.ram, base, x as int), ..m },
                )
            } else {
                Err(ChipError::MemoryOutOfBounds)
            }
        },
    }
}

/// Control flow and screen clearing: jumps, calls, returns, skips.
pub open spec fn is_control(i: Instruction) -> bool {
    ||| i is Nop
    ||| i is ClearScreen
    ||| i is ReturnSub
    ||| i is Jump
    ||| i is Call
    ||| i is SkipEqImm
    ||| i is SkipNeImm
    ||| i is SkipEqReg
    ||| i is SkipNeReg
}

/// Register moves, logic, and wrapping arithmetic with the flag register.
pub open spec fn is_alu(i: Instruction) -> bool {
    ||| i is SetImm
    ||| i is AddImm
    ||| i is CopyReg
    ||| i is OrReg
    ||| i is AndReg
    ||| i is XorReg
    ||| i is AddReg
    ||| i is SubReg
    ||| i is ShiftRight
    ||| i is SubFrom
    ||| i is ShiftLeft
}

/// The index register and the memory-indexed stores and loads.
pub open spec fn is_index_op(i: Instruction) -> bool {
    ||| i is SetIndex
    ||| i is JumpPlusV0
    ||| i is AddIndex
    ||| i is FontIndex
    ||| i is StoreDigits
    ||| i is StoreRegs
    ||| i is LoadRegs
}

/// Key and timer reads and writes, and the key wait.
pub open spec fn is_key_timer_op(i: Instruction) -> bool {
    ||| i is SkipKeyPressed
    ||| i is SkipKeyNotPressed
    ||| i is ReadDelay
    ||| i is WaitKey
    ||| i is SetDelay
    ||| i is SetSound
}

/// How an executed instruction's outcome relates two machine states: on
/// success the transition happened; on a fatal condition nothing changed.
pub open spec fn step_matches(
    pre: Machine,
    post: Machine,
    rnd: u8,
    instr: Instruction,
    r: Result<(), ChipError>,
) -> bool {
    match r {
        Ok(()) => spec_execute(pre, instr, rnd) == Ok::<Machine, ChipError>(post),
        Err(e) => post == pre && spec_execute(pre, instr, rnd) == Err::<Machine, ChipError>(e),
    }
}

/// Reading two bytes at the program counter as a big-endian opcode and
/// advancing past them; fatal if they lie outside RAM.
pub open spec fn spec_fetch(m: Machine) -> Result<(u16, Machine), ChipError> {
    if m.program_counter + 1 < RAM_SIZE {
        Ok(
            (
                ((m.ram[m.program_counter as int] as u16) << 8) | (m.ram[m.program_counter + 1]
                    as u16),
                Machine { program_counter: (m.program_counter + 2) as u16, ..m },
            ),
        )
    } else {
        Err(ChipError::MemoryOutOfBounds)
    }
}

/// One full cycle: fetch, decode, execute. A fatal condition leaves the
/// machine as it was.
pub open spec fn spec_tick(m: Machine, rnd: u8) -> Result<Machine, ChipError> {
    match spec_fetch(m) {
        Err(e) => Err(e),
        Ok((op, m1)) => match spec_decode(op) {
            None => Err(ChipError::UnknownOpcode(op)),
            Some(instr) => spec_execute(m1, instr, rnd),
        },
    }
}

/// How one cycle's outcome relates two machine states.
pub open spec fn tick_matches(
    pre: Machine,
    post: Machine,
    rnd: u8,
    r: Result<(), ChipError>,
) -> bool {
    match r {
        Ok(()) => spec_tick(pre, rnd) == Ok::<Machine, ChipError>(post),
        Err(e) => post == pre && spec_tick(pre, rnd) == Err::<Machine, ChipError>(e),
    }
}

/// Whether the instruction at the program counter is the random opcode, the
/// one row whose transition depends on the drawn byte.
pub open spec fn tick_is_random(m: Machine) -> bool {
    match spec_fetch(m) {
        Ok((op, _)) => spec_decode(op) matches Some(Instruction::RandomMask(_, _)),
        Err(_) => false,
    }
}

/// The low nibble of a byte is below 16.
proof fn lemma_low_nibble(b: u8)
    ensures
        b & 0x0F < 16,
{
    assert(b & 0x0F < 16) by (bit_vector);
}

/// The lowest pressed key, scanning upward from key 0.
fn first_pressed_key(keys: &Vec<bool>) -> (r: Option<u8>)
    requires
        keys@.len() == NUMBER_OF_KEYS,
    ensures
        r == spec_first_pressed(keys@, 0),
{
    let mut k: usize = 0;
    while k < NUMBER_OF_KEYS
        invariant
            k <= NUMBER_OF_KEYS,
            keys@.len() == NUMBER_OF_KEYS,
            spec_first_pressed(keys@, 0) == spec_first_pressed(keys@, k as int),
        decreases NUMBER_OF_KEYS - k,
    {
        if keys[k] {
            return Some(k as u8);
        }
        k = k + 1;
    }
    None
}

/// Stores registers 0 through `x` into RAM at `base`.
fn copy_regs_to_ram(ram: &mut Vec<u8>, regs: &Vec<u8>, base: usize, x: usize)
    requires
        old(ram)@.len() == RAM_SIZE,
        regs@.len() == NUMBER_OF_REGISTERS,
        x < NUMBER_OF_REGISTERS,
        base + x < RAM_SIZE,
    ensures
        final(ram)@ == ram_with_regs(old(ram)@, regs@, base as int, x as int),
{
    let mut i: usize = 0;
    while i <= x
        invariant
            ram@.len() == RAM_SIZE,
            regs@.len() == NUMBER_OF_REGISTERS,
            x < NUMBER_OF_REGISTERS,
            base + x < RAM_SIZE,
            i <= x + 1,
            forall|j: int| base <= j < base + i ==> ram@[j] == regs@[j - base],
            forall|j: int|
                0 <= j < RAM_SIZE && !(base <= j < base + i) ==> ram@[j] == old(ram)@[j],
        decreases x + 1 - i,
    {
        ram[base + i] = regs[i];
        i = i + 1;
    }
    proof {
        assert(ram@ =~= ram_with_regs(old(ram)@, regs@, base as int, x as int));
    }
}

/// Loads registers 0 through `x` from RAM at `base`.
fn copy_ram_to_regs(regs: &mut Vec<u8>, ram: &Vec<u8>, base: usize, x: usize)
    requires
        old(regs)@.len() == NUMBER_OF_REGISTERS,
        ram@.len() == RAM_SIZE,
        x < NUMBER_OF_REGISTERS,
        base + x < RAM_SIZE,
    ensures
        final(regs)@ == regs_with_ram(old(regs)@, ram@, base as int, x as int),
{
    let mut i: usize = 0;
    while i <= x
        invariant
            regs@.len() == NUMBER_OF_REGISTERS,
            ram@.len() == RAM_SIZE,
            x < NUMBER_OF_REGISTERS,
            base + x < RAM_SIZE,
            i <= x + 1,
            forall|j: int| 0 <= j < i ==> regs@[j] == ram@[base + j],
            forall|j: int| i <= j < NUMBER_OF_REGISTERS ==> regs@[j] == old(regs)@[j],
        decreases x + 1 - i,
    {
        regs[i] = ram[base + i];
        i = i + 1;
    }
    proof {
        assert(regs@ =~= regs_with_ram(old(regs)@, ram@, base as int, x as int));
    }
}

impl Emulator {
    /// Composes the two bytes at the program counter into a big-endian
    /// opcode and advances the program counter past them.
    fn fetch_opcode(&mut self) -> (op: u16)
        requires
            old(self).wf(),
            old(self)@.program_counter + 1 < RAM_SIZE,
        ensures
            final(self).wf(),
            spec_fetch(old(self)@) == Ok::<(u16, Machine), ChipError>((op, final(self)@)),
    {
        let high_byte = self.ram[self.program_counter as usize];
        let low_byte = self.ram[(self.program_counter + 1) as usize];
        let op = ((high_byte as u16) << 8) | (low_byte as u16);
        self.program_counter = self.program_counter + 2;
        op
    }

    /// Control flow and screen clearing: jumps, calls, returns, skips.
    #[verifier::rlimit(100)]
    fn exec_control(&mut self, instr: Instruction) -> (r: Result<(), ChipError>)
        requires
            old(self).wf(),
            instr_wf(instr),
            is_control(instr),
        ensures
            final(self).wf(),
            step_matches(old(self)@, final(self)@, 0, instr, r),
        {
        match instr {
            Instruction::Nop => Ok(()),
            Instruction::ClearScreen => {
                self.screen = crate::state::blank_display();
                Ok(())
            },
            Instruction::ReturnSub => {
                if self.stack_pointer == 0 {
                    proof {
                        assert(step_matches(
                            old(self)@,
                            self@,
                            0u8,
                            instr,
                            Err::<(), ChipError>(ChipError::StackUnderflow),
                        ));
                    }
                    return Err(ChipError::StackUnderflow);
                }
                let addr = self.pop();
                self.program_counter = addr;
                Ok(())
            },
            Instruction::Jump(nnn) => {
                self.program_counter = nnn;
                Ok(())
            },
            Instruction::Call(nnn) => {
                if self.stack_pointer >= STACK_SIZE as u16 {
                    proof {
                        assert(step_matches(
                            old(self)@,
                            self@,
                            0u8,
                            instr,
                            Err::<(), ChipError>(ChipError::StackOverflow),
                        ));
                    }
                    return Err(ChipError::StackOverflow);
                }
                let pc = self.program_counter;
                self.push(pc);
                self.program_counter = nnn;
                Ok(())
            },
            Instruction::SkipEqImm(x, kk) => {
                if self.registers[x as usize] == kk {
                    self.program_counter = wrap_add16(self.program_counter, 2);
                }
                Ok(())
            },
            Instruction::SkipNeImm(x, kk) => {
                if self.registers[x as usize] != kk {
                    self.program_counter = wrap_add16(self.program_counter, 2);
                }
                Ok(())
            },
            Instruction::SkipEqReg(x, y) => {
                if self.registers[x as usize] == self.registers[y as usize] {
                    self.program_counter = wrap_add16(self.program_counter, 2);
                }
                Ok(())
            },
            Instruction::SkipNeReg(x, y) => {
                if self.registers[x as usize] != self.registers[y as usize] {
                    self.program_counter = wrap_add16(self.program_counter, 2);
                }
                Ok(())
            },
            _ => {
                proof {
                    assert(false);
                }
                Ok(())
            },
        }
    }

    /// Register moves, logic, and wrapping arithmetic with the flag register.
    #[verifier::rlimit(100)]
    fn exec_alu(&mut self, instr: Instruction) -> (r: Result<(), ChipError>)
        requires
            old(self).wf(),
            instr_wf(instr),
            is_alu(instr),
        ensures
            final(self).wf(),
            step_matches(old(self)@, final(self)@, 0, instr, r),
        {
        match instr {
            Instruction::SetImm(x, kk) => {
                self.registers[x as usize] = kk;
                Ok(())
            },
            Instruction::AddImm(x, kk) => {
                let v = self.registers[x as usize];
                self.registers[x as usize] = wrap_add8(v, kk);
                Ok(())
            },
            Instruction::CopyReg(x, y) => {
                let v = self.registers[y as usize];
                self.registers[x as usize] = v;
                Ok(())
            },
            Instruction::OrReg(x, y) => {
                let v = self.registers[x as usize] | self.registers[y as usize];
                self.registers[x as usize] = v;
                Ok(())
            },
            Instruction::AndReg(x, y) => {
                let v = self.registers[x as usize] & self.registers[y as usize];
                self.registers[x as usize] = v;
                Ok(())
            },
            Instruction::XorReg(x, y) => {
                let v = self.registers[x as usize] ^ self.registers[y as usize];
                self.registers[x as usize] = v;
                Ok(())
            },
            Instruction::AddReg(x, y) => {
                let a = self.registers[x as usize];
                let b = self.registers[y as usize];
                let carry = (a as u16) + (b as u16) > 255;
                self.registers[x as usize] = wrap_add8(a, b);
                self.registers[15] = if carry {
                    1
                } else {
                    0
                };
                Ok(())
            },
            Instruction::SubReg(x, y) => {
                let a = self.registers[x as usize];
                let b = self.registers[y as usize];
                let borrow = a < b;
                self.registers[x as usize] = wrap_sub8(a, b);
                self.registers[15] = if borrow {
                    0
                } else {
                    1
                };
                Ok(())
            },
            Instruction::ShiftRight(x) => {
                let a = self.registers[x as usize];
                self.registers[x as usize] = a >> 1;
                self.registers[15] = a & 1;
                Ok(())
            },
            Instruction::SubFrom(x, y) => {
                let a = self.registers[x as usize];
                let b = self.registers[y as usize];
                let borrow = b < a;
                self.registers[x as usize] = wrap_sub8(b, a);
                self.registers[15] = if borrow {
                    0
                } else {
                    1
                };
                Ok(())
            },
            Instruction::ShiftLeft(x) => {
                let a = self.registers[x as usize];
                self.registers[x as usize] = a << 1;
                self.registers[15] = (a >> 7) & 1;
                Ok(())
            },
            _ => {
                proof {
                    assert(false);
                }
                Ok(())
            },
        }
    }

    /// The index register and the memory-indexed stores and loads.
    #[verifier::rlimit(100)]
    fn exec_index(&mut self, instr: Instruction) -> (r: Result<(), ChipError>)
        requires
            old(self).wf(),
            instr_wf(instr),
            is_index_op(instr),
        ensures
            final(self).wf(),
            step_matches(old(self)@, final(self)@, 0, instr, r),
        {
        match instr {
            Instruction::SetIndex(nnn) => {
                self.i_register = nnn;
                Ok(())
            },
            Instruction::JumpPlusV0(nnn) => {
                self.program_counter = (self.registers[0] as u16) + nnn;
                Ok(())
            },
            Instruction::AddIndex(x) => {
                let v = self.registers[x as usize];
                self.i_register = wrap_add16(self.i_register, v as u16);
                Ok(())
            },
            Instruction::FontIndex(x) => {
                self.i_register = (self.registers[x as usize] as u16) * 5;
                Ok(())
            },
            Instruction::StoreDigits(x) => {
                let base = self.i_register as usize;
                if base + 2 >= RAM_SIZE {
                    proof {
                        assert(step_matches(
                            old(self)@,
                            self@,
                            0u8,
                            instr,
                            Err::<(), ChipError>(ChipError::MemoryOutOfBounds),
                        ));
                    }
                    return Err(ChipError::MemoryOutOfBounds);
                }
                let v = self.registers[x as usize];
                self.ram[base] = v / 100;
                self.ram[base + 1] = (v / 10) % 10;
                self.ram[base + 2] = v % 10;
                Ok(())
            },
            Instruction::StoreRegs(x) => {
                let base = self.i_register as usize;
                if base + (x as usize) >= RAM_SIZE {
                    proof {
                        assert(step_matches(
                            old(self)@,
                            self@,
                            0u8,
                            instr,
                            Err::<(), ChipError>(ChipError::MemoryOutOfBounds),
                        ));
                    }
                    return Err(ChipError::MemoryOutOfBounds);
                }
                copy_regs_to_ram(&mut self.ram, &self.registers, base, x as usize);
                Ok(())
            },
            Instruction::LoadRegs(x) => {
                let base = self.i_register as usize;
                if base + (x as usize) >= RAM_SIZE {
                    proof {
                        assert(step_matches(
                            old(self)@,
                            self@,
                            0u8,
                            instr,
                            Err::<(), ChipError>(ChipError::MemoryOutOfBounds),
                        ));
                    }
                    return Err(ChipError::MemoryOutOfBounds);
                }
                copy_ram_to_regs(&mut self.registers, &self.ram, base, x as usize);
                Ok(())
            },
            _ => {
                proof {
                    assert(false);
                }
                Ok(())
            },
        }
    }

    /// Key and timer reads and writes, and the key wait.
    #[verifier::rlimit(100)]
    fn exec_keys(&mut self, instr: Instruction) -> (r: Result<(), ChipError>)
        requires
            old(self).wf(),
            instr_wf(instr),
            is_key_timer_op(instr),
        ensures
            final(self).wf(),
            step_matches(old(self)@, final(self)@, 0, instr, r),
        {
        match instr {
            Instruction::SkipKeyPressed(x) => {
                let v = self.registers[x as usize];
                proof {
                    lemma_low_nibble(v);
                }
                let key = (v & 0x0F) as usize;
                if self.pressed_keys[key] {
                    self.program_counter = wrap_add16(self.program_counter, 2);
                }
                Ok(())
            },
            Instruction::SkipKeyNotPressed(x) => {
                let v = self.registers[x as usize];
                proof {
                    lemma_low_nibble(v);
                }
                let key = (v & 0x0F) as usize;
                if !self.pressed_keys[key] {
                    self.program_counter = wrap_add16(self.program_counter, 2);
                }
                Ok(())
            },
            Instruction::ReadDelay(x) => {
                self.registers[x as usize] = self.delay_timer;
                Ok(())
            },
            Instruction::WaitKey(x) => {
                match first_pressed_key(&self.pressed_keys) {
                    Some(k) => {
                        self.registers[x as usize] = k;
                    },
                    None => {
                        self.program_counter = wrap_sub16(self.program_counter, 2);
                    },
                }
                Ok(())
            },
            Instruction::SetDelay(x) => {
                self.delay_timer = self.registers[x as usize];
                Ok(())
            },
            Instruction::SetSound(x) => {
                self.sound_timer = self.registers[x as usize];
                Ok(())
            },
            _ => {
                proof {
                    assert(false);
                }
                Ok(())
            },
        }
    }

    /// Applies one decoded instruction to the machine. On a fatal condition
    /// the machine is left exactly as it was.
    fn execute_instruction(&mut self, instr: Instruction) -> (r: Result<(), ChipError>)
        requires
            old(self).wf(),
            instr_wf(instr),
        ensures
            final(self).wf(),
            exists|rnd: u8| step_matches(old(self)@, final(self)@, rnd, instr, r),
            !(instr is RandomMask) ==> step_matches(old(self)@, final(self)@, 0, instr, r),
    {
        match instr {
            Instruction::Nop | Instruction::ClearScreen | Instruction::ReturnSub | Instruction::Jump(..) | Instruction::Call(..) | Instruction::SkipEqImm(..) | Instruction::SkipNeImm(..) | Instruction::SkipEqReg(..) | Instruction::SkipNeReg(..) => self.exec_control(instr),
            Instruction::SetImm(..) | Instruction::AddImm(..) | Instruction::CopyReg(..) | Instruction::OrReg(..) | Instruction::AndReg(..) | Instruction::XorReg(..) | Instruction::AddReg(..) | Instruction::SubReg(..) | Instruction::ShiftRight(..) | Instruction::SubFrom(..) | Instruction::ShiftLeft(..) => self.exec_alu(instr),
            Instruction::SetIndex(..) | Instruction::JumpPlusV0(..) | Instruction::AddIndex(..) | Instruction::FontIndex(..) | Instruction::StoreDigits(..) | Instruction::StoreRegs(..) | Instruction::LoadRegs(..) => self.exec_index(instr),
            Instruction::SkipKeyPressed(..) | Instruction::SkipKeyNotPressed(..) | Instruction::ReadDelay(..) | Instruction::WaitKey(..) | Instruction::SetDelay(..) | Instruction::SetSound(..) => self.exec_keys(instr),
            Instruction::RandomMask(x, kk) => {
                let b: u8 = random_byte();
                self.registers[x as usize] = b & kk;
                proof {
                    assert(step_matches(old(self)@, self@, b, instr, Ok::<(), ChipError>(())));
                }
                Ok(())
            },
            Instruction::Draw(x, y, n) => {
                let x0 = self.registers[x as usize];
                let y0 = self.registers[y as usize];
                if n > 0 && (self.i_register as usize) + (n as usize) > RAM_SIZE {
                    proof {
                        assert(step_matches(
                            old(self)@,
                            self@,
                            0u8,
                            instr,
                            Err::<(), ChipError>(ChipError::MemoryOutOfBounds),
                        ));
                    }
                    return Err(ChipError::MemoryOutOfBounds);
                }
                let flipped = draw_sprite(&mut self.screen, &self.ram, self.i_register, x0, y0, n);
                self.registers[15] = if flipped {
                    1
                } else {
                    0
                };
                proof {
                    assert(step_matches(old(self)@, self@, 0u8, instr, Ok::<(), ChipError>(())));
                }
                Ok(())
            },
        }
    }


    /// Decodes an opcode and applies it. An opcode matching no pattern of
    /// the table is the fatal unrecognized condition; nothing changes then.
    pub fn execute_opcode(&mut self, op: u16) -> (r: Result<(), ChipError>)
        requires
            old(self).wf(),
        ensures
            final(self).wf(),
            match spec_decode(op) {
                None => r == Err::<(), ChipError>(ChipError::UnknownOpcode(op)) && final(self)@
                    == old(self)@,
                Some(instr) => (exists|rnd: u8|
                    step_matches(old(self)@, final(self)@, rnd, instr, r)) && (!(instr
                    is RandomMask) ==> step_matches(old(self)@, final(self)@, 0, instr, r)),
            },
    {
        match decode(op) {
            None => Err(ChipError::UnknownOpcode(op)),
            Some(instr) => self.execute_instruction(instr),
        }
    }

    /// Executes exactly one fetch-decode-execute cycle. On any fatal
    /// condition the machine is left exactly as it was before the cycle.
    #[verifier::rlimit(100)]
    pub fn tick(&mut self) -> (r: Result<(), ChipError>)
        requires
            old(self).wf(),
        ensures
            final(self).wf(),
            exists|rnd: u8| tick_matches(old(self)@, final(self)@, rnd, r),
            !tick_is_random(old(self)@) ==> tick_matches(old(self)@, final(self)@, 0, r),
    {
        let pc0 = self.program_counter;
        if pc0 >= (RAM_SIZE as u16) - 1 {
            proof {
                assert(tick_matches(
                    old(self)@,
                    self@,
                    0u8,
                    Err::<(), ChipError>(ChipError::MemoryOutOfBounds),
                ));
            }
            return Err(ChipError::MemoryOutOfBounds);
        }
        let op = self.fetch_opcode();
        let ghost mid = self@;
        match decode(op) {
            None => {
                self.program_counter = pc0;
                proof {
                    assert(self@ =~= old(self)@);
                    assert(tick_matches(
                        old(self)@,
                        self@,
                        0u8,
                        Err::<(), ChipError>(ChipError::UnknownOpcode(op)),
                    ));
                }
                Err(ChipError::UnknownOpcode(op))
            },
            Some(instr) => {
                let res = self.execute_instruction(instr);
                match res {
                    Ok(()) => {
                        proof {
                            let rnd0 = choose|rnd: u8| step_matches(mid, self@, rnd, instr, res);
                            assert(step_matches(mid, self@, rnd0, instr, res));
                            assert(spec_execute(mid, instr, rnd0) == Ok::<Machine, ChipError>(
                                self@,
                            ));
                            assert(spec_tick(old(self)@, rnd0) == Ok::<Machine, ChipError>(self@));
                            assert(tick_matches(old(self)@, self@, rnd0, Ok::<(), ChipError>(())));
                        }
                        Ok(())
                    },
                    Err(e) => {
                        let ghost rnd1 = choose|rnd: u8| step_matches(mid, self@, rnd, instr, res);
                        proof {
                            assert(step_matches(mid, self@, rnd1, instr, res));
                            assert(self@ == mid);
                        }
                        self.program_counter = pc0;
                        proof {
                            assert(self@ =~= old(self)@);
                            assert(spec_tick(old(self)@, rnd1) == Err::<Machine, ChipError>(e));
                            assert(tick_matches(old(self)@, self@, rnd1, Err::<(), ChipError>(e)));
                        }
                        Err(e)
                    },
                }
            },
        }
    }
}

} // verus!
