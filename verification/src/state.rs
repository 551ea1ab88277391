//! The machine state: RAM, registers, program counter, stack, timers, keys,
//! and the display buffer, together with its lifecycle operations.

use vstd::prelude::*;

verus! {

pub const SCREEN_WIDTH: usize = 64;

pub const SCREEN_HEIGHT: usize = 32;

pub const RAM_SIZE: usize = 4096;

pub const NUMBER_OF_REGISTERS: usize = 16;

pub const NUMBER_OF_KEYS: usize = 16;

pub const STACK_SIZE: usize = 16;

pub const FONTSET_SIZE: usize = 80;

pub const START_ADDR: u16 = 0x200;

/// The mathematical model of the machine: every component as a plain
/// sequence or integer. Contracts are stated over this type.
#[verifier::ext_equal]
pub struct Machine {
    pub program_counter: u16,
    pub ram: Seq<u8>,
    pub screen: Seq<bool>,
    pub registers: Seq<u8>,
    pub i_register: u16,
    pub stack_pointer: u16,
    pub stack: Seq<u16>,
    pub pressed_keys: Seq<bool>,
    pub delay_timer: u8,
    pub sound_timer: u8,
}

/// Every component has its fixed size and the stack pointer counts at most
/// `STACK_SIZE` entries in use.
pub open spec fn machine_wf(m: Machine) -> bool {
    &&& m.ram.len() == RAM_SIZE
    &&& m.screen.len() == SCREEN_WIDTH * SCREEN_HEIGHT
    &&& m.registers.len() == NUMBER_OF_REGISTERS
    &&& m.stack.len() == STACK_SIZE
    &&& m.pressed_keys.len() == NUMBER_OF_KEYS
    &&& m.stack_pointer <= STACK_SIZE
}

/// The all-off display.
pub open spec fn blank_screen() -> Seq<bool> {
    Seq::new((SCREEN_WIDTH * SCREEN_HEIGHT) as nat, |p: int| false)
}

/// The built-in glyphs for the hex digits 0 to F, five bytes per glyph.
pub open spec fn font_seq() -> Seq<u8> {
    seq![
        0xF0u8, 0x90u8, 0x90u8, 0x90u8, 0xF0u8, // 0
        0x20u8, 0x60u8, 0x20u8, 0x20u8, 0x70u8, // 1
        0xF0u8, 0x10u8, 0xF0u8, 0x80u8, 0xF0u8, // 2
        0xF0u8, 0x10u8, 0xF0u8, 0x10u8, 0xF0u8, // 3
        0x90u8, 0x90u8, 0xF0u8, 0x10u8, 0x10u8, // 4
        0xF0u8, 0x80u8, 0xF0u8, 0x10u8, 0xF0u8, // 5
        0xF0u8, 0x80u8, 0xF0u8, 0x90u8, 0xF0u8, // 6
        0xF0u8, 0x10u8, 0x20u8, 0x40u8, 0x40u8, // 7
        0xF0u8, 0x90u8, 0xF0u8, 0x90u8, 0xF0u8, // 8
        0xF0u8, 0x90u8, 0xF0u8, 0x10u8, 0xF0u8, // 9
        0xF0u8, 0x90u8, 0xF0u8, 0x90u8, 0x90u8, // A
        0xE0u8, 0x90u8, 0xE0u8, 0x90u8, 0xE0u8, // B
        0xF0u8, 0x80u8, 0x80u8, 0x80u8, 0xF0u8, // C
        0xE0u8, 0x90u8, 0x90u8, 0x90u8, 0xE0u8, // D
        0xF0u8, 0x80u8, 0xF0u8, 0x80u8, 0xF0u8, // E
        0xF0u8, 0x80u8, 0xF0u8, 0x80u8, 0x80u8, // F
    ]
}

/// The state the machine is constructed with: all zero but for the font
/// region and the program counter at the load base address.
pub open spec fn initial_machine() -> Machine {
    Machine {
        program_counter: START_ADDR,
        ram: Seq::new(
            RAM_SIZE as nat,
            |p: int| if 0 <= p < FONTSET_SIZE { font_seq()[p] } else { 0u8 },
        ),
        screen: Seq::new((SCREEN_WIDTH * SCREEN_HEIGHT) as nat, |p: int| false),
        registers: Seq::new(NUMBER_OF_REGISTERS as nat, |p: int| 0u8),
        i_register: 0,
        stack_pointer: 0,
        stack: Seq::new(STACK_SIZE as nat, |p: int| 0u16),
        pressed_keys: Seq::new(NUMBER_OF_KEYS as nat, |p: int| false),
        delay_timer: 0,
        sound_timer: 0,
    }
}

pub struct Emulator {
    pub program_counter: u16,
    pub ram: Vec<u8>,
    pub screen: Vec<bool>,
    pub registers: Vec<u8>,
    pub i_register: u16,
    pub stack_pointer: u16,
    pub stack: Vec<u16>,
    pub pressed_keys: Vec<bool>,
    pub delay_timer: u8,
    pub sound_timer: u8,
}

impl View for Emulator {
    type V = Machine;

    open spec fn view(&self) -> Machine {
        Machine {
            program_counter: self.program_counter,
            ram: self.ram@,
            screen: self.screen@,
            registers: self.registers@,
            i_register: self.i_register,
            stack_pointer: self.stack_pointer,
            stack: self.stack@,
            pressed_keys: self.pressed_keys@,
            delay_timer: self.delay_timer,
            sound_timer: self.sound_timer,
        }
    }
}

/// A vector of `n` copies of `value`.
fn filled<T: Copy>(n: usize, value: T) -> (v: Vec<T>)
    ensures
        v@ == Seq::new(n as nat, |i: int| value),
{
    let mut v: Vec<T> = Vec::new();
    for i in 0..n
        invariant
            v@.len() == i,
            forall|j: int| 0 <= j < i ==> v@[j] == value,
    {
        v.push(value);
    }
    proof {
        assert(v@ =~= Seq::new(n as nat, |i: int| value));
    }
    v
}

/// A fresh all-off display buffer.
pub(crate) fn blank_display() -> (v: Vec<bool>)
    ensures
        v@ == blank_screen(),
{
    let v = filled(SCREEN_WIDTH * SCREEN_HEIGHT, false);
    proof {
        assert(v@ =~= blank_screen());
    }
    v
}

/// The font data as a vector, in glyph order.
fn font_data() -> (v: Vec<u8>)
    ensures
        v@ == font_seq(),
{
    let mut v: Vec<u8> = Vec::new();
    v.push(0xF0); v.push(0x90); v.push(0x90); v.push(0x90); v.push(0xF0); // 0
    v.push(0x20); v.push(0x60); v.push(0x20); v.push(0x20); v.push(0x70); // 1
    v.push(0xF0); v.push(0x10); v.push(0xF0); v.push(0x80); v.push(0xF0); // 2
    v.push(0xF0); v.push(0x10); v.push(0xF0); v.push(0x10); v.push(0xF0); // 3
    v.push(0x90); v.push(0x90); v.push(0xF0); v.push(0x10); v.push(0x10); // 4
    v.push(0xF0); v.push(0x80); v.push(0xF0); v.push(0x10); v.push(0xF0); // 5
    v.push(0xF0); v.push(0x80); v.push(0xF0); v.push(0x90); v.push(0xF0); // 6
    v.push(0xF0); v.push(0x10); v.push(0x20); v.push(0x40); v.push(0x40); // 7
    v.push(0xF0); v.push(0x90); v.push(0xF0); v.push(0x90); v.push(0xF0); // 8
    v.push(0xF0); v.push(0x90); v.push(0xF0); v.push(0x10); v.push(0xF0); // 9
    v.push(0xF0); v.push(0x90); v.push(0xF0); v.push(0x90); v.push(0x90); // A
    v.push(0xE0); v.push(0x90); v.push(0xE0); v.push(0x90); v.push(0xE0); // B
    v.push(0xF0); v.push(0x80); v.push(0x80); v.push(0x80); v.push(0xF0); // C
    v.push(0xE0); v.push(0x90); v.push(0x90); v.push(0x90); v.push(0xE0); // D
    v.push(0xF0); v.push(0x80); v.push(0xF0); v.push(0x80); v.push(0xF0); // E
    v.push(0xF0); v.push(0x80); v.push(0xF0); v.push(0x80); v.push(0x80); // F
    proof {
        assert(v@ =~= font_seq());
    }
    v
}

/// Writes the font glyphs over the first `FONTSET_SIZE` bytes of RAM.
fn write_font(ram: &mut Vec<u8>)
    requires
        old(ram)@.len() == RAM_SIZE,
    ensures
        final(ram)@ == Seq::new(
            RAM_SIZE as nat,
            |p: int| if 0 <= p < FONTSET_SIZE { font_seq()[p] } else { old(ram)@[p] },
        ),
{
    let font = font_data();
    for i in 0..FONTSET_SIZE
        invariant
            ram@.len() == RAM_SIZE,
            font@ == font_seq(),
            forall|j: int| 0 <= j < i ==> ram@[j] == font_seq()[j],
            forall|j: int| i <= j < RAM_SIZE ==> ram@[j] == old(ram)@[j],
    {
        ram[i] = font[i];
    }
    proof {
        assert(ram@ =~= Seq::new(
            RAM_SIZE as nat,
            |p: int| if 0 <= p < FONTSET_SIZE { font_seq()[p] } else { old(ram)@[p] },
        ));
    }
}

/// Copies `data` into RAM starting at `base`, leaving every other byte as
/// it was.
fn write_bytes(ram: &mut Vec<u8>, base: usize, data: &[u8])
    requires
        old(ram)@.len() == RAM_SIZE,
        base + data@.len() <= RAM_SIZE,
    ensures
        final(ram)@ == Seq::new(
            RAM_SIZE as nat,
            |p: int| if base <= p < base + data@.len() { data@[p - base] } else { old(ram)@[p] },
        ),
{
    let n = data.len();
    for i in 0..n
        invariant
            ram@.len() == RAM_SIZE,
            n == data@.len(),
            base + n <= RAM_SIZE,
            forall|j: int| base <= j < base + i ==> ram@[j] == data@[j - base],
            forall|j: int| 0 <= j < RAM_SIZE && !(base <= j < base + i) ==> ram@[j] == old(ram)@[j],
    {
        ram[base + i] = data[i];
    }
    proof {
        assert(ram@ =~= Seq::new(
            RAM_SIZE as nat,
            |p: int| if base <= p < base + data@.len() { data@[p - base] } else { old(ram)@[p] },
        ));
    }
}

impl Emulator {
    /// The machine is well formed: every component has its declared size.
    pub open spec fn wf(&self) -> bool {
        machine_wf(self@)
    }

    /// A fresh machine: zeroed state but for the font region, with the
    /// program counter at the load base address.
    pub fn new() -> (e: Emulator)
        ensures
            e.wf(),
            e@ == initial_machine(),
    {
        let mut e = Emulator {
            program_counter: START_ADDR,
            ram: filled(RAM_SIZE, 0u8),
            screen: filled(SCREEN_WIDTH * SCREEN_HEIGHT, false),
            registers: filled(NUMBER_OF_REGISTERS, 0u8),
            i_register: 0,
            stack_pointer: 0,
            stack: filled(STACK_SIZE, 0u16),
            pressed_keys: filled(NUMBER_OF_KEYS, false),
            delay_timer: 0,
            sound_timer: 0,
        };
        e.load_fontset();
        proof {
            assert(e@.ram =~= initial_machine().ram);
            assert(e@ =~= initial_machine());
        }
        e
    }

    /// Reloads the font region of RAM.
    fn load_fontset(&mut self)
        requires
            old(self)@.ram.len() == RAM_SIZE,
        ensures
            final(self)@ == (Machine {
                ram: Seq::new(
                    RAM_SIZE as nat,
                    |p: int| if 0 <= p < FONTSET_SIZE { font_seq()[p] } else { old(self)@.ram[p] },
                ),
                ..old(self)@
            }),
    {
        write_font(&mut self.ram);
    }

    /// Returns the machine to its construction-time state, discarding any
    /// loaded program and all runtime state.
    pub fn reset(&mut self)
        ensures
            final(self).wf(),
            final(self)@ == initial_machine(),
    {
        self.program_counter = START_ADDR;
        self.ram = filled(RAM_SIZE, 0u8);
        self.screen = filled(SCREEN_WIDTH * SCREEN_HEIGHT, false);
        self.registers = filled(NUMBER_OF_REGISTERS, 0u8);
        self.i_register = 0;
        self.stack_pointer = 0;
        self.stack = filled(STACK_SIZE, 0u16);
        self.pressed_keys = filled(NUMBER_OF_KEYS, false);
        self.delay_timer = 0;
        self.sound_timer = 0;
        self.load_fontset();
        proof {
            assert(self@.ram =~= initial_machine().ram);
            assert(self@ =~= initial_machine());
        }
    }

    /// Copies a program into RAM starting at the load base address. Nothing
    /// else changes: callers wanting clean-boot semantics reset first.
    pub fn load_game(&mut self, data: &[u8])
        requires
            old(self).wf(),
            data@.len() <= RAM_SIZE - START_ADDR,
        ensures
            final(self).wf(),
            final(self)@ == (Machine {
                ram: Seq::new(
                    RAM_SIZE as nat,
                    |p: int| if START_ADDR <= p < START_ADDR + data@.len() {
                        data@[p - START_ADDR]
                    } else {
                        old(self)@.ram[p]
                    },
                ),
                ..old(self)@
            }),
    {
        write_bytes(&mut self.ram, START_ADDR as usize, data);
        proof {
            assert(self@.ram =~= Seq::new(
                RAM_SIZE as nat,
                |p: int| if START_ADDR <= p < START_ADDR + data@.len() {
                    data@[p - START_ADDR]
                } else {
                    old(self)@.ram[p]
                },
            ));
        }
    }

    /// A read-only view of the display: 2048 pixels, row-major, 64 wide.
    pub fn get_display(&self) -> (r: &[bool])
        requires
            self.wf(),
        ensures
            r@ == self@.screen,
    {
        self.screen.as_slice()
    }

    /// Sets one key's level state. Indices outside the keypad are ignored.
    pub fn key_pressed(&mut self, key: usize, pressed: bool)
        requires
            old(self).wf(),
        ensures
            final(self).wf(),
            key < NUMBER_OF_KEYS ==> final(self)@ == (Machine {
                pressed_keys: old(self)@.pressed_keys.update(key as int, pressed),
                ..old(self)@
            }),
            key >= NUMBER_OF_KEYS ==> final(self)@ == old(self)@,
    {
        if key < NUMBER_OF_KEYS {
            self.pressed_keys[key] = pressed;
        }
    }

    /// Pushes a return address. The caller has checked that there is room.
    pub(crate) fn push(&mut self, value: u16)
        requires
            old(self).wf(),
            old(self)@.stack_pointer < STACK_SIZE,
        ensures
            final(self).wf(),
            final(self)@ == (Machine {
                stack: old(self)@.stack.update(old(self)@.stack_pointer as int, value),
                stack_pointer: (old(self)@.stack_pointer + 1) as u16,
                ..old(self)@
            }),
    {
        let sp = self.stack_pointer as usize;
        self.stack[sp] = value;
        self.stack_pointer = self.stack_pointer + 1;
    }

    /// Pops a return address. The caller has checked that one is in use.
    pub(crate) fn pop(&mut self) -> (r: u16)
        requires
            old(self).wf(),
            old(self)@.stack_pointer > 0,
        ensures
            final(self).wf(),
            r == old(self)@.stack[old(self)@.stack_pointer - 1],
            final(self)@ == (Machine {
                stack_pointer: (old(self)@.stack_pointer - 1) as u16,
                ..old(self)@
            }),
    {
        self.stack_pointer = self.stack_pointer - 1;
        self.stack[self.stack_pointer as usize]
    }

    /// Decrements each timer by at most one, floored at zero.
    pub fn tick_timers(&mut self)
        ensures
            final(self)@ == (Machine {
                delay_timer: if old(self)@.delay_timer > 0 {
                    (old(self)@.delay_timer - 1) as u8
                } else {
                    0u8
                },
                sound_timer: if old(self)@.sound_timer > 0 {
                    (old(self)@.sound_timer - 1) as u8
                } else {
                    0u8
                },
                ..old(self)@
            }),
    {
        if self.delay_timer > 0 {
            self.delay_timer = self.delay_timer - 1;
        }
        if self.sound_timer > 0 {
            self.sound_timer = self.sound_timer - 1;
        }
    }
}

} // verus!
