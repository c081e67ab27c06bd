use vstd::prelude::*;

use crate::cpu::{
    cycle_spec, execute_spec, follows, machine_state, random_byte, run_opcode, word_at, Chip8CPU, Chip8Error,
    IntermediateAsm, MachineState, RunState, REGISTER_COUNT, STACK_SIZE,
};
use crate::graphics::{Chip8Graphics, DISPLAY_SIZE};
use crate::keypad::{Chip8Keypad, KEY_COUNT};
use crate::memory::{font_spec, font_table, Chip8Memory, FONT_SIZE, MEMORY_SIZE, PROGRAM_START};

verus! {

/// Largest program image that fits between the program start and the end of memory.
pub const MAX_PROGRAM_SIZE: usize = 3584;

/// The devices the CPU works on: memory, display and keypad.
pub struct Chip8Bus {
    pub memory: Chip8Memory,
    pub graphics: Chip8Graphics,
    pub keypad: Chip8Keypad,
}

impl Chip8Bus {
    pub open spec fn wf(&self) -> bool {
        self.memory.wf() && self.graphics.wf() && self.keypad.wf()
    }

    /// Zeroed memory, a blank (dirty) display and a released keypad.
    pub fn new() -> (r: Chip8Bus)
        ensures
            r.wf(),
            r.memory.memory@ == Seq::new(MEMORY_SIZE as nat, |a: int| 0u8),
            r.graphics.memory@ == Seq::new(DISPLAY_SIZE as nat, |k: int| false),
            r.graphics.dirty,
            r.keypad.keys@ == Seq::new(KEY_COUNT as nat, |k: int| false),
    {
        let memory = Chip8Memory::new();
        let graphics = Chip8Graphics::new();
        let keypad = Chip8Keypad::new();
        assert(memory.memory@ =~= Seq::new(MEMORY_SIZE as nat, |a: int| 0u8));
        assert(graphics.memory@ =~= Seq::new(DISPLAY_SIZE as nat, |k: int| false));
        assert(keypad.keys@ =~= Seq::new(KEY_COUNT as nat, |k: int| false));
        Chip8Bus { memory, graphics, keypad }
    }
}

/// The machine at power-on, before any program is loaded.
pub open spec fn power_on_state() -> MachineState {
    MachineState {
        regs: Seq::new(REGISTER_COUNT as nat, |k: int| 0u8),
        i: 0,
        pc: PROGRAM_START as u16,
        sp: 0,
        stack: Seq::new(STACK_SIZE as nat, |k: int| 0u16),
        delay: 0,
        sound: 0,
        divider: 0,
        run: RunState::Running,
        memory: Seq::new(MEMORY_SIZE as nat, |a: int| 0u8),
        display: Seq::new(DISPLAY_SIZE as nat, |k: int| false),
        dirty: true,
        keys: Seq::new(KEY_COUNT as nat, |k: int| false),
    }
}

/// Memory right after boot: the font at 0, the program image at the program
/// start, zero elsewhere.
pub open spec fn boot_memory(rom: Seq<u8>) -> Seq<u8> {
    Seq::new(
        MEMORY_SIZE as nat,
        |a: int|
            if a < FONT_SIZE {
                font_spec()[a]
            } else if PROGRAM_START <= a < PROGRAM_START + rom.len() {
                rom[a - PROGRAM_START]
            } else {
                0u8
            },
    )
}

/// The machine right after booting `rom`.
pub open spec fn booted(rom: Seq<u8>) -> MachineState {
    MachineState { memory: boot_memory(rom), ..power_on_state() }
}

/// One call of `step`: nothing while waiting for a key, else one cycle.
pub open spec fn step_spec(s: MachineState, rnd: u8) -> Result<MachineState, Chip8Error> {
    match s.run {
        RunState::WaitingForKey { .. } => Ok(s),
        RunState::Running => cycle_spec(s, rnd),
    }
}

/// A key event: the key's state is recorded, and a press of a key that was up
/// ends a wait for a key, writing the key's index into the waiting register.
pub open spec fn key_event(s: MachineState, key: int, pressed: bool) -> MachineState {
    let keys = s.keys.update(key, pressed);
    match s.run {
        RunState::WaitingForKey { register } => if pressed && !s.keys[key] {
            MachineState { keys, regs: s.regs.update(register as int, key as u8), run: RunState::Running, ..s }
        } else {
            MachineState { keys, ..s }
        },
        RunState::Running => MachineState { keys, ..s },
    }
}

/// The virtual machine: a CPU and the bus of devices it drives.
pub struct Chip8 {
    pub cpu: Chip8CPU,
    pub bus: Chip8Bus,
}

impl View for Chip8 {
    type V = MachineState;

    open spec fn view(&self) -> MachineState {
        machine_state(&self.cpu, &self.bus)
    }
}

impl Chip8 {
    pub open spec fn wf(&self) -> bool {
        self.cpu.wf() && self.bus.wf()
    }

    /// A machine at power-on.
    pub fn new() -> (r: Chip8)
        ensures
            r.wf(),
            r@ == power_on_state(),
    {
        let cpu = Chip8CPU::new();
        let bus = Chip8Bus::new();
        let r = Chip8 { cpu, bus };
        assert(r@ =~= power_on_state());
        r
    }

    /// Boots `rom`: the machine is reset, the font is written at address 0
    /// and the image at the program start. An image larger than the space
    /// after the program start is refused before anything is written.
    pub fn boot(&mut self, rom: &Vec<u8>) -> (r: Result<(), Chip8Error>)
        requires
            old(self).wf(),
        ensures
            final(self).wf(),
            rom@.len() <= MAX_PROGRAM_SIZE ==> r is Ok && final(self)@ == booted(rom@),
            rom@.len() > MAX_PROGRAM_SIZE ==> r == Err::<(), Chip8Error>(
                Chip8Error::LoadTooLarge { size: rom@.len() as usize },
            ) && final(self)@ == old(self)@,
    {
        if rom.len() > MAX_PROGRAM_SIZE {
            return Err(Chip8Error::LoadTooLarge { size: rom.len() });
        }
        let mut fresh = Chip8::new();
        let font = font_table();
        let mut k: usize = 0;
        while k < FONT_SIZE
            invariant
                fresh.wf(),
                font@ == font_spec(),
                k <= FONT_SIZE,
                forall|a: int|
                    0 <= a < MEMORY_SIZE ==> #[trigger] fresh.bus.memory.memory@[a] == if a < k {
                        font_spec()[a]
                    } else {
                        0u8
                    },
                fresh@ == (MachineState { memory: fresh.bus.memory.memory@, ..power_on_state() }),
            decreases FONT_SIZE - k,
        {
            fresh.bus.memory.write_byte(k, font[k]);
            k = k + 1;
        }
        let mut j: usize = 0;
        while j < rom.len()
            invariant
                fresh.wf(),
                rom@.len() <= MAX_PROGRAM_SIZE,
                j <= rom@.len(),
                forall|a: int|
                    0 <= a < MEMORY_SIZE ==> #[trigger] fresh.bus.memory.memory@[a] == if a < FONT_SIZE {
                        font_spec()[a]
                    } else if PROGRAM_START <= a < PROGRAM_START + j {
                        rom@[a - PROGRAM_START]
                    } else {
                        0u8
                    },
                fresh@ == (MachineState { memory: fresh.bus.memory.memory@, ..power_on_state() }),
            decreases rom@.len() - j,
        {
            fresh.bus.memory.write_byte(PROGRAM_START + j, rom[j]);
            j = j + 1;
        }
        assert(fresh.bus.memory.memory@ =~= boot_memory(rom@));
        *self = fresh;
        Ok(())
    }

    /// One step with `random_byte` for the random instruction: nothing while
    /// waiting for a key, else one fetch-decode-execute cycle and a timer
    /// tick. On an error nothing changes.
    pub fn step_with_random(&mut self, random_byte: u8) -> (r: Result<(), Chip8Error>)
        requires
            old(self).wf(),
        ensures
            final(self).wf(),
            follows(r, old(self)@, final(self)@, step_spec(old(self)@, random_byte)),
    {
        match self.cpu.run_state {
            RunState::WaitingForKey { .. } => Ok(()),
            RunState::Running => self.cpu.cycle(&mut self.bus, random_byte),
        }
    }

    /// One step with a freshly drawn random byte.
    pub fn step(&mut self) -> (r: Result<(), Chip8Error>)
        requires
            old(self).wf(),
        ensures
            final(self).wf(),
            exists|b: u8| follows(r, old(self)@, final(self)@, #[trigger] step_spec(old(self)@, b)),
    {
        let b = random_byte();
        self.step_with_random(b)
    }

    /// Records that logical key `key` went down (`pressed`) or up; a press of
    /// a released key while waiting for a key resumes the machine.
    pub fn do_key_event(&mut self, key: u8, pressed: bool)
        requires
            old(self).wf(),
            key < KEY_COUNT,
        ensures
            final(self).wf(),
            final(self)@ == key_event(old(self)@, key as int, pressed),
    {
        let was_pressed = self.bus.keypad.is_pressed(key);
        self.bus.keypad.set_key_state(key, pressed);
        if pressed && !was_pressed {
            match self.cpu.run_state {
                RunState::WaitingForKey { register } => {
                    self.cpu.reg_gp.set(register as usize, key);
                    self.cpu.run_state = RunState::Running;
                },
                RunState::Running => {},
            }
        }
        assert(self@ =~= key_event(old(self)@, key as int, pressed));
    }

    /// The frame to show: the pixels, row-major, when the display changed
    /// since the last frame was taken (the dirty flag is then cleared), else
    /// `None`.
    pub fn take_frame(&mut self) -> (r: Option<Vec<bool>>)
        requires
            old(self).wf(),
        ensures
            final(self).wf(),
            old(self)@.dirty ==> (r matches Some(f) && f@ == old(self)@.display),
            !old(self)@.dirty ==> (r is None),
            final(self)@ == (MachineState { dirty: false, ..old(self)@ }),
    {
        if !self.bus.graphics.dirty {
            assert(self@ =~= MachineState { dirty: false, ..old(self)@ });
            return None;
        }
        let mut frame: Vec<bool> = Vec::new();
        let mut k: usize = 0;
        while k < DISPLAY_SIZE
            invariant
                self.bus.graphics.wf(),
                k <= DISPLAY_SIZE,
                frame@ == self.bus.graphics.memory@.subrange(0, k as int),
            decreases DISPLAY_SIZE - k,
        {
            frame.push(self.bus.graphics.memory[k]);
            assert(frame@ =~= self.bus.graphics.memory@.subrange(0, k + 1));
            k = k + 1;
        }
        assert(frame@ =~= self.bus.graphics.memory@);
        self.bus.graphics.dirty = false;
        assert(self@ =~= MachineState { dirty: false, ..old(self)@ });
        Some(frame)
    }
}

/// Boot installs the hexadecimal font at address 0 and the image at the
/// program start.
pub proof fn lemma_boot_layout(rom: Seq<u8>)
    requires
        rom.len() <= MAX_PROGRAM_SIZE,
    ensures
        booted(rom).memory.subrange(0, FONT_SIZE as int) == font_spec(),
        booted(rom).memory.subrange(PROGRAM_START as int, PROGRAM_START + rom.len()) == rom,
        booted(rom).wf(),
{
    assert(booted(rom).memory.subrange(0, FONT_SIZE as int) =~= font_spec());
    assert(booted(rom).memory.subrange(PROGRAM_START as int, PROGRAM_START + rom.len()) =~= rom);
}

/// The first step after booting an image that fits fetches the word at the
/// program start.
pub proof fn lemma_first_step_fetches_program_start(rom: Seq<u8>, rnd: u8)
    requires
        rom.len() <= MAX_PROGRAM_SIZE,
    ensures
        booted(rom).pc == PROGRAM_START,
        step_spec(booted(rom), rnd) == run_opcode(booted(rom), word_at(booted(rom).memory, PROGRAM_START as int), rnd),
        rom.len() >= 2 ==> word_at(booted(rom).memory, PROGRAM_START as int) == rom[0] as int * 256 + rom[1] as int,
{
}

/// While waiting for a key, steps change nothing; a press of a released key
/// then writes the key's index into the waiting register and resumes.
pub proof fn lemma_wait_for_key(s: MachineState, x: u8, key: u8, rnd: u8)
    requires
        s.wf(),
        s.run == RunState::Running,
        s.pc + 1 < MEMORY_SIZE,
        x < REGISTER_COUNT,
        key < KEY_COUNT,
    ensures
        execute_spec(s, IntermediateAsm::WAIT_FOR_KEY_PRESS { reg_x_index: x }, rnd) is Ok,
        step_spec(execute_spec(s, IntermediateAsm::WAIT_FOR_KEY_PRESS { reg_x_index: x }, rnd).unwrap(), rnd) == Ok::<
            MachineState,
            Chip8Error,
        >(execute_spec(s, IntermediateAsm::WAIT_FOR_KEY_PRESS { reg_x_index: x }, rnd).unwrap()),
        !s.keys[key as int] ==> key_event(
            execute_spec(s, IntermediateAsm::WAIT_FOR_KEY_PRESS { reg_x_index: x }, rnd).unwrap(),
            key as int,
            true,
        ).regs[x as int] == key,
        !s.keys[key as int] ==> key_event(
            execute_spec(s, IntermediateAsm::WAIT_FOR_KEY_PRESS { reg_x_index: x }, rnd).unwrap(),
            key as int,
            true,
        ).run == RunState::Running,
{
}

} // verus!
