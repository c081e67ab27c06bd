pub mod cpu;
pub mod graphics;
pub mod keypad;
pub mod machine;
pub mod memory;

pub use cpu::{Chip8CPU, Chip8Error, IntermediateAsm, RunState};
pub use graphics::Chip8Graphics;
pub use keypad::Chip8Keypad;
pub use machine::{Chip8, Chip8Bus};
pub use memory::Chip8Memory;
