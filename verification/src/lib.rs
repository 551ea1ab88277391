//! A verified CHIP-8 interpreter core: machine state, the fetch-decode-execute
//! engine, the XOR sprite renderer, and the timer driver.

pub mod arith;
pub mod decode;
pub mod draw;
pub mod exec;
pub mod laws;
pub mod state;

pub use state::Emulator;
pub use state::Machine;
pub use state::SCREEN_HEIGHT;
pub use state::SCREEN_WIDTH;
