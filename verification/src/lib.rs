pub mod chip8;
pub mod display;
pub mod fault;
pub mod font;
pub mod instruction;
pub mod laws;
pub mod machine;
mod random;
pub mod stack;
pub mod timer;
