pub mod display;
pub mod drivers;
pub mod input;
pub mod instructions;
pub mod interpreter;
pub mod parser;
pub mod rand;
pub mod sound;
